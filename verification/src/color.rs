//! Byte colors and their six-digit hexadecimal text form.
//!
//! A color travels as text in the form `rrggbb`: six lowercase hexadecimal
//! digits, no prefix. On input the text may be surrounded by whitespace, may
//! start with a single `#`, and may use digits of either case.

use crate::text::{
    ascii_lower, chars_of, is_space, lower, trim_bounds, trim_end, trim_start, trimmed,
};
use vstd::prelude::*;
use vstd::string::*;

verus! {

/// An RGB color with one byte per channel.
#[derive(Clone, Copy, Debug, PartialEq, Eq, Hash, Structural)]
pub struct Color {
    pub r: u8,
    pub g: u8,
    pub b: u8,
}

/// The reason a text was not accepted as a color.
#[derive(Clone, Copy, Debug, PartialEq, Eq, Structural)]
pub enum ColorError {
    /// What remains after trimming is not exactly six hexadecimal digits.
    InvalidFormat,
}

/// A hexadecimal digit of either case.
pub open spec fn is_hex_digit(c: char) -> bool {
    '0' <= c <= '9' || 'a' <= c <= 'f' || 'A' <= c <= 'F'
}

/// The number, below sixteen, that a hexadecimal digit stands for.
pub open spec fn hex_value(c: char) -> int {
    if '0' <= c <= '9' {
        c as int - '0' as int
    } else if 'a' <= c <= 'f' {
        c as int - 'a' as int + 10
    } else {
        c as int - 'A' as int + 10
    }
}

/// The lowercase hexadecimal digit that stands for `n`, for `n` below sixteen.
pub open spec fn hex_char(n: int) -> char {
    if n < 10 {
        (n + '0' as int) as char
    } else {
        (n - 10 + 'a' as int) as char
    }
}

/// The byte written by two hexadecimal digits, high half first.
pub open spec fn byte_of(high: char, low: char) -> u8 {
    (16 * hex_value(high) + hex_value(low)) as u8
}

/// The text without one leading `#`, if it has one.
pub open spec fn strip_hash(s: Seq<char>) -> Seq<char> {
    if s.len() > 0 && s[0] == '#' {
        s.drop_first()
    } else {
        s
    }
}

/// What is read as digits: the text without surrounding whitespace and
/// without one leading `#`.
pub open spec fn hex_body(s: Seq<char>) -> Seq<char> {
    strip_hash(trimmed(s))
}

/// Every character is a hexadecimal digit.
pub open spec fn all_hex_digits(d: Seq<char>) -> bool {
    forall|i: int| 0 <= i < d.len() ==> is_hex_digit(#[trigger] d[i])
}

/// Exactly six hexadecimal digits.
pub open spec fn is_hex_color(d: Seq<char>) -> bool {
    d.len() == 6 && all_hex_digits(d)
}

/// The color written by six hexadecimal digits.
pub open spec fn digits_color(d: Seq<char>) -> Color {
    Color { r: byte_of(d[0], d[1]), g: byte_of(d[2], d[3]), b: byte_of(d[4], d[5]) }
}

/// The color that a text denotes, or the reason it denotes none.
pub open spec fn parsed_color(s: Seq<char>) -> Result<Color, ColorError> {
    let d = hex_body(s);
    if is_hex_color(d) {
        Ok(digits_color(d))
    } else {
        Err(ColorError::InvalidFormat)
    }
}

/// The canonical form of a text that denotes a color: its six digits in
/// lowercase.
pub open spec fn normalized(s: Seq<char>) -> Result<Seq<char>, ColorError> {
    let d = hex_body(s);
    if is_hex_color(d) {
        Ok(Seq::new(6, |i: int| ascii_lower(d[i])))
    } else {
        Err(ColorError::InvalidFormat)
    }
}

/// The channel value for an intensity on the scale 0 to 255: the nearest
/// value in range.
pub open spec fn clamp_channel(v: int) -> u8 {
    if v < 0 {
        0u8
    } else if v > 255 {
        255u8
    } else {
        v as u8
    }
}

impl Color {
    /// The canonical text of the color: two lowercase hexadecimal digits per
    /// channel, red first.
    pub open spec fn hex(self) -> Seq<char> {
        seq![
            hex_char(self.r as int / 16),
            hex_char(self.r as int % 16),
            hex_char(self.g as int / 16),
            hex_char(self.g as int % 16),
            hex_char(self.b as int / 16),
            hex_char(self.b as int % 16),
        ]
    }

    /// Builds a color from three intensities on the scale 0 to 255, bringing
    /// each into that range first.
    pub fn from_scaled(r: i64, g: i64, b: i64) -> (c: Color)
        ensures
            c.r == clamp_channel(r as int),
            c.g == clamp_channel(g as int),
            c.b == clamp_channel(b as int),
    {
        Color { r: channel(r), g: channel(g), b: channel(b) }
    }

    /// Builds a color from its channels in the order red, green, blue.
    pub fn from_rgb_bytes(rgb: [u8; 3]) -> (c: Color)
        ensures
            c == (Color { r: rgb[0], g: rgb[1], b: rgb[2] }),
    {
        Color { r: rgb[0], g: rgb[1], b: rgb[2] }
    }

    /// The channels in the order red, green, blue.
    pub fn to_rgb_bytes(&self) -> (rgb: [u8; 3])
        ensures
            rgb@ == seq![self.r, self.g, self.b],
    {
        [self.r, self.g, self.b]
    }

    /// Writes the color as six lowercase hexadecimal digits.
    pub fn to_hex(&self) -> (s: String)
        ensures
            s@ == self.hex(),
    {
        let mut s = String::new();
        s.push(digit_char(self.r / 16));
        s.push(digit_char(self.r % 16));
        s.push(digit_char(self.g / 16));
        s.push(digit_char(self.g % 16));
        s.push(digit_char(self.b / 16));
        s.push(digit_char(self.b % 16));
        assert(s@ =~= self.hex());
        s
    }
}

/// The error of `hex::decode`. Nothing is read from it: any error means
/// that the text is no color.
#[verifier::external_type_specification]
#[verifier::external_body]
pub struct ExFromHexError(hex::FromHexError);

/// The bytes written by a text of hexadecimal digits, two digits per byte.
pub open spec fn decoded(s: Seq<char>) -> Seq<u8> {
    Seq::new((s.len() / 2) as nat, |i: int| byte_of(s[2 * i], s[2 * i + 1]))
}

/// Calls `hex::decode` on a text. It succeeds exactly on an even number of
/// characters that are all hexadecimal digits, of either case, and then
/// gives one byte for each pair of digits, the high half first. A character
/// outside ASCII takes several bytes, none of which is a digit, so it is
/// refused like any other character that is no digit.
#[verifier::external_body]
fn decode_hex(text: &str) -> (res: Result<Vec<u8>, hex::FromHexError>)
    ensures
        (res is Ok) == (text@.len() % 2 == 0 && all_hex_digits(text@)),
        res matches Ok(bytes) ==> bytes@ == decoded(text@),
{
    hex::decode(text)
}

fn channel(v: i64) -> (c: u8)
    ensures
        c == clamp_channel(v as int),
{
    if v < 0 {
        0
    } else if v > 255 {
        255
    } else {
        v as u8
    }
}

fn digit_char(n: u8) -> (c: char)
    requires
        n < 16,
    ensures
        c == hex_char(n as int),
{
    if n < 10 {
        (n + 48u8) as char
    } else {
        (n - 10u8 + 97u8) as char
    }
}

fn hex_digit(c: char) -> (b: bool)
    ensures
        b == is_hex_digit(c),
{
    (c >= '0' && c <= '9') || (c >= 'a' && c <= 'f') || (c >= 'A' && c <= 'F')
}

/// Finds where the digits of a text start and end.
fn body_bounds(v: &Vec<char>) -> (bounds: (usize, usize))
    ensures
        bounds.0 <= bounds.1 <= v@.len(),
        v@.subrange(bounds.0 as int, bounds.1 as int) == hex_body(v@),
{
    let (lo, hi) = trim_bounds(v, 0, v.len());
    assert(v@.subrange(0, v@.len() as int) =~= v@);
    if lo < hi && v[lo] == '#' {
        proof {
            let w = v@.subrange(lo as int, hi as int);
            assert(w.drop_first() =~= v@.subrange(lo + 1, hi as int));
        }
        (lo + 1, hi)
    } else {
        (lo, hi)
    }
}

/// Checks that a text denotes a color and returns it in canonical form: six
/// lowercase hexadecimal digits.
///
/// Surrounding whitespace and one leading `#` are ignored; digits of either
/// case are accepted.
pub fn normalize_hex(hex: &str) -> (res: Result<String, ColorError>)
    ensures
        res matches Ok(text) ==> normalized(hex@) == Ok::<Seq<char>, ColorError>(text@),
        res matches Err(e) ==> normalized(hex@) == Err::<Seq<char>, ColorError>(e),
{
    let v = chars_of(hex);
    let (lo, hi) = body_bounds(&v);
    if hi - lo != 6 {
        return Err(ColorError::InvalidFormat);
    }
    let ghost d = hex_body(hex@);
    let mut text = String::new();
    let mut i: usize = 0;
    while i < 6
        invariant
            i <= 6,
            lo + 6 == hi <= v@.len(),
            d == hex_body(hex@),
            d == v@.subrange(lo as int, hi as int),
            text@.len() == i,
            forall|j: int| 0 <= j < i ==> is_hex_digit(#[trigger] d[j]),
            forall|j: int| 0 <= j < i ==> text@[j] == ascii_lower(#[trigger] d[j]),
        decreases 6 - i,
    {
        let c = v[lo + i];
        assert(c == d[i as int]);
        if !hex_digit(c) {
            return Err(ColorError::InvalidFormat);
        }
        text.push(lower(c));
        i = i + 1;
    }
    assert(text@ =~= Seq::new(6, |i: int| ascii_lower(d[i])));
    Ok(text)
}

/// Reads a color from its hexadecimal text.
///
/// Surrounding whitespace and one leading `#` are ignored; what remains must
/// be exactly six hexadecimal digits, of either case.
pub fn parse_hex_to_color(hex_str: &str) -> (res: Result<Color, ColorError>)
    ensures
        res == parsed_color(hex_str@),
{
    let v = chars_of(hex_str);
    let (lo, hi) = body_bounds(&v);
    let body = hex_str.substring_char(lo, hi);
    match decode_hex(body) {
        Ok(bytes) => {
            if bytes.len() != 3 {
                return Err(ColorError::InvalidFormat);
            }
            Ok(Color { r: bytes[0], g: bytes[1], b: bytes[2] })
        },
        Err(_) => Err(ColorError::InvalidFormat),
    }
}

/// Writing a color and reading the text back gives the same color.
pub proof fn lemma_hex_round_trip(c: Color)
    ensures
        parsed_color(c.hex()) == Ok::<Color, ColorError>(c),
{
    let h = c.hex();
    lemma_hex_char(c.r as int / 16);
    lemma_hex_char(c.r as int % 16);
    lemma_hex_char(c.g as int / 16);
    lemma_hex_char(c.g as int % 16);
    lemma_hex_char(c.b as int / 16);
    lemma_hex_char(c.b as int % 16);
    assert(trim_start(h) == h);
    assert(trim_end(h) == h);
    assert(hex_body(h) == h);
    assert(is_hex_color(h));
}

/// A lowercase digit is a digit with the value it was made from, and is
/// neither whitespace nor `#`.
proof fn lemma_hex_char(n: int)
    requires
        0 <= n < 16,
    ensures
        is_hex_digit(hex_char(n)),
        hex_value(hex_char(n)) == n,
        ascii_lower(hex_char(n)) == hex_char(n),
        !is_space(hex_char(n)),
        hex_char(n) != '#',
{
}

/// The canonical form of a text is the canonical text of the color it
/// denotes, and exists exactly when the text denotes a color.
pub proof fn lemma_normalized_is_canonical(s: Seq<char>)
    ensures
        match parsed_color(s) {
            Ok(c) => normalized(s) == Ok::<Seq<char>, ColorError>(c.hex()),
            Err(e) => normalized(s) == Err::<Seq<char>, ColorError>(e),
        },
{
    let d = hex_body(s);
    if is_hex_color(d) {
        let c = digits_color(d);
        assert forall|i: int| 0 <= i < 6 implies ascii_lower(d[i]) == #[trigger] c.hex()[i] by {
            assert(is_hex_digit(d[i]));
            lemma_digit_pair(d[0], d[1]);
            lemma_digit_pair(d[2], d[3]);
            lemma_digit_pair(d[4], d[5]);
        }
        assert(Seq::new(6, |i: int| ascii_lower(d[i])) =~= c.hex());
    }
}

/// The two halves of the byte written by two digits are the digits
/// themselves, in lowercase.
proof fn lemma_digit_pair(high: char, low: char)
    requires
        is_hex_digit(high),
        is_hex_digit(low),
    ensures
        hex_char(byte_of(high, low) as int / 16) == ascii_lower(high),
        hex_char(byte_of(high, low) as int % 16) == ascii_lower(low),
{
}

} // verus!
