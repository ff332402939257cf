//! The accent color as the KDE settings hold it: red, green and blue as
//! decimal numbers, separated by commas, as in `61,174,233`.

use crate::color::{Color, ColorError};
use crate::text::chars_of;
use vstd::prelude::*;

verus! {

/// A decimal digit.
pub open spec fn is_digit(c: char) -> bool {
    '0' <= c <= '9'
}

/// The number written by a text of decimal digits.
pub open spec fn decimal_value(d: Seq<char>) -> nat
    decreases d.len(),
{
    if d.len() == 0 {
        0
    } else {
        10 * decimal_value(d.drop_last()) + (d.last() as int - '0' as int) as nat
    }
}

/// The digits of a number text: the text without one leading `+`.
pub open spec fn unsigned(f: Seq<char>) -> Seq<char> {
    if f.len() > 0 && f[0] == '+' {
        f.drop_first()
    } else {
        f
    }
}

/// The text writes a byte: at least one decimal digit, after at most one
/// `+`, and nothing else, with a value of 255 at most. Leading zeros are
/// allowed.
pub open spec fn is_byte_text(f: Seq<char>) -> bool {
    let d = unsigned(f);
    &&& d.len() > 0
    &&& forall|i: int| 0 <= i < d.len() ==> is_digit(#[trigger] d[i])
    &&& decimal_value(d) <= 255
}

/// The byte that a text writes.
pub open spec fn byte_value(f: Seq<char>) -> u8 {
    decimal_value(unsigned(f)) as u8
}

/// The text up to its first comma, or all of it when it has none.
pub open spec fn until_comma(s: Seq<char>) -> Seq<char>
    decreases s.len(),
{
    if s.len() > 0 && s[0] != ',' {
        seq![s[0]] + until_comma(s.drop_first())
    } else {
        Seq::empty()
    }
}

/// The first three of the fields that commas divide a text into, if it has
/// that many. What follows the third field is of no account.
pub open spec fn first_three_fields(s: Seq<char>) -> Option<(Seq<char>, Seq<char>, Seq<char>)> {
    let a = until_comma(s);
    if a.len() == s.len() {
        None
    } else {
        let s1 = s.skip(a.len() as int + 1);
        let b = until_comma(s1);
        if b.len() == s1.len() {
            None
        } else {
            let s2 = s1.skip(b.len() as int + 1);
            Some((a, b, until_comma(s2)))
        }
    }
}

/// The color that a list of decimal numbers denotes: its first three fields
/// must each write a byte.
pub open spec fn listed_color(s: Seq<char>) -> Result<Color, ColorError> {
    match first_three_fields(s) {
        Some((r, g, b)) => {
            if is_byte_text(r) && is_byte_text(g) && is_byte_text(b) {
                Ok(Color { r: byte_value(r), g: byte_value(g), b: byte_value(b) })
            } else {
                Err(ColorError::InvalidFormat)
            }
        },
        None => Err(ColorError::InvalidFormat),
    }
}

/// The text up to its first comma is the part before the first index that
/// holds a comma.
proof fn lemma_until_comma(s: Seq<char>, k: int)
    requires
        0 <= k <= s.len(),
        forall|i: int| 0 <= i < k ==> #[trigger] s[i] != ',',
        k < s.len() ==> s[k] == ',',
    ensures
        until_comma(s) == s.take(k),
    decreases k,
{
    if k == 0 {
        assert(s.take(0) =~= Seq::<char>::empty());
    } else {
        let t = s.drop_first();
        assert forall|i: int| 0 <= i < k - 1 implies #[trigger] t[i] != ',' by {
            assert(t[i] == s[i + 1]);
        }
        lemma_until_comma(t, k - 1);
        assert(seq![s[0]] + t.take(k - 1) =~= s.take(k));
    }
}

/// Digits that follow can only make a number larger.
proof fn lemma_decimal_value_grows(d: Seq<char>, k: int)
    requires
        0 <= k <= d.len(),
        forall|i: int| 0 <= i < d.len() ==> is_digit(#[trigger] d[i]),
    ensures
        decimal_value(d.take(k)) <= decimal_value(d),
    decreases d.len() - k,
{
    if k == d.len() {
        assert(d.take(k) =~= d);
    } else {
        let t = d.drop_last();
        assert forall|i: int| 0 <= i < t.len() implies is_digit(#[trigger] t[i]) by {
            assert(t[i] == d[i]);
        }
        lemma_decimal_value_grows(t, k);
        assert(t.take(k) =~= d.take(k));
        assert(is_digit(d[d.len() - 1]));
    }
}

/// Finds the end of the field that starts at `from`.
fn field_end(v: &Vec<char>, from: usize) -> (end: usize)
    requires
        from <= v@.len(),
    ensures
        from <= end <= v@.len(),
        v@.subrange(from as int, end as int) == until_comma(v@.skip(from as int)),
        until_comma(v@.skip(from as int)).len() == end - from,
{
    let mut end: usize = from;
    while end < v.len() && v[end] != ','
        invariant
            from <= end <= v@.len(),
            forall|i: int| from <= i < end ==> #[trigger] v@[i] != ',',
        decreases v@.len() - end,
    {
        end = end + 1;
    }
    proof {
        let s = v@.skip(from as int);
        lemma_until_comma(s, end - from);
        assert(s.take(end - from) =~= v@.subrange(from as int, end as int));
    }
    end
}

/// Reads the byte that `v[from..to]` writes, if it writes one.
fn read_byte(v: &Vec<char>, from: usize, to: usize) -> (byte: Option<u8>)
    requires
        from <= to <= v@.len(),
    ensures
        byte is Some <==> is_byte_text(v@.subrange(from as int, to as int)),
        byte matches Some(value) ==> value == byte_value(v@.subrange(from as int, to as int)),
{
    let ghost f = v@.subrange(from as int, to as int);
    let start = if from < to && v[from] == '+' {
        from + 1
    } else {
        from
    };
    let ghost d = unsigned(f);
    assert(d =~= v@.subrange(start as int, to as int));
    if start == to {
        return None;
    }
    let mut value: u32 = 0;
    let mut i: usize = start;
    while i < to
        invariant
            from <= start <= i <= to <= v@.len(),
            d == unsigned(v@.subrange(from as int, to as int)),
            d == v@.subrange(start as int, to as int),
            forall|j: int| 0 <= j < i - start ==> is_digit(#[trigger] d[j]),
            value == decimal_value(d.take(i - start)),
            value <= 255,
        decreases to - i,
    {
        let c = v[i];
        assert(c == d[i - start]);
        if !(c >= '0' && c <= '9') {
            return None;
        }
        let digit = (c as u32) - 48;
        proof {
            let longer = d.take(i - start + 1);
            assert(longer.drop_last() =~= d.take(i - start));
            assert(longer.last() == c);
        }
        value = 10 * value + digit;
        if value > 255 {
            proof {
                if forall|j: int| 0 <= j < d.len() ==> is_digit(#[trigger] d[j]) {
                    lemma_decimal_value_grows(d, i - start + 1);
                }
            }
            return None;
        }
        i = i + 1;
    }
    assert(d.take(i - start) =~= d);
    Some(value as u8)
}

/// Reads a color from a list of decimal numbers such as `61,174,233`.
///
/// The first three fields that commas divide the text into must each write
/// a byte: decimal digits, after at most one `+`, with no space around them
/// and a value of 255 at most. Further fields are ignored.
pub fn parse_rgb_list(raw: &str) -> (res: Result<Color, ColorError>)
    ensures
        res == listed_color(raw@),
{
    let v = chars_of(raw);
    let n = v.len();
    assert(v@.skip(0) =~= v@);
    let a = field_end(&v, 0);
    if a == n {
        return Err(ColorError::InvalidFormat);
    }
    let ghost s1 = v@.skip(a + 1);
    let b = field_end(&v, a + 1);
    if b == n {
        return Err(ColorError::InvalidFormat);
    }
    let ghost s2 = s1.skip(b - a);
    assert(s2 =~= v@.skip(b + 1));
    let c = field_end(&v, b + 1);
    assert(first_three_fields(v@) == Some(
        (
            v@.subrange(0, a as int),
            v@.subrange(a + 1, b as int),
            v@.subrange(b + 1, c as int),
        ),
    ));
    match (read_byte(&v, 0, a), read_byte(&v, a + 1, b), read_byte(&v, b + 1, c)) {
        (Some(r), Some(g), Some(b)) => Ok(Color { r, g, b }),
        _ => Err(ColorError::InvalidFormat),
    }
}

} // verus!
