//! The brightness of the keyboard backlight, and how the vendor tool names
//! it.
//!
//! The tool reports the brightness in a status line such as
//! `Current keyboard led brightness: Med` and takes it back as one of the
//! words `off`, `low`, `med` and `high`.

use crate::text::{chars_of, is_space, lower, lowered, trim_bounds, trim_end, trim_start, trimmed};
use vstd::prelude::*;

verus! {

/// The brightness of the keyboard backlight.
#[derive(Clone, Copy, Debug, PartialEq, Eq, Structural)]
pub enum BrightnessLevel {
    Off,
    Low,
    Medium,
    High,
}

impl BrightnessLevel {
    /// The place of the level in the order from off to high, counted from
    /// zero.
    pub open spec fn rank(self) -> int {
        match self {
            BrightnessLevel::Off => 0,
            BrightnessLevel::Low => 1,
            BrightnessLevel::Medium => 2,
            BrightnessLevel::High => 3,
        }
    }

    /// The word by which the vendor tool names the level.
    pub open spec fn word(self) -> Seq<char> {
        match self {
            BrightnessLevel::Off => seq!['o', 'f', 'f'],
            BrightnessLevel::Low => seq!['l', 'o', 'w'],
            BrightnessLevel::Medium => seq!['m', 'e', 'd'],
            BrightnessLevel::High => seq!['h', 'i', 'g', 'h'],
        }
    }

    /// The place of the level in the order from off to high, counted from
    /// zero.
    pub fn ordinal(self) -> (n: u8)
        ensures
            n == self.rank(),
    {
        match self {
            BrightnessLevel::Off => 0,
            BrightnessLevel::Low => 1,
            BrightnessLevel::Medium => 2,
            BrightnessLevel::High => 3,
        }
    }

    /// The word to hand to the vendor tool when setting this level.
    pub fn as_arg(self) -> (word: &'static str)
        ensures
            word@ == self.word(),
    {
        proof {
            reveal_strlit("off");
            reveal_strlit("low");
            reveal_strlit("med");
            reveal_strlit("high");
        }
        let word = match self {
            BrightnessLevel::Off => "off",
            BrightnessLevel::Low => "low",
            BrightnessLevel::Medium => "med",
            BrightnessLevel::High => "high",
        };
        assert(word@ =~= self.word());
        word
    }
}

/// A brightness as read from a status line.
#[derive(Clone, Copy, Debug, PartialEq, Eq, Structural)]
pub struct BrightnessReading {
    pub level: BrightnessLevel,
    /// Whether the status line named a known level. When it did not, the
    /// level is [`BrightnessLevel::Medium`] and the caller should warn.
    pub recognized: bool,
}

/// The longest end of the text that holds no colon: what follows the last
/// colon, or all of the text when it has none.
pub open spec fn after_last_colon(s: Seq<char>) -> Seq<char>
    decreases s.len(),
{
    if s.len() > 0 && s.last() != ':' {
        after_last_colon(s.drop_last()).push(s.last())
    } else {
        Seq::empty()
    }
}

/// The word of a status line that names the level: what follows the last
/// colon, without surrounding whitespace, in lowercase.
pub open spec fn status_token(line: Seq<char>) -> Seq<char> {
    lowered(trimmed(after_last_colon(line)))
}

/// The level that a word names, if any.
pub open spec fn level_named(word: Seq<char>) -> Option<BrightnessLevel> {
    if word == BrightnessLevel::Off.word() {
        Some(BrightnessLevel::Off)
    } else if word == BrightnessLevel::Low.word() {
        Some(BrightnessLevel::Low)
    } else if word == BrightnessLevel::Medium.word() {
        Some(BrightnessLevel::Medium)
    } else if word == BrightnessLevel::High.word() {
        Some(BrightnessLevel::High)
    } else {
        None
    }
}

/// The brightness that a status line reports. A line that names no known
/// level counts as medium.
pub open spec fn brightness_reading(line: Seq<char>) -> BrightnessReading {
    match level_named(status_token(line)) {
        Some(level) => BrightnessReading { level, recognized: true },
        None => BrightnessReading { level: BrightnessLevel::Medium, recognized: false },
    }
}

proof fn lemma_after_last_colon(s: Seq<char>, k: int)
    requires
        0 <= k <= s.len(),
        forall|i: int| k <= i < s.len() ==> #[trigger] s[i] != ':',
        k > 0 ==> s[k - 1] == ':',
    ensures
        after_last_colon(s) == s.subrange(k, s.len() as int),
    decreases s.len() - k,
{
    if k == s.len() {
        assert(s.subrange(k, s.len() as int) =~= Seq::<char>::empty());
    } else {
        let t = s.drop_last();
        assert forall|i: int| k <= i < t.len() implies #[trigger] t[i] != ':' by {
            assert(t[i] == s[i]);
        }
        lemma_after_last_colon(t, k);
        assert(t.subrange(k, t.len() as int).push(s.last()) =~= s.subrange(k, s.len() as int));
    }
}

/// Reads the brightness from the status line of the vendor tool.
///
/// The level is named by what follows the last colon of the line; case and
/// surrounding whitespace do not matter. Reading never fails: a line that
/// names no known level is read as medium, and marked as not recognized.
pub fn parse_brightness(line: &str) -> (reading: BrightnessReading)
    ensures
        reading == brightness_reading(line@),
{
    let v = chars_of(line);
    let n = v.len();
    let mut k: usize = n;
    while k > 0 && v[k - 1] != ':'
        invariant
            n == v@.len(),
            k <= n,
            forall|i: int| k <= i < n ==> #[trigger] v@[i] != ':',
        decreases k,
    {
        k = k - 1;
    }
    proof {
        lemma_after_last_colon(v@, k as int);
    }
    let (lo, hi) = trim_bounds(&v, k, n);
    let ghost token = status_token(line@);
    assert(token =~= lowered(v@.subrange(lo as int, hi as int)));
    let mut level: Option<BrightnessLevel> = None;
    if hi - lo == 3 {
        let a = lower(v[lo]);
        let b = lower(v[lo + 1]);
        let c = lower(v[lo + 2]);
        assert(token =~= seq![a, b, c]);
        if a == 'o' && b == 'f' && c == 'f' {
            level = Some(BrightnessLevel::Off);
        } else if a == 'l' && b == 'o' && c == 'w' {
            level = Some(BrightnessLevel::Low);
        } else if a == 'm' && b == 'e' && c == 'd' {
            level = Some(BrightnessLevel::Medium);
        }
    } else if hi - lo == 4 {
        let a = lower(v[lo]);
        let b = lower(v[lo + 1]);
        let c = lower(v[lo + 2]);
        let d = lower(v[lo + 3]);
        assert(token =~= seq![a, b, c, d]);
        if a == 'h' && b == 'i' && c == 'g' && d == 'h' {
            level = Some(BrightnessLevel::High);
        }
    }
    assert(level == level_named(token)) by {
        lemma_word_lengths();
        if level is Some {
            assert(token =~= level->Some_0.word());
        }
    }
    match level {
        Some(level) => BrightnessReading { level, recognized: true },
        None => BrightnessReading { level: BrightnessLevel::Medium, recognized: false },
    }
}

proof fn lemma_word_lengths()
    ensures
        BrightnessLevel::Off.word().len() == 3,
        BrightnessLevel::Low.word().len() == 3,
        BrightnessLevel::Medium.word().len() == 3,
        BrightnessLevel::High.word().len() == 4,
        BrightnessLevel::Off.word()[0] == 'o',
        BrightnessLevel::Off.word()[1] == 'f',
        BrightnessLevel::Off.word()[2] == 'f',
        BrightnessLevel::Low.word()[0] == 'l',
        BrightnessLevel::Low.word()[1] == 'o',
        BrightnessLevel::Low.word()[2] == 'w',
        BrightnessLevel::Medium.word()[0] == 'm',
        BrightnessLevel::Medium.word()[1] == 'e',
        BrightnessLevel::Medium.word()[2] == 'd',
        BrightnessLevel::High.word()[0] == 'h',
        BrightnessLevel::High.word()[1] == 'i',
        BrightnessLevel::High.word()[2] == 'g',
        BrightnessLevel::High.word()[3] == 'h',
{
}

/// Every level is read back from its own word.
pub proof fn lemma_word_names_its_level(level: BrightnessLevel)
    ensures
        level_named(level.word()) == Some(level),
        brightness_reading(level.word()) == (BrightnessReading { level, recognized: true }),
{
    lemma_word_lengths();
    let w = level.word();
    assert(forall|i: int| 0 <= i < w.len() ==> w[i] != ':' && !is_space(w[i]));
    lemma_after_last_colon(w, 0);
    assert(w.subrange(0, w.len() as int) =~= w);
    assert(trim_start(w) == w);
    assert(trim_end(w) == w);
    assert(lowered(w) =~= w);
}

} // verus!
