//! Note lengths: a denomination, a tuplet ratio and augmentation dots.
//!
//! A tuplet `n:d` puts `n` notes in the time of `d`; `1:1` is no tuplet.
use crate::fraction::{Fraction, FractionError};
use crate::text::push_char;
use vstd::prelude::*;

verus! {

/// The base length of a note, from a 128th note to a quadruple whole note.
#[derive(Clone, Copy, Debug, PartialEq, Eq, Structural)]
pub enum Denomination {
    /// 128th note; no augmentation allowed.
    Den128,
    /// 64th note; 0 or 1 augmentation dots.
    Den64,
    /// 32nd note; up to 2 augmentation dots.
    Den32,
    /// 16th note; up to 3 augmentation dots.
    Den16,
    /// Eighth note; up to 4 augmentation dots.
    Den8,
    /// Quarter note; up to 4 augmentation dots.
    Den4,
    /// Half note; up to 3 augmentation dots.
    Den2,
    /// Whole note; up to 2 augmentation dots.
    Num1,
    /// Double whole note; 0 or 1 augmentation dots.
    Num2,
    /// Quadruple whole note; no augmentation allowed.
    Num4,
}

impl Denomination {
    /// The most augmentation dots this denomination allows.
    pub open spec fn max_dots(self) -> u8 {
        match self {
            Denomination::Den128 => 0,
            Denomination::Den64 => 1,
            Denomination::Den32 => 2,
            Denomination::Den16 => 3,
            Denomination::Den8 => 4,
            Denomination::Den4 => 4,
            Denomination::Den2 => 3,
            Denomination::Num1 => 2,
            Denomination::Num2 => 1,
            Denomination::Num4 => 0,
        }
    }

    /// The letter that writes this denomination.
    pub open spec fn letter(self) -> char {
        match self {
            Denomination::Den128 => 'O',
            Denomination::Den64 => 'X',
            Denomination::Den32 => 'Y',
            Denomination::Den16 => 'S',
            Denomination::Den8 => 'T',
            Denomination::Den4 => 'Q',
            Denomination::Den2 => 'U',
            Denomination::Num1 => 'W',
            Denomination::Num2 => 'V',
            Denomination::Num4 => 'L',
        }
    }

    /// The denomination that a letter writes, if any.
    pub open spec fn of_letter(c: char) -> Option<Denomination> {
        if c == 'O' {
            Some(Denomination::Den128)
        } else if c == 'X' {
            Some(Denomination::Den64)
        } else if c == 'Y' {
            Some(Denomination::Den32)
        } else if c == 'S' {
            Some(Denomination::Den16)
        } else if c == 'T' {
            Some(Denomination::Den8)
        } else if c == 'Q' {
            Some(Denomination::Den4)
        } else if c == 'U' {
            Some(Denomination::Den2)
        } else if c == 'W' {
            Some(Denomination::Num1)
        } else if c == 'V' {
            Some(Denomination::Num2)
        } else if c == 'L' {
            Some(Denomination::Num4)
        } else {
            None
        }
    }

    /// The length of this denomination, in whole notes.
    pub open spec fn base(self) -> Fraction {
        match self {
            Denomination::Den128 => Fraction { num: 1, den: 128 },
            Denomination::Den64 => Fraction { num: 1, den: 64 },
            Denomination::Den32 => Fraction { num: 1, den: 32 },
            Denomination::Den16 => Fraction { num: 1, den: 16 },
            Denomination::Den8 => Fraction { num: 1, den: 8 },
            Denomination::Den4 => Fraction { num: 1, den: 4 },
            Denomination::Den2 => Fraction { num: 1, den: 2 },
            Denomination::Num1 => Fraction { num: 1, den: 1 },
            Denomination::Num2 => Fraction { num: 2, den: 1 },
            Denomination::Num4 => Fraction { num: 4, den: 1 },
        }
    }

    /// Returns the most augmentation dots this denomination allows.
    pub fn dots_allowed(self) -> (r: u8)
        ensures
            r == self.max_dots(),
    {
        match self {
            Denomination::Den128 => 0,
            Denomination::Den64 => 1,
            Denomination::Den32 => 2,
            Denomination::Den16 => 3,
            Denomination::Den8 => 4,
            Denomination::Den4 => 4,
            Denomination::Den2 => 3,
            Denomination::Num1 => 2,
            Denomination::Num2 => 1,
            Denomination::Num4 => 0,
        }
    }

    /// Returns the letter that writes this denomination.
    pub fn to_char(self) -> (r: char)
        ensures
            r == self.letter(),
    {
        match self {
            Denomination::Den128 => 'O',
            Denomination::Den64 => 'X',
            Denomination::Den32 => 'Y',
            Denomination::Den16 => 'S',
            Denomination::Den8 => 'T',
            Denomination::Den4 => 'Q',
            Denomination::Den2 => 'U',
            Denomination::Num1 => 'W',
            Denomination::Num2 => 'V',
            Denomination::Num4 => 'L',
        }
    }

    /// Returns the denomination that a letter writes, if any.
    pub fn from_char(c: char) -> (r: Option<Denomination>)
        ensures
            r == Denomination::of_letter(c),
    {
        if c == 'O' {
            Some(Denomination::Den128)
        } else if c == 'X' {
            Some(Denomination::Den64)
        } else if c == 'Y' {
            Some(Denomination::Den32)
        } else if c == 'S' {
            Some(Denomination::Den16)
        } else if c == 'T' {
            Some(Denomination::Den8)
        } else if c == 'Q' {
            Some(Denomination::Den4)
        } else if c == 'U' {
            Some(Denomination::Den2)
        } else if c == 'W' {
            Some(Denomination::Num1)
        } else if c == 'V' {
            Some(Denomination::Num2)
        } else if c == 'L' {
            Some(Denomination::Num4)
        } else {
            None
        }
    }

    /// Returns the length of this denomination, in whole notes.
    pub fn base_fraction(self) -> (r: Fraction)
        ensures
            r == self.base(),
    {
        match self {
            Denomination::Den128 => Fraction::new(1, 128),
            Denomination::Den64 => Fraction::new(1, 64),
            Denomination::Den32 => Fraction::new(1, 32),
            Denomination::Den16 => Fraction::new(1, 16),
            Denomination::Den8 => Fraction::new(1, 8),
            Denomination::Den4 => Fraction::new(1, 4),
            Denomination::Den2 => Fraction::new(1, 2),
            Denomination::Num1 => Fraction::new(1, 1),
            Denomination::Num2 => Fraction::new(2, 1),
            Denomination::Num4 => Fraction::new(4, 1),
        }
    }
}

/// A duration of a note: denomination, tuplet ratio and augmentation dots.
#[derive(Clone, Copy, Debug, PartialEq, Eq, Structural)]
pub struct Duration {
    pub denom: Denomination,
    /// Tuplet numerator.
    pub tuplet_num: u8,
    /// Tuplet denominator.
    pub tuplet_den: u8,
    /// Augmentation dots.
    pub dots: u8,
}

/// The text of a duration: its letter, then one `.` per dot.
pub open spec fn duration_text(d: Duration) -> Seq<char> {
    seq![d.denom.letter()] + Seq::new(d.dots as nat, |i: int| '.')
}

/// The duration that a text writes: a letter, then at most as many `.` as
/// the denomination allows; no tuplet.
pub open spec fn parse_duration(s: Seq<char>) -> Option<Duration> {
    if s.len() == 0 {
        None
    } else {
        match Denomination::of_letter(s[0]) {
            None => None,
            Some(denom) => {
                if s.len() - 1 <= denom.max_dots() && (forall|i: int|
                    1 <= i < s.len() ==> #[trigger] s[i] == '.') {
                    Some(Duration { denom, tuplet_num: 1, tuplet_den: 1, dots: (s.len() - 1) as u8 })
                } else {
                    None
                }
            },
        }
    }
}

/// One step of reading a run of tied durations: a letter starts a new
/// duration, a `.` augments the last one, which must allow it.
pub open spec fn tie_step(v: Seq<Duration>, c: char) -> Option<Seq<Duration>> {
    match Denomination::of_letter(c) {
        Some(denom) => Some(v.push(Duration { denom, tuplet_num: 1, tuplet_den: 1, dots: 0 })),
        None => {
            if c == '.' && v.len() > 0 && v.last().dots < v.last().denom.max_dots() {
                Some(v.update(v.len() - 1, Duration { dots: (v.last().dots + 1) as u8, ..v.last() }))
            } else {
                None
            }
        },
    }
}

/// The run of tied durations that a text writes, read left to right.
pub open spec fn parse_tied(s: Seq<char>) -> Option<Seq<Duration>>
    decreases s.len(),
{
    if s.len() == 0 {
        Some(Seq::empty())
    } else {
        match parse_tied(s.drop_last()) {
            None => None,
            Some(v) => tie_step(v, s.last()),
        }
    }
}

/// A text whose prefix reads as no run of durations reads as none either.
pub proof fn lemma_tied_prefix_none(s: Seq<char>, i: int)
    requires
        0 <= i <= s.len(),
        parse_tied(s.take(i)) is None,
    ensures
        parse_tied(s) is None,
    decreases s.len() - i,
{
    if i < s.len() {
        assert(s.take(i + 1).drop_last() =~= s.take(i));
        lemma_tied_prefix_none(s, i + 1);
    } else {
        assert(s.take(i) =~= s);
    }
}

/// Every text that reads as a duration is written again, letter for
/// letter, by that duration.
pub proof fn lemma_duration_text_round_trip(s: Seq<char>)
    requires
        parse_duration(s) is Some,
    ensures
        duration_text(parse_duration(s).unwrap()) == s,
{
    let d = parse_duration(s).unwrap();
    assert(d.denom.letter() == s[0]);
    assert(duration_text(d) =~= s);
}

/// A well-formed duration without a tuplet reads back from its text.
pub proof fn lemma_duration_round_trip(d: Duration)
    requires
        d.wf(),
        d.tuplet_num == 1,
        d.tuplet_den == 1,
    ensures
        parse_duration(duration_text(d)) == Some(d),
{
    let t = duration_text(d);
    assert(Denomination::of_letter(d.denom.letter()) == Some(d.denom));
    assert(t[0] == d.denom.letter());
    assert forall|i: int| 1 <= i < t.len() implies #[trigger] t[i] == '.' by {
        assert(t[i] == Seq::new(d.dots as nat, |k: int| '.')[i - 1]);
    }
}

impl Duration {
    /// The dot count is within what the denomination allows.
    pub open spec fn wf(self) -> bool {
        self.dots <= self.denom.max_dots()
    }

    /// Augment duration: one more dot, up to what the denomination allows.
    pub fn augment(&mut self)
        ensures
            final(self).denom == old(self).denom,
            final(self).tuplet_num == old(self).tuplet_num,
            final(self).tuplet_den == old(self).tuplet_den,
            final(self).dots == if old(self).dots < old(self).denom.max_dots() {
                (old(self).dots + 1) as u8
            } else {
                old(self).denom.max_dots()
            },
    {
        let max = self.denom.dots_allowed();
        if self.dots < max {
            self.dots = self.dots + 1;
        } else {
            self.dots = max;
        }
    }

    /// Diminish duration: one dot fewer, down to none.
    pub fn diminish(&mut self)
        ensures
            final(self).denom == old(self).denom,
            final(self).tuplet_num == old(self).tuplet_num,
            final(self).tuplet_den == old(self).tuplet_den,
            final(self).dots == if old(self).dots > 0 {
                (old(self).dots - 1) as u8
            } else {
                0
            },
    {
        if self.dots > 0 {
            self.dots = self.dots - 1;
        }
    }

    /// The length of the duration, in whole notes: the denomination's base
    /// length times the tuplet ratio taken as `tuplet_den / tuplet_num`.
    pub open spec fn spec_fraction(self) -> Result<Fraction, FractionError> {
        self.denom.base().spec_mul(Fraction { num: self.tuplet_den, den: self.tuplet_num })
    }

    /// Converts the duration into a fraction of a whole note.
    pub fn fraction(&self) -> (r: Result<Fraction, FractionError>)
        ensures
            r == self.spec_fraction(),
    {
        self.denom.base_fraction().mul(Fraction::new(self.tuplet_den, self.tuplet_num))
    }

    /// Writes the duration: its letter, then one `.` per dot.
    pub fn to_string(&self) -> (r: String)
        ensures
            r@ == duration_text(*self),
    {
        let mut out = String::new();
        push_char(&mut out, self.denom.to_char());
        let mut i: u8 = 0;
        while i < self.dots
            invariant
                i <= self.dots,
                out@ == seq![self.denom.letter()] + Seq::new(i as nat, |k: int| '.'),
            decreases self.dots - i,
        {
            push_char(&mut out, '.');
            i = i + 1;
            assert(out@ =~= seq![self.denom.letter()] + Seq::new(i as nat, |k: int| '.'));
        }
        out
    }

    /// Reads a duration: a letter, then at most as many `.` as the
    /// denomination allows. Too many dots is an error, not a saturation.
    pub fn parse(s: &str) -> (r: Option<Duration>)
        ensures
            r == parse_duration(s@),
    {
        let n = s.unicode_len();
        if n == 0 {
            return None;
        }
        let denom = match Denomination::from_char(s.get_char(0)) {
            None => {
                return None;
            },
            Some(d) => d,
        };
        if n - 1 > denom.dots_allowed() as usize {
            return None;
        }
        let mut i: usize = 1;
        while i < n
            invariant
                n == s@.len(),
                1 <= i <= n,
                forall|k: int| 1 <= k < i ==> #[trigger] s@[k] == '.',
            decreases n - i,
        {
            if s.get_char(i) != '.' {
                return None;
            }
            i = i + 1;
        }
        Some(Duration { denom, tuplet_num: 1, tuplet_den: 1, dots: (n - 1) as u8 })
    }
}

/// Reads a run of tied durations, such as `Q.T`: each letter starts a
/// duration and each `.` augments the one before it.
pub fn parse_durations(s: &str) -> (r: Option<Vec<Duration>>)
    ensures
        r matches Some(v) ==> parse_tied(s@) == Some(v@),
        r is None ==> parse_tied(s@) is None,
{
    let n = s.unicode_len();
    let mut out: Vec<Duration> = Vec::new();
    let mut i: usize = 0;
    while i < n
        invariant
            n == s@.len(),
            0 <= i <= n,
            parse_tied(s@.take(i as int)) == Some(out@),
        decreases n - i,
    {
        let c = s.get_char(i);
        assert(s@.take(i + 1).drop_last() =~= s@.take(i as int));
        match Denomination::from_char(c) {
            Some(denom) => {
                out.push(Duration { denom, tuplet_num: 1, tuplet_den: 1, dots: 0 });
            },
            None => {
                if c != '.' || out.len() == 0 {
                    proof {
                        lemma_tied_prefix_none(s@, i + 1);
                    }
                    return None;
                }
                let last = out.len() - 1;
                let mut d = out[last];
                if d.dots >= d.denom.dots_allowed() {
                    proof {
                        lemma_tied_prefix_none(s@, i + 1);
                    }
                    return None;
                }
                d.dots = d.dots + 1;
                out.set(last, d);
            },
        }
        i = i + 1;
        assert(parse_tied(s@.take(i as int)) == Some(out@));
    }
    assert(s@.take(n as int) =~= s@);
    Some(out)
}

} // verus!
