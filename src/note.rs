//! Notes and their one-line text form.
//!
//! A marking is written `[num "/"] den` followed by `R` for a rest, or by a
//! pitch letter `A`..`G` and an octave character `-` (octave -1) or
//! `0`..`9`: `4C4` is a quarter note middle C, `3/8R` three eighths of rest.
//! A bare `R` is a whole rest, the same as `1R`.
use crate::fraction::Fraction;
use crate::text::push_char;
use vstd::prelude::*;

mod articulation;
mod duration;
mod pitch;

pub use self::articulation::Articulation;
pub use self::duration::{
    duration_text, lemma_duration_round_trip, lemma_duration_text_round_trip, lemma_tied_prefix_none, parse_duration, parse_durations, parse_tied, tie_step,
    Denomination, Duration,
};
pub use self::pitch::{PitchAccidental, PitchClass, PitchName, PitchOctave};

verus! {

/// The value of a decimal digit character.
pub open spec fn digit_of(c: char) -> Option<u8> {
    if c == '0' {
        Some(0)
    } else if c == '1' {
        Some(1)
    } else if c == '2' {
        Some(2)
    } else if c == '3' {
        Some(3)
    } else if c == '4' {
        Some(4)
    } else if c == '5' {
        Some(5)
    } else if c == '6' {
        Some(6)
    } else if c == '7' {
        Some(7)
    } else if c == '8' {
        Some(8)
    } else if c == '9' {
        Some(9)
    } else {
        None
    }
}

/// The character of a decimal digit.
pub open spec fn digit_char(d: nat) -> char {
    if d == 0 {
        '0'
    } else if d == 1 {
        '1'
    } else if d == 2 {
        '2'
    } else if d == 3 {
        '3'
    } else if d == 4 {
        '4'
    } else if d == 5 {
        '5'
    } else if d == 6 {
        '6'
    } else if d == 7 {
        '7'
    } else if d == 8 {
        '8'
    } else {
        '9'
    }
}

/// The number that a run of decimal digits writes.
pub open spec fn digits_value(t: Seq<char>) -> nat
    decreases t.len(),
{
    if t.len() == 0 {
        0
    } else {
        digits_value(t.drop_last()) * 10 + digit_of(t.last()).unwrap_or(0) as nat
    }
}

/// The decimal text of a number, without leading zeros.
pub open spec fn decimal(n: nat) -> Seq<char>
    decreases n,
{
    if n < 10 {
        seq![digit_char(n)]
    } else {
        decimal(n / 10).push(digit_char(n % 10))
    }
}

/// How many decimal digits a text starts with.
pub open spec fn digit_run(s: Seq<char>) -> nat
    decreases s.len(),
{
    if s.len() == 0 || digit_of(s[0]) is None {
        0
    } else {
        1 + digit_run(s.drop_first())
    }
}

/// The byte that a non-empty run of digits writes, if it fits.
pub open spec fn read_number(t: Seq<char>) -> Option<u8> {
    if t.len() == 0 || digits_value(t) > 255 {
        None
    } else {
        Some(digits_value(t) as u8)
    }
}

/// What follows the length: `R` for a rest, or a letter and an octave.
pub open spec fn parse_pitch(t: Seq<char>) -> Option<Option<(PitchClass, PitchOctave)>> {
    if t == seq!['R'] {
        Some(None)
    } else if t.len() == 2 && PitchName::of_letter(t[0]) is Some && PitchOctave::of_symbol(t[1]) is Some {
        Some(
            Some(
                (
                    PitchClass { name: PitchName::of_letter(t[0]).unwrap(), accidental: None },
                    PitchOctave::of_symbol(t[1]).unwrap(),
                ),
            ),
        )
    } else {
        None
    }
}

/// What a marking's text holds: the pitch (none for a rest) and the length.
pub type NoteHead = (Option<(PitchClass, PitchOctave)>, Fraction);

/// A marking that does not follow the grammar; `position` is where the
/// offending run of characters starts.
#[derive(Clone, Copy, Debug, PartialEq, Eq, Structural)]
pub struct MalformedMarking {
    pub position: usize,
}

/// The pitch and length that a marking's text writes, or where it goes
/// wrong: a bad or out of range number at the start of its run, a zero
/// denominator at the start of the denominator, anything else at the start
/// of what follows the length.
pub open spec fn parse_marking(s: Seq<char>) -> Result<NoteHead, MalformedMarking> {
    let k = digit_run(s);
    if k == 0 {
        if s == seq!['R'] {
            Ok((None, Fraction { num: 1, den: 1 }))
        } else {
            Err(MalformedMarking { position: 0 })
        }
    } else if read_number(s.take(k as int)) is None {
        Err(MalformedMarking { position: 0 })
    } else if k < s.len() && s[k as int] == '/' {
        let num = read_number(s.take(k as int)).unwrap();
        let t = s.skip(k + 1int);
        let k2 = digit_run(t);
        let p = k + 1 + k2;
        match read_number(t.take(k2 as int)) {
            None => Err(MalformedMarking { position: (k + 1) as usize }),
            Some(den) => {
                if den == 0 {
                    Err(MalformedMarking { position: (k + 1) as usize })
                } else {
                    match parse_pitch(s.skip(p as int)) {
                        None => Err(MalformedMarking { position: p as usize }),
                        Some(pitch) => Ok((pitch, Fraction { num, den })),
                    }
                }
            },
        }
    } else {
        let den = read_number(s.take(k as int)).unwrap();
        if den == 0 {
            Err(MalformedMarking { position: 0 })
        } else {
            match parse_pitch(s.skip(k as int)) {
                None => Err(MalformedMarking { position: k as usize }),
                Some(pitch) => Ok((pitch, Fraction { num: 1, den })),
            }
        }
    }
}

/// The text of a pitch: `R` for a rest, else its letter and octave.
pub open spec fn pitch_text(p: Option<(PitchClass, PitchOctave)>) -> Seq<char> {
    match p {
        None => seq!['R'],
        Some(p) => seq![p.0.name.letter(), p.1.symbol()],
    }
}

/// The text of a marking: `num/` unless the numerator is 1, the
/// denominator, then the pitch.
pub open spec fn marking_text(p: Option<(PitchClass, PitchOctave)>, d: Fraction) -> Seq<char> {
    (if d.num == 1 {
        Seq::empty()
    } else {
        decimal(d.num as nat).push('/')
    }) + decimal(d.den as nat) + pitch_text(p)
}

/// A note: an optional pitch (none is a rest), a length in whole notes, and
/// articulations.
#[derive(Debug)]
pub struct Note {
    /// Pitch & Octave
    pub pitch: Option<(PitchClass, PitchOctave)>,
    /// Duration of the note as a fraction.
    pub duration: Fraction,
    /// Articulation.
    pub articulation: Vec<Articulation>,
}

/// `q` is `p` one diatonic step up: the next letter, with the octave raised
/// from B to C. B in octave 9 has nowhere to go and stays.
pub open spec fn is_step_up(p: (PitchClass, PitchOctave), q: (PitchClass, PitchOctave)) -> bool {
    if p.0.name == PitchName::B && p.1.number() == 9 {
        q == p
    } else {
        &&& q.0.name == p.0.name.next()
        &&& q.0.accidental == p.0.accidental
        &&& q.1.number() == p.1.number() + if p.0.name == PitchName::B {
            1int
        } else {
            0
        }
    }
}

/// `q` is `p` one diatonic step down: the previous letter, with the octave
/// lowered from C to B. C in octave -1 has nowhere to go and stays.
pub open spec fn is_step_down(p: (PitchClass, PitchOctave), q: (PitchClass, PitchOctave)) -> bool {
    if p.0.name == PitchName::C && p.1.number() == -1 {
        q == p
    } else {
        &&& q.0.name == p.0.name.prev()
        &&& q.0.accidental == p.0.accidental
        &&& q.1.number() == p.1.number() - if p.0.name == PitchName::C {
            1int
        } else {
            0
        }
    }
}

/// The pitch one diatonic step up.
fn pitch_up(p: (PitchClass, PitchOctave)) -> (r: (PitchClass, PitchOctave))
    ensures
        is_step_up(p, r),
{
    let (name, wraps) = match p.0.name {
        PitchName::A => (PitchName::B, false),
        PitchName::B => (PitchName::C, true),
        PitchName::C => (PitchName::D, false),
        PitchName::D => (PitchName::E, false),
        PitchName::E => (PitchName::F, false),
        PitchName::F => (PitchName::G, false),
        PitchName::G => (PitchName::A, false),
    };
    let octave = if wraps {
        p.1.raise()
    } else {
        Some(p.1)
    };
    match octave {
        Some(octave) => (PitchClass { name, accidental: p.0.accidental }, octave),
        None => p,
    }
}

/// The pitch one diatonic step down.
fn pitch_down(p: (PitchClass, PitchOctave)) -> (r: (PitchClass, PitchOctave))
    ensures
        is_step_down(p, r),
{
    let (name, wraps) = match p.0.name {
        PitchName::A => (PitchName::G, false),
        PitchName::B => (PitchName::A, false),
        PitchName::C => (PitchName::B, true),
        PitchName::D => (PitchName::C, false),
        PitchName::E => (PitchName::D, false),
        PitchName::F => (PitchName::E, false),
        PitchName::G => (PitchName::F, false),
    };
    let octave = if wraps {
        p.1.lower()
    } else {
        Some(p.1)
    };
    match octave {
        Some(octave) => (PitchClass { name, accidental: p.0.accidental }, octave),
        None => p,
    }
}

/// Returns the value of a digit character.
fn digit_value(c: char) -> (r: Option<u8>)
    ensures
        r == digit_of(c),
{
    if c == '0' {
        Some(0)
    } else if c == '1' {
        Some(1)
    } else if c == '2' {
        Some(2)
    } else if c == '3' {
        Some(3)
    } else if c == '4' {
        Some(4)
    } else if c == '5' {
        Some(5)
    } else if c == '6' {
        Some(6)
    } else if c == '7' {
        Some(7)
    } else if c == '8' {
        Some(8)
    } else if c == '9' {
        Some(9)
    } else {
        None
    }
}

/// Returns the character of a digit.
fn to_digit_char(d: u8) -> (r: char)
    requires
        d < 10,
    ensures
        r == digit_char(d as nat),
{
    if d == 0 {
        '0'
    } else if d == 1 {
        '1'
    } else if d == 2 {
        '2'
    } else if d == 3 {
        '3'
    } else if d == 4 {
        '4'
    } else if d == 5 {
        '5'
    } else if d == 6 {
        '6'
    } else if d == 7 {
        '7'
    } else if d == 8 {
        '8'
    } else {
        '9'
    }
}

/// Appends the decimal text of a byte.
fn push_decimal(out: &mut String, n: u8)
    ensures
        final(out)@ == old(out)@ + decimal(n as nat),
{
    reveal_with_fuel(decimal, 3);
    if n >= 100 {
        push_char(out, to_digit_char(n / 100));
    }
    if n >= 10 {
        push_char(out, to_digit_char((n / 10) % 10));
    }
    push_char(out, to_digit_char(n % 10));
    assert(final(out)@ =~= old(out)@ + decimal(n as nat));
}

/// A run of digits that ends where the digits end has the run's length.
pub proof fn lemma_digit_run(s: Seq<char>, i: int)
    requires
        0 <= i <= s.len(),
        forall|k: int| 0 <= k < i ==> #[trigger] digit_of(s[k]) is Some,
        i == s.len() || digit_of(s[i]) is None,
    ensures
        digit_run(s) == i,
    decreases i,
{
    if i > 0 {
        assert forall|k: int| 0 <= k < i - 1 implies #[trigger] digit_of(s.drop_first()[k]) is Some by {
            assert(s.drop_first()[k] == s[k + 1]);
        }
        lemma_digit_run(s.drop_first(), i - 1);
    }
}

/// Copies a list of articulations.
fn copy_articulation(v: &Vec<Articulation>) -> (r: Vec<Articulation>)
    ensures
        r@ == v@,
{
    let mut r: Vec<Articulation> = Vec::new();
    let mut i: usize = 0;
    while i < v.len()
        invariant
            i <= v.len(),
            r@ == v@.take(i as int),
        decreases v.len() - i,
    {
        r.push(v[i]);
        i = i + 1;
        assert(r@ =~= v@.take(i as int));
    }
    assert(v@.take(v.len() as int) =~= v@);
    r
}

/// A digit's character reads back as the digit.
proof fn lemma_digit_char(m: nat)
    requires
        m < 10,
    ensures
        digit_of(digit_char(m)) == Some(m as u8),
{
}

/// The decimal text of a number is a non-empty run of digits that writes it.
pub proof fn lemma_decimal(n: nat)
    ensures
        decimal(n).len() >= 1,
        forall|k: int| 0 <= k < decimal(n).len() ==> #[trigger] digit_of(decimal(n)[k]) is Some,
        digits_value(decimal(n)) == n,
    decreases n,
{
    if n < 10 {
        lemma_digit_char(n);
        assert(decimal(n).drop_last() =~= Seq::<char>::empty());
        assert(digits_value(Seq::<char>::empty()) == 0);
        assert(digits_value(decimal(n)) == n);
    } else {
        lemma_digit_char(n % 10);
        lemma_decimal(n / 10);
        let t = decimal(n / 10);
        assert(decimal(n).drop_last() =~= t);
        assert(decimal(n).last() == digit_char(n % 10));
        assert(digits_value(decimal(n)) == digits_value(t) * 10 + (n % 10));
        assert(n == (n / 10) * 10 + n % 10);
        assert forall|k: int| 0 <= k < decimal(n).len() implies #[trigger] digit_of(decimal(n)[k]) is Some by {
            if k < t.len() {
                assert(decimal(n)[k] == t[k]);
            }
        }
    }
}

/// A run of digits followed by something that is not a digit is where the
/// digit run of the whole ends.
proof fn lemma_digit_run_concat(a: Seq<char>, b: Seq<char>)
    requires
        forall|k: int| 0 <= k < a.len() ==> #[trigger] digit_of(a[k]) is Some,
        b.len() == 0 || digit_of(b[0]) is None,
    ensures
        digit_run(a + b) == a.len(),
{
    let s = a + b;
    assert forall|k: int| 0 <= k < a.len() implies #[trigger] digit_of(s[k]) is Some by {
        assert(s[k] == a[k]);
    }
    if b.len() > 0 {
        assert(s[a.len() as int] == b[0]);
    }
    lemma_digit_run(s, a.len() as int);
}

/// The text of a pitch reads back as that pitch, without its accidental.
proof fn lemma_pitch_text(p: Option<(PitchClass, PitchOctave)>)
    requires
        p matches Some(q) ==> q.0.accidental is None,
    ensures
        parse_pitch(pitch_text(p)) == Some(p),
        digit_of(pitch_text(p)[0]) is None,
        pitch_text(p)[0] != '/',
{
    if let Some(q) = p {
        let t = pitch_text(p);
        assert(t.len() == 2);
        assert(t != seq!['R']);
        assert(PitchName::of_letter(q.0.name.letter()) == Some(q.0.name));
        assert(PitchOctave::of_symbol(q.1.symbol()) == Some(q.1));
    }
}

/// Writing a note and reading the text back gives the same pitch and
/// length, for every length with a nonzero denominator and every pitch
/// without an accidental (the text has no place for one). So every text
/// that writing produces reads back to a note that writes it again.
pub proof fn lemma_marking_round_trip(p: Option<(PitchClass, PitchOctave)>, d: Fraction)
    requires
        d.den != 0,
        p matches Some(q) ==> q.0.accidental is None,
    ensures
        parse_marking(marking_text(p, d)) == Ok::<NoteHead, MalformedMarking>((p, d)),
        marking_text(parse_marking(marking_text(p, d)).unwrap().0, parse_marking(
            marking_text(p, d),
        ).unwrap().1) == marking_text(p, d),
{
    let s = marking_text(p, d);
    let pt = pitch_text(p);
    let dd = decimal(d.den as nat);
    lemma_pitch_text(p);
    lemma_decimal(d.den as nat);
    lemma_digit_run_concat(dd, pt);
    assert((dd + pt).take(dd.len() as int) =~= dd);
    assert((dd + pt).skip(dd.len() as int) =~= pt);
    assert((dd + pt)[dd.len() as int] == pt[0]);
    if d.num == 1 {
        assert(s =~= dd + pt);
    } else {
        let dn = decimal(d.num as nat);
        lemma_decimal(d.num as nat);
        let rest = seq!['/'] + (dd + pt);
        assert(s =~= dn + rest);
        lemma_digit_run_concat(dn, rest);
        let k = dn.len();
        assert(s.take(k as int) =~= dn);
        assert(s[k as int] == '/');
        assert(s.skip(k + 1int) =~= dd + pt);
        assert(s.skip(k + 1int + dd.len()) =~= pt);
    }
}

/// Every text that reads as a note is written again by that note in a
/// canonical form that reads back the same (so `R` and `1R` both write as
/// `1R`).
pub proof fn lemma_marking_canonical(s: Seq<char>)
    requires
        parse_marking(s) is Ok,
    ensures
        parse_marking(marking_text(parse_marking(s).unwrap().0, parse_marking(s).unwrap().1))
            == parse_marking(s),
{
    let h = parse_marking(s).unwrap();
    assert(h.1.den != 0);
    assert(h.0 matches Some(q) ==> q.0.accidental is None);
    lemma_marking_round_trip(h.0, h.1);
}

/// Returns the characters of a text.
fn chars_of(s: &str) -> (r: Vec<char>)
    ensures
        r@ == s@,
{
    let n = s.unicode_len();
    let mut r: Vec<char> = Vec::new();
    let mut i: usize = 0;
    while i < n
        invariant
            n == s@.len(),
            i <= n,
            r@ == s@.take(i as int),
        decreases n - i,
    {
        r.push(s.get_char(i));
        i = i + 1;
        assert(r@ =~= s@.take(i as int));
    }
    assert(s@.take(n as int) =~= s@);
    r
}

/// Returns where the run of digits that starts at `start` ends.
fn scan_digits(cs: &Vec<char>, start: usize) -> (r: usize)
    requires
        start <= cs.len(),
    ensures
        start <= r <= cs.len(),
        r - start == digit_run(cs@.skip(start as int)),
        forall|k: int| start <= k < r ==> #[trigger] digit_of(cs@[k]) is Some,
{
    let mut i = start;
    while i < cs.len() && digit_value(cs[i]).is_some()
        invariant
            start <= i <= cs.len(),
            forall|k: int| start <= k < i ==> #[trigger] digit_of(cs@[k]) is Some,
        decreases cs.len() - i,
    {
        i = i + 1;
    }
    proof {
        let t = cs@.skip(start as int);
        assert forall|k: int| 0 <= k < i - start implies #[trigger] digit_of(t[k]) is Some by {
            assert(t[k] == cs@[start + k]);
        }
        lemma_digit_run(t, i - start);
    }
    i
}

/// Reads the byte that the digits from `start` to `end` write, if it fits.
fn read_u8(cs: &Vec<char>, start: usize, end: usize) -> (r: Option<u8>)
    requires
        start <= end <= cs.len(),
        forall|k: int| start <= k < end ==> #[trigger] digit_of(cs@[k]) is Some,
    ensures
        r == read_number(cs@.subrange(start as int, end as int)),
{
    let mut acc: u32 = 0;
    let mut i = start;
    while i < end
        invariant
            start <= i <= end <= cs.len(),
            forall|k: int| start <= k < end ==> #[trigger] digit_of(cs@[k]) is Some,
            digits_value(cs@.subrange(start as int, i as int)) <= 255 ==> acc == digits_value(
                cs@.subrange(start as int, i as int),
            ),
            digits_value(cs@.subrange(start as int, i as int)) > 255 ==> acc == 256,
        decreases end - i,
    {
        let d: u8 = match digit_value(cs[i]) {
            Some(d) => d,
            None => 0,
        };
        assert(cs@.subrange(start as int, i + 1).drop_last() =~= cs@.subrange(start as int, i as int));
        if acc <= 255 {
            let v = acc * 10 + d as u32;
            acc = if v > 255 { 256 } else { v };
        }
        i = i + 1;
    }
    if start == end || acc > 255 {
        None
    } else {
        Some(acc as u8)
    }
}

/// Reads what follows the length, from `p` to the end.
fn pitch_at(cs: &Vec<char>, p: usize) -> (r: Option<Option<(PitchClass, PitchOctave)>>)
    requires
        p <= cs.len(),
    ensures
        r == parse_pitch(cs@.skip(p as int)),
{
    let n = cs.len();
    let ghost t = cs@.skip(p as int);
    if n - p == 1 && cs[p] == 'R' {
        assert(t =~= seq!['R']);
        return Some(None);
    }
    assert(t != seq!['R']) by {
        if t == seq!['R'] {
            assert(t.len() == 1);
            assert(t[0] == 'R');
            assert(t[0] == cs@[p as int]);
        }
    }
    if n - p == 2 {
        match (PitchName::from_char(cs[p]), PitchOctave::from_char(cs[p + 1])) {
            (Some(name), Some(octave)) => Some(Some((PitchClass { name, accidental: None }, octave))),
            _ => None,
        }
    } else {
        None
    }
}

impl Note {
    /// Reads a marking's text into a note without articulations.
    pub fn parse(s: &str) -> (r: Result<Note, MalformedMarking>)
        ensures
            match r {
                Ok(n) => parse_marking(s@) == Ok::<NoteHead, MalformedMarking>((n.pitch, n.duration))
                    && n.articulation@.len() == 0,
                Err(e) => parse_marking(s@) == Err::<NoteHead, MalformedMarking>(e),
            },
    {
        let cs = chars_of(s);
        let n = cs.len();
        let k = scan_digits(&cs, 0);
        assert(cs@.skip(0) =~= cs@);
        if k == 0 {
            if n == 1 && cs[0] == 'R' {
                assert(cs@ =~= seq!['R']);
                return Ok(Note { pitch: None, duration: Fraction::new(1, 1), articulation: Vec::new() });
            }
            assert(cs@ != seq!['R']) by {
                if cs@ == seq!['R'] {
                    assert(cs@[0] == 'R');
                }
            }
            return Err(MalformedMarking { position: 0 });
        }
        assert(cs@.subrange(0, k as int) =~= cs@.take(k as int));
        let first = match read_u8(&cs, 0, k) {
            None => {
                return Err(MalformedMarking { position: 0 });
            },
            Some(v) => v,
        };
        if k < n && cs[k] == '/' {
            let end = scan_digits(&cs, k + 1);
            proof {
                let t = cs@.skip(k + 1int);
                assert(t.take(end - (k + 1)) =~= cs@.subrange(k + 1int, end as int));
                assert(t.skip(end - (k + 1)) =~= cs@.skip(end as int));
            }
            let den = match read_u8(&cs, k + 1, end) {
                None => {
                    return Err(MalformedMarking { position: k + 1 });
                },
                Some(v) => v,
            };
            if den == 0 {
                return Err(MalformedMarking { position: k + 1 });
            }
            match pitch_at(&cs, end) {
                None => Err(MalformedMarking { position: end }),
                Some(pitch) => Ok(
                    Note { pitch, duration: Fraction::new(first, den), articulation: Vec::new() },
                ),
            }
        } else {
            if first == 0 {
                return Err(MalformedMarking { position: 0 });
            }
            match pitch_at(&cs, k) {
                None => Err(MalformedMarking { position: k }),
                Some(pitch) => Ok(
                    Note { pitch, duration: Fraction::new(1, first), articulation: Vec::new() },
                ),
            }
        }
    }

    /// The note's visual distance from middle C (C4), in diatonic steps,
    /// negated because higher notes are drawn further up; 0 for a rest.
    pub open spec fn spec_visual_distance(&self) -> int {
        match self.pitch {
            None => 0,
            Some(p) => -(p.0.name.steps() + 7 * (p.1.number() - 4)),
        }
    }

    /// Get the note's visual distance from middle C (C4).
    pub fn visual_distance(&self) -> (r: i32)
        ensures
            r == self.spec_visual_distance(),
    {
        match self.pitch {
            None => 0,
            Some(p) => {
                let octaves = p.1.to_i32() - 4;
                let steps: i32 = match p.0.name {
                    PitchName::C => 0,
                    PitchName::D => 1,
                    PitchName::E => 2,
                    PitchName::F => 3,
                    PitchName::G => 4,
                    PitchName::A => 5,
                    PitchName::B => 6,
                };
                -(steps + octaves * 7)
            },
        }
    }

    /// Set pitch class and octave.
    pub fn set_pitch(&mut self, pitch: (PitchClass, PitchOctave))
        ensures
            final(self).pitch == Some(pitch),
            final(self).duration == old(self).duration,
            final(self).articulation@ == old(self).articulation@,
    {
        self.pitch = Some(pitch);
    }

    /// Set duration of note.
    pub fn set_duration(&mut self, duration: Fraction)
        ensures
            final(self).pitch == old(self).pitch,
            final(self).duration == duration,
            final(self).articulation@ == old(self).articulation@,
    {
        self.duration = duration;
    }

    /// The note with its pitch moved one step up (or down); a rest becomes
    /// `create`.
    fn move_step(&self, create: (PitchClass, PitchOctave), up: bool) -> (r: Note)
        ensures
            r.duration == self.duration,
            r.articulation@ == self.articulation@,
            match self.pitch {
                None => r.pitch == Some(create),
                Some(p) => r.pitch matches Some(q) && if up {
                    is_step_up(p, q)
                } else {
                    is_step_down(p, q)
                },
            },
    {
        let pitch = match self.pitch {
            Some(p) => {
                if up {
                    pitch_up(p)
                } else {
                    pitch_down(p)
                }
            },
            None => create,
        };
        Note {
            pitch: Some(pitch),
            duration: self.duration,
            articulation: copy_articulation(&self.articulation),
        }
    }

    /// Calculate note one step up within the key.
    /// - `create`: Note that is generated from a rest.
    pub fn step_up(&self, create: (PitchClass, PitchOctave)) -> (r: Note)
        ensures
            r.duration == self.duration,
            r.articulation@ == self.articulation@,
            match self.pitch {
                None => r.pitch == Some(create),
                Some(p) => r.pitch matches Some(q) && is_step_up(p, q),
            },
    {
        self.move_step(create, true)
    }

    /// Calculate note one step down within the key.
    /// - `create`: Note that is generated from a rest.
    pub fn step_down(&self, create: (PitchClass, PitchOctave)) -> (r: Note)
        ensures
            r.duration == self.duration,
            r.articulation@ == self.articulation@,
            match self.pitch {
                None => r.pitch == Some(create),
                Some(p) => r.pitch matches Some(q) && is_step_down(p, q),
            },
    {
        self.move_step(create, false)
    }

    /// Calculate note one half step up; for now the same as a diatonic step.
    pub fn half_step_up(&self, create: (PitchClass, PitchOctave)) -> (r: Note)
        ensures
            r.duration == self.duration,
            r.articulation@ == self.articulation@,
            match self.pitch {
                None => r.pitch == Some(create),
                Some(p) => r.pitch matches Some(q) && is_step_up(p, q),
            },
    {
        self.step_up(create)
    }

    /// Calculate note one half step down; for now the same as a diatonic
    /// step.
    pub fn half_step_down(&self, create: (PitchClass, PitchOctave)) -> (r: Note)
        ensures
            r.duration == self.duration,
            r.articulation@ == self.articulation@,
            match self.pitch {
                None => r.pitch == Some(create),
                Some(p) => r.pitch matches Some(q) && is_step_down(p, q),
            },
    {
        self.step_down(create)
    }

    /// Calculate note one quarter step up; for now the same as a diatonic
    /// step.
    pub fn quarter_step_up(&self, create: (PitchClass, PitchOctave)) -> (r: Note)
        ensures
            r.duration == self.duration,
            r.articulation@ == self.articulation@,
            match self.pitch {
                None => r.pitch == Some(create),
                Some(p) => r.pitch matches Some(q) && is_step_up(p, q),
            },
    {
        self.step_up(create)
    }

    /// Calculate note one quarter step down; for now the same as a diatonic
    /// step.
    pub fn quarter_step_down(&self, create: (PitchClass, PitchOctave)) -> (r: Note)
        ensures
            r.duration == self.duration,
            r.articulation@ == self.articulation@,
            match self.pitch {
                None => r.pitch == Some(create),
                Some(p) => r.pitch matches Some(q) && is_step_down(p, q),
            },
    {
        self.step_down(create)
    }

    /// Writes the note as a marking: `num/` unless the numerator is 1, the
    /// denominator, then `R` or the pitch letter and octave. Accidentals
    /// and articulations are not written.
    pub fn to_string(&self) -> (r: String)
        ensures
            r@ == marking_text(self.pitch, self.duration),
    {
        let mut out = String::new();
        if self.duration.num != 1 {
            push_decimal(&mut out, self.duration.num);
            push_char(&mut out, '/');
        }
        push_decimal(&mut out, self.duration.den);
        match self.pitch {
            None => push_char(&mut out, 'R'),
            Some(p) => {
                push_char(&mut out, p.0.name.to_char());
                push_char(&mut out, p.1.to_char());
            },
        }
        assert(out@ =~= marking_text(self.pitch, self.duration));
        out
    }
}

} // verus!
