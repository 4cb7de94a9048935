//! Pitch names, accidentals and octaves.
use vstd::prelude::*;

verus! {

/// A pitch name.
#[derive(Clone, Copy, Debug, PartialEq, Eq, Structural)]
pub enum PitchName {
    C,
    D,
    E,
    F,
    G,
    A,
    B,
}

/// A pitch accidental.
#[derive(Clone, Copy, Debug, PartialEq, Eq, Structural)]
pub enum PitchAccidental {
    /// Whole-tone flat.
    DoubleFlat,
    /// Three-quarter-tone flat.
    FlatQuarterFlat,
    /// Half-tone flat.
    Flat,
    /// Quarter-tone flat.
    QuarterFlat,
    /// Natural.
    Natural,
    /// Quarter-tone sharp.
    QuarterSharp,
    /// Half-tone sharp.
    Sharp,
    /// Three-quarter-tone sharp.
    SharpQuarterSharp,
    /// Whole-tone sharp.
    DoubleSharp,
}

/// A pitch class: a name and an optional accidental (none means: from the
/// key signature).
#[derive(Clone, Copy, Debug, PartialEq, Eq, Structural)]
pub struct PitchClass {
    pub name: PitchName,
    pub accidental: Option<PitchAccidental>,
}

/// A pitch octave, from -1 to 9.
#[allow(non_camel_case_types)]
#[derive(Clone, Copy, Debug, PartialEq, Eq, Structural)]
pub enum PitchOctave {
    /// Octave -1
    Octave_,
    /// Octave 0
    Octave0,
    /// Octave 1
    Octave1,
    /// Octave 2
    Octave2,
    /// Octave 3
    Octave3,
    /// Octave 4
    Octave4,
    /// Octave 5
    Octave5,
    /// Octave 6
    Octave6,
    /// Octave 7
    Octave7,
    /// Octave 8
    Octave8,
    /// Octave 9
    Octave9,
}

impl PitchName {
    /// Diatonic steps above C: C is 0, B is 6.
    pub open spec fn steps(self) -> int {
        match self {
            PitchName::C => 0,
            PitchName::D => 1,
            PitchName::E => 2,
            PitchName::F => 3,
            PitchName::G => 4,
            PitchName::A => 5,
            PitchName::B => 6,
        }
    }

    /// The next name up the scale: B is followed by C.
    pub open spec fn next(self) -> PitchName {
        match self {
            PitchName::C => PitchName::D,
            PitchName::D => PitchName::E,
            PitchName::E => PitchName::F,
            PitchName::F => PitchName::G,
            PitchName::G => PitchName::A,
            PitchName::A => PitchName::B,
            PitchName::B => PitchName::C,
        }
    }

    /// The next name down the scale: C is preceded by B.
    pub open spec fn prev(self) -> PitchName {
        match self {
            PitchName::C => PitchName::B,
            PitchName::D => PitchName::C,
            PitchName::E => PitchName::D,
            PitchName::F => PitchName::E,
            PitchName::G => PitchName::F,
            PitchName::A => PitchName::G,
            PitchName::B => PitchName::A,
        }
    }

    /// The letter that writes this name.
    pub open spec fn letter(self) -> char {
        match self {
            PitchName::C => 'C',
            PitchName::D => 'D',
            PitchName::E => 'E',
            PitchName::F => 'F',
            PitchName::G => 'G',
            PitchName::A => 'A',
            PitchName::B => 'B',
        }
    }

    /// The name that a letter writes, if any.
    pub open spec fn of_letter(c: char) -> Option<PitchName> {
        if c == 'C' {
            Some(PitchName::C)
        } else if c == 'D' {
            Some(PitchName::D)
        } else if c == 'E' {
            Some(PitchName::E)
        } else if c == 'F' {
            Some(PitchName::F)
        } else if c == 'G' {
            Some(PitchName::G)
        } else if c == 'A' {
            Some(PitchName::A)
        } else if c == 'B' {
            Some(PitchName::B)
        } else {
            None
        }
    }

    /// Returns the letter that writes this name.
    pub fn to_char(self) -> (r: char)
        ensures
            r == self.letter(),
    {
        match self {
            PitchName::C => 'C',
            PitchName::D => 'D',
            PitchName::E => 'E',
            PitchName::F => 'F',
            PitchName::G => 'G',
            PitchName::A => 'A',
            PitchName::B => 'B',
        }
    }

    /// Returns the name that a letter writes, if any.
    pub fn from_char(c: char) -> (r: Option<PitchName>)
        ensures
            r == PitchName::of_letter(c),
    {
        if c == 'C' {
            Some(PitchName::C)
        } else if c == 'D' {
            Some(PitchName::D)
        } else if c == 'E' {
            Some(PitchName::E)
        } else if c == 'F' {
            Some(PitchName::F)
        } else if c == 'G' {
            Some(PitchName::G)
        } else if c == 'A' {
            Some(PitchName::A)
        } else if c == 'B' {
            Some(PitchName::B)
        } else {
            None
        }
    }
}

impl PitchOctave {
    /// The octave's number, from -1 to 9.
    pub open spec fn number(self) -> int {
        match self {
            PitchOctave::Octave_ => -1,
            PitchOctave::Octave0 => 0,
            PitchOctave::Octave1 => 1,
            PitchOctave::Octave2 => 2,
            PitchOctave::Octave3 => 3,
            PitchOctave::Octave4 => 4,
            PitchOctave::Octave5 => 5,
            PitchOctave::Octave6 => 6,
            PitchOctave::Octave7 => 7,
            PitchOctave::Octave8 => 8,
            PitchOctave::Octave9 => 9,
        }
    }

    /// The character that writes this octave: `-` for -1, else its digit.
    pub open spec fn symbol(self) -> char {
        match self {
            PitchOctave::Octave_ => '-',
            PitchOctave::Octave0 => '0',
            PitchOctave::Octave1 => '1',
            PitchOctave::Octave2 => '2',
            PitchOctave::Octave3 => '3',
            PitchOctave::Octave4 => '4',
            PitchOctave::Octave5 => '5',
            PitchOctave::Octave6 => '6',
            PitchOctave::Octave7 => '7',
            PitchOctave::Octave8 => '8',
            PitchOctave::Octave9 => '9',
        }
    }

    /// The octave that a character writes, if any.
    pub open spec fn of_symbol(c: char) -> Option<PitchOctave> {
        if c == '-' {
            Some(PitchOctave::Octave_)
        } else if c == '0' {
            Some(PitchOctave::Octave0)
        } else if c == '1' {
            Some(PitchOctave::Octave1)
        } else if c == '2' {
            Some(PitchOctave::Octave2)
        } else if c == '3' {
            Some(PitchOctave::Octave3)
        } else if c == '4' {
            Some(PitchOctave::Octave4)
        } else if c == '5' {
            Some(PitchOctave::Octave5)
        } else if c == '6' {
            Some(PitchOctave::Octave6)
        } else if c == '7' {
            Some(PitchOctave::Octave7)
        } else if c == '8' {
            Some(PitchOctave::Octave8)
        } else if c == '9' {
            Some(PitchOctave::Octave9)
        } else {
            None
        }
    }

    /// Returns the octave's number, from -1 to 9.
    pub fn to_i32(self) -> (r: i32)
        ensures
            r == self.number(),
    {
        match self {
            PitchOctave::Octave_ => -1,
            PitchOctave::Octave0 => 0,
            PitchOctave::Octave1 => 1,
            PitchOctave::Octave2 => 2,
            PitchOctave::Octave3 => 3,
            PitchOctave::Octave4 => 4,
            PitchOctave::Octave5 => 5,
            PitchOctave::Octave6 => 6,
            PitchOctave::Octave7 => 7,
            PitchOctave::Octave8 => 8,
            PitchOctave::Octave9 => 9,
        }
    }

    /// Returns the character that writes this octave.
    pub fn to_char(self) -> (r: char)
        ensures
            r == self.symbol(),
    {
        match self {
            PitchOctave::Octave_ => '-',
            PitchOctave::Octave0 => '0',
            PitchOctave::Octave1 => '1',
            PitchOctave::Octave2 => '2',
            PitchOctave::Octave3 => '3',
            PitchOctave::Octave4 => '4',
            PitchOctave::Octave5 => '5',
            PitchOctave::Octave6 => '6',
            PitchOctave::Octave7 => '7',
            PitchOctave::Octave8 => '8',
            PitchOctave::Octave9 => '9',
        }
    }

    /// Returns the octave that a character writes, if any.
    pub fn from_char(c: char) -> (r: Option<PitchOctave>)
        ensures
            r == PitchOctave::of_symbol(c),
    {
        if c == '-' {
            Some(PitchOctave::Octave_)
        } else if c == '0' {
            Some(PitchOctave::Octave0)
        } else if c == '1' {
            Some(PitchOctave::Octave1)
        } else if c == '2' {
            Some(PitchOctave::Octave2)
        } else if c == '3' {
            Some(PitchOctave::Octave3)
        } else if c == '4' {
            Some(PitchOctave::Octave4)
        } else if c == '5' {
            Some(PitchOctave::Octave5)
        } else if c == '6' {
            Some(PitchOctave::Octave6)
        } else if c == '7' {
            Some(PitchOctave::Octave7)
        } else if c == '8' {
            Some(PitchOctave::Octave8)
        } else if c == '9' {
            Some(PitchOctave::Octave9)
        } else {
            None
        }
    }

    /// Calculate a lower octave: none below -1.
    pub fn lower(self) -> (r: Option<PitchOctave>)
        ensures
            self.number() == -1 <==> r is None,
            r matches Some(o) ==> o.number() == self.number() - 1,
    {
        match self {
            PitchOctave::Octave_ => None,
            PitchOctave::Octave0 => Some(PitchOctave::Octave_),
            PitchOctave::Octave1 => Some(PitchOctave::Octave0),
            PitchOctave::Octave2 => Some(PitchOctave::Octave1),
            PitchOctave::Octave3 => Some(PitchOctave::Octave2),
            PitchOctave::Octave4 => Some(PitchOctave::Octave3),
            PitchOctave::Octave5 => Some(PitchOctave::Octave4),
            PitchOctave::Octave6 => Some(PitchOctave::Octave5),
            PitchOctave::Octave7 => Some(PitchOctave::Octave6),
            PitchOctave::Octave8 => Some(PitchOctave::Octave7),
            PitchOctave::Octave9 => Some(PitchOctave::Octave8),
        }
    }

    /// Calculate a higher octave: none above 9.
    pub fn raise(self) -> (r: Option<PitchOctave>)
        ensures
            self.number() == 9 <==> r is None,
            r matches Some(o) ==> o.number() == self.number() + 1,
    {
        match self {
            PitchOctave::Octave_ => Some(PitchOctave::Octave0),
            PitchOctave::Octave0 => Some(PitchOctave::Octave1),
            PitchOctave::Octave1 => Some(PitchOctave::Octave2),
            PitchOctave::Octave2 => Some(PitchOctave::Octave3),
            PitchOctave::Octave3 => Some(PitchOctave::Octave4),
            PitchOctave::Octave4 => Some(PitchOctave::Octave5),
            PitchOctave::Octave5 => Some(PitchOctave::Octave6),
            PitchOctave::Octave6 => Some(PitchOctave::Octave7),
            PitchOctave::Octave7 => Some(PitchOctave::Octave8),
            PitchOctave::Octave8 => Some(PitchOctave::Octave9),
            PitchOctave::Octave9 => None,
        }
    }
}

} // verus!
