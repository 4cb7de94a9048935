//! Scof: a music score model with an exact fraction type, a duration model,
//! a compact one-line text form for notes, and a cursor that addresses the
//! markings of a score.
pub mod fraction;
pub mod note;
pub mod score;
mod text;

pub use fraction::{gcd, gcd_i, Fraction, FractionError, IsZero};
pub use note::{
    Articulation, Denomination, Duration, MalformedMarking, Note, PitchAccidental, PitchClass,
    PitchName, PitchOctave,
};
pub use score::{
    default_composer, default_symtime, Arranger, Bar, Chan, Cursor, Dynamic, Effect, Instrument,
    Marking, Meta, Movement, Repeat, Scof, Sig, SigStyle, Style, Waveform,
};
