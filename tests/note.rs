use scof::{
    Fraction, MalformedMarking, Note, PitchAccidental, PitchClass, PitchName, PitchOctave,
};

fn pitch(name: PitchName, octave: PitchOctave) -> (PitchClass, PitchOctave) {
    (PitchClass { name, accidental: None }, octave)
}

fn note(text: &str) -> Note {
    Note::parse(text).unwrap()
}

#[test]
fn parse_pitched_note() {
    let n = note("4C4");
    assert_eq!(n.pitch, Some(pitch(PitchName::C, PitchOctave::Octave4)));
    assert_eq!(n.duration, Fraction::new(1, 4));
    assert!(n.articulation.is_empty());
}

#[test]
fn parse_tuplet_rest() {
    let n = note("3/8R");
    assert_eq!(n.pitch, None);
    assert_eq!(n.duration, Fraction::new(3, 8));
}

#[test]
fn bare_rest_reads_as_whole_rest() {
    let a = note("R");
    let b = note("1R");
    assert_eq!(a.pitch, b.pitch);
    assert_eq!(a.duration, b.duration);
    assert_eq!(a.duration, Fraction::new(1, 1));
    assert_eq!(a.to_string(), "1R");
}

#[test]
fn parse_low_octave() {
    let n = note("16B-");
    assert_eq!(n.pitch, Some(pitch(PitchName::B, PitchOctave::Octave_)));
    assert_eq!(n.duration, Fraction::new(1, 16));
}

#[test]
fn parse_errors() {
    assert_eq!(Note::parse("4H4").unwrap_err(), MalformedMarking { position: 1 });
    assert_eq!(Note::parse("4C").unwrap_err(), MalformedMarking { position: 1 });
    assert_eq!(Note::parse("4C4x").unwrap_err(), MalformedMarking { position: 1 });
    assert_eq!(Note::parse("").unwrap_err(), MalformedMarking { position: 0 });
    assert_eq!(Note::parse("C4").unwrap_err(), MalformedMarking { position: 0 });
    assert_eq!(Note::parse("0R").unwrap_err(), MalformedMarking { position: 0 });
    assert_eq!(Note::parse("256R").unwrap_err(), MalformedMarking { position: 0 });
    assert_eq!(Note::parse("3/0R").unwrap_err(), MalformedMarking { position: 2 });
    assert_eq!(Note::parse("3/R").unwrap_err(), MalformedMarking { position: 2 });
    assert_eq!(Note::parse("3/8Q").unwrap_err(), MalformedMarking { position: 3 });
    assert_eq!(Note::parse("44").unwrap_err(), MalformedMarking { position: 2 });
}

#[test]
fn note_text_round_trip() {
    for s in ["4C4", "3/8R", "16B-", "1R", "2E9", "255/128G0", "0/4R", "8A7"] {
        assert_eq!(note(s).to_string(), s);
    }
}

#[test]
fn format_drops_accidental_and_articulation() {
    let n = Note {
        pitch: Some((
            PitchClass { name: PitchName::F, accidental: Some(PitchAccidental::Sharp) },
            PitchOctave::Octave3,
        )),
        duration: Fraction::new(3, 16),
        articulation: vec![scof::Articulation::Staccato],
    };
    assert_eq!(n.to_string(), "3/16F3");
    let back = note(&n.to_string());
    assert_eq!(back.duration, n.duration);
    assert_eq!(back.pitch, Some(pitch(PitchName::F, PitchOctave::Octave3)));
}

#[test]
fn visual_distance_from_middle_c() {
    assert_eq!(note("4C4").visual_distance(), 0);
    assert_eq!(note("4B4").visual_distance(), -6);
    assert_eq!(note("4C5").visual_distance(), -7);
    assert_eq!(note("4A3").visual_distance(), 2);
    assert_eq!(note("4C-").visual_distance(), 35);
    assert_eq!(note("4R").visual_distance(), 0);
}

#[test]
fn step_up_crosses_octave() {
    let create = pitch(PitchName::G, PitchOctave::Octave2);
    let up = note("4B4").step_up(create);
    assert_eq!(up.pitch, Some(pitch(PitchName::C, PitchOctave::Octave5)));
    assert_eq!(up.to_string(), "4C5");
    let up = note("4E4").step_up(create);
    assert_eq!(up.pitch, Some(pitch(PitchName::F, PitchOctave::Octave4)));
}

#[test]
fn step_down_crosses_octave() {
    let create = pitch(PitchName::G, PitchOctave::Octave2);
    let down = note("4C4").step_down(create);
    assert_eq!(down.pitch, Some(pitch(PitchName::B, PitchOctave::Octave3)));
    let down = note("4A4").step_down(create);
    assert_eq!(down.pitch, Some(pitch(PitchName::G, PitchOctave::Octave4)));
}

#[test]
fn steps_at_range_ends_stay() {
    let create = pitch(PitchName::G, PitchOctave::Octave2);
    assert_eq!(
        note("4B9").step_up(create).pitch,
        Some(pitch(PitchName::B, PitchOctave::Octave9))
    );
    assert_eq!(
        note("4C-").step_down(create).pitch,
        Some(pitch(PitchName::C, PitchOctave::Octave_))
    );
}

#[test]
fn step_from_rest_creates() {
    let create = pitch(PitchName::G, PitchOctave::Octave2);
    let n = note("8R").step_up(create);
    assert_eq!(n.pitch, Some(create));
    assert_eq!(n.duration, Fraction::new(1, 8));
    let n = note("8R").step_down(create);
    assert_eq!(n.pitch, Some(create));
}

#[test]
fn half_and_quarter_steps_follow_diatonic_steps() {
    let create = pitch(PitchName::G, PitchOctave::Octave2);
    let n = note("4B4");
    assert_eq!(n.half_step_up(create).pitch, n.step_up(create).pitch);
    assert_eq!(n.quarter_step_up(create).pitch, n.step_up(create).pitch);
    assert_eq!(n.half_step_down(create).pitch, n.step_down(create).pitch);
    assert_eq!(n.quarter_step_down(create).pitch, n.step_down(create).pitch);
}

#[test]
fn step_keeps_accidental_and_articulation() {
    let n = Note {
        pitch: Some((
            PitchClass { name: PitchName::D, accidental: Some(PitchAccidental::Flat) },
            PitchOctave::Octave4,
        )),
        duration: Fraction::new(1, 2),
        articulation: vec![scof::Articulation::Accent],
    };
    let up = n.step_up(pitch(PitchName::C, PitchOctave::Octave4));
    assert_eq!(
        up.pitch,
        Some((
            PitchClass { name: PitchName::E, accidental: Some(PitchAccidental::Flat) },
            PitchOctave::Octave4
        ))
    );
    assert_eq!(up.articulation, vec![scof::Articulation::Accent]);
}

#[test]
fn set_pitch_and_duration() {
    let mut n = note("4R");
    n.set_pitch(pitch(PitchName::A, PitchOctave::Octave5));
    n.set_duration(Fraction::new(3, 8));
    assert_eq!(n.to_string(), "3/8A5");
}

#[test]
fn octave_neighbours() {
    assert!(PitchOctave::Octave9.raise().is_none());
    assert!(PitchOctave::Octave_.lower().is_none());
    assert_eq!(PitchOctave::Octave4.raise(), Some(PitchOctave::Octave5));
    assert_eq!(PitchOctave::Octave0.lower(), Some(PitchOctave::Octave_));
    assert_eq!(PitchOctave::Octave_.to_i32(), -1);
}
