use scof::{
    default_composer, default_symtime, Bar, Chan, Cursor, Fraction, Marking, Meta, Movement,
    Note, PitchClass, PitchName, PitchOctave, Scof, Style,
};

fn texts(v: &[&str]) -> Vec<String> {
    v.iter().map(|s| s.to_string()).collect()
}

fn bar(chans: &[&[&str]]) -> Bar {
    Bar {
        sig: None,
        chan: chans.iter().map(|c| Chan { notes: texts(c), lyric: vec![] }).collect(),
        repeat: vec![],
    }
}

fn score(bars: Vec<Bar>) -> Scof {
    Scof {
        title: "Test".to_string(),
        cover: None,
        meta: Meta::default(),
        style: Style::default(),
        soundfont: vec![],
        movement: vec![Movement { sig: vec![], bar: bars }],
    }
}

fn notes(s: &Scof, measure: usize, chan: usize) -> Vec<String> {
    s.movement[0].bar[measure].chan[chan].notes.clone()
}

fn quarter_rest() -> Note {
    Note { pitch: None, duration: Fraction::new(1, 4), articulation: vec![] }
}

#[test]
fn marking_len_and_insert_after() {
    let mut s = score(vec![bar(&[&["4C4", "4D4", "8R", "2E4"]])]);
    let c = Cursor::new(0, 0, 0);
    assert_eq!(s.marking_len(&c), 4);
    assert_eq!(s.insert_after(&Cursor::new(0, 0, 1), quarter_rest()), Some(()));
    assert_eq!(notes(&s, 0, 0), texts(&["4C4", "4D4", "4R", "8R", "2E4"]));
    assert_eq!(s.marking_len(&c), 5);
}

#[test]
fn marking_len_stops_at_unreadable_text() {
    let s = score(vec![bar(&[&["4C4", "oops", "8R"], &[]])]);
    assert_eq!(s.marking_len(&Cursor::new(0, 0, 2)), 1);
    assert_eq!(s.marking_len(&Cursor::new(0, 1, 0)), 0);
    assert_eq!(s.marking_len(&Cursor::new(0, 2, 0)), 0);
    assert_eq!(s.marking_len(&Cursor::new(5, 0, 0)), 0);
}

#[test]
fn insert_after_out_of_range() {
    let mut s = score(vec![bar(&[&["4C4"]])]);
    assert_eq!(s.insert_after(&Cursor::new(0, 0, 1), quarter_rest()), None);
    assert_eq!(s.insert_after(&Cursor::new(0, 3, 0), quarter_rest()), None);
    assert_eq!(s.insert_after(&Cursor::new(2, 0, 0), quarter_rest()), None);
    assert_eq!(notes(&s, 0, 0), texts(&["4C4"]));
    assert_eq!(s.insert_after(&Cursor::new(0, 0, 0), quarter_rest()), Some(()));
    assert_eq!(notes(&s, 0, 0), texts(&["4C4", "4R"]));
}

#[test]
fn remove_after_cursor() {
    let mut s = score(vec![bar(&[&["4C4", "4D4", "8R"]])]);
    let removed = s.remove_after(&Cursor::new(0, 0, 0)).unwrap();
    assert_eq!(removed.pitch, Some((PitchClass { name: PitchName::D, accidental: None }, PitchOctave::Octave4)));
    assert_eq!(notes(&s, 0, 0), texts(&["4C4", "8R"]));
    assert!(s.remove_after(&Cursor::new(0, 0, 1)).is_none());
    assert_eq!(notes(&s, 0, 0), texts(&["4C4", "8R"]));
}

#[test]
fn left_at_start_stays() {
    let s = score(vec![bar(&[&["4C4", "4D4"]])]);
    let mut c = Cursor::new(0, 0, 0);
    c.left(&s);
    assert_eq!(c, Cursor::new(0, 0, 0));
    c.left(&s);
    assert_eq!(c, Cursor::new(0, 0, 0));
}

#[test]
fn left_into_previous_measure() {
    let s = score(vec![bar(&[&["4C4", "4D4", "2E4"]]), bar(&[&["1R"]])]);
    let mut c = Cursor::new(1, 0, 0);
    c.left(&s);
    assert_eq!(c, Cursor::new(0, 0, 2));
    c.left(&s);
    assert_eq!(c, Cursor::new(0, 0, 1));
    let empty = score(vec![bar(&[&[]]), bar(&[&["1R"]])]);
    let mut d = Cursor::new(1, 0, 0);
    d.left(&empty);
    assert_eq!(d, Cursor::new(0, 0, 0));
}

#[test]
fn right_at_end_of_measure() {
    let s = score(vec![bar(&[&["4C4", "4D4"], &["2E4", "2F4"]]), bar(&[&["1R"], &["1R"]])]);
    let mut c = Cursor::new(0, 1, 0);
    c.right(&s);
    assert_eq!(c, Cursor::new(0, 1, 1));
    c.right(&s);
    assert_eq!(c, Cursor::new(1, 1, 0));
    c.right(&s);
    assert_eq!(c, Cursor::new(2, 1, 0));
}

#[test]
fn cursor_helpers() {
    let mut c = Cursor::new(3, 1, 4);
    assert_eq!(c.first_marking(), Cursor::new(3, 1, 0));
    assert!(!c.is_first_bar());
    assert_eq!(c.right_unchecked(), Cursor::new(3, 1, 5));
    assert_eq!(c, Cursor::new(3, 1, 5));
    assert!(Cursor::new(0, 2, 2).is_first_bar());
    assert_eq!(Cursor::default(), Cursor::new(0, 0, 0));
}

#[test]
fn read_marking_and_note() {
    let s = score(vec![bar(&[&["4C4", "bad"]])]);
    match s.marking(&Cursor::new(0, 0, 0)) {
        Some(Marking::Note(n)) => assert_eq!(n.duration, Fraction::new(1, 4)),
        _ => panic!("expected a note"),
    }
    assert!(s.marking(&Cursor::new(0, 0, 1)).is_none());
    assert!(s.note(&Cursor::new(0, 0, 2)).is_none());
    assert!(Marking::parse("x").is_err());
    assert!(matches!(Marking::parse("2G4"), Ok(Marking::Note(_))));
}

#[test]
fn set_pitch_and_duration_rewrite_text() {
    let mut s = score(vec![bar(&[&["4C4", "8R", "bad"]])]);
    let g5 = (PitchClass { name: PitchName::G, accidental: None }, PitchOctave::Octave5);
    assert_eq!(s.set_pitch(&Cursor::new(0, 0, 1), g5), Some(()));
    assert_eq!(s.set_duration(&Cursor::new(0, 0, 0), Fraction::new(3, 8)), Some(()));
    assert_eq!(notes(&s, 0, 0), texts(&["3/8C4", "8G5", "bad"]));
    assert_eq!(s.set_pitch(&Cursor::new(0, 0, 2), g5), None);
    assert_eq!(s.set_duration(&Cursor::new(0, 0, 3), Fraction::new(1, 2)), None);
    assert_eq!(notes(&s, 0, 0), texts(&["3/8C4", "8G5", "bad"]));
}

#[test]
fn new_measure_adds_whole_rests() {
    let mut s = score(vec![bar(&[&["4C4"], &["2D4", "2E4"]])]);
    s.new_measure();
    assert_eq!(s.movement[0].bar.len(), 2);
    assert_eq!(notes(&s, 1, 0), texts(&["R"]));
    assert_eq!(notes(&s, 1, 1), texts(&["R"]));
    assert_eq!(s.marking_len(&Cursor::new(1, 1, 0)), 1);
    let mut empty = Scof::default();
    empty.new_measure();
    assert!(empty.movement[0].bar.is_empty());
}

#[test]
fn defaults() {
    let s = Scof::default();
    assert_eq!(s.title, "Untitled Score");
    assert_eq!(s.meta.composer, "Anonymous");
    assert_eq!(s.movement.len(), 1);
    assert_eq!(s.soundfont.len(), 1);
    assert_eq!(default_composer(), "Anonymous");
    assert!(!default_symtime());
    assert_eq!(Chan::default().notes, texts(&["R"]));
}
