use scof::note::parse_durations;
use scof::{Denomination, Duration, Fraction};

fn quarter() -> Duration {
    Duration { denom: Denomination::Den4, tuplet_num: 1, tuplet_den: 1, dots: 0 }
}

#[test]
fn augment_saturates() {
    let mut d = Duration::parse("Q").unwrap();
    for _ in 0..5 {
        d.augment();
    }
    assert_eq!(d.dots, 4);
    assert_eq!(d.to_string(), "Q....");
}

#[test]
fn diminish_at_zero() {
    let mut d = Duration::parse("O").unwrap();
    d.diminish();
    assert_eq!(d.dots, 0);
    assert_eq!(d.denom, Denomination::Den128);
    let mut e = Duration::parse("U..").unwrap();
    e.diminish();
    assert_eq!(e.dots, 1);
}

#[test]
fn augment_extremes_unchanged() {
    let mut d = Duration::parse("L").unwrap();
    d.augment();
    assert_eq!(d.dots, 0);
    let mut e = Duration::parse("X").unwrap();
    e.augment();
    e.augment();
    assert_eq!(e.dots, 1);
}

#[test]
fn duration_text_round_trip() {
    for s in ["O", "X.", "Y..", "S...", "T....", "Q....", "U...", "W..", "V.", "L", "Q"] {
        let d = Duration::parse(s).unwrap();
        assert_eq!(d.to_string(), s);
    }
}

#[test]
fn duration_parse_rejects() {
    assert_eq!(Duration::parse(""), None);
    assert_eq!(Duration::parse("Z"), None);
    assert_eq!(Duration::parse("O."), None);
    assert_eq!(Duration::parse("Q....."), None);
    assert_eq!(Duration::parse("Q.x"), None);
    assert_eq!(Duration::parse("q"), None);
}

#[test]
fn duration_parse_value() {
    assert_eq!(
        Duration::parse("T.."),
        Some(Duration { denom: Denomination::Den8, tuplet_num: 1, tuplet_den: 1, dots: 2 })
    );
}

#[test]
fn duration_fraction() {
    assert_eq!(quarter().fraction(), Ok(Fraction::new(1, 4)));
    let triplet = Duration { tuplet_num: 3, tuplet_den: 2, ..quarter() };
    assert_eq!(triplet.fraction(), Ok(Fraction::new(1, 6)));
    let longa = Duration { denom: Denomination::Num4, ..quarter() };
    assert_eq!(longa.fraction(), Ok(Fraction::new(4, 1)));
    let small = Duration { denom: Denomination::Den128, ..quarter() };
    assert_eq!(small.fraction(), Ok(Fraction::new(1, 128)));
}

#[test]
fn tied_durations() {
    let v = parse_durations("Q.T").unwrap();
    assert_eq!(v.len(), 2);
    assert_eq!(v[0], Duration { dots: 1, ..quarter() });
    assert_eq!(v[1], Duration { denom: Denomination::Den8, ..quarter() });
    assert_eq!(parse_durations(""), Some(vec![]));
    assert_eq!(parse_durations(".Q"), None);
    assert_eq!(parse_durations("O."), None);
    assert_eq!(parse_durations("QZ"), None);
}
