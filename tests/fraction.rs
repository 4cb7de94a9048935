use scof::{gcd_i, Fraction, FractionError, IsZero};
use std::cmp::Ordering;

#[test]
fn add() {
    assert_eq!(Fraction::new(1, 2).add(Fraction::new(3, 4)), Ok(Fraction::new(5, 4)));
    assert_eq!(Fraction::new(1, 8).add(Fraction::new(1, 2)), Ok(Fraction::new(5, 8)));
    assert_eq!(Fraction::new(1, 1).add(Fraction::new(10, 1)), Ok(Fraction::new(11, 1)));
    assert_eq!(Fraction::new(1, 3).add(Fraction::new(1, 5)), Ok(Fraction::new(8, 15)));
    assert_eq!(Fraction::new(4, 4).add(Fraction::new(2, 4)), Ok(Fraction::new(3, 2)));
}

#[test]
fn sub() {
    assert_eq!(Fraction::new(5, 4).sub(Fraction::new(1, 2)), Ok(Fraction::new(3, 4)));
    assert_eq!(Fraction::new(1, 1).sub(Fraction::new(1, 64)), Ok(Fraction::new(63, 64)));
}

#[test]
fn div() {
    assert_eq!(Fraction::new(1, 2).div(Fraction::new(3, 4)), Ok(Fraction::new(2, 3)));
}

#[test]
fn mul() {
    assert_eq!(Fraction::new(1, 2).mul(Fraction::new(3, 4)), Ok(Fraction::new(3, 8)));
}

#[test]
fn add_commutes() {
    let a = Fraction::new(2, 3);
    let b = Fraction::new(5, 7);
    assert_eq!(a.add(b), b.add(a));
    assert_eq!(a.add(b), Ok(Fraction::new(29, 21)));
}

#[test]
fn add_associates() {
    let a = Fraction::new(1, 2);
    let b = Fraction::new(1, 3);
    let c = Fraction::new(1, 6);
    let left = a.add(b).unwrap().add(c);
    let right = a.add(b.add(c).unwrap());
    assert_eq!(left, right);
    assert_eq!(left, Ok(Fraction::new(1, 1)));
}

#[test]
fn add_association_can_overflow_on_one_side() {
    let a = Fraction::new(1, 17);
    let b = Fraction::new(1, 16);
    let c = Fraction::new(15, 16);
    assert_eq!(a.add(b), Err(FractionError::Overflow));
    assert_eq!(a.add(b.add(c).unwrap()), Ok(Fraction::new(18, 17)));
}

#[test]
fn results_are_in_lowest_terms() {
    let r = Fraction::new(2, 4).add(Fraction::new(2, 4)).unwrap();
    assert_eq!(r, Fraction::new(1, 1));
    let r = Fraction::new(6, 8).mul(Fraction::new(4, 6)).unwrap();
    assert_eq!(r, Fraction::new(1, 2));
    let r = Fraction::new(3, 4).sub(Fraction::new(1, 4)).unwrap();
    assert_eq!(r, Fraction::new(1, 2));
    let r = Fraction::new(2, 4).sub(Fraction::new(1, 2)).unwrap();
    assert_eq!(r, Fraction::new(0, 1));
    assert_eq!(gcd_i(r.num as u32, r.den as u32), 1);
}

#[test]
fn fraction_errors() {
    assert_eq!(
        Fraction::new(1, 0).add(Fraction::new(1, 2)),
        Err(FractionError::ZeroDenominator)
    );
    assert_eq!(Fraction::new(255, 1).add(Fraction::new(1, 1)), Err(FractionError::Overflow));
    assert_eq!(Fraction::new(255, 1).mul(Fraction::new(2, 1)), Err(FractionError::Overflow));
    assert_eq!(Fraction::new(1, 2).sub(Fraction::new(3, 4)), Err(FractionError::Negative));
    assert_eq!(
        Fraction::new(1, 2).div(Fraction::new(0, 3)),
        Err(FractionError::ZeroDenominator)
    );
}

#[test]
fn reciprocal_and_zero() {
    assert_eq!(Fraction::new(3, 7).recip(), Fraction::new(7, 3));
    assert!(Fraction::new(0, 5).is_zero());
    assert!(!Fraction::new(0, 0).is_zero());
    assert!(!Fraction::new(1, 5).is_zero());
    assert!(0u8.is_zero());
    assert!(!7u64.is_zero());
}

#[test]
fn gcd_values() {
    assert_eq!(gcd_i(12, 18), 6);
    assert_eq!(gcd_i(0, 5), 5);
    assert_eq!(gcd_i(5, 0), 5);
    assert_eq!(gcd_i(17, 5), 1);
    assert_eq!(gcd_i(0, 0), 0);
}

#[test]
fn compare_by_value() {
    assert_eq!(Fraction::new(1, 2).partial_cmp(&Fraction::new(2, 4)), Some(Ordering::Equal));
    assert_eq!(Fraction::new(1, 3).partial_cmp(&Fraction::new(1, 2)), Some(Ordering::Less));
    assert_eq!(Fraction::new(3, 4).partial_cmp(&Fraction::new(2, 3)), Some(Ordering::Greater));
    assert_eq!(Fraction::new(3, 0).partial_cmp(&Fraction::new(2, 3)), None);
}

#[test]
fn multiply_integer() {
    assert_eq!(Fraction::new(3, 4).mul_int(8), Some(6));
    assert_eq!(Fraction::new(3, 4).mul_int(-7), Some(-5));
    assert_eq!(Fraction::new(3, 4).mul_int(7), Some(5));
    assert_eq!(Fraction::new(255, 1).mul_int(i32::MAX), None);
    assert_eq!(Fraction::new(1, 0).mul_int(3), None);
}
