use raytrace::fixed::{Fixed, SCALE};
use raytrace::util::clamp;

#[test]
fn scale_is_one_million() {
    assert_eq!(SCALE, 1_000_000);
    assert_eq!(Fixed::one().raw(), SCALE);
    assert_eq!(Fixed::zero().raw(), 0);
}

#[test]
fn addition_and_subtraction_are_exact() {
    let a = Fixed::from_int(3);
    let b = Fixed::from_int(-5);
    assert_eq!(a.add(b).raw(), -2_000_000);
    assert_eq!(a.sub(b).raw(), 8_000_000);
    assert_eq!(b.neg().raw(), 5_000_000);
}

#[test]
fn multiplication_rescales() {
    let a = Fixed::from_int(3);
    let b = Fixed::from_int(2);
    assert_eq!(a.mul(b).raw(), 6_000_000);
    let half = Fixed::new(500_000);
    assert_eq!(a.mul(half).raw(), 1_500_000);
    // Truncation goes toward zero on both sides.
    let third = Fixed::new(333_333);
    assert_eq!(Fixed::one().mul(third).raw(), 333_333);
    assert_eq!(Fixed::one().neg().mul(third).raw(), -333_333);
}

#[test]
fn division_truncates_toward_zero() {
    let one = Fixed::one();
    let three = Fixed::from_int(3);
    assert_eq!(one.div(three).raw(), 333_333);
    assert_eq!(one.neg().div(three).raw(), -333_333);
    assert_eq!(one.div(three.neg()).raw(), -333_333);
}

#[test]
fn division_by_zero_saturates_by_sign() {
    let z = Fixed::zero();
    assert_eq!(Fixed::one().div(z).raw(), i64::MAX);
    assert_eq!(Fixed::one().neg().div(z).raw(), i64::MIN);
    assert_eq!(z.div(z).raw(), 0);
}

#[test]
fn addition_saturates_at_the_extremes() {
    let top = Fixed::new(i64::MAX);
    assert_eq!(top.add(Fixed::one()).raw(), i64::MAX);
    let bottom = Fixed::new(i64::MIN);
    assert_eq!(bottom.sub(Fixed::one()).raw(), i64::MIN);
}

#[test]
fn square_roots_round_down() {
    assert_eq!(Fixed::from_int(4).sqrt().raw(), 2_000_000);
    assert_eq!(Fixed::from_int(2).sqrt().raw(), 1_414_213);
    assert_eq!(Fixed::zero().sqrt().raw(), 0);
    assert_eq!(Fixed::one().sqrt().raw(), 1_000_000);
}

#[test]
fn comparisons_follow_the_mantissas() {
    let a = Fixed::new(5);
    let b = Fixed::new(7);
    assert!(a.lt(b));
    assert!(a.le(b));
    assert!(a.le(a));
    assert!(!b.lt(a));
    assert!(a == Fixed::new(5));
}

#[test]
fn clamp_pins_to_the_nearer_bound() {
    let lo = Fixed::zero();
    let hi = Fixed::new(999_000);
    assert_eq!(clamp(Fixed::from_int(2), lo, hi).raw(), 999_000);
    assert_eq!(clamp(Fixed::from_int(-1), lo, hi).raw(), 0);
    assert_eq!(clamp(Fixed::new(123_456), lo, hi).raw(), 123_456);
}
