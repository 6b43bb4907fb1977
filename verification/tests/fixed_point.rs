use maxwell_demon::fixed::{integer_sqrt, Fixed, LIMIT, ONE};

fn fixed_of(x: f64) -> Fixed {
    Fixed::from_raw((x * ONE as f64).round() as i64)
}

#[test]
fn one_is_two_to_the_24() {
    assert_eq!(ONE, 1 << 24);
    assert_eq!(LIMIT, 1 << 40);
    assert_eq!(Fixed::one().raw(), ONE);
    assert_eq!(Fixed::zero().raw(), 0);
}

#[test]
fn from_raw_saturates_at_the_limit() {
    assert_eq!(Fixed::from_raw(LIMIT).raw(), LIMIT);
    assert_eq!(Fixed::from_raw(LIMIT + 1).raw(), LIMIT);
    assert_eq!(Fixed::from_raw(i64::MAX).raw(), LIMIT);
    assert_eq!(Fixed::from_raw(-LIMIT - 1).raw(), -LIMIT);
    assert_eq!(Fixed::from_raw(i64::MIN).raw(), -LIMIT);
    assert_eq!(Fixed::from_raw(-12345).raw(), -12345);
}

#[test]
fn saturating_takes_wide_values() {
    assert_eq!(Fixed::saturating(i128::MAX).raw(), LIMIT);
    assert_eq!(Fixed::saturating(i128::MIN).raw(), -LIMIT);
    assert_eq!(Fixed::saturating(77).raw(), 77);
}

#[test]
fn sum_and_difference_saturate() {
    let big = Fixed::from_raw(LIMIT);
    assert_eq!(big.add(big).raw(), LIMIT);
    assert_eq!(big.neg().sub(big).raw(), -LIMIT);
    assert_eq!(fixed_of(1.5).add(fixed_of(2.25)), fixed_of(3.75));
    assert_eq!(fixed_of(1.5).sub(fixed_of(2.25)), fixed_of(-0.75));
}

#[test]
fn product_rounds_towards_zero() {
    assert_eq!(fixed_of(0.5).mul(fixed_of(0.5)), fixed_of(0.25));
    assert_eq!(fixed_of(-3.0).mul(fixed_of(1.5)), fixed_of(-4.5));
    // One raw unit times a half is half a raw unit: zero from either side.
    assert_eq!(Fixed::from_raw(1).mul(fixed_of(0.5)).raw(), 0);
    assert_eq!(Fixed::from_raw(-1).mul(fixed_of(0.5)).raw(), 0);
    assert_eq!(Fixed::from_raw(3).mul(fixed_of(0.5)).raw(), 1);
    assert_eq!(Fixed::from_raw(-3).mul(fixed_of(0.5)).raw(), -1);
}

#[test]
fn product_saturates() {
    let big = Fixed::from_raw(LIMIT);
    assert_eq!(big.mul(big).raw(), LIMIT);
    assert_eq!(big.mul(big.neg()).raw(), -LIMIT);
}

#[test]
fn negation_is_exact() {
    assert_eq!(Fixed::from_raw(LIMIT).neg().raw(), -LIMIT);
    assert_eq!(Fixed::from_raw(-LIMIT).neg().raw(), LIMIT);
    assert_eq!(Fixed::zero().neg().raw(), 0);
}

#[test]
fn integer_sqrt_rounds_down() {
    assert_eq!(integer_sqrt(0), 0);
    assert_eq!(integer_sqrt(1), 1);
    assert_eq!(integer_sqrt(2), 1);
    assert_eq!(integer_sqrt(3), 1);
    assert_eq!(integer_sqrt(4), 2);
    assert_eq!(integer_sqrt(15), 3);
    assert_eq!(integer_sqrt(16), 4);
    assert_eq!(integer_sqrt(17), 4);
    assert_eq!(integer_sqrt(1_000_000), 1000);
    assert_eq!(integer_sqrt(999_999), 999);
    assert_eq!(integer_sqrt(u128::MAX), u64::MAX as u128);
    assert_eq!(integer_sqrt((u64::MAX as u128) * (u64::MAX as u128)), u64::MAX as u128);
    assert_eq!(integer_sqrt((u64::MAX as u128) * (u64::MAX as u128) - 1), u64::MAX as u128 - 1);
}

#[test]
fn integer_sqrt_brackets_every_small_number() {
    for n in 0u128..5000 {
        let r = integer_sqrt(n);
        assert!(r * r <= n);
        assert!((r + 1) * (r + 1) > n);
    }
}

#[test]
fn square_root_of_fixed_values() {
    assert_eq!(fixed_of(4.0).sqrt(), fixed_of(2.0));
    assert_eq!(fixed_of(0.25).sqrt(), fixed_of(0.5));
    assert_eq!(Fixed::zero().sqrt(), Fixed::zero());
    assert_eq!(Fixed::one().sqrt(), Fixed::one());
    // The root of two, rounded down to a raw unit.
    assert_eq!(fixed_of(2.0).sqrt().raw(), 23_726_566);
    assert_eq!(Fixed::from_raw(LIMIT).sqrt().raw(), 1 << 32);
}
