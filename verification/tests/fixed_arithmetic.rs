use car_kinematics::fixed::{Fixed, MAX_RAW, MINUS_ONE_RAW, MIN_RAW, ONE_RAW};

fn fx(x: f64) -> Fixed {
    Fixed::from_raw((x * 4294967296.0).round() as i64)
}

fn to_float(x: Fixed) -> f64 {
    x.raw() as f64 / 4294967296.0
}

#[test]
fn one_times_one_is_one() {
    let one = Fixed::one();
    assert_eq!(one.mul(one).raw(), ONE_RAW);
}

#[test]
fn constants_have_their_raw_values() {
    assert_eq!(Fixed::zero().raw(), 0);
    assert_eq!(Fixed::one().raw(), 4294967296);
    assert_eq!(ONE_RAW, 1i64 << 32);
    assert_eq!(MINUS_ONE_RAW, -(1i64 << 32));
    assert_eq!(MAX_RAW, i64::MAX);
    assert_eq!(MIN_RAW, i64::MIN);
}

#[test]
fn from_int_scales_by_two_to_the_32() {
    assert_eq!(Fixed::from_int(0).raw(), 0);
    assert_eq!(Fixed::from_int(4).raw(), 4 * ONE_RAW);
    assert_eq!(Fixed::from_int(-3).raw(), -3 * ONE_RAW);
    assert_eq!(Fixed::from_int(i32::MAX).raw(), (i32::MAX as i64) << 32);
    assert_eq!(Fixed::from_int(i32::MIN).raw(), i64::MIN);
}

#[test]
fn add_and_sub_are_exact_within_range() {
    let a = Fixed::from_raw(5_000_000_001);
    let b = Fixed::from_raw(-2_000_000_003);
    assert_eq!(a.add(b).raw(), 2_999_999_998);
    assert_eq!(a.sub(b).raw(), 7_000_000_004);
    assert_eq!(b.sub(a).raw(), -7_000_000_004);
}

#[test]
fn add_and_sub_saturate() {
    let max = Fixed::from_raw(MAX_RAW);
    let min = Fixed::from_raw(MIN_RAW);
    let one = Fixed::one();
    assert_eq!(max.add(one).raw(), MAX_RAW);
    assert_eq!(min.sub(one).raw(), MIN_RAW);
    assert_eq!(min.add(min).raw(), MIN_RAW);
    assert_eq!(max.sub(min).raw(), MAX_RAW);
    assert_eq!(max.add(min).raw(), -1);
}

#[test]
fn neg_saturates_only_at_the_smallest_value() {
    assert_eq!(Fixed::from_raw(7).neg().raw(), -7);
    assert_eq!(Fixed::from_raw(-7).neg().raw(), 7);
    assert_eq!(Fixed::from_raw(MAX_RAW).neg().raw(), -MAX_RAW);
    assert_eq!(Fixed::from_raw(MIN_RAW).neg().raw(), MAX_RAW);
}

#[test]
fn mul_gives_exact_products_of_dyadic_numbers() {
    assert_eq!(fx(1.5).mul(fx(2.5)).raw(), fx(3.75).raw());
    assert_eq!(fx(-1.5).mul(fx(2.5)).raw(), fx(-3.75).raw());
    assert_eq!(fx(-1.5).mul(fx(-2.5)).raw(), fx(3.75).raw());
    assert_eq!(fx(0.0).mul(fx(-2.5)).raw(), 0);
    assert_eq!(fx(123.0).mul(Fixed::one()).raw(), fx(123.0).raw());
}

#[test]
fn mul_rounds_to_nearest_with_ties_away_from_zero() {
    // raw 1 times raw 2^31 is half a raw unit: a tie.
    let tiny = Fixed::from_raw(1);
    let half = Fixed::from_raw(1 << 31);
    assert_eq!(tiny.mul(half).raw(), 1);
    assert_eq!(tiny.neg().mul(half).raw(), -1);
    // just below a tie rounds down
    let below = Fixed::from_raw((1 << 31) - 1);
    assert_eq!(tiny.mul(below).raw(), 0);
    // three halves of a raw unit round to two
    assert_eq!(Fixed::from_raw(3).mul(half).raw(), 2);
    assert_eq!(Fixed::from_raw(-3).mul(half).raw(), -2);
}

#[test]
fn mul_saturates() {
    let big = Fixed::from_int(100_000);
    assert_eq!(big.mul(big).raw(), MAX_RAW);
    assert_eq!(big.mul(big.neg()).raw(), MIN_RAW);
    let min = Fixed::from_raw(MIN_RAW);
    assert_eq!(min.mul(min).raw(), MAX_RAW);
    assert_eq!(min.mul(Fixed::one()).raw(), MIN_RAW);
    assert_eq!(min.mul(Fixed::from_raw(MINUS_ONE_RAW)).raw(), MAX_RAW);
}

#[test]
fn div_gives_exact_quotients_of_dyadic_numbers() {
    assert_eq!(fx(3.75).div(fx(2.5)).raw(), fx(1.5).raw());
    assert_eq!(fx(-3.75).div(fx(2.5)).raw(), fx(-1.5).raw());
    assert_eq!(fx(3.75).div(fx(-2.5)).raw(), fx(-1.5).raw());
    assert_eq!(fx(1.0).div(fx(4.0)).raw(), fx(0.25).raw());
    assert_eq!(fx(7.0).div(Fixed::one()).raw(), fx(7.0).raw());
}

#[test]
fn div_rounds_to_nearest() {
    // 1 / 3 = 0.333..., raw 1431655765.33 rounds down
    assert_eq!(Fixed::one().div(Fixed::from_int(3)).raw(), 1431655765);
    // 2 / 3 = 0.666..., raw 2863311530.67 rounds up
    assert_eq!(Fixed::from_int(2).div(Fixed::from_int(3)).raw(), 2863311531);
    assert_eq!(Fixed::from_int(-2).div(Fixed::from_int(3)).raw(), -2863311531);
    // a tie: raw 1 over 2 is half a raw unit, away from zero
    assert_eq!(Fixed::from_raw(1).div(Fixed::from_int(2)).raw(), 1);
    assert_eq!(Fixed::from_raw(-1).div(Fixed::from_int(2)).raw(), -1);
}

#[test]
fn div_by_zero_saturates_by_the_sign_of_the_numerator() {
    let zero = Fixed::zero();
    assert_eq!(Fixed::one().div(zero).raw(), MAX_RAW);
    assert_eq!(Fixed::from_raw(-1).div(zero).raw(), MIN_RAW);
    assert_eq!(zero.div(zero).raw(), 0);
}

#[test]
fn div_saturates() {
    let tiny = Fixed::from_raw(1);
    assert_eq!(Fixed::from_int(1000).div(tiny).raw(), MAX_RAW);
    assert_eq!(Fixed::from_int(-1000).div(tiny).raw(), MIN_RAW);
}

#[test]
fn sqrt_of_squares_is_exact() {
    assert_eq!(fx(4.0).sqrt().raw(), fx(2.0).raw());
    assert_eq!(fx(2.25).sqrt().raw(), fx(1.5).raw());
    assert_eq!(fx(0.25).sqrt().raw(), fx(0.5).raw());
    assert_eq!(Fixed::one().sqrt().raw(), ONE_RAW);
    assert_eq!(Fixed::zero().sqrt().raw(), 0);
}

#[test]
fn sqrt_rounds_down() {
    // sqrt(2) * 2^32 = 6074000999.95
    assert_eq!(fx(2.0).sqrt().raw(), 6074000999);
    // sqrt(raw 1) = sqrt(2^-32) = 2^-16
    assert_eq!(Fixed::from_raw(1).sqrt().raw(), 1 << 16);
    let r = Fixed::from_raw(MAX_RAW).sqrt();
    assert!((to_float(r) - 46340.95).abs() < 0.01);
}

#[test]
fn sqrt_of_a_negative_number_is_zero() {
    assert_eq!(fx(-4.0).sqrt().raw(), 0);
    assert_eq!(Fixed::from_raw(MIN_RAW).sqrt().raw(), 0);
}

#[test]
fn sqrt_is_the_floor_of_the_root() {
    for raw in [1i64, 2, 3, 1000, 123_456_789, 20_465_519_165, MAX_RAW] {
        let r = Fixed::from_raw(raw).sqrt().raw() as i128;
        let n = (raw as i128) << 32;
        assert!(r * r <= n);
        assert!(n < (r + 1) * (r + 1));
    }
}

#[test]
fn comparisons() {
    assert!(fx(1.0).lt(fx(1.5)));
    assert!(!fx(1.5).lt(fx(1.5)));
    assert!(fx(-2.0).lt(fx(-1.5)));
    assert!(fx(0.1).is_positive());
    assert!(!fx(0.0).is_positive());
    assert!(!fx(-0.1).is_positive());
    assert!(fx(0.0).is_zero());
    assert!(!Fixed::from_raw(1).is_zero());
}

#[test]
fn to_u32_drops_fractions_and_negative_numbers() {
    assert_eq!(fx(30.0).to_u32(), 30);
    assert_eq!(fx(30.99).to_u32(), 30);
    assert_eq!(fx(0.99).to_u32(), 0);
    assert_eq!(fx(-5.0).to_u32(), 0);
    assert_eq!(Fixed::from_raw(MAX_RAW).to_u32(), 0x7fff_ffff);
}

#[test]
fn from_double_bits_reads_ordinary_numbers() {
    for x in [0.0f64, 1.0, -1.0, 1.5, -2.75, 55.11, 142.95, 362.445, 800.0, 0.001, -1e-7, 2147483647.5] {
        let got = Fixed::from_double_bits(x.to_bits()).unwrap();
        let want = (x * 4294967296.0).round() as i64;
        assert_eq!(got.raw(), want, "{}", x);
    }
}

#[test]
fn from_double_bits_rounds_ties_away_from_zero() {
    // 2^-33 is half a raw unit
    let half_unit = 2f64.powi(-33);
    assert_eq!(Fixed::from_double_bits(half_unit.to_bits()).unwrap().raw(), 1);
    assert_eq!(Fixed::from_double_bits((-half_unit).to_bits()).unwrap().raw(), -1);
    // below half a raw unit
    assert_eq!(Fixed::from_double_bits(2f64.powi(-34).to_bits()).unwrap().raw(), 0);
    assert_eq!(Fixed::from_double_bits(1e-300f64.to_bits()).unwrap().raw(), 0);
    // the smallest positive numbers and minus zero
    assert_eq!(Fixed::from_double_bits(1).unwrap().raw(), 0);
    assert_eq!(Fixed::from_double_bits((-0.0f64).to_bits()).unwrap().raw(), 0);
}

#[test]
fn from_double_bits_refuses_what_has_no_value() {
    assert!(Fixed::from_double_bits(f64::INFINITY.to_bits()).is_none());
    assert!(Fixed::from_double_bits(f64::NEG_INFINITY.to_bits()).is_none());
    assert!(Fixed::from_double_bits(f64::NAN.to_bits()).is_none());
    assert!(Fixed::from_double_bits(2147483648.0f64.to_bits()).is_none());
    assert!(Fixed::from_double_bits((-2147483648.0f64).to_bits()).is_none());
    assert!(Fixed::from_double_bits(1e300f64.to_bits()).is_none());
    let largest = 2147483647.9999998f64;
    assert!(Fixed::from_double_bits(largest.to_bits()).is_some());
}
