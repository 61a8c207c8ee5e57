use car_kinematics::fixed::{Fixed, MAX_RAW, MIN_RAW, ONE_RAW};
use car_kinematics::trig::{cos, sin, sin_cos, FULL_TURN_RAW, QUARTER_TURN_RAW};

fn fx(x: f64) -> Fixed {
    Fixed::from_raw((x * 4294967296.0).round() as i64)
}

fn to_float(x: Fixed) -> f64 {
    x.raw() as f64 / 4294967296.0
}

#[test]
fn quarter_turn_is_half_pi() {
    assert_eq!(QUARTER_TURN_RAW, (std::f64::consts::FRAC_PI_2 * 4294967296.0).round() as i64);
    assert_eq!(FULL_TURN_RAW, 4 * QUARTER_TURN_RAW);
}

#[test]
fn sine_and_cosine_at_zero() {
    let (s, c) = sin_cos(Fixed::zero());
    assert_eq!(s.raw(), 0);
    assert_eq!(c.raw(), ONE_RAW);
}

#[test]
fn sine_and_cosine_at_quarter_turns_are_exact() {
    let q = QUARTER_TURN_RAW;
    let expect = [(0, 1), (1, 0), (0, -1), (-1, 0), (0, 1), (1, 0)];
    for (k, (s, c)) in expect.iter().enumerate() {
        let angle = Fixed::from_raw(q * k as i64);
        assert_eq!(sin(angle).raw(), s * ONE_RAW, "sin at {} quarter turns", k);
        assert_eq!(cos(angle).raw(), c * ONE_RAW, "cos at {} quarter turns", k);
    }
    assert_eq!(sin(Fixed::from_raw(-q)).raw(), -ONE_RAW);
    assert_eq!(cos(Fixed::from_raw(-q)).raw(), 0);
    assert_eq!(cos(Fixed::from_raw(-2 * q)).raw(), -ONE_RAW);
}

#[test]
fn sine_and_cosine_follow_the_real_functions() {
    let mut x = -7.0f64;
    while x <= 7.0 {
        let (s, c) = sin_cos(fx(x));
        assert!((to_float(s) - x.sin()).abs() < 1e-8, "sin({}) = {} but {}", x, to_float(s), x.sin());
        assert!((to_float(c) - x.cos()).abs() < 1e-8, "cos({}) = {} but {}", x, to_float(c), x.cos());
        x += 0.001953125;
    }
}

#[test]
fn sine_and_cosine_of_twenty_degrees() {
    let angle = fx(20.0f64.to_radians());
    assert!((to_float(sin(angle)) - 0.3420201433256687).abs() < 1e-9);
    assert!((to_float(cos(angle)) - 0.9396926207859084).abs() < 1e-9);
}

#[test]
fn sine_is_odd_and_cosine_is_even() {
    for raw in [1i64, 12345, ONE_RAW, 3 * ONE_RAW, QUARTER_TURN_RAW + 17, 1 << 40, MAX_RAW] {
        let a = Fixed::from_raw(raw);
        assert_eq!(sin(a.neg()).raw(), -sin(a).raw());
        assert_eq!(cos(a.neg()).raw(), cos(a).raw());
    }
}

#[test]
fn sine_and_cosine_stay_within_one() {
    for raw in [MIN_RAW, MIN_RAW + 1, -1, 0, 1, QUARTER_TURN_RAW - 1, QUARTER_TURN_RAW + 1, MAX_RAW] {
        let (s, c) = sin_cos(Fixed::from_raw(raw));
        assert!(-ONE_RAW <= s.raw() && s.raw() <= ONE_RAW);
        assert!(-ONE_RAW <= c.raw() && c.raw() <= ONE_RAW);
    }
}

#[test]
fn squares_of_sine_and_cosine_add_up_to_one() {
    let mut x = -3.2f64;
    while x <= 3.2 {
        let (s, c) = sin_cos(fx(x));
        let sum = s.mul(s).add(c.mul(c));
        assert!((to_float(sum) - 1.0).abs() < 1e-8, "at {}", x);
        x += 0.0123;
    }
}

#[test]
fn sin_and_cos_agree_with_sin_cos() {
    let a = fx(1.2345);
    let (s, c) = sin_cos(a);
    assert_eq!(sin(a), s);
    assert_eq!(cos(a), c);
}

#[test]
fn cosine_and_sine_keep_to_their_taylor_bounds_on_the_first_quarter_turn() {
    let k = ONE_RAW as i128;
    for raw in (0..QUARTER_TURN_RAW).step_by(3_141_593) {
        let t = raw as i128;
        let (s, c) = sin_cos(Fixed::from_raw(raw));
        let (s, c) = (s.raw() as i128, c.raw() as i128);
        // cos t >= 1 - t^2 / 2, and (sin t)^2 <= t^2, but for rounding
        assert!(2 * k * c >= 2 * k * k - t * t - 2 * t - k - 1, "at raw angle {}", raw);
        assert!(c <= k);
        assert!(0 <= s);
        assert!(s * s <= t * t + 2 * t + 3 * k + 1, "at raw angle {}", raw);
    }
}
