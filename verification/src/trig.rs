//! Sine and cosine of fixed-point angles, in radians.
//!
//! An angle is first folded into a quarter turn. There the tangent `t` of
//! half the angle is computed from the power series of sine and cosine, and
//! the two functions are read off the unit circle:
//! `cos = (1 - t^2) / (1 + t^2)` and `sin = 2 t / (1 + t^2)`. Whatever the
//! series' error, the squares of the two results add up to one but for
//! the last rounding (`lemma_sin_cos_on_unit_circle`). A quarter turn is
//! `QUARTER_TURN_RAW`: multiples of it give exactly the values 0, 1 and -1.
//!
//! How near the results lie to the sine and the cosine of the angle is
//! proved from one side only: within the first quarter turn the cosine is
//! not below `1 - t^2 / 2` and the sine not above `t`, in the square
//! (`lemma_sin_cos_taylor_bounds`).
use crate::fixed::{magnitude, round_quot, Fixed, ONE_RAW};
use vstd::prelude::*;

verus! {

/// The raw value of a quarter turn, `pi / 2`.
pub const QUARTER_TURN_RAW: i64 = 6746518852;

/// The raw value of a full turn, four quarter turns.
pub const FULL_TURN_RAW: i64 = 26986075408;

/// One nesting level of a series: `1 - x2 * acc / d`, not below zero.
/// `x2` is the square of the angle and `acc` the value of the level inside,
/// both raw; `d` is a whole number.
pub open spec fn series_step(x2: int, acc: int, d: int) -> int {
    let cut = (x2 * acc / (ONE_RAW as int)) / d;
    if cut >= ONE_RAW {
        0
    } else {
        ONE_RAW - cut
    }
}

/// `sin(t) / t` for the raw square `x2` of `t`: the series up to `t^16`.
pub open spec fn sine_series(x2: int) -> int {
    let v8 = series_step(x2, ONE_RAW as int, 272);
    let v7 = series_step(x2, v8, 210);
    let v6 = series_step(x2, v7, 156);
    let v5 = series_step(x2, v6, 110);
    let v4 = series_step(x2, v5, 72);
    let v3 = series_step(x2, v4, 42);
    let v2 = series_step(x2, v3, 20);
    series_step(x2, v2, 6)
}

/// `cos(t)` for the raw square `x2` of `t`: the series up to `t^16`.
pub open spec fn cosine_series(x2: int) -> int {
    let v8 = series_step(x2, ONE_RAW as int, 240);
    let v7 = series_step(x2, v8, 182);
    let v6 = series_step(x2, v7, 132);
    let v5 = series_step(x2, v6, 90);
    let v4 = series_step(x2, v5, 56);
    let v3 = series_step(x2, v4, 30);
    let v2 = series_step(x2, v3, 12);
    series_step(x2, v2, 2)
}

/// The raw square of a raw angle.
pub open spec fn raw_square(t: int) -> int {
    t * t / (ONE_RAW as int)
}

/// The raw sine of a raw angle `t` by its series, not above one.
pub open spec fn series_sine(t: int) -> int {
    let s = t * sine_series(raw_square(t)) / (ONE_RAW as int);
    if s > ONE_RAW {
        ONE_RAW as int
    } else {
        s
    }
}

/// The raw cosine of a raw angle `t` by its series.
pub open spec fn series_cosine(t: int) -> int {
    cosine_series(raw_square(t))
}

/// The raw tangent of half the raw angle `t`, not above one: the quotient
/// of the series' values at `t / 2`, rounded to nearest.
pub open spec fn half_tangent(t: int) -> int {
    let s = series_sine(t / 2);
    let c = series_cosine(t / 2);
    if c <= 0 || round_quot(s * ONE_RAW, c) > ONE_RAW {
        ONE_RAW as int
    } else {
        round_quot(s * ONE_RAW, c)
    }
}

/// The raw x coordinate of the point of the unit circle whose half angle
/// has the raw tangent `tan`: `(1 - tan^2) / (1 + tan^2)`, rounded to nearest.
pub open spec fn unit_cosine(tan: int) -> int {
    round_quot((ONE_RAW * ONE_RAW - tan * tan) * ONE_RAW, ONE_RAW * ONE_RAW + tan * tan)
}

/// The raw y coordinate of the point of the unit circle whose half angle
/// has the raw tangent `tan`: `2 tan / (1 + tan^2)`, rounded to nearest.
pub open spec fn unit_sine(tan: int) -> int {
    round_quot((2 * ONE_RAW * tan) * ONE_RAW, ONE_RAW * ONE_RAW + tan * tan)
}

/// The raw sine of a raw angle `t` within the first quarter turn.
pub open spec fn quadrant_sine(t: int) -> int {
    unit_sine(half_tangent(t))
}

/// The raw cosine of a raw angle `t` within the first quarter turn.
pub open spec fn quadrant_cosine(t: int) -> int {
    unit_cosine(half_tangent(t))
}

/// The angle folded into one full turn, without its sign.
pub open spec fn folded(angle: Fixed) -> int {
    magnitude(angle@) % (FULL_TURN_RAW as int)
}

/// The raw sine of the magnitude of `angle`.
pub open spec fn sine_of_magnitude(angle: Fixed) -> int {
    let q = folded(angle) / (QUARTER_TURN_RAW as int);
    let t = folded(angle) % (QUARTER_TURN_RAW as int);
    if q == 0 {
        quadrant_sine(t)
    } else if q == 1 {
        quadrant_cosine(t)
    } else if q == 2 {
        -quadrant_sine(t)
    } else {
        -quadrant_cosine(t)
    }
}

/// The sine of `angle`: odd in the angle.
#[verifier::opaque]
pub open spec fn sin_spec(angle: Fixed) -> Fixed {
    if angle@ < 0 {
        Fixed { raw: (-sine_of_magnitude(angle)) as i64 }
    } else {
        Fixed { raw: sine_of_magnitude(angle) as i64 }
    }
}

/// The cosine of `angle`: even in the angle.
#[verifier::opaque]
pub open spec fn cos_spec(angle: Fixed) -> Fixed {
    let q = folded(angle) / (QUARTER_TURN_RAW as int);
    let t = folded(angle) % (QUARTER_TURN_RAW as int);
    if q == 0 {
        Fixed { raw: quadrant_cosine(t) as i64 }
    } else if q == 1 {
        Fixed { raw: (-quadrant_sine(t)) as i64 }
    } else if q == 2 {
        Fixed { raw: (-quadrant_cosine(t)) as i64 }
    } else {
        Fixed { raw: quadrant_sine(t) as i64 }
    }
}

/// A series level stays between zero and one.
pub proof fn lemma_series_step_range(x2: int, acc: int, d: int)
    requires
        0 <= x2,
        0 <= acc,
        0 < d,
    ensures
        0 <= series_step(x2, acc, d) <= ONE_RAW,
{
    assert(0 <= x2 * acc) by (nonlinear_arith)
        requires
            0 <= x2,
            0 <= acc,
    ;
    assert(0 <= (x2 * acc / (ONE_RAW as int)) / d) by (nonlinear_arith)
        requires
            0 <= x2 * acc,
            0 < d,
    ;
}

/// Both series stay between zero and one.
pub proof fn lemma_series_range(x2: int)
    requires
        0 <= x2,
    ensures
        0 <= sine_series(x2) <= ONE_RAW,
        0 <= cosine_series(x2) <= ONE_RAW,
{
    let one = ONE_RAW as int;
    let s8 = series_step(x2, one, 272);
    lemma_series_step_range(x2, one, 272);
    let s7 = series_step(x2, s8, 210);
    lemma_series_step_range(x2, s8, 210);
    let s6 = series_step(x2, s7, 156);
    lemma_series_step_range(x2, s7, 156);
    let s5 = series_step(x2, s6, 110);
    lemma_series_step_range(x2, s6, 110);
    let s4 = series_step(x2, s5, 72);
    lemma_series_step_range(x2, s5, 72);
    let s3 = series_step(x2, s4, 42);
    lemma_series_step_range(x2, s4, 42);
    let s2 = series_step(x2, s3, 20);
    lemma_series_step_range(x2, s3, 20);
    lemma_series_step_range(x2, s2, 6);
    let c8 = series_step(x2, one, 240);
    lemma_series_step_range(x2, one, 240);
    let c7 = series_step(x2, c8, 182);
    lemma_series_step_range(x2, c8, 182);
    let c6 = series_step(x2, c7, 132);
    lemma_series_step_range(x2, c7, 132);
    let c5 = series_step(x2, c6, 90);
    lemma_series_step_range(x2, c6, 90);
    let c4 = series_step(x2, c5, 56);
    lemma_series_step_range(x2, c5, 56);
    let c3 = series_step(x2, c4, 30);
    lemma_series_step_range(x2, c4, 30);
    let c2 = series_step(x2, c3, 12);
    lemma_series_step_range(x2, c3, 12);
    lemma_series_step_range(x2, c2, 2);
}

/// The series' values lie between zero and one.
pub proof fn lemma_series_values_range(t: int)
    requires
        0 <= t,
    ensures
        0 <= series_sine(t) <= ONE_RAW,
        0 <= series_cosine(t) <= ONE_RAW,
{
    assert(0 <= t * t) by (nonlinear_arith);
    let x2 = raw_square(t);
    lemma_series_range(x2);
    let v = sine_series(x2);
    assert(0 <= t * v) by (nonlinear_arith)
        requires
            0 <= t,
            0 <= v,
    ;
}

/// The tangent of half an angle lies between zero and one.
pub proof fn lemma_half_tangent_range(t: int)
    requires
        0 <= t,
    ensures
        0 <= half_tangent(t) <= ONE_RAW,
{
    lemma_series_values_range(t / 2);
    let s = series_sine(t / 2);
    let c = series_cosine(t / 2);
    if c > 0 {
        assert(0 <= (2 * (s * ONE_RAW) + c) / (2 * c)) by (nonlinear_arith)
            requires
                0 <= s,
                0 < c,
        ;
    }
}

/// A point read off the unit circle lies in the first quadrant, and the
/// squares of its coordinates add up to one but for the last rounding: the
/// sum differs from the square of one by at most two raw units of one.
pub proof fn lemma_unit_point(tan: int)
    requires
        0 <= tan <= ONE_RAW,
    ensures
        0 <= unit_cosine(tan) <= ONE_RAW,
        0 <= unit_sine(tan) <= ONE_RAW,
        -2 * ONE_RAW <= unit_cosine(tan) * unit_cosine(tan) + unit_sine(tan) * unit_sine(tan)
            - ONE_RAW * ONE_RAW <= 2 * ONE_RAW,
{
    let k = ONE_RAW as int;
    let d = k * k + tan * tan;
    let a = k * k - tan * tan;
    let b = 2 * k * tan;
    let x = a * k;
    let y = b * k;
    let c = unit_cosine(tan);
    let s = unit_sine(tan);
    assert(0 <= tan * tan <= k * k) by (nonlinear_arith)
        requires
            0 <= tan <= k,
    ;
    assert(0 <= b <= d) by (nonlinear_arith)
        requires
            0 <= tan <= k,
            b == 2 * k * tan,
            d == k * k + tan * tan,
    ;
    assert(0 <= a <= d);
    assert(0 <= x <= k * d) by (nonlinear_arith)
        requires
            0 <= a <= d,
            x == a * k,
            0 < k,
    ;
    assert(0 <= y <= k * d) by (nonlinear_arith)
        requires
            0 <= b <= d,
            y == b * k,
            0 < k,
    ;
    assert(x * x + y * y == (k * k) * (d * d)) by (nonlinear_arith)
        requires
            x == (k * k - tan * tan) * k,
            y == (2 * k * tan) * k,
            d == k * k + tan * tan,
    ;
    assert(c == (2 * x + d) / (2 * d));
    assert(s == (2 * y + d) / (2 * d));
    lemma_rounded_quotient(x, d, c);
    lemma_rounded_quotient(y, d, s);
    assert(c <= k) by (nonlinear_arith)
        requires
            2 * (c * d - x) <= d,
            0 <= x <= k * d,
            0 < d,
    ;
    assert(s <= k) by (nonlinear_arith)
        requires
            2 * (s * d - y) <= d,
            0 <= y <= k * d,
            0 < d,
    ;
    lemma_near_unit(k, d, x, y, c, s);
}

/// What rounding a quotient to nearest means: `q * d` differs from `n` by
/// at most half of `d`.
pub proof fn lemma_rounded_quotient(n: int, d: int, q: int)
    requires
        0 <= n,
        0 < d,
        q == (2 * n + d) / (2 * d),
    ensures
        0 <= q,
        -d < 2 * (q * d - n) <= d,
{
    assert(0 <= q && -d < 2 * (q * d - n) <= d) by (nonlinear_arith)
        requires
            0 <= n,
            0 < d,
            q == (2 * n + d) / (2 * d),
    ;
}

/// If `x^2 + y^2 = (k d)^2`, and `c d` and `s d` differ from `x` and `y` by
/// at most `d / 2`, then `c^2 + s^2` differs from `k^2` by at most `2 k`.
pub proof fn lemma_near_unit(k: int, d: int, x: int, y: int, c: int, s: int)
    requires
        0 < k,
        0 < d,
        0 <= x <= k * d,
        0 <= y <= k * d,
        x * x + y * y == (k * k) * (d * d),
        -d < 2 * (c * d - x) <= d,
        -d < 2 * (s * d - y) <= d,
    ensures
        -2 * k <= c * c + s * s - k * k <= 2 * k,
{
    let u = c * d - x;
    let v = s * d - y;
    let e = c * c + s * s - k * k;
    let cd = c * d;
    let sd = s * d;
    assert(cd * cd == x * x + 2 * (x * u) + u * u) by (nonlinear_arith)
        requires
            cd == x + u,
    ;
    assert(sd * sd == y * y + 2 * (y * v) + v * v) by (nonlinear_arith)
        requires
            sd == y + v,
    ;
    assert(cd * cd == (c * c) * (d * d)) by (nonlinear_arith)
        requires
            cd == c * d,
    ;
    assert(sd * sd == (s * s) * (d * d)) by (nonlinear_arith)
        requires
            sd == s * d,
    ;
    assert(e * (d * d) == (c * c) * (d * d) + (s * s) * (d * d) - (k * k) * (d * d))
        by (nonlinear_arith)
        requires
            e == c * c + s * s - k * k,
    ;
    assert(e * (d * d) == 2 * (x * u) + 2 * (y * v) + u * u + v * v);
    assert(-(k * (d * d)) <= 2 * (x * u) <= k * (d * d)) by (nonlinear_arith)
        requires
            0 <= x <= k * d,
            -d < 2 * u <= d,
            0 < d,
            0 < k,
    ;
    assert(-(k * (d * d)) <= 2 * (y * v) <= k * (d * d)) by (nonlinear_arith)
        requires
            0 <= y <= k * d,
            -d < 2 * v <= d,
            0 < d,
            0 < k,
    ;
    assert(0 <= 4 * (u * u) <= d * d) by (nonlinear_arith)
        requires
            -d < 2 * u <= d,
            0 < d,
    ;
    assert(0 <= 4 * (v * v) <= d * d) by (nonlinear_arith)
        requires
            -d < 2 * v <= d,
            0 < d,
    ;
    let dd = d * d;
    assert(0 < dd) by (nonlinear_arith)
        requires
            0 < d,
            dd == d * d,
    ;
    assert(-(2 * k + 1) * dd < e * dd < (2 * k + 1) * dd) by (nonlinear_arith)
        requires
            e * dd == 2 * (x * u) + 2 * (y * v) + u * u + v * v,
            -(k * dd) <= 2 * (x * u) <= k * dd,
            -(k * dd) <= 2 * (y * v) <= k * dd,
            0 <= 4 * (u * u) <= dd,
            0 <= 4 * (v * v) <= dd,
            0 < dd,
    ;
    assert(-(2 * k + 1) < e < 2 * k + 1) by (nonlinear_arith)
        requires
            -(2 * k + 1) * dd < e * dd < (2 * k + 1) * dd,
            0 < dd,
    ;
}

/// Within a quarter turn, sine and cosine lie between zero and one, and
/// their squares add up to one but for two raw units of one.
pub proof fn lemma_quadrant_range(t: int)
    requires
        0 <= t,
    ensures
        0 <= quadrant_sine(t) <= ONE_RAW,
        0 <= quadrant_cosine(t) <= ONE_RAW,
        -2 * ONE_RAW <= quadrant_cosine(t) * quadrant_cosine(t) + quadrant_sine(t) * quadrant_sine(
            t,
        ) - ONE_RAW * ONE_RAW <= 2 * ONE_RAW,
{
    lemma_half_tangent_range(t);
    lemma_unit_point(half_tangent(t));
}

/// Sine and cosine never leave the range from minus one to one.
pub proof fn lemma_sin_cos_range(angle: Fixed)
    ensures
        -ONE_RAW <= sin_spec(angle)@ <= ONE_RAW,
        -ONE_RAW <= cos_spec(angle)@ <= ONE_RAW,
        sin_spec(angle)@ == if angle@ < 0 {
            -sine_of_magnitude(angle)
        } else {
            sine_of_magnitude(angle)
        },
{
    reveal(sin_spec);
    reveal(cos_spec);
    let t = folded(angle) % (QUARTER_TURN_RAW as int);
    lemma_quadrant_range(t);
}

/// Sine and cosine lie on the unit circle but for the last rounding: the
/// sum of their squares differs from the square of one by at most two raw
/// units of one, whatever the angle.
pub proof fn lemma_sin_cos_on_unit_circle(angle: Fixed)
    ensures
        -2 * ONE_RAW <= cos_spec(angle)@ * cos_spec(angle)@ + sin_spec(angle)@ * sin_spec(angle)@
            - ONE_RAW * ONE_RAW <= 2 * ONE_RAW,
{
    reveal(sin_spec);
    reveal(cos_spec);
    lemma_sin_cos_range(angle);
    let t = folded(angle) % (QUARTER_TURN_RAW as int);
    lemma_quadrant_range(t);
    let s0 = quadrant_sine(t);
    let c0 = quadrant_cosine(t);
    let s = sin_spec(angle)@;
    let c = cos_spec(angle)@;
    assert((s == s0 || s == -s0) && (c == c0 || c == -c0) || (s == c0 || s == -c0) && (c == s0
        || c == -s0));
    assert((-s0) * (-s0) == s0 * s0) by (nonlinear_arith);
    assert((-c0) * (-c0) == c0 * c0) by (nonlinear_arith);
    assert(c * c + s * s == c0 * c0 + s0 * s0);
}

/// The series of the cosine is not below the Taylor polynomial `1 - x / 2`
/// in the square `x` of the angle: twice what it lacks to one is at most the
/// raw square.
pub proof fn lemma_cosine_series_lower(x2: int)
    requires
        0 <= x2,
    ensures
        0 <= cosine_series(x2) <= ONE_RAW,
        2 * (ONE_RAW - cosine_series(x2)) <= x2,
{
    let k = ONE_RAW as int;
    lemma_series_range(x2);
    let v8 = series_step(x2, k, 240);
    lemma_series_step_range(x2, k, 240);
    let v7 = series_step(x2, v8, 182);
    lemma_series_step_range(x2, v8, 182);
    let v6 = series_step(x2, v7, 132);
    lemma_series_step_range(x2, v7, 132);
    let v5 = series_step(x2, v6, 90);
    lemma_series_step_range(x2, v6, 90);
    let v4 = series_step(x2, v5, 56);
    lemma_series_step_range(x2, v5, 56);
    let v3 = series_step(x2, v4, 30);
    lemma_series_step_range(x2, v4, 30);
    let v2 = series_step(x2, v3, 12);
    lemma_series_step_range(x2, v3, 12);
    assert(cosine_series(x2) == series_step(x2, v2, 2));
    let p = x2 * v2;
    assert(0 <= p <= x2 * k) by (nonlinear_arith)
        requires
            0 <= x2,
            0 <= v2 <= k,
            p == x2 * v2,
    ;
    let cut = (p / k) / 2;
    assert(2 * cut <= x2) by (nonlinear_arith)
        requires
            0 <= p <= x2 * k,
            cut == (p / k) / 2,
            k == 0x1_0000_0000,
    ;
}

/// The series of the sine is not above the angle, which is the Taylor
/// polynomial of the first degree.
pub proof fn lemma_series_sine_upper(t: int)
    requires
        0 <= t,
    ensures
        0 <= series_sine(t) <= t,
{
    let k = ONE_RAW as int;
    lemma_series_values_range(t);
    assert(0 <= t * t) by (nonlinear_arith);
    lemma_series_range(raw_square(t));
    let v = sine_series(raw_square(t));
    let p = t * v;
    assert(0 <= p <= t * k) by (nonlinear_arith)
        requires
            0 <= t,
            0 <= v <= k,
            p == t * v,
    ;
    assert(p / k <= t) by (nonlinear_arith)
        requires
            0 <= p <= t * k,
            k == 0x1_0000_0000,
    ;
}

/// The algebra of the cosine's lower bound. Let `c` be at least
/// `k - h^2 / 2 k` and `s` at most `h`, `tan` their quotient rounded to
/// nearest or less, and `q` the quotient of `(k^2 - tan^2) k` and
/// `k^2 + tan^2`, rounded to nearest. Then `q` is at least
/// `k - (2 h)^2 / 2 k`, but for rounding.
pub proof fn lemma_cosine_lower(k: int, h: int, s: int, c: int, tan: int, q: int)
    requires
        0 < k,
        0 <= h,
        0 <= s <= h,
        0 <= c <= k,
        2 * k * (k - c) <= h * h,
        0 <= tan,
        2 * (tan * c) <= 2 * (s * k) + c,
        -(k * k + tan * tan) < 2 * (q * (k * k + tan * tan) - (k * k - tan * tan) * k),
    ensures
        2 * k * q >= 2 * (k * k) - 4 * (h * h) - 4 * h - k - 1,
{
    let kk = k * k;
    let hh = h * h;
    let tt = tan * tan;
    let cc = c * c;
    let d = kk + tt;
    let e = k - c;
    assert(0 <= tt) by (nonlinear_arith)
        requires
            tt == tan * tan,
    ;
    assert(0 < kk) by (nonlinear_arith)
        requires
            kk == k * k,
            0 < k,
    ;
    // c^2 >= k^2 - h^2
    assert(cc == kk - 2 * (k * e) + e * e) by (nonlinear_arith)
        requires
            cc == c * c,
            kk == k * k,
            e == k - c,
    ;
    assert(0 <= e * e) by (nonlinear_arith);
    assert(2 * (k * e) == 2 * k * (k - c)) by (nonlinear_arith)
        requires
            e == k - c,
    ;
    assert(cc >= kk - hh);
    // (2 tan c)^2 <= (2 h k + k)^2
    let u = 2 * (tan * c);
    let w = 2 * (h * k) + k;
    assert(s * k <= h * k) by (nonlinear_arith)
        requires
            0 <= s <= h,
            0 < k,
    ;
    assert(0 <= u) by (nonlinear_arith)
        requires
            0 <= tan,
            0 <= c,
            u == 2 * (tan * c),
    ;
    assert(u <= w);
    assert(u * u <= w * w) by (nonlinear_arith)
        requires
            0 <= u <= w,
    ;
    assert(u * u == 4 * (tt * cc)) by (nonlinear_arith)
        requires
            u == 2 * (tan * c),
            tt == tan * tan,
            cc == c * c,
    ;
    assert(w * w == 4 * (hh * kk) + 4 * (h * kk) + kk) by (nonlinear_arith)
        requires
            w == 2 * (h * k) + k,
            hh == h * h,
            kk == k * k,
    ;
    let ttcc = tt * cc;
    let ttkk = tt * kk;
    let tthh = tt * hh;
    let hhkk = hh * kk;
    let hkk = h * kk;
    assert(ttkk - tthh <= ttcc) by (nonlinear_arith)
        requires
            0 <= tt,
            cc >= kk - hh,
            ttkk == tt * kk,
            tthh == tt * hh,
            ttcc == tt * cc,
    ;
    assert(4 * ttkk <= 4 * tthh + 4 * hhkk + 4 * hkk + kk);
    // 2 k q d >= d (2 k^2 - 4 h^2 - 4 h - 1 - k)
    let qd = q * d;
    let x = (kk - tt) * k;
    assert(2 * (k * qd) > 2 * (k * x) - k * d) by (nonlinear_arith)
        requires
            -d < 2 * (qd - x),
            0 < k,
    ;
    assert(k * x == kk * kk - ttkk) by (nonlinear_arith)
        requires
            x == (kk - tt) * k,
            kk == k * k,
            ttkk == tt * kk,
    ;
    let goal = 2 * kk - 4 * hh - 4 * h - k - 1;
    assert(goal * d == 2 * (kk * kk) + 2 * ttkk - 4 * hhkk - 4 * tthh - (4 * h + k + 1) * d)
        by (nonlinear_arith)
        requires
            goal == 2 * kk - 4 * hh - 4 * h - k - 1,
            d == kk + tt,
            ttkk == tt * kk,
            hhkk == hh * kk,
            tthh == tt * hh,
    ;
    assert((4 * h + k + 1) * d == 4 * (h * d) + k * d + d) by (nonlinear_arith);
    assert(h * d >= hkk) by (nonlinear_arith)
        requires
            d >= kk,
            0 <= h,
            hkk == h * kk,
    ;
    assert(goal * d <= 2 * (k * qd));
    assert(k * qd == (k * q) * d) by (nonlinear_arith)
        requires
            qd == q * d,
    ;
    let kq = k * q;
    assert(goal <= 2 * kq) by (nonlinear_arith)
        requires
            goal * d <= 2 * (kq * d),
            0 < d,
    ;
    assert(2 * k * q == 2 * kq) by (nonlinear_arith)
        requires
            kq == k * q,
    ;
}

/// Within the first quarter turn the cosine is not below the Taylor
/// polynomial `1 - t^2 / 2`, and the square of the sine not above `t^2`,
/// the square of the Taylor polynomial `t`; both but for rounding. Nothing
/// is said here of how far the cosine lies below one, or the sine below `t`.
pub proof fn lemma_quadrant_taylor_bounds(t: int)
    requires
        0 <= t,
    ensures
        2 * ONE_RAW * quadrant_cosine(t) >= 2 * (ONE_RAW * ONE_RAW) - t * t - 2 * t - ONE_RAW - 1,
        quadrant_sine(t) * quadrant_sine(t) <= t * t + 2 * t + 3 * ONE_RAW + 1,
{
    let k = ONE_RAW as int;
    let h = t / 2;
    let x2 = raw_square(h);
    let s = series_sine(h);
    let c = series_cosine(h);
    let tan = half_tangent(t);
    let q = quadrant_cosine(t);
    let y = quadrant_sine(t);
    lemma_series_sine_upper(h);
    assert(0 <= h * h) by (nonlinear_arith);
    lemma_cosine_series_lower(x2);
    assert(x2 * k <= h * h) by (nonlinear_arith)
        requires
            x2 == (h * h) / k,
            0 <= h * h,
            k == 0x1_0000_0000,
    ;
    assert(2 * k * (k - c) <= h * h) by (nonlinear_arith)
        requires
            2 * (k - c) <= x2,
            x2 * k <= h * h,
            0 < k,
    ;
    lemma_half_tangent_range(t);
    // the tangent is the quotient rounded to nearest, or less
    if c > 0 {
        let n = s * k;
        let r = round_quot(n, c);
        assert(0 <= n) by (nonlinear_arith)
            requires
                0 <= s,
                n == s * k,
                0 < k,
        ;
        lemma_rounded_quotient(n, c, r);
        assert(tan <= r);
        assert(tan * c <= r * c) by (nonlinear_arith)
            requires
                0 <= tan <= r,
                0 < c,
        ;
    } else {
        assert(tan * c == 0) by (nonlinear_arith)
            requires
                c == 0,
        ;
        assert(0 <= s * k) by (nonlinear_arith)
            requires
                0 <= s,
                0 < k,
        ;
    }
    assert(2 * (tan * c) <= 2 * (s * k) + c);
    // the cosine is the quotient rounded to nearest
    let d = k * k + tan * tan;
    let x = (k * k - tan * tan) * k;
    assert(0 <= tan * tan <= k * k) by (nonlinear_arith)
        requires
            0 <= tan <= k,
    ;
    assert(0 <= x) by (nonlinear_arith)
        requires
            x == (k * k - tan * tan) * k,
            0 <= k * k - tan * tan,
            0 < k,
    ;
    assert(q == (2 * x + d) / (2 * d));
    lemma_rounded_quotient(x, d, q);
    lemma_cosine_lower(k, h, s, c, tan, q);
    assert(4 * (h * h) <= t * t) by (nonlinear_arith)
        requires
            0 <= 2 * h <= t,
    ;
    // the sine, by the unit circle
    lemma_unit_point(tan);
    let g = t * t + 2 * t + k + 1;
    assert(2 * k * q >= 2 * (k * k) - g);
    assert(0 <= t * t) by (nonlinear_arith);
    if g <= 2 * (k * k) {
        assert(q * q >= k * k - g) by (nonlinear_arith)
            requires
                2 * k * q >= 2 * (k * k) - g,
                0 <= g <= 2 * (k * k),
                0 <= q <= k,
                0 < k,
        ;
    } else {
        assert(0 <= q * q) by (nonlinear_arith);
    }
}

/// Within the first quarter turn the cosine of an angle `t` is not below
/// `1 - t^2 / 2` but for rounding, and not above one; the sine is not
/// negative, and its square is not above `t^2` but for rounding. In raw
/// units: `2^33` times the cosine is at least `2^65 - t^2 - 2 t - 2^32 - 1`,
/// and the sine's square is at most `t^2 + 2 t + 3 * 2^32 + 1`.
pub proof fn lemma_sin_cos_taylor_bounds(angle: Fixed)
    requires
        0 <= angle@ < QUARTER_TURN_RAW,
    ensures
        2 * ONE_RAW * cos_spec(angle)@ >= 2 * (ONE_RAW * ONE_RAW) - angle@ * angle@ - 2 * angle@
            - ONE_RAW - 1,
        cos_spec(angle)@ <= ONE_RAW,
        0 <= sin_spec(angle)@,
        sin_spec(angle)@ * sin_spec(angle)@ <= angle@ * angle@ + 2 * angle@ + 3 * ONE_RAW + 1,
{
    reveal(sin_spec);
    reveal(cos_spec);
    let t = angle@;
    assert(folded(angle) == t);
    assert(t / (QUARTER_TURN_RAW as int) == 0);
    assert(t % (QUARTER_TURN_RAW as int) == t);
    lemma_quadrant_range(t);
    lemma_quadrant_taylor_bounds(t);
}

/// At the angle zero the sine is zero and the cosine is one.
pub proof fn lemma_sin_cos_of_zero()
    ensures
        sin_spec(Fixed { raw: 0 }) == (Fixed { raw: 0 }),
        cos_spec(Fixed { raw: 0 }) == (Fixed { raw: ONE_RAW }),
{
    reveal(sin_spec);
    reveal(cos_spec);
    lemma_quadrant_at_zero();
}

/// At a quarter turn the sine is one and the cosine is zero.
pub proof fn lemma_sin_cos_of_quarter_turn()
    ensures
        sin_spec(Fixed { raw: QUARTER_TURN_RAW }) == (Fixed { raw: ONE_RAW }),
        cos_spec(Fixed { raw: QUARTER_TURN_RAW }) == (Fixed { raw: 0 }),
{
    reveal(sin_spec);
    reveal(cos_spec);
    lemma_quadrant_at_zero();
}

/// The values at the start of a quarter turn.
pub proof fn lemma_quadrant_at_zero()
    ensures
        quadrant_sine(0) == 0,
        quadrant_cosine(0) == ONE_RAW,
{
    let one = ONE_RAW as int;
    assert(raw_square(0) == 0);
    assert(forall|acc: int, d: int| 0 < d ==> #[trigger] series_step(0, acc, d) == one) by {
        assert forall|acc: int, d: int| 0 < d implies #[trigger] series_step(0, acc, d) == one by {
            assert(0 * acc == 0);
            assert(0int / d == 0) by (nonlinear_arith)
                requires
                    0 < d,
            ;
        }
    }
    assert(cosine_series(0) == one);
    assert(series_sine(0) == 0);
    assert(series_cosine(0) == one);
    assert(0int / 2 == 0);
    assert(round_quot(0 * one, one) == 0);
    assert(half_tangent(0) == 0);
    let square = one * one;
    assert(square == 0x1_0000_0000_0000_0000);
    assert((2 * one * 0) * one == 0);
    assert(square + 0 * 0 == square);
    assert(round_quot(0, square) == 0) by (nonlinear_arith)
        requires
            0 < square,
    ;
    assert(unit_sine(0) == 0);
    assert((square - 0 * 0) * one == 0x1_0000_0000_0000_0000_0000_0000);
    assert(round_quot(0x1_0000_0000_0000_0000_0000_0000, square) == one);
    assert(unit_cosine(0) == one);
}

/// The sine is odd and the cosine even: negating an angle negates its sine
/// and keeps its cosine. (The smallest value has no negation.)
pub proof fn lemma_sin_cos_symmetry(angle: Fixed)
    requires
        angle.raw > crate::fixed::MIN_RAW,
    ensures
        sin_spec(angle.neg_spec()) == sin_spec(angle).neg_spec(),
        cos_spec(angle.neg_spec()) == cos_spec(angle),
{
    reveal(sin_spec);
    reveal(cos_spec);
    lemma_sin_cos_range(angle);
    lemma_sin_cos_range(angle.neg_spec());
    lemma_quadrant_at_zero();
    let t = folded(angle) % (QUARTER_TURN_RAW as int);
    lemma_quadrant_range(t);
}

/// One level of a series.
fn series_step_of(x2: u64, acc: u64, d: u64) -> (r: u64)
    requires
        acc <= ONE_RAW,
        0 < d,
    ensures
        r == series_step(x2 as int, acc as int, d as int),
        r <= ONE_RAW,
{
    proof {
        lemma_series_step_range(x2 as int, acc as int, d as int);
    }
    assert(x2 * acc <= 0xffff_ffff_ffff_ffff * 0x1_0000_0000) by (nonlinear_arith)
        requires
            x2 <= 0xffff_ffff_ffff_ffff,
            acc <= 0x1_0000_0000,
    ;
    let p: u128 = (x2 as u128) * (acc as u128);
    let cut: u128 = (p / 0x1_0000_0000) / (d as u128);
    if cut >= 0x1_0000_0000 {
        0
    } else {
        let c: u64 = cut as u64;
        0x1_0000_0000 - c
    }
}

/// The raw square of a raw angle within a quarter turn.
fn raw_square_of(t: u64) -> (x2: u64)
    requires
        t < QUARTER_TURN_RAW,
    ensures
        x2 == raw_square(t as int),
{
    assert(t * t <= 6746518852 * 6746518852) by (nonlinear_arith)
        requires
            t <= 6746518852,
    ;
    let p: u128 = (t as u128) * (t as u128);
    (p / 0x1_0000_0000) as u64
}

/// The raw sine by its series.
fn series_sine_of(t: u64) -> (r: u64)
    requires
        t < QUARTER_TURN_RAW,
    ensures
        r == series_sine(t as int),
        r <= ONE_RAW,
{
    let x2: u64 = raw_square_of(t);
    let v8: u64 = series_step_of(x2, 0x1_0000_0000, 272);
    let v7: u64 = series_step_of(x2, v8, 210);
    let v6: u64 = series_step_of(x2, v7, 156);
    let v5: u64 = series_step_of(x2, v6, 110);
    let v4: u64 = series_step_of(x2, v5, 72);
    let v3: u64 = series_step_of(x2, v4, 42);
    let v2: u64 = series_step_of(x2, v3, 20);
    let v1: u64 = series_step_of(x2, v2, 6);
    assert(t * v1 <= 6746518852 * 0x1_0000_0000) by (nonlinear_arith)
        requires
            t <= 6746518852,
            v1 <= 0x1_0000_0000,
    ;
    let s: u128 = (t as u128) * (v1 as u128) / 0x1_0000_0000;
    if s > 0x1_0000_0000 {
        0x1_0000_0000
    } else {
        s as u64
    }
}

/// The raw cosine by its series.
fn series_cosine_of(t: u64) -> (r: u64)
    requires
        t < QUARTER_TURN_RAW,
    ensures
        r == series_cosine(t as int),
        r <= ONE_RAW,
{
    let x2: u64 = raw_square_of(t);
    let v8: u64 = series_step_of(x2, 0x1_0000_0000, 240);
    let v7: u64 = series_step_of(x2, v8, 182);
    let v6: u64 = series_step_of(x2, v7, 132);
    let v5: u64 = series_step_of(x2, v6, 90);
    let v4: u64 = series_step_of(x2, v5, 56);
    let v3: u64 = series_step_of(x2, v4, 30);
    let v2: u64 = series_step_of(x2, v3, 12);
    series_step_of(x2, v2, 2)
}

/// The raw tangent of half a raw angle within the first quarter turn.
fn half_tangent_of(t: u64) -> (r: u64)
    requires
        t < QUARTER_TURN_RAW,
    ensures
        r == half_tangent(t as int),
        r <= ONE_RAW,
{
    let s: u64 = series_sine_of(t / 2);
    let c: u64 = series_cosine_of(t / 2);
    if c == 0 {
        0x1_0000_0000
    } else {
        let n: u128 = (s as u128) * 0x1_0000_0000;
        let q: u128 = (2 * n + (c as u128)) / (2 * (c as u128));
        if q > 0x1_0000_0000 {
            0x1_0000_0000
        } else {
            q as u64
        }
    }
}

/// The raw coordinates of the point of the unit circle whose half angle
/// has the raw tangent `tan`: first the cosine, then the sine.
fn unit_point_of(tan: u64) -> (r: (i64, i64))
    requires
        tan <= ONE_RAW,
    ensures
        r.0 == unit_cosine(tan as int),
        r.1 == unit_sine(tan as int),
        0 <= r.0 <= ONE_RAW,
        0 <= r.1 <= ONE_RAW,
{
    proof {
        lemma_unit_point(tan as int);
    }
    assert(tan * tan <= 0x1_0000_0000 * 0x1_0000_0000) by (nonlinear_arith)
        requires
            tan <= 0x1_0000_0000,
    ;
    let square: u128 = (tan as u128) * (tan as u128);
    let d: u128 = 0x1_0000_0000_0000_0000 + square;
    let x: u128 = (0x1_0000_0000_0000_0000 - square) * 0x1_0000_0000;
    let y: u128 = (0x2_0000_0000 * (tan as u128)) * 0x1_0000_0000;
    let c: u128 = (2 * x + d) / (2 * d);
    let s: u128 = (2 * y + d) / (2 * d);
    (c as i64, s as i64)
}

/// The sine and the cosine of `angle`, in this order.
pub fn sin_cos(angle: Fixed) -> (r: (Fixed, Fixed))
    ensures
        r.0 == sin_spec(angle),
        r.1 == cos_spec(angle),
        -ONE_RAW <= r.0@ <= ONE_RAW,
        -ONE_RAW <= r.1@ <= ONE_RAW,
{
    proof {
        reveal(sin_spec);
        reveal(cos_spec);
        lemma_sin_cos_range(angle);
    }
    let m: u64 = if angle.raw < 0 {
        let w: i128 = -(angle.raw as i128);
        w as u64
    } else {
        angle.raw as u64
    };
    let f: u64 = m % 26986075408;
    let q: u64 = f / 6746518852;
    let t: u64 = f % 6746518852;
    let (c0, s0): (i64, i64) = unit_point_of(half_tangent_of(t));
    let (s, c): (i64, i64) = if q == 0 {
        (s0, c0)
    } else if q == 1 {
        (c0, -s0)
    } else if q == 2 {
        (-s0, -c0)
    } else {
        (-c0, s0)
    };
    if angle.raw < 0 {
        (Fixed { raw: -s }, Fixed { raw: c })
    } else {
        (Fixed { raw: s }, Fixed { raw: c })
    }
}

/// The sine of `angle`.
pub fn sin(angle: Fixed) -> (r: Fixed)
    ensures
        r == sin_spec(angle),
        -ONE_RAW <= r@ <= ONE_RAW,
{
    sin_cos(angle).0
}

/// The cosine of `angle`.
pub fn cos(angle: Fixed) -> (r: Fixed)
    ensures
        r == cos_spec(angle),
        -ONE_RAW <= r@ <= ONE_RAW,
{
    sin_cos(angle).1
}

} // verus!
