//! How far the results of fixed-point operations lie from the exact ones:
//! products, quotients and roots, one operation at a time.
use crate::fixed::{lemma_floor_sqrt_exists, lemma_mul_sign, magnitude, round_quot, Fixed};
use crate::fixed::{MIN_RAW, ONE_RAW};
use crate::linear_algebra::Matrix;
use vstd::prelude::*;

verus! {

/// A product differs from the exact one by at most half a raw unit, where
/// one factor is at most one in magnitude and the other is not the smallest
/// value: `2^32` times the raw product differs from the product of the raw
/// factors by at most `2^31`.
pub proof fn lemma_mul_error(a: Fixed, b: Fixed)
    requires
        -ONE_RAW <= a@ <= ONE_RAW,
        MIN_RAW < b@,
    ensures
        -0x8000_0000 <= ONE_RAW * a.mul_spec(b)@ - a@ * b@ <= 0x8000_0000,
        magnitude(a.mul_spec(b)@) <= magnitude(b@),
{
    reveal(Fixed::mul_spec);
    let k = ONE_RAW as int;
    let x = magnitude(a@);
    let y = magnitude(b@);
    let p = x * y;
    let q = round_quot(p, k);
    assert(0 <= p <= k * y) by (nonlinear_arith)
        requires
            0 <= x <= k,
            0 <= y,
            p == x * y,
    ;
    assert(q == (2 * p + k) / (2 * k));
    assert(0 <= q && -k < 2 * (q * k - p) <= k) by (nonlinear_arith)
        requires
            0 <= p,
            0 < k,
            q == (2 * p + k) / (2 * k),
    ;
    assert(q <= y) by (nonlinear_arith)
        requires
            2 * (q * k - p) <= k,
            p <= k * y,
            0 < k,
    ;
    assert(a@ * b@ == p || a@ * b@ == -p) by (nonlinear_arith)
        requires
            x == a@ || x == -a@,
            y == b@ || y == -b@,
            p == x * y,
    ;
    assert((a@ < 0) != (b@ < 0) ==> a@ * b@ <= 0) by (nonlinear_arith);
    assert((a@ < 0) == (b@ < 0) ==> a@ * b@ >= 0) by (nonlinear_arith);
}

/// The order of the factors does not matter to a product.
pub proof fn lemma_mul_commutes(a: Fixed, b: Fixed)
    ensures
        a.mul_spec(b) == b.mul_spec(a),
{
    reveal(Fixed::mul_spec);
    assert(magnitude(a@) * magnitude(b@) == magnitude(b@) * magnitude(a@)) by (nonlinear_arith);
}

/// A factor's sign moves through a product: with factors of at most one in
/// magnitude, negating one factor negates the product, whichever factor it
/// is, and negating both keeps it.
pub proof fn lemma_mul_negated(a: Fixed, b: Fixed, na: Fixed, nb: Fixed)
    requires
        -ONE_RAW <= a@ <= ONE_RAW,
        -ONE_RAW <= b@ <= ONE_RAW,
        na@ == -a@,
        nb@ == -b@,
    ensures
        a.mul_spec(nb)@ == -a.mul_spec(b)@,
        na.mul_spec(b)@ == -a.mul_spec(b)@,
        na.mul_spec(nb)@ == a.mul_spec(b)@,
{
    reveal(Fixed::mul_spec);
    let k = ONE_RAW as int;
    let x = magnitude(a@);
    let y = magnitude(b@);
    let p = x * y;
    let q = round_quot(p, k);
    assert(magnitude(na@) == x && magnitude(nb@) == y);
    assert(0 <= p <= k * k) by (nonlinear_arith)
        requires
            0 <= x <= k,
            0 <= y <= k,
            p == x * y,
    ;
    assert(0 <= q <= k) by (nonlinear_arith)
        requires
            0 <= p <= k * k,
            q == (2 * p + k) / (2 * k),
            0 < k,
    ;
    assert(a@ == 0 || b@ == 0 ==> p == 0) by (nonlinear_arith)
        requires
            p == x * y,
            a@ == 0 ==> x == 0,
            b@ == 0 ==> y == 0,
    ;
    assert(p == 0 ==> q == 0) by (nonlinear_arith)
        requires
            q == (2 * p + k) / (2 * k),
            0 < k,
    ;
    assert(magnitude(a@) * magnitude(nb@) == p);
    assert(magnitude(na@) * magnitude(b@) == p);
    assert(magnitude(na@) * magnitude(nb@) == p);
}

/// A product is at most half a raw unit larger in magnitude than the exact
/// one, saturated or not.
pub proof fn lemma_mul_below(a: Fixed, b: Fixed)
    ensures
        ONE_RAW * magnitude(a.mul_spec(b)@) <= magnitude(a@) * magnitude(b@) + 0x8000_0000,
{
    reveal(Fixed::mul_spec);
    let k = ONE_RAW as int;
    let p = magnitude(a@) * magnitude(b@);
    let q = round_quot(p, k);
    assert(0 <= p) by (nonlinear_arith)
        requires
            0 <= magnitude(a@),
            0 <= magnitude(b@),
            p == magnitude(a@) * magnitude(b@),
    ;
    assert(0 <= q && 2 * (q * k - p) <= k) by (nonlinear_arith)
        requires
            0 <= p,
            0 < k,
            q == (2 * p + k) / (2 * k),
    ;
    let m = magnitude(a.mul_spec(b)@);
    assert(m <= q);
    assert(k * m <= q * k) by (nonlinear_arith)
        requires
            0 <= m <= q,
            0 < k,
    ;
}

/// A product of two factors of the same sign is not negative.
pub proof fn lemma_mul_same_sign(a: Fixed, b: Fixed)
    requires
        (a@ >= 0 && b@ >= 0) || (a@ <= 0 && b@ <= 0),
    ensures
        a.mul_spec(b)@ >= 0,
{
    reveal(Fixed::mul_spec);
    let k = ONE_RAW as int;
    let p = magnitude(a@) * magnitude(b@);
    assert(0 <= p) by (nonlinear_arith)
        requires
            0 <= magnitude(a@),
            0 <= magnitude(b@),
            p == magnitude(a@) * magnitude(b@),
    ;
    assert(0 <= (2 * p + k) / (2 * k)) by (nonlinear_arith)
        requires
            0 <= p,
            0 < k,
    ;
    assert(a@ == 0 || b@ == 0 ==> p == 0) by (nonlinear_arith)
        requires
            p == magnitude(a@) * magnitude(b@),
            a@ == 0 ==> magnitude(a@) == 0,
            b@ == 0 ==> magnitude(b@) == 0,
    ;
    assert(p == 0 ==> (2 * p + k) / (2 * k) == 0);
}

/// A product of two factors of at least `2^16` in magnitude is at least
/// one raw unit in magnitude, with the sign of the exact product.
pub proof fn lemma_mul_not_small(a: Fixed, b: Fixed)
    requires
        magnitude(a@) >= 0x1_0000,
        magnitude(b@) >= 0x1_0000,
    ensures
        (a@ < 0) == (b@ < 0) ==> a.mul_spec(b)@ >= 1,
        (a@ < 0) != (b@ < 0) ==> a.mul_spec(b)@ <= -1,
{
    reveal(Fixed::mul_spec);
    let k = ONE_RAW as int;
    let p = magnitude(a@) * magnitude(b@);
    let q = round_quot(p, k);
    assert(p >= k) by (nonlinear_arith)
        requires
            magnitude(a@) >= 0x1_0000,
            magnitude(b@) >= 0x1_0000,
            p == magnitude(a@) * magnitude(b@),
            k == 0x1_0000_0000,
    ;
    assert(q >= 1) by (nonlinear_arith)
        requires
            p >= k,
            0 < k,
            q == (2 * p + k) / (2 * k),
    ;
}

/// The product of a number `a` of at most one in magnitude with a number
/// that lies within `tolerance` raw units of `y`: `2^32` times the raw
/// product differs from `a` times `y` by at most `tolerance + 1` times
/// `2^32`.
pub proof fn lemma_product_of_nearly_equal(a: Fixed, b: Fixed, y: int, tolerance: int)
    requires
        -ONE_RAW <= a@ <= ONE_RAW,
        MIN_RAW < b@,
        0 <= tolerance,
        magnitude(b@ - y) <= tolerance,
    ensures
        -(tolerance + 1) * ONE_RAW <= ONE_RAW * a.mul_spec(b)@ - a@ * y <= (tolerance + 1)
            * ONE_RAW,
{
    lemma_mul_error(a, b);
    let k = ONE_RAW as int;
    let e = b@ - y;
    assert(a@ * b@ == a@ * y + a@ * e) by (nonlinear_arith)
        requires
            e == b@ - y,
    ;
    assert(-(tolerance * k) <= a@ * e <= tolerance * k) by (nonlinear_arith)
        requires
            -k <= a@ <= k,
            -tolerance <= e <= tolerance,
            0 < k,
            0 <= tolerance,
    ;
    assert((tolerance + 1) * k == tolerance * k + k) by (nonlinear_arith);
}

/// A quotient differs from the exact one by at most half a raw unit, where
/// the divisor is positive and the numerator at most twice the divisor in
/// magnitude: the raw quotient times the raw divisor differs from `2^32`
/// times the raw numerator by at most half the raw divisor.
pub proof fn lemma_div_error(a: Fixed, b: Fixed)
    requires
        0 < b@,
        magnitude(a@) <= 2 * b@,
    ensures
        -b@ <= 2 * (a.div_spec(b)@ * b@ - a@ * ONE_RAW) <= b@,
{
    reveal(Fixed::div_spec);
    let k = ONE_RAW as int;
    let x = magnitude(a@);
    let d = b@;
    let n = x * k;
    let q = round_quot(n, d);
    assert(0 <= n <= (2 * k) * d) by (nonlinear_arith)
        requires
            0 <= x <= 2 * d,
            n == x * k,
            0 < k,
    ;
    assert(q == (2 * n + d) / (2 * d));
    assert(0 <= q && -d < 2 * (q * d - n) <= d) by (nonlinear_arith)
        requires
            0 <= n,
            0 < d,
            q == (2 * n + d) / (2 * d),
    ;
    assert(q <= 2 * k + 1) by (nonlinear_arith)
        requires
            2 * (q * d - n) <= d,
            n <= (2 * k) * d,
            0 < d,
    ;
    assert((-q) * d == -(q * d)) by (nonlinear_arith);
    assert(a@ * k == n || a@ * k == -n) by (nonlinear_arith)
        requires
            x == a@ || x == -a@,
            n == x * k,
    ;
    assert(a@ < 0 ==> a@ * k == -n) by (nonlinear_arith)
        requires
            x == -a@ || a@ >= 0,
            n == x * k,
    ;
    assert(a@ >= 0 ==> a@ * k == n) by (nonlinear_arith)
        requires
            x == a@ || a@ < 0,
            n == x * k,
    ;
}

/// A quotient by a divisor that is not negative has the numerator's sign, or is zero.
pub proof fn lemma_div_sign(a: Fixed, c: Fixed)
    requires
        0 <= c@,
    ensures
        a@ >= 0 ==> a.div_spec(c)@ >= 0,
        a@ <= 0 ==> a.div_spec(c)@ <= 0,
{
    reveal(Fixed::div_spec);
    if c@ > 0 {
        let k = ONE_RAW as int;
        let n = magnitude(a@) * k;
        let d = magnitude(c@);
        assert(0 <= n) by (nonlinear_arith)
            requires
                n == magnitude(a@) * k,
                0 <= magnitude(a@),
                0 < k,
        ;
        assert(0 <= (2 * n + d) / (2 * d)) by (nonlinear_arith)
            requires
                0 <= n,
                0 < d,
        ;
        assert(a@ == 0 ==> n == 0);
        assert(n == 0 ==> (2 * n + d) / (2 * d) == 0) by (nonlinear_arith)
            requires
                0 < d,
        ;
    }
}

/// A quotient is at least `2^16` in magnitude, and has the numerator's
/// sign, where the divisor is not negative and at most `2^16` times the
/// numerator in magnitude.
pub proof fn lemma_div_not_small(a: Fixed, c: Fixed)
    requires
        a@ != 0,
        0 <= c@ <= 0x1_0000 * magnitude(a@),
    ensures
        a@ > 0 ==> a.div_spec(c)@ >= 0x1_0000,
        a@ < 0 ==> a.div_spec(c)@ <= -0x1_0000,
{
    reveal(Fixed::div_spec);
    if c@ > 0 {
        let k = ONE_RAW as int;
        let n = magnitude(a@) * k;
        let d = magnitude(c@);
        let q = round_quot(n, d);
        assert(n >= 0x1_0000 * d) by (nonlinear_arith)
            requires
                n == magnitude(a@) * k,
                d <= 0x1_0000 * magnitude(a@),
                k == 0x1_0000_0000,
                0 <= magnitude(a@),
        ;
        assert(q >= 0x1_0000) by (nonlinear_arith)
            requires
                n >= 0x1_0000 * d,
                0 < d,
                q == (2 * n + d) / (2 * d),
        ;
    }
}

/// Dividing a number of at most one in magnitude by a number within three
/// raw units of one changes it by at most three raw units.
pub proof fn lemma_quotient_by_nearly_one(a: Fixed, b: Fixed)
    requires
        -ONE_RAW <= a@ <= ONE_RAW,
        ONE_RAW - 3 <= b@ <= ONE_RAW + 3,
    ensures
        magnitude(a.div_spec(b)@ - a@) <= 3,
{
    lemma_div_error(a, b);
    let k = ONE_RAW as int;
    let q = a.div_spec(b)@;
    let d = b@;
    let x = a@;
    // (q - x) d = (q d - x k) + x (k - d)
    let e = q - x;
    assert(e * d == (q * d - x * k) + x * (k - d)) by (nonlinear_arith)
        requires
            e == q - x,
    ;
    assert(-3 * k <= x * (k - d) <= 3 * k) by (nonlinear_arith)
        requires
            -k <= x <= k,
            -3 <= k - d <= 3,
            0 < k,
    ;
    assert(-4 < e < 4) by (nonlinear_arith)
        requires
            2 * (e * d) <= d + 6 * k,
            -(d + 6 * k) <= 2 * (e * d),
            k - 3 <= d,
            k == 0x1_0000_0000,
    ;
}

/// A number whose square is below the square of a positive bound is below
/// the bound in magnitude.
pub proof fn lemma_square_below(x: int, bound: int)
    requires
        0 < bound,
        x * x < bound * bound,
    ensures
        -bound < x < bound,
{
    if x >= bound {
        assert(x * x >= bound * bound) by (nonlinear_arith)
            requires
                x >= bound,
                bound > 0,
        ;
    }
    if x <= -bound {
        assert(x * x >= bound * bound) by (nonlinear_arith)
            requires
                x <= -bound,
                bound > 0,
        ;
    }
}

/// The root of a sum of two squares is at most `2^16` times the larger of
/// the two numbers squared, in raw units, where that is not zero.
pub proof fn lemma_root_of_squares(x: Fixed, l: Fixed, larger: int)
    requires
        larger >= 1,
        magnitude(x@) <= larger,
        magnitude(l@) <= larger,
    ensures
        0 <= x.mul_spec(x).add_spec(l.mul_spec(l)).sqrt_spec()@ <= 0x1_0000 * larger,
{
    reveal(Fixed::sqrt_spec);
    let k = ONE_RAW as int;
    let mx = x.mul_spec(x);
    let ml = l.mul_spec(l);
    let sum = mx.add_spec(ml);
    let c = sum.sqrt_spec()@;
    lemma_mul_below(x, x);
    lemma_mul_below(l, l);
    let big = larger * larger;
    assert(magnitude(x@) * magnitude(x@) <= big) by (nonlinear_arith)
        requires
            0 <= magnitude(x@) <= larger,
            big == larger * larger,
    ;
    assert(magnitude(l@) * magnitude(l@) <= big) by (nonlinear_arith)
        requires
            0 <= magnitude(l@) <= larger,
            big == larger * larger,
    ;
    if sum@ > 0 {
        let n = sum@ * k;
        assert(sum@ <= magnitude(mx@) + magnitude(ml@));
        assert(n <= k * magnitude(mx@) + k * magnitude(ml@)) by (nonlinear_arith)
            requires
                n == sum@ * k,
                sum@ <= magnitude(mx@) + magnitude(ml@),
                0 < k,
        ;
        assert(n <= 2 * big + k);
        assert(0 <= n) by (nonlinear_arith)
            requires
                n == sum@ * k,
                0 < sum@,
                0 < k,
        ;
        lemma_floor_sqrt_exists(n);
        let r = crate::fixed::floor_sqrt(n);
        let top = 0x1_0000 * larger;
        if r > top {
            assert(r * r >= (top + 1) * (top + 1)) by (nonlinear_arith)
                requires
                    r >= top + 1,
                    top >= 0,
            ;
            assert((top + 1) * (top + 1) == k * big + 0x2_0000 * larger + 1) by (nonlinear_arith)
                requires
                    top == 0x1_0000 * larger,
                    big == larger * larger,
                    k == 0x1_0000_0000,
            ;
            assert(big >= larger) by (nonlinear_arith)
                requires
                    big == larger * larger,
                    larger >= 1,
            ;
            assert(k * big + 0x2_0000 * larger + 1 > 2 * big + k) by (nonlinear_arith)
                requires
                    big >= larger,
                    larger >= 1,
                    k == 0x1_0000_0000,
            ;
        }
        assert(r <= top);
        assert(n <= 0x7fff_ffff_ffff_ffff * 0x1_0000_0000) by (nonlinear_arith)
            requires
                n == sum@ * k,
                sum@ <= 0x7fff_ffff_ffff_ffff,
                k == 0x1_0000_0000,
        ;
        assert(r < 0x1_0000_0000_0000) by (nonlinear_arith)
            requires
                0 <= r,
                r * r <= n,
                n <= 0x7fff_ffff_ffff_ffff * 0x1_0000_0000,
        ;
        assert(c == r);
    }
}

/// The matrix of a steering angle has a positive determinant, and so an
/// inverse, where the wheelbase is positive. With `c = sqrt(x^2 + l^2)` the
/// matrix is
/// ```text
/// | x / c  -l / c |
/// | l / c   x / c |
/// ```
/// and one of `x / c` and `l / c` is at least `2^-16` in magnitude.
pub proof fn lemma_steering_matrix_has_inverse(x: Fixed, l: Fixed)
    requires
        l@ > 0,
    ensures
        ({
            let c = x.mul_spec(x).add_spec(l.mul_spec(l)).sqrt_spec();
            let m = Matrix {
                m11: x.div_spec(c),
                m12: l.neg_spec().div_spec(c),
                m21: l.div_spec(c),
                m22: x.div_spec(c),
            };
            m.det_spec()@ > 0
        }),
{
    let c = x.mul_spec(x).add_spec(l.mul_spec(l)).sqrt_spec();
    let a = x.div_spec(c);
    let b = l.div_spec(c);
    let nb = l.neg_spec().div_spec(c);
    let larger = if magnitude(x@) >= l@ {
        magnitude(x@)
    } else {
        l@
    };
    lemma_root_of_squares(x, l, larger);
    lemma_mul_sign(a, a);
    lemma_div_sign(l, c);
    lemma_div_sign(l.neg_spec(), c);
    lemma_mul_sign(nb, b);
    lemma_mul_same_sign(a, a);
    if magnitude(x@) >= l@ {
        lemma_div_not_small(x, c);
        lemma_mul_not_small(a, a);
    } else {
        lemma_div_not_small(l, c);
        lemma_div_not_small(l.neg_spec(), c);
        lemma_mul_not_small(nb, b);
    }
}

} // verus!
