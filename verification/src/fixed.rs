//! Signed fixed-point numbers with 32 fractional bits.
//!
//! Every length, coordinate, matrix entry and angle of this crate is a
//! [`Fixed`]. A value is stored as a 64-bit integer `raw` and stands for the
//! rational number `raw / 2^32`. All operations are total: a result that does
//! not fit is saturated to the nearest representable value, products and
//! quotients are rounded to the nearest representable value (ties away from
//! zero), and a division by zero saturates by the sign of the numerator.
use vstd::prelude::*;

verus! {

/// The raw representation of the number one.
pub const ONE_RAW: i64 = 0x1_0000_0000;

/// The raw representation of the number minus one.
pub const MINUS_ONE_RAW: i64 = -0x1_0000_0000;

/// The largest raw value.
pub const MAX_RAW: i64 = 0x7fff_ffff_ffff_ffff;

/// The smallest raw value.
pub const MIN_RAW: i64 = -0x8000_0000_0000_0000;

/// A fixed-point number: `raw / 2^32`.
#[derive(Clone, Copy, Debug, PartialEq, Eq, Structural)]
pub struct Fixed {
    pub raw: i64,
}

impl View for Fixed {
    type V = int;

    open spec fn view(&self) -> int {
        self.raw as int
    }
}

/// The nearest raw value to `v`.
pub open spec fn saturate(v: int) -> int {
    if v < MIN_RAW {
        MIN_RAW as int
    } else if v > MAX_RAW {
        MAX_RAW as int
    } else {
        v
    }
}

/// The absolute value of `v`.
pub open spec fn magnitude(v: int) -> int {
    if v < 0 {
        -v
    } else {
        v
    }
}

/// `n / d` rounded to the nearest integer, ties upwards, for `n >= 0` and `d > 0`.
pub open spec fn round_quot(n: int, d: int) -> int {
    (2 * n + d) / (2 * d)
}

/// `m` with a sign: negated where `negative` holds.
pub open spec fn with_sign(negative: bool, m: int) -> int {
    if negative {
        -m
    } else {
        m
    }
}

/// `r` is the integer square root of `n`, rounded down.
pub open spec fn is_floor_sqrt(n: int, r: int) -> bool {
    0 <= r && r * r <= n && n < (r + 1) * (r + 1)
}

/// The integer square root of `n`, rounded down (for `n >= 0`).
pub open spec fn floor_sqrt(n: int) -> int {
    choose|r: int| is_floor_sqrt(n, r)
}

/// At most one integer is the rounded-down square root of `n`.
pub proof fn lemma_floor_sqrt_unique(n: int, r1: int, r2: int)
    requires
        is_floor_sqrt(n, r1),
        is_floor_sqrt(n, r2),
    ensures
        r1 == r2,
{
    if r1 < r2 {
        assert((r1 + 1) * (r1 + 1) <= r2 * r2) by (nonlinear_arith)
            requires
                0 <= r1,
                r1 + 1 <= r2,
        ;
    } else if r2 < r1 {
        assert((r2 + 1) * (r2 + 1) <= r1 * r1) by (nonlinear_arith)
            requires
                0 <= r2,
                r2 + 1 <= r1,
        ;
    }
}

/// Whoever exhibits a rounded-down square root of `n` has found `floor_sqrt(n)`.
pub proof fn lemma_floor_sqrt_is(n: int, r: int)
    requires
        is_floor_sqrt(n, r),
    ensures
        floor_sqrt(n) == r,
{
    let c = floor_sqrt(n);
    assert(is_floor_sqrt(n, c));
    lemma_floor_sqrt_unique(n, c, r);
}

/// Every number that is not negative has a rounded-down square root.
pub proof fn lemma_floor_sqrt_exists(n: int)
    requires
        0 <= n,
    ensures
        is_floor_sqrt(n, floor_sqrt(n)),
    decreases n,
{
    if n == 0 {
        assert(is_floor_sqrt(0, 0));
    } else {
        lemma_floor_sqrt_exists(n - 1);
        let r = floor_sqrt(n - 1);
        if n < (r + 1) * (r + 1) {
            assert(is_floor_sqrt(n, r));
        } else {
            assert((r + 2) * (r + 2) == (r + 1) * (r + 1) + 2 * r + 3) by (nonlinear_arith);
            assert(is_floor_sqrt(n, r + 1));
        }
    }
}

/// A product that is not saturated differs from the exact one by at most
/// half a raw unit: `2^32` times the raw product differs from the product
/// of the raw factors by at most `2^31`. It is not saturated where the raw
/// factors' product is at most `2^94` in magnitude.
pub proof fn lemma_mul_rounding(a: Fixed, b: Fixed)
    requires
        magnitude(a@) * magnitude(b@) <= 0x4000_0000_0000_0000_0000_0000,
    ensures
        -0x8000_0000 <= ONE_RAW * a.mul_spec(b)@ - a@ * b@ <= 0x8000_0000,
        magnitude(a.mul_spec(b)@) <= 0x4000_0000_0000_0001,
        (a@ >= 0) == (b@ >= 0) ==> a.mul_spec(b)@ >= 0,
{
    reveal(Fixed::mul_spec);
    let k = ONE_RAW as int;
    let x = magnitude(a@);
    let y = magnitude(b@);
    let p = x * y;
    let q = round_quot(p, k);
    assert(0 <= p) by (nonlinear_arith)
        requires
            0 <= x,
            0 <= y,
            p == x * y,
    ;
    assert(q == (2 * p + k) / (2 * k));
    assert(0 <= q && -k < 2 * (q * k - p) <= k) by (nonlinear_arith)
        requires
            0 <= p,
            0 < k,
            q == (2 * p + k) / (2 * k),
    ;
    assert(a@ * b@ == p || a@ * b@ == -p) by (nonlinear_arith)
        requires
            x == a@ || x == -a@,
            y == b@ || y == -b@,
            p == x * y,
    ;
    assert((a@ < 0) != (b@ < 0) ==> a@ * b@ <= 0) by (nonlinear_arith);
    assert((a@ < 0) == (b@ < 0) ==> a@ * b@ >= 0) by (nonlinear_arith);
}

/// A product with exactly one negative factor is not positive, and a
/// product with a factor zero is zero.
pub proof fn lemma_mul_sign(a: Fixed, b: Fixed)
    ensures
        (a@ <= 0 && b@ >= 0) || (a@ >= 0 && b@ <= 0) ==> a.mul_spec(b)@ <= 0,
        a@ == 0 || b@ == 0 ==> a.mul_spec(b)@ == 0,
{
    reveal(Fixed::mul_spec);
    let p = magnitude(a@) * magnitude(b@);
    assert(0 <= p) by (nonlinear_arith)
        requires
            p == magnitude(a@) * magnitude(b@),
            0 <= magnitude(a@),
            0 <= magnitude(b@),
    ;
    assert(a@ == 0 || b@ == 0 ==> p == 0) by (nonlinear_arith)
        requires
            p == magnitude(a@) * magnitude(b@),
            a@ == 0 ==> magnitude(a@) == 0,
            b@ == 0 ==> magnitude(b@) == 0,
    ;
    assert(0 <= round_quot(p, ONE_RAW as int));
}

/// The absolute value of `x` as an unsigned integer.
fn magnitude_of(x: i64) -> (m: u64)
    ensures
        m == magnitude(x as int),
        m <= 0x8000_0000_0000_0000,
{
    if x < 0 {
        let w: i128 = -(x as i128);
        w as u64
    } else {
        x as u64
    }
}

/// Gives `m` the sign `negative` and saturates.
fn saturating_signed(negative: bool, m: u128) -> (r: i64)
    ensures
        r == saturate(with_sign(negative, m as int)),
{
    if negative {
        if m >= 0x8000_0000_0000_0000 {
            MIN_RAW
        } else {
            let w: i64 = m as i64;
            -w
        }
    } else {
        if m > 0x7fff_ffff_ffff_ffff {
            MAX_RAW
        } else {
            m as i64
        }
    }
}

/// The integer square root of `n`, rounded down, by bisection.
fn floor_sqrt_of(n: u128) -> (r: u128)
    requires
        n < 0x1_0000_0000_0000_0000_0000_0000,
    ensures
        is_floor_sqrt(n as int, r as int),
        r == floor_sqrt(n as int),
        r < 0x1_0000_0000_0000,
{
    let mut lo: u128 = 0;
    let mut hi: u128 = 0x1_0000_0000_0000;
    while hi - lo > 1
        invariant
            lo < hi <= 0x1_0000_0000_0000,
            lo * lo <= n,
            n < hi * hi,
        decreases hi - lo,
    {
        let mid: u128 = lo + (hi - lo) / 2;
        assert(mid * mid < 0x1_0000_0000_0000 * 0x1_0000_0000_0000) by (nonlinear_arith)
            requires
                0 <= mid < 0x1_0000_0000_0000,
        ;
        if mid * mid <= n {
            lo = mid;
        } else {
            hi = mid;
        }
    }
    proof {
        lemma_floor_sqrt_is(n as int, lo as int);
    }
    lo
}

impl Fixed {
    /// The number whose raw value is the nearest one to `v`.
    pub open spec fn of(v: int) -> Fixed {
        Fixed { raw: saturate(v) as i64 }
    }

    /// The sum, saturated.
    pub open spec fn add_spec(self, rhs: Fixed) -> Fixed {
        Fixed::of(self@ + rhs@)
    }

    /// The difference, saturated.
    pub open spec fn sub_spec(self, rhs: Fixed) -> Fixed {
        Fixed::of(self@ - rhs@)
    }

    /// The negation, saturated (only the smallest value has no exact negation).
    pub open spec fn neg_spec(self) -> Fixed {
        Fixed::of(-self@)
    }

    /// The product, rounded to the nearest value (ties away from zero) and saturated.
    #[verifier::opaque]
    pub open spec fn mul_spec(self, rhs: Fixed) -> Fixed {
        Fixed::of(
            with_sign(
                (self@ < 0) != (rhs@ < 0),
                round_quot(magnitude(self@) * magnitude(rhs@), ONE_RAW as int),
            ),
        )
    }

    /// The quotient, rounded to the nearest value (ties away from zero) and
    /// saturated. Dividing by zero gives zero for a zero numerator, and else
    /// the largest or the smallest value, by the numerator's sign.
    #[verifier::opaque]
    pub open spec fn div_spec(self, rhs: Fixed) -> Fixed {
        if rhs@ == 0 {
            if self@ > 0 {
                Fixed { raw: MAX_RAW }
            } else if self@ < 0 {
                Fixed { raw: MIN_RAW }
            } else {
                Fixed { raw: 0 }
            }
        } else {
            Fixed::of(
                with_sign(
                    (self@ < 0) != (rhs@ < 0),
                    round_quot(magnitude(self@) * ONE_RAW, magnitude(rhs@)),
                ),
            )
        }
    }

    /// The square root, rounded down to the nearest value; zero for a
    /// negative number.
    #[verifier::opaque]
    pub open spec fn sqrt_spec(self) -> Fixed {
        if self@ <= 0 {
            Fixed { raw: 0 }
        } else {
            Fixed { raw: floor_sqrt(self@ * ONE_RAW) as i64 }
        }
    }

    /// The whole number `n`.
    pub open spec fn from_int_spec(n: i32) -> Fixed {
        Fixed { raw: (n * ONE_RAW) as i64 }
    }

    /// The integer part of a number, as a pixel count: fractions are dropped,
    /// a negative number gives zero.
    pub open spec fn to_u32_spec(self) -> u32 {
        if self@ < 0 {
            0u32
        } else {
            (self@ / (ONE_RAW as int)) as u32
        }
    }

    /// The number with the given raw value.
    pub fn from_raw(raw: i64) -> (r: Fixed)
        ensures
            r == (Fixed { raw }),
    {
        Fixed { raw }
    }

    /// The raw value.
    pub fn raw(self) -> (r: i64)
        ensures
            r == self.raw,
    {
        self.raw
    }

    /// Zero.
    pub fn zero() -> (r: Fixed)
        ensures
            r == (Fixed { raw: 0 }),
    {
        Fixed { raw: 0 }
    }

    /// One.
    pub fn one() -> (r: Fixed)
        ensures
            r == (Fixed { raw: ONE_RAW }),
    {
        Fixed { raw: ONE_RAW }
    }

    /// The whole number `n`, which is always representable exactly.
    pub fn from_int(n: i32) -> (r: Fixed)
        ensures
            r == Fixed::from_int_spec(n),
            r@ == n * ONE_RAW,
    {
        let w: i64 = n as i64;
        Fixed { raw: w * ONE_RAW }
    }

    /// The integer part as a pixel count.
    pub fn to_u32(self) -> (r: u32)
        ensures
            r == self.to_u32_spec(),
            self@ >= 0 ==> r == self@ / (ONE_RAW as int),
    {
        if self.raw < 0 {
            0
        } else {
            let q: i64 = self.raw / ONE_RAW;
            q as u32
        }
    }

    /// Adds, saturating.
    pub fn add(self, rhs: Fixed) -> (r: Fixed)
        ensures
            r == self.add_spec(rhs),
    {
        let w: i128 = self.raw as i128 + rhs.raw as i128;
        Fixed { raw: Self::saturate_wide(w) }
    }

    /// Subtracts, saturating.
    pub fn sub(self, rhs: Fixed) -> (r: Fixed)
        ensures
            r == self.sub_spec(rhs),
    {
        let w: i128 = self.raw as i128 - rhs.raw as i128;
        Fixed { raw: Self::saturate_wide(w) }
    }

    /// Negates, saturating.
    pub fn neg(self) -> (r: Fixed)
        ensures
            r == self.neg_spec(),
    {
        let w: i128 = -(self.raw as i128);
        Fixed { raw: Self::saturate_wide(w) }
    }

    /// Multiplies, rounding to nearest and saturating.
    pub fn mul(self, rhs: Fixed) -> (r: Fixed)
        ensures
            r == self.mul_spec(rhs),
    {
        reveal(Fixed::mul_spec);
        let a: u64 = magnitude_of(self.raw);
        let b: u64 = magnitude_of(rhs.raw);
        assert(a * b <= 0x8000_0000_0000_0000 * 0x8000_0000_0000_0000) by (nonlinear_arith)
            requires
                a <= 0x8000_0000_0000_0000,
                b <= 0x8000_0000_0000_0000,
        ;
        let p: u128 = (a as u128) * (b as u128);
        let q: u128 = (2 * p + 0x1_0000_0000) / 0x2_0000_0000;
        let negative: bool = (self.raw < 0) != (rhs.raw < 0);
        Fixed { raw: saturating_signed(negative, q) }
    }

    /// Divides, rounding to nearest and saturating; see [`Fixed::div_spec`]
    /// for a zero divisor.
    pub fn div(self, rhs: Fixed) -> (r: Fixed)
        ensures
            r == self.div_spec(rhs),
    {
        reveal(Fixed::div_spec);
        if rhs.raw == 0 {
            if self.raw > 0 {
                Fixed { raw: MAX_RAW }
            } else if self.raw < 0 {
                Fixed { raw: MIN_RAW }
            } else {
                Fixed { raw: 0 }
            }
        } else {
            let a: u64 = magnitude_of(self.raw);
            let b: u64 = magnitude_of(rhs.raw);
            let n: u128 = (a as u128) * 0x1_0000_0000;
            let d: u128 = b as u128;
            let q: u128 = (2 * n + d) / (2 * d);
            let negative: bool = (self.raw < 0) != (rhs.raw < 0);
            Fixed { raw: saturating_signed(negative, q) }
        }
    }

    /// The square root, rounded down; zero for a negative number.
    pub fn sqrt(self) -> (r: Fixed)
        ensures
            r == self.sqrt_spec(),
            r@ >= 0,
            self@ >= 0 ==> is_floor_sqrt(self@ * ONE_RAW, r@),
    {
        reveal(Fixed::sqrt_spec);
        if self.raw <= 0 {
            Fixed { raw: 0 }
        } else {
            let n: u128 = (self.raw as u128) * 0x1_0000_0000;
            let s: u128 = floor_sqrt_of(n);
            Fixed { raw: s as i64 }
        }
    }

    /// Whether `self` is smaller than `rhs`.
    pub fn lt(self, rhs: Fixed) -> (r: bool)
        ensures
            r == (self@ < rhs@),
    {
        self.raw < rhs.raw
    }

    /// Whether `self` is positive.
    pub fn is_positive(self) -> (r: bool)
        ensures
            r == (self@ > 0),
    {
        self.raw > 0
    }

    /// Whether `self` is zero.
    pub fn is_zero(self) -> (r: bool)
        ensures
            r == (self@ == 0),
    {
        self.raw == 0
    }

    /// The nearest raw value to a wide integer.
    fn saturate_wide(w: i128) -> (r: i64)
        ensures
            r == saturate(w as int),
    {
        if w < -0x8000_0000_0000_0000 {
            MIN_RAW
        } else if w > 0x7fff_ffff_ffff_ffff {
            MAX_RAW
        } else {
            w as i64
        }
    }
}

} // verus!
