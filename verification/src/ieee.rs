//! Reading binary64 floating-point numbers from their bit patterns.
//!
//! A pattern holds, from the top: one sign bit, eleven bits of exponent `e`
//! and 52 bits of fraction `f`. For `0 < e < 2047` it stands for
//! `(2^52 + f) * 2^(e - 1075)`, negated where the sign bit is set; `e = 0`
//! holds zero and numbers below `2^-1022`, and `e = 2047` the infinities and
//! the values that are no numbers.
use crate::fixed::{round_quot, with_sign, Fixed};
use vstd::prelude::*;

verus! {

/// The exponent at which the whole significand counts raw units: `1075 - 32`.
pub const RAW_UNIT_EXPONENT: u64 = 1043;

/// `2^n`.
pub open spec fn two_to(n: nat) -> int
    decreases n,
{
    if n == 0 {
        1
    } else {
        2 * two_to((n - 1) as nat)
    }
}

/// Whether the sign bit is set.
pub open spec fn double_is_negative(bits: u64) -> bool {
    bits >= 0x8000_0000_0000_0000
}

/// The exponent's bits.
pub open spec fn double_exponent(bits: u64) -> int {
    (bits as int / 0x10_0000_0000_0000) % 2048
}

/// The significand of a normal number: the fraction's bits under a leading one.
pub open spec fn double_significand(bits: u64) -> int {
    0x10_0000_0000_0000 + (bits as int) % 0x10_0000_0000_0000
}

/// The magnitude of the number in raw units, rounded to the nearest one
/// (ties upwards); none for what is no finite number or lies beyond the
/// largest raw value.
pub open spec fn double_magnitude(bits: u64) -> Option<int> {
    let e = double_exponent(bits);
    let m = double_significand(bits);
    if e == 0 {
        Some(0)
    } else if e > RAW_UNIT_EXPONENT + 10 {
        None
    } else if e >= RAW_UNIT_EXPONENT {
        Some(m * two_to((e - RAW_UNIT_EXPONENT) as nat))
    } else {
        Some(round_quot(m, two_to((RAW_UNIT_EXPONENT - e) as nat)))
    }
}

/// The fixed-point number nearest to the floating-point number with the
/// given bits, where there is one.
pub open spec fn from_double_bits_spec(bits: u64) -> Option<Fixed> {
    match double_magnitude(bits) {
        Some(m) => Some(Fixed { raw: with_sign(double_is_negative(bits), m) as i64 }),
        None => None,
    }
}

/// Powers of two grow.
pub proof fn lemma_two_to_grows(a: nat, b: nat)
    requires
        a <= b,
    ensures
        0 < two_to(a) <= two_to(b),
    decreases b,
{
    if b == 0 {
    } else if a == b {
        lemma_two_to_grows((a - 1) as nat, (b - 1) as nat);
    } else {
        lemma_two_to_grows(a, (b - 1) as nat);
    }
}

/// Some powers of two.
pub proof fn lemma_two_to_values()
    ensures
        two_to(0) == 1,
        two_to(10) == 0x400,
        two_to(53) == 0x20_0000_0000_0000,
        two_to(54) == 0x40_0000_0000_0000,
{
    reveal_with_fuel(two_to, 55);
}

/// `2^n` for `n <= 53`.
fn two_to_of(n: u64) -> (r: u64)
    requires
        n <= 53,
    ensures
        r == two_to(n as nat),
{
    let mut r: u64 = 1;
    let mut i: u64 = 0;
    while i < n
        invariant
            i <= n <= 53,
            r == two_to(i as nat),
        decreases n - i,
    {
        proof {
            lemma_two_to_values();
            lemma_two_to_grows(i as nat, 53);
        }
        r = 2 * r;
        i = i + 1;
    }
    r
}

impl Fixed {
    /// The fixed-point number nearest to the binary64 floating-point number
    /// with the given bits. There is none for an infinity, for what is no
    /// number, and for a number that is `2^31` or more in magnitude.
    pub fn from_double_bits(bits: u64) -> (r: Option<Fixed>)
        ensures
            r == from_double_bits_spec(bits),
    {
        let negative: bool = bits >= 0x8000_0000_0000_0000;
        let e: u64 = (bits / 0x10_0000_0000_0000) % 2048;
        let m: u64 = 0x10_0000_0000_0000 + bits % 0x10_0000_0000_0000;
        if e == 0 {
            Some(Fixed { raw: 0 })
        } else if e > RAW_UNIT_EXPONENT + 10 {
            None
        } else if e >= RAW_UNIT_EXPONENT {
            let p: u64 = two_to_of(e - RAW_UNIT_EXPONENT);
            proof {
                lemma_two_to_values();
                lemma_two_to_grows((e - RAW_UNIT_EXPONENT) as nat, 10);
                assert(m * p <= 0x1f_ffff_ffff_ffff * 0x400) by (nonlinear_arith)
                    requires
                        0 <= m <= 0x1f_ffff_ffff_ffff,
                        0 <= p <= 0x400,
                ;
            }
            let w: i64 = (m * p) as i64;
            if negative {
                Some(Fixed { raw: -w })
            } else {
                Some(Fixed { raw: w })
            }
        } else {
            let s: u64 = RAW_UNIT_EXPONENT - e;
            if s > 53 {
                proof {
                    lemma_two_to_values();
                    lemma_two_to_grows(54, s as nat);
                    let d = two_to(s as nat);
                    assert((2 * m + d) / (2 * d) == 0) by (nonlinear_arith)
                        requires
                            0 <= 2 * m < d,
                    ;
                }
                Some(Fixed { raw: 0 })
            } else {
                let d: u64 = two_to_of(s);
                proof {
                    lemma_two_to_values();
                    lemma_two_to_grows(s as nat, 53);
                    lemma_two_to_grows(0, s as nat);
                }
                let w: i64 = ((2 * m + d) / (2 * d)) as i64;
                if negative {
                    Some(Fixed { raw: -w })
                } else {
                    Some(Fixed { raw: w })
                }
            }
        }
    }
}

} // verus!
