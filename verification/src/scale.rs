//! Scale factors as exact fractions, and rounding up under them.
//!
//! A product with a factor is exact. Where the factor comes from a single,
//! it is multiplied as the fraction that the single stands for, without the
//! rounding that single-precision arithmetic puts on a product. The single
//! nearest to 1.1 lies a little above 1.1, so ten times it rounds up to 12,
//! where single-precision arithmetic gives the product 11 and leaves it at
//! that; `Scale::new(11, 10)` is 1.1 itself and gives 11.

use vstd::arithmetic::power2::{lemma2_to64_rest, lemma_pow2_strictly_increases};
use vstd::prelude::*;

use crate::single::{power_of_two, single_magnitude};

verus! {

/// The scale factor `numer / denom`. A factor with a zero denominator is no
/// number; it is never positive.
#[derive(Clone, Copy, Debug, PartialEq, Eq, Structural)]
pub struct Scale {
    pub numer: i64,
    pub denom: u64,
}

/// `a / d` rounded up to the next integer, for a positive `d`.
pub open spec fn ceil_div(a: int, d: int) -> int {
    (a + d - 1) / d
}

/// `ceil_div(a, d)` times `d` reaches `a`, and nothing smaller does.
pub proof fn lemma_ceil_div_reaches(a: int, d: int)
    requires
        d > 0,
    ensures
        ceil_div(a, d) * d >= a,
        (ceil_div(a, d) - 1) * d < a,
{
    let q = ceil_div(a, d);
    let n = a + d - 1;
    assert(n == d * (n / d) + n % d && 0 <= n % d < d) by (nonlinear_arith)
        requires
            d > 0,
    ;
    assert(q * d == d * (n / d)) by (nonlinear_arith)
        requires
            q == n / d,
    ;
    assert((q - 1) * d == q * d - d) by (nonlinear_arith);
}

/// Every integer whose product with `d` reaches `a` is at least
/// `ceil_div(a, d)`.
pub proof fn lemma_ceil_div_is_least(a: int, d: int, k: int)
    requires
        d > 0,
        k * d >= a,
    ensures
        k >= ceil_div(a, d),
{
    let q = ceil_div(a, d);
    lemma_ceil_div_reaches(a, d);
    if k < q {
        assert(k * d <= (q - 1) * d) by (nonlinear_arith)
            requires
                k <= q - 1,
                d > 0,
        ;
    }
}

impl Scale {
    /// The factor that an IEEE 754 single stands for, given by its bits.
    pub open spec fn from_f32_bits_spec(bits: u32) -> Scale {
        let (numer, denom) = single_magnitude(bits);
        Scale {
            numer: if bits >= 0x8000_0000 {
                (-numer) as i64
            } else {
                numer as i64
            },
            denom: denom as u64,
        }
    }

    /// The factor that an IEEE 754 single stands for, given by its bits: the
    /// same number as a fraction, as far as a fraction of 64-bit integers
    /// reaches (see [`single_magnitude`]). The factor is positive exactly
    /// where the single is: greater than zero, infinity included.
    pub fn from_f32_bits(bits: u32) -> (scale: Scale)
        ensures
            scale == Scale::from_f32_bits_spec(bits),
            scale.is_positive() <==> 0 < bits <= 0x7f80_0000,
    {
        let negative = bits >= 0x8000_0000;
        let exponent = (bits / 0x80_0000) % 0x100;
        let fraction = bits % 0x80_0000;
        let (magnitude, denom): (i64, u64) = if exponent == 255 {
            if fraction != 0 {
                (0, 0)
            } else {
                (i64::MAX, 1)
            }
        } else {
            let mantissa: u32 = if exponent == 0 {
                fraction
            } else {
                fraction + 0x80_0000
            };
            let power: i32 = if exponent == 0 {
                -149
            } else {
                exponent as i32 - 150
            };
            if mantissa == 0 {
                (0, 1)
            } else if power > 39 {
                (i64::MAX, 1)
            } else if power >= 0 {
                let factor = power_of_two(power as u32);
                proof {
                    lemma2_to64_rest();
                    if power < 39 {
                        lemma_pow2_strictly_increases(power as nat, 39);
                    }
                    assert(0 < mantissa * factor < 0x100_0000 * 0x80_0000_0000)
                        by (nonlinear_arith)
                        requires
                            0 < mantissa < 0x100_0000,
                            0 < factor <= 0x80_0000_0000,
                    ;
                }
                ((mantissa as u64 * factor) as i64, 1)
            } else if power >= -63 {
                (mantissa as i64, power_of_two((-power) as u32))
            } else {
                (1, power_of_two(63))
            }
        };
        proof {
            // Zero and what is no number are not positive; every other
            // magnitude is.
            assert(magnitude > 0 && denom > 0 <==> (exponent < 255 && (exponent > 0 || fraction
                > 0)) || (exponent == 255 && fraction == 0));
            assert(bits == (bits / 0x80_0000) * 0x80_0000 + fraction);
        }
        Scale {
            numer: if negative {
                -magnitude
            } else {
                magnitude
            },
            denom,
        }
    }

    /// Whether the factor is a number greater than zero.
    pub open spec fn is_positive(self) -> bool {
        self.numer > 0 && self.denom > 0
    }

    /// Whether the factor is exactly one.
    pub open spec fn is_one(self) -> bool {
        self.denom > 0 && self.numer == self.denom
    }

    /// Whether the factor is a number less than one.
    pub open spec fn is_below_one(self) -> bool {
        self.denom > 0 && self.numer < self.denom
    }

    /// Whether this factor is less than `other`, both being numbers.
    pub open spec fn lt(self, other: Scale) -> bool {
        self.numer * other.denom < other.numer * self.denom
    }

    /// `value` times the factor, rounded up to the next integer.
    pub open spec fn times_ceil_spec(self, value: int) -> int {
        ceil_div(value * self.numer, self.denom as int)
    }

    /// The factor `numer / denom`.
    pub fn new(numer: i64, denom: u64) -> (scale: Scale)
        ensures
            scale == (Scale { numer, denom }),
    {
        Scale { numer, denom }
    }

    /// The factor `to / from`, by which a length of `from` becomes `to`.
    pub fn ratio(to: u32, from: u32) -> (scale: Scale)
        ensures
            scale == (Scale { numer: to as i64, denom: from as u64 }),
    {
        Scale { numer: to as i64, denom: from as u64 }
    }

    /// Whether the factor is a number greater than zero.
    pub fn positive(&self) -> (positive: bool)
        ensures
            positive == self.is_positive(),
    {
        self.numer > 0 && self.denom > 0
    }

    /// `value` times a positive factor, rounded up to the next integer.
    pub fn times_ceil(&self, value: u32) -> (product: u128)
        requires
            self.is_positive(),
        ensures
            product == self.times_ceil_spec(value as int),
    {
        let numer = self.numer as u128;
        let denom = self.denom as u128;
        assert(value * numer <= 0xffff_ffff * 0x7fff_ffff_ffff_ffff) by (nonlinear_arith)
            requires
                0 <= value <= 0xffff_ffff,
                0 <= numer <= 0x7fff_ffff_ffff_ffff,
        ;
        (value as u128 * numer + (denom - 1)) / denom
    }
}

/// A positive factor takes a positive length to a positive length, and zero
/// to zero.
pub proof fn lemma_times_ceil_sign(scale: Scale, value: int)
    requires
        scale.is_positive(),
        value >= 0,
    ensures
        scale.times_ceil_spec(value) >= 0,
        scale.times_ceil_spec(value) == 0 <==> value == 0,
{
    let a = value * scale.numer;
    let d = scale.denom as int;
    lemma_ceil_div_reaches(a, d);
    assert(a >= 0 && (value > 0 ==> a > 0) && (value == 0 ==> a == 0)) by (nonlinear_arith)
        requires
            a == value * scale.numer,
            scale.numer > 0,
            value >= 0,
    ;
    let q = ceil_div(a, d);
    if q < 0 {
        assert((q - 1) * d < 0 && q * d < 0) by (nonlinear_arith)
            requires
                q < 0,
                d > 0,
        ;
    }
    if q == 0 {
        assert(q * d == 0) by (nonlinear_arith)
            requires
                q == 0,
        ;
    }
    if q > 0 && value == 0 {
        assert((q - 1) * d >= 0) by (nonlinear_arith)
            requires
                q >= 1,
                d > 0,
        ;
    }
}

/// Of two positive factors the greater takes a length at least as far.
pub proof fn lemma_times_ceil_monotone(smaller: Scale, greater: Scale, value: int)
    requires
        smaller.is_positive(),
        greater.is_positive(),
        smaller.lt(greater),
        value >= 0,
    ensures
        smaller.times_ceil_spec(value) <= greater.times_ceil_spec(value),
{
    let n1 = smaller.numer as int;
    let d1 = smaller.denom as int;
    let n2 = greater.numer as int;
    let d2 = greater.denom as int;
    let k2 = greater.times_ceil_spec(value);
    lemma_ceil_div_reaches(value * n2, d2);
    lemma_times_ceil_sign(greater, value);
    // k2 * d2 >= value * n2, so k2 * d1 * d2 >= value * n2 * d1 >= value * n1 * d2.
    assert(k2 * d1 >= value * n1) by (nonlinear_arith)
        requires
            k2 * d2 >= value * n2,
            n1 * d2 < n2 * d1,
            d1 > 0,
            d2 > 0,
            value >= 0,
            k2 >= 0,
    {
        assert(k2 * d2 * d1 >= value * n2 * d1);
        assert(value * (n2 * d1) >= value * (n1 * d2));
        assert((k2 * d1) * d2 >= (value * n1) * d2);
    }
    lemma_ceil_div_is_least(value * n1, d1, k2);
}

} // verus!
