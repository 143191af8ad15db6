//! IEEE 754 single-precision numbers, taken apart by their bits.
//!
//! The library does no floating-point arithmetic. Where a caller has a
//! single, it hands over its bits, and what is computed from them is stated
//! over the integers that the bits stand for.

use vstd::arithmetic::power2::{
    lemma2_to64, lemma2_to64_rest, lemma_pow2_strictly_increases, lemma_pow2_unfold, pow2,
};
use vstd::prelude::*;

verus! {

/// The exponent field of an IEEE 754 single given by its bits.
pub open spec fn single_exponent(bits: u32) -> int {
    ((bits / 0x80_0000) % 0x100) as int
}

/// The fraction field of an IEEE 754 single given by its bits.
pub open spec fn single_fraction(bits: u32) -> int {
    (bits % 0x80_0000) as int
}

/// The integer `m` for which the magnitude of a finite single is
/// `m * 2^single_power(bits)`.
pub open spec fn single_mantissa(bits: u32) -> int {
    if single_exponent(bits) == 0 {
        single_fraction(bits)
    } else {
        single_fraction(bits) + 0x80_0000
    }
}

/// The power of two by which the mantissa of a finite single is scaled.
pub open spec fn single_power(bits: u32) -> int {
    if single_exponent(bits) == 0 {
        -149
    } else {
        single_exponent(bits) - 150
    }
}

/// The magnitude of the single with the given bits as a fraction
/// (numerator, denominator).
///
/// A finite single from 2^-40 up to 2^63 is given exactly. Beyond that the
/// fraction stops at its ends: a greater one, infinity too, is
/// `i64::MAX / 1`, and a smaller one that is not zero is `1 / 2^63`. What
/// is no number has the denominator zero.
pub open spec fn single_magnitude(bits: u32) -> (int, int) {
    let mantissa = single_mantissa(bits);
    let power = single_power(bits);
    if single_exponent(bits) == 255 {
        if single_fraction(bits) != 0 {
            (0, 0)
        } else {
            (i64::MAX as int, 1)
        }
    } else if mantissa == 0 {
        (0, 1)
    } else if power > 39 {
        (i64::MAX as int, 1)
    } else if power >= 0 {
        (mantissa * pow2(power as nat), 1)
    } else if power >= -63 {
        (mantissa, pow2((-power) as nat) as int)
    } else {
        (1, pow2(63) as int)
    }
}

/// Two to the power of `exponent`.
pub(crate) fn power_of_two(exponent: u32) -> (power: u64)
    requires
        exponent <= 63,
    ensures
        power == pow2(exponent as nat),
        1 <= power <= 0x8000_0000_0000_0000,
{
    let mut power: u64 = 1;
    let mut i: u32 = 0;
    proof {
        lemma2_to64();
        lemma2_to64_rest();
    }
    while i < exponent
        invariant
            i <= exponent <= 63,
            power == pow2(i as nat),
            1 <= power,
            pow2(63) == 0x8000_0000_0000_0000,
        decreases exponent - i,
    {
        proof {
            lemma_pow2_unfold((i + 1) as nat);
            if i + 1 < 63 {
                lemma_pow2_strictly_increases((i + 1) as nat, 63);
            }
        }
        power = power * 2;
        i += 1;
    }
    proof {
        if exponent < 63 {
            lemma_pow2_strictly_increases(exponent as nat, 63);
        }
    }
    power
}

} // verus!
