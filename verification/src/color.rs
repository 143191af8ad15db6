//! Colours as a document names them, with or without an alpha channel.

use vstd::arithmetic::power2::{lemma2_to64, lemma_pow2_strictly_increases, pow2};
use vstd::prelude::*;

use crate::single::{
    power_of_two, single_exponent, single_fraction, single_mantissa, single_power,
};

verus! {

/// The number of bits by which `n` is longer than the 24 bits that a single
/// holds.
pub open spec fn excess_bits(n: int) -> nat
    decreases n,
{
    if n < 0x100_0000 {
        0
    } else {
        1 + excess_bits(n / 2)
    }
}

/// `n / d` rounded to the nearest integer, a tie to the even one.
pub open spec fn round_half_even(n: int, d: int) -> int {
    if 2 * (n % d) > d || (2 * (n % d) == d && (n / d) % 2 == 1) {
        n / d + 1
    } else {
        n / d
    }
}

/// `n / d` rounded to the nearest integer, a tie upwards.
pub open spec fn round_half_up(n: int, d: int) -> int {
    (2 * n + d) / (2 * d)
}

/// The alpha that an opacity stands for, where the opacity is the single
/// with the given bits: 255 times the opacity, rounded to the nearest
/// integer with a tie away from zero, and kept between 0 and 255.
///
/// The product is the one of single-precision arithmetic: it is rounded to
/// 24 significant bits, a tie to even, before it is rounded to an integer.
/// An opacity that is negative or no number gives 0.
pub open spec fn opacity_alpha_spec(bits: u32) -> u8 {
    let exact = 255 * single_mantissa(bits);
    let shift = excess_bits(exact);
    let product = round_half_even(exact, pow2(shift) as int);
    let power = single_power(bits) + shift;
    let rounded = if power >= 0 {
        product * pow2(power as nat)
    } else {
        round_half_up(product, pow2((-power) as nat) as int)
    };
    if bits >= 0x8000_0000 {
        0
    } else if single_exponent(bits) == 255 {
        if single_fraction(bits) != 0 {
            0
        } else {
            255
        }
    } else if rounded > 255 {
        255
    } else {
        rounded as u8
    }
}

/// The number of bits by which `n` is longer than 24 bits.
fn count_excess_bits(n: u64) -> (excess: u32)
    requires
        n < 0x1_0000_0000,
    ensures
        excess == excess_bits(n as int),
        excess <= 8,
        n < 0x100_0000 * pow2(excess as nat),
{
    let mut rest = n;
    let mut excess: u32 = 0;
    proof {
        lemma2_to64();
    }
    while rest >= 0x100_0000
        invariant
            n < 0x1_0000_0000,
            excess <= 8,
            pow2(8) == 256,
            excess_bits(n as int) == excess + excess_bits(rest as int),
            rest * pow2(excess as nat) <= n < (rest + 1) * pow2(excess as nat),
        decreases rest,
    {
        proof {
            if excess == 8 {
                assert(pow2(excess as nat) == 256);
                assert(rest * pow2(excess as nat) == rest * 256);
            }
            vstd::arithmetic::power2::lemma_pow2_unfold((excess + 1) as nat);
            let p = pow2(excess as nat) as int;
            let r = rest as int;
            assert((r / 2) * (2 * p) <= r * p && (r + 1) * p <= (r / 2 + 1) * (2 * p))
                by (nonlinear_arith)
                requires
                    r >= 0,
                    p >= 0,
            ;
        }
        rest = rest / 2;
        excess += 1;
    }
    proof {
        let p = pow2(excess as nat) as int;
        let r = rest as int;
        assert((r + 1) * p <= 0x100_0000 * p) by (nonlinear_arith)
            requires
                r + 1 <= 0x100_0000,
                p >= 0,
        ;
    }
    excess
}

/// The alpha that an opacity stands for, from the bits of the single that
/// holds the opacity.
pub fn opacity_alpha(bits: u32) -> (alpha: u8)
    ensures
        alpha == opacity_alpha_spec(bits),
{
    if bits >= 0x8000_0000 {
        return 0;
    }
    let exponent = (bits / 0x80_0000) % 0x100;
    let fraction = bits % 0x80_0000;
    if exponent == 255 {
        return if fraction != 0 {
            0
        } else {
            255
        };
    }
    let mantissa: u64 = if exponent == 0 {
        fraction as u64
    } else {
        fraction as u64 + 0x80_0000
    };
    let exact: u64 = 255 * mantissa;
    let shift = count_excess_bits(exact);
    let unit = power_of_two(shift);
    proof {
        lemma2_to64();
        if shift < 8 {
            lemma_pow2_strictly_increases(shift as nat, 8);
        }
        assert(unit <= 256);
        assert(exact / unit <= exact) by (nonlinear_arith)
            requires
                exact >= 0,
                unit >= 1,
        ;
    }
    let floor = exact / unit;
    let rest = exact % unit;
    let product: u64 = if 2 * rest > unit || (2 * rest == unit && floor % 2 == 1) {
        floor + 1
    } else {
        floor
    };
    let base: i32 = if exponent == 0 {
        -149
    } else {
        exponent as i32 - 150
    };
    let power: i32 = base + shift as i32;
    proof {
        // The product has at most 25 bits.
        assert(floor * unit <= exact) by (nonlinear_arith)
            requires
                floor == exact / unit,
                unit >= 1,
                exact >= 0,
        ;
        assert(floor < 0x100_0000) by (nonlinear_arith)
            requires
                floor * unit <= exact,
                exact < 0x100_0000 * unit,
                unit >= 1,
        ;
    }
    if product == 0 {
        proof {
            if power >= 0 {
                assert(0 * pow2(power as nat) == 0) by (nonlinear_arith);
            } else {
                let d = pow2((-power) as nat) as int;
                vstd::arithmetic::power2::lemma_pow2_pos((-power) as nat);
                assert((2 * 0 + d) / (2 * d) == 0) by (nonlinear_arith)
                    requires
                        d > 0,
                ;
            }
        }
        return 0;
    }
    if power >= 0 {
        if power >= 8 {
            proof {
                if power > 8 {
                    lemma_pow2_strictly_increases(8, power as nat);
                }
                assert(product * pow2(power as nat) >= 256) by (nonlinear_arith)
                    requires
                        product >= 1,
                        pow2(power as nat) >= 256,
                ;
            }
            return 255;
        }
        let factor = power_of_two(power as u32);
        proof {
            lemma_pow2_strictly_increases(power as nat, 8);
            assert(product * factor <= 0x100_0000 * 256) by (nonlinear_arith)
                requires
                    0 <= product <= 0x100_0000,
                    0 <= factor <= 256,
            ;
        }
        let rounded = product * factor;
        if rounded > 255 {
            255
        } else {
            rounded as u8
        }
    } else {
        if power <= -26 {
            proof {
                let d = pow2((-power) as nat) as int;
                if power < -26 {
                    lemma_pow2_strictly_increases(26, (-power) as nat);
                }
                assert((2 * product + d) / (2 * d) == 0) by (nonlinear_arith)
                    requires
                        0 <= product <= 0x100_0000,
                        d >= 0x400_0000,
                ;
            }
            return 0;
        }
        let unit = power_of_two((-power) as u32);
        proof {
            lemma_pow2_strictly_increases((-power) as nat, 26);
        }
        let rounded = (2 * product + unit) / (2 * unit);
        if rounded > 255 {
            255
        } else {
            rounded as u8
        }
    }
}

/// A colour of a document: red, green and blue, and alpha where it is given.
#[derive(PartialEq, Eq, Debug, Hash, Clone, Copy, Structural)]
pub enum Color {
    RGB(u8, u8, u8),
    RGBA(u8, u8, u8, u8),
}

impl Color {
    pub open spec fn r_spec(&self) -> u8 {
        match *self {
            Color::RGB(r, _, _) => r,
            Color::RGBA(r, _, _, _) => r,
        }
    }

    pub open spec fn g_spec(&self) -> u8 {
        match *self {
            Color::RGB(_, g, _) => g,
            Color::RGBA(_, g, _, _) => g,
        }
    }

    pub open spec fn b_spec(&self) -> u8 {
        match *self {
            Color::RGB(_, _, b) => b,
            Color::RGBA(_, _, b, _) => b,
        }
    }

    pub open spec fn a_spec(&self) -> Option<u8> {
        match *self {
            Color::RGB(_, _, _) => None,
            Color::RGBA(_, _, _, a) => Some(a),
        }
    }

    /// Whether this is one of the two marker colours, which are never
    /// replaced: yellow or pink, without alpha or fully opaque.
    pub open spec fn is_reaper_reserved_spec(&self) -> bool {
        &&& self.a_spec() is None || self.a_spec() == Some(255u8)
        &&& self.r_spec() == 255
        &&& (self.g_spec() == 255 && self.b_spec() == 0) || (self.g_spec() == 0 && self.b_spec()
            == 255)
    }

    /// The red channel.
    #[verifier::when_used_as_spec(r_spec)]
    pub fn r(&self) -> (r: u8)
        ensures
            r == self.r_spec(),
    {
        match self {
            Color::RGB(r, _, _) => *r,
            Color::RGBA(r, _, _, _) => *r,
        }
    }

    /// The green channel.
    #[verifier::when_used_as_spec(g_spec)]
    pub fn g(&self) -> (g: u8)
        ensures
            g == self.g_spec(),
    {
        match self {
            Color::RGB(_, g, _) => *g,
            Color::RGBA(_, g, _, _) => *g,
        }
    }

    /// The blue channel.
    #[verifier::when_used_as_spec(b_spec)]
    pub fn b(&self) -> (b: u8)
        ensures
            b == self.b_spec(),
    {
        match self {
            Color::RGB(_, _, b) => *b,
            Color::RGBA(_, _, b, _) => *b,
        }
    }

    /// The alpha channel, where the colour has one.
    #[verifier::when_used_as_spec(a_spec)]
    pub fn a(&self) -> (a: Option<u8>)
        ensures
            a == self.a_spec(),
    {
        match self {
            Color::RGB(_, _, _) => None,
            Color::RGBA(_, _, _, a) => Some(*a),
        }
    }

    /// This colour with alpha `a`, unless it has an alpha of its own, which
    /// it keeps.
    pub fn with_a(&self, a: u8) -> (color: Color)
        ensures
            color == Color::RGBA(
                self.r_spec(),
                self.g_spec(),
                self.b_spec(),
                match self.a_spec() {
                    Some(own) => own,
                    None => a,
                },
            ),
    {
        match self {
            Color::RGB(r, g, b) => Color::RGBA(*r, *g, *b, a),
            Color::RGBA(r, g, b, a) => Color::RGBA(*r, *g, *b, *a),
        }
    }

    /// This colour with the alpha that an opacity stands for, the opacity
    /// given by the bits of its single, unless the colour has an alpha of
    /// its own.
    pub fn with_opacity(&self, opacity_bits: u32) -> (color: Color)
        ensures
            color == Color::RGBA(
                self.r_spec(),
                self.g_spec(),
                self.b_spec(),
                match self.a_spec() {
                    Some(own) => own,
                    None => opacity_alpha_spec(opacity_bits),
                },
            ),
    {
        self.with_a(opacity_alpha(opacity_bits))
    }

    /// Whether this is one of the two marker colours.
    #[verifier::when_used_as_spec(is_reaper_reserved_spec)]
    pub fn is_reaper_reserved(&self) -> (reserved: bool)
        ensures
            reserved == self.is_reaper_reserved_spec(),
    {
        let alpha = match self.a() {
            Some(a) => a,
            None => 255,
        };
        if alpha != 255 {
            return false;
        }
        let r = self.r();
        let g = self.g();
        let b = self.b();
        let is_yellow = r == 255 && g == 255 && b == 0;
        let is_pink = r == 255 && g == 0 && b == 255;
        is_yellow || is_pink
    }
}

} // verus!
