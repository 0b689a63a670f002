//! Conversions of floating-point values, on their IEEE 754 bit patterns.
use vstd::arithmetic::power2::pow2;
use vstd::prelude::*;

verus! {

/// `significand * 2^exponent`, truncated to an integer.
pub open spec fn scaled(significand: nat, exponent: int) -> nat {
    if exponent >= 0 {
        significand * pow2(exponent as nat)
    } else {
        significand / pow2((-exponent) as nat)
    }
}

/// The integer with the given sign and magnitude, if 64 bits hold it.
pub open spec fn signed_i64(negative: bool, magnitude: nat) -> Option<i64> {
    let number = if negative {
        -(magnitude as int)
    } else {
        magnitude as int
    };
    if i64::MIN <= number <= i64::MAX {
        Some(number as i64)
    } else {
        None
    }
}

/// A float from its parts, truncated towards zero: `None` for infinities and
/// NaNs, which have the greatest biased exponent, and for numbers that 64 bits
/// do not hold.
///
/// `bias` is the exponent bias plus the number of fraction bits. A biased
/// exponent of zero marks a subnormal number, which is less than one.
pub open spec fn truncation(
    negative: bool,
    biased_exponent: nat,
    greatest_exponent: nat,
    fraction: nat,
    hidden_bit: nat,
    bias: nat,
) -> Option<i64> {
    if biased_exponent == greatest_exponent {
        None
    } else if biased_exponent == 0 {
        Some(0)
    } else {
        signed_i64(negative, scaled(hidden_bit + fraction, biased_exponent - bias))
    }
}

/// The truncation of the 32-bit float with the given bit pattern.
pub open spec fn f32_truncation(bits: u32) -> Option<i64> {
    truncation(
        bits >= 0x8000_0000,
        ((bits / 0x80_0000) % 0x100) as nat,
        0xff,
        (bits % 0x80_0000) as nat,
        0x80_0000,
        150,
    )
}

/// The truncation of the 64-bit float with the given bit pattern.
pub open spec fn f64_truncation(bits: u64) -> Option<i64> {
    truncation(
        bits >= 0x8000_0000_0000_0000,
        ((bits / 0x10_0000_0000_0000) % 0x800) as nat,
        0x7ff,
        (bits % 0x10_0000_0000_0000) as nat,
        0x10_0000_0000_0000,
        1075,
    )
}

/// Truncates a finite, normal float of either format. The significand includes the
/// hidden bit.
fn truncate(negative: bool, significand: u64, exponent: i32) -> (result: Option<i64>)
    requires
        0x80_0000 <= significand < 0x20_0000_0000_0000,
        -1075 <= exponent <= 1100,
    ensures
        result == signed_i64(negative, scaled(significand as nat, exponent as int)),
{
    if exponent >= 0 {
        let mut magnitude: u64 = significand;
        let mut left: i32 = exponent;
        while left > 0
            invariant
                0 <= left <= exponent <= 1100,
                0 < magnitude <= 0x8000_0000_0000_0000,
                magnitude * pow2(left as nat) == significand * pow2(exponent as nat),
            decreases left,
        {
            proof {
                vstd::arithmetic::power2::lemma_pow2_unfold(left as nat);
                let rest = pow2((left - 1) as nat) as int;
                vstd::arithmetic::power2::lemma_pow2_pos((left - 1) as nat);
                assert(magnitude * (2 * rest) == (2 * magnitude) * rest) by (nonlinear_arith);
                assert((2 * magnitude) * rest >= 2 * magnitude) by (nonlinear_arith)
                    requires
                        rest >= 1,
                        magnitude >= 0,
                ;
            }
            if magnitude > 0x4000_0000_0000_0000 {
                return None;
            }
            magnitude = 2 * magnitude;
            left = left - 1;
        }
        proof {
            vstd::arithmetic::power2::lemma2_to64();
            assert(magnitude * 1 == magnitude);
        }
        with_sign(negative, magnitude)
    } else {
        let mut magnitude: u64 = significand;
        let mut left: i32 = -exponent;
        proof {
            vstd::arithmetic::power2::lemma2_to64();
        }
        while left > 0 && magnitude > 0
            invariant
                0 <= left <= -exponent <= 1075,
                magnitude < 0x20_0000_0000_0000,
                magnitude as nat / pow2(left as nat) == significand as nat / pow2(
                    (-exponent) as nat,
                ),
            decreases left,
        {
            proof {
                vstd::arithmetic::power2::lemma_pow2_unfold(left as nat);
                vstd::arithmetic::power2::lemma_pow2_pos((left - 1) as nat);
                vstd::arithmetic::div_mod::lemma_div_denominator(
                    magnitude as int,
                    2,
                    pow2((left - 1) as nat) as int,
                );
            }
            magnitude = magnitude / 2;
            left = left - 1;
        }
        proof {
            vstd::arithmetic::power2::lemma_pow2_pos(left as nat);
            vstd::arithmetic::power2::lemma2_to64();
            if left > 0 {
                vstd::arithmetic::div_mod::lemma_div_basics(pow2(left as nat) as int);
            } else {
                vstd::arithmetic::div_mod::lemma_div_basics(magnitude as int);
            }
        }
        with_sign(negative, magnitude)
    }
}

/// A magnitude with its sign, if 64 bits hold the number.
fn with_sign(negative: bool, magnitude: u64) -> (result: Option<i64>)
    ensures
        result == signed_i64(negative, magnitude as nat),
{
    if magnitude < 0x8000_0000_0000_0000 {
        if negative {
            Some(-(magnitude as i64))
        } else {
            Some(magnitude as i64)
        }
    } else if negative && magnitude == 0x8000_0000_0000_0000 {
        Some(i64::MIN)
    } else {
        None
    }
}

/// Truncates a 32-bit float to a signed 64-bit integer.
pub fn f32_convert_i64_s(bits: u32) -> (result: Option<i64>)
    ensures
        result == f32_truncation(bits),
{
    let biased_exponent: u32 = (bits / 0x80_0000) % 0x100;
    if biased_exponent == 0xff {
        None
    } else if biased_exponent == 0 {
        Some(0)
    } else {
        let significand: u64 = 0x80_0000 + (bits % 0x80_0000) as u64;
        truncate(bits >= 0x8000_0000, significand, biased_exponent as i32 - 150)
    }
}

/// Truncates a 64-bit float to a signed 64-bit integer.
pub fn f64_convert_i64_s(bits: u64) -> (result: Option<i64>)
    ensures
        result == f64_truncation(bits),
{
    let biased_exponent: u64 = (bits / 0x10_0000_0000_0000) % 0x800;
    if biased_exponent == 0x7ff {
        None
    } else if biased_exponent == 0 {
        Some(0)
    } else {
        let significand: u64 = 0x10_0000_0000_0000 + bits % 0x10_0000_0000_0000;
        truncate(bits >= 0x8000_0000_0000_0000, significand, biased_exponent as i32 - 1075)
    }
}

} // verus!
