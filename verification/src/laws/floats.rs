//! What floating-point numbers are truncated to.
use vstd::arithmetic::power2::{lemma_pow2_pos, pow2};
use vstd::prelude::*;

use crate::fp_ops::{f32_truncation, f64_truncation, scaled};
use crate::value::Value;

verus! {

/// Whether a magnitude is what is left of `significand * 2^exponent` without the part
/// behind the point.
pub open spec fn is_whole_part(magnitude: int, significand: int, exponent: int) -> bool {
    if exponent >= 0 {
        magnitude == significand * pow2(exponent as nat)
    } else {
        let unit = pow2((-exponent) as nat) as int;
        magnitude * unit <= significand < (magnitude + 1) * unit
    }
}

/// Whether an integer, or none, is the truncation of a number with a sign and the
/// given magnitude: the number without the part behind the point, if 64 bits hold it.
pub open spec fn truncates(
    truncated: Option<i64>,
    negative: bool,
    significand: int,
    exponent: int,
) -> bool {
    exists|magnitude: int| #[trigger]
        is_whole_part(magnitude, significand, exponent) && {
            let number = if negative {
                -magnitude
            } else {
                magnitude
            };
            match truncated {
                Some(v) => v == number,
                None => !(-0x8000_0000_0000_0000 <= number <= 0x7fff_ffff_ffff_ffff),
            }
        }
}

proof fn lemma_scaled(significand: nat, exponent: int)
    ensures
        is_whole_part(scaled(significand, exponent) as int, significand as int, exponent),
{
    if exponent < 0 {
        let unit = pow2((-exponent) as nat) as int;
        lemma_pow2_pos((-exponent) as nat);
        vstd::arithmetic::div_mod::lemma_fundamental_div_mod(significand as int, unit);
        let q = significand as int / unit;
        assert(q * unit == unit * q) by (nonlinear_arith);
        assert((q + 1) * unit == unit * q + unit) by (nonlinear_arith);
    }
}

/// A 32-bit float has a sign, a biased exponent of eight bits and a fraction of 23
/// bits. Infinities and NaNs, with the greatest exponent, have no truncation; a float
/// with the least exponent is closer to zero than one; every other is truncated
/// towards zero, if 64 bits hold the result.
pub proof fn law_f32_truncation(bits: u32, negative: bool, exponent: int, fraction: int)
    requires
        0 <= exponent < 0x100,
        0 <= fraction < 0x80_0000,
        bits == (if negative {
            0x8000_0000int
        } else {
            0
        }) + exponent * 0x80_0000 + fraction,
    ensures
        exponent == 0xff ==> f32_truncation(bits) is None,
        exponent == 0 ==> f32_truncation(bits) == Some(0i64),
        0 < exponent < 0xff ==> truncates(
            f32_truncation(bits),
            negative,
            0x80_0000 + fraction,
            exponent - 127 - 23,
        ),
        Value::F32(bits).to_i64() == (match f32_truncation(bits) {
            Some(v) => v,
            None => 0,
        }),
{
    lemma_scaled((0x80_0000 + fraction) as nat, exponent - 150);
}

/// A 64-bit float has a sign, a biased exponent of eleven bits and a fraction of 52
/// bits, and is truncated in the same way.
pub proof fn law_f64_truncation(bits: u64, negative: bool, exponent: int, fraction: int)
    requires
        0 <= exponent < 0x800,
        0 <= fraction < 0x10_0000_0000_0000,
        bits == (if negative {
            0x8000_0000_0000_0000int
        } else {
            0
        }) + exponent * 0x10_0000_0000_0000 + fraction,
    ensures
        exponent == 0x7ff ==> f64_truncation(bits) is None,
        exponent == 0 ==> f64_truncation(bits) == Some(0i64),
        0 < exponent < 0x7ff ==> truncates(
            f64_truncation(bits),
            negative,
            0x10_0000_0000_0000 + fraction,
            exponent - 1023 - 52,
        ),
        Value::F64(bits).to_i64() == (match f64_truncation(bits) {
            Some(v) => v,
            None => 0,
        }),
{
    lemma_scaled((0x10_0000_0000_0000 + fraction) as nat, exponent - 1075);
}

} // verus!
