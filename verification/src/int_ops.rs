//! The integer instructions: arithmetic, comparisons, and access to memory.
use vstd::prelude::*;
use vstd::std_specs::bits::{
    u32_leading_zeros, u32_trailing_zeros, u64_leading_zeros, u64_trailing_zeros,
};

use crate::error::{outcome, ErrorView, ExecuteError, ExecuteResult};
use crate::memory::{Memory, MemoryState};
use crate::opcode::Memarg;
use crate::value::Value;

verus! {

// Numbers of a fixed width.

/// The unsigned number with the bits of `v`.
pub open spec fn unsigned_32(v: i32) -> nat {
    (if v >= 0 {
        v as int
    } else {
        v + 0x1_0000_0000
    }) as nat
}

/// The signed 32-bit number that is `x` modulo `2^32`.
pub open spec fn signed_32(x: int) -> i32 {
    let r = x % 0x1_0000_0000;
    (if r < 0x8000_0000 {
        r
    } else {
        r - 0x1_0000_0000
    }) as i32
}

/// Reads the bits of a signed number as an unsigned one.
pub fn to_unsigned_32(v: i32) -> (x: u32)
    ensures
        x == unsigned_32(v),
{
    assert(v >= 0 ==> v as u32 == v) by (bit_vector);
    assert(v < 0 ==> v as u32 == v + 0x1_0000_0000) by (bit_vector);
    v as u32
}

/// Reads the bits of an unsigned number as a signed one.
pub fn to_signed_32(x: u32) -> (v: i32)
    ensures
        v == signed_32(x as int),
{
    assert(x < 0x8000_0000 ==> x as i32 == x) by (bit_vector);
    assert(x >= 0x8000_0000 ==> x as i32 == x - 0x1_0000_0000) by (bit_vector);
    x as i32
}

/// The unsigned number with the bits of `v`.
pub open spec fn unsigned_64(v: i64) -> nat {
    (if v >= 0 {
        v as int
    } else {
        v + 0x1_0000_0000_0000_0000
    }) as nat
}

/// The signed 64-bit number that is `x` modulo `2^64`.
pub open spec fn signed_64(x: int) -> i64 {
    let r = x % 0x1_0000_0000_0000_0000;
    (if r < 0x8000_0000_0000_0000 {
        r
    } else {
        r - 0x1_0000_0000_0000_0000
    }) as i64
}

/// Reads the bits of a signed number as an unsigned one.
pub fn to_unsigned_64(v: i64) -> (x: u64)
    ensures
        x == unsigned_64(v),
{
    assert(v >= 0 ==> v as u64 == v) by (bit_vector);
    assert(v < 0 ==> v as u64 == v + 0x1_0000_0000_0000_0000) by (bit_vector);
    v as u64
}

/// Reads the bits of an unsigned number as a signed one.
pub fn to_signed_64(x: u64) -> (v: i64)
    ensures
        v == signed_64(x as int),
{
    assert(x < 0x8000_0000_0000_0000 ==> x as i64 == x) by (bit_vector);
    assert(x >= 0x8000_0000_0000_0000 ==> x as i64 == x - 0x1_0000_0000_0000_0000) by (bit_vector);
    x as i64
}

/// The number of ones in the binary form of a number.
pub open spec fn ones(x: nat) -> nat
    decreases x,
{
    if x == 0 {
        0
    } else {
        x % 2 + ones(x / 2)
    }
}

/// The quotient of a division that rounds towards zero.
pub open spec fn quotient(a: int, b: int) -> int {
    if a >= 0 {
        if b >= 0 {
            a / b
        } else {
            -(a / -b)
        }
    } else if b >= 0 {
        -(-a / b)
    } else {
        -a / -b
    }
}

/// The remainder of a division that rounds towards zero: it has the sign of `a`.
pub open spec fn remainder(a: int, b: int) -> int {
    let divisor = if b >= 0 {
        b
    } else {
        -b
    };
    if a >= 0 {
        a % divisor
    } else {
        -(-a % divisor)
    }
}

/// The answer of a comparison.
pub open spec fn truth(b: bool) -> Value {
    Value::I32(
        if b {
            1
        } else {
            0
        },
    )
}

fn to_truth(b: bool) -> (value: Value)
    ensures
        value == truth(b),
{
    Value::I32(
        if b {
            1
        } else {
            0
        },
    )
}

/// Counts the ones of a number.
fn count_ones(x: u64) -> (n: u32)
    ensures
        n == ones(x as nat),
        n <= 64,
{
    let mut rest: u64 = x;
    let mut n: u32 = 0;
    let mut left: u32 = 64;
    proof {
        vstd::arithmetic::power2::lemma2_to64();
    }
    while rest > 0
        invariant
            n + ones(rest as nat) == ones(x as nat),
            n + left <= 64,
            rest < vstd::arithmetic::power2::pow2(left as nat),
        decreases rest,
    {
        proof {
            if left == 0 {
                vstd::arithmetic::power2::lemma2_to64();
            } else {
                vstd::arithmetic::power2::lemma_pow2_unfold(left as nat);
            }
        }
        n = n + (rest % 2) as u32;
        rest = rest / 2;
        left = left - 1;
    }
    n
}

// What the 32-bit instructions compute.

pub open spec fn spec_i32_clz(v: i32) -> i32 {
    u32_leading_zeros(unsigned_32(v) as u32) as i32
}

pub open spec fn spec_i32_ctz(v: i32) -> i32 {
    u32_trailing_zeros(unsigned_32(v) as u32) as i32
}

pub open spec fn spec_i32_popcnt(v: i32) -> i32 {
    ones(unsigned_32(v)) as i32
}

pub open spec fn spec_i32_add(a: i32, b: i32) -> i32 {
    signed_32(a + b)
}

pub open spec fn spec_i32_sub(a: i32, b: i32) -> i32 {
    signed_32(a - b)
}

pub open spec fn spec_i32_mul(a: i32, b: i32) -> i32 {
    signed_32(a * b)
}

pub open spec fn spec_i32_div_u(a: i32, b: i32) -> i32 {
    signed_32((unsigned_32(a) / unsigned_32(b)) as int)
}

pub open spec fn spec_i32_div_s(a: i32, b: i32) -> i32 {
    signed_32(quotient(a as int, b as int))
}

pub open spec fn spec_i32_rem_u(a: i32, b: i32) -> i32 {
    signed_32((unsigned_32(a) % unsigned_32(b)) as int)
}

pub open spec fn spec_i32_rem_s(a: i32, b: i32) -> i32 {
    signed_32(remainder(a as int, b as int))
}

/// The number of places that an instruction shifts by.
pub open spec fn places_32(b: i32) -> u32 {
    (unsigned_32(b) % 32) as u32
}

pub open spec fn spec_i32_shl(a: i32, b: i32) -> i32 {
    signed_32(((unsigned_32(a) as u32) << places_32(b)) as int)
}

pub open spec fn spec_i32_shr_u(a: i32, b: i32) -> i32 {
    signed_32(((unsigned_32(a) as u32) >> places_32(b)) as int)
}

pub open spec fn spec_i32_shr_s(a: i32, b: i32) -> i32 {
    a >> places_32(b)
}

/// The bits of `x`, moved `k` places to the left and round.
pub open spec fn rotated_left_32(x: u32, k: u32) -> u32 {
    (x << k) | (x >> ((32 - k) as u32))
}

/// The bits of `x`, moved `k` places to the right and round.
pub open spec fn rotated_right_32(x: u32, k: u32) -> u32 {
    (x >> k) | (x << ((32 - k) as u32))
}

pub open spec fn spec_i32_rotl(a: i32, b: i32) -> i32 {
    signed_32(rotated_left_32(unsigned_32(a) as u32, places_32(b)) as int)
}

pub open spec fn spec_i32_rotr(a: i32, b: i32) -> i32 {
    signed_32(rotated_right_32(unsigned_32(a) as u32, places_32(b)) as int)
}

/// Whether the quotient of a signed division is a 32-bit number.
pub open spec fn divisible_32(a: i32, b: i32) -> bool {
    b != 0 && !(a == i32::MIN && b == -1)
}

// What the 64-bit instructions compute.

pub open spec fn spec_i64_clz(v: i64) -> i64 {
    u64_leading_zeros(unsigned_64(v) as u64) as i64
}

pub open spec fn spec_i64_ctz(v: i64) -> i64 {
    u64_trailing_zeros(unsigned_64(v) as u64) as i64
}

pub open spec fn spec_i64_popcnt(v: i64) -> i64 {
    ones(unsigned_64(v)) as i64
}

pub open spec fn spec_i64_add(a: i64, b: i64) -> i64 {
    signed_64(a + b)
}

pub open spec fn spec_i64_sub(a: i64, b: i64) -> i64 {
    signed_64(a - b)
}

pub open spec fn spec_i64_mul(a: i64, b: i64) -> i64 {
    signed_64(a * b)
}

pub open spec fn spec_i64_div_u(a: i64, b: i64) -> i64 {
    signed_64((unsigned_64(a) / unsigned_64(b)) as int)
}

pub open spec fn spec_i64_div_s(a: i64, b: i64) -> i64 {
    signed_64(quotient(a as int, b as int))
}

pub open spec fn spec_i64_rem_u(a: i64, b: i64) -> i64 {
    signed_64((unsigned_64(a) % unsigned_64(b)) as int)
}

pub open spec fn spec_i64_rem_s(a: i64, b: i64) -> i64 {
    signed_64(remainder(a as int, b as int))
}

/// The number of places that an instruction shifts by.
pub open spec fn places_64(b: i64) -> u64 {
    (unsigned_64(b) % 64) as u64
}

pub open spec fn spec_i64_shl(a: i64, b: i64) -> i64 {
    signed_64(((unsigned_64(a) as u64) << places_64(b)) as int)
}

pub open spec fn spec_i64_shr_u(a: i64, b: i64) -> i64 {
    signed_64(((unsigned_64(a) as u64) >> places_64(b)) as int)
}

pub open spec fn spec_i64_shr_s(a: i64, b: i64) -> i64 {
    a >> places_64(b)
}

/// The bits of `x`, moved `k` places to the left and round.
pub open spec fn rotated_left_64(x: u64, k: u64) -> u64 {
    (x << k) | (x >> ((64 - k) as u64))
}

/// The bits of `x`, moved `k` places to the right and round.
pub open spec fn rotated_right_64(x: u64, k: u64) -> u64 {
    (x >> k) | (x << ((64 - k) as u64))
}

pub open spec fn spec_i64_rotl(a: i64, b: i64) -> i64 {
    signed_64(rotated_left_64(unsigned_64(a) as u64, places_64(b)) as int)
}

pub open spec fn spec_i64_rotr(a: i64, b: i64) -> i64 {
    signed_64(rotated_right_64(unsigned_64(a) as u64, places_64(b)) as int)
}

/// Whether the quotient of a signed division is a 64-bit number.
pub open spec fn divisible_64(a: i64, b: i64) -> bool {
    b != 0 && !(a == i64::MIN && b == -1)
}

/// A quotient is no farther from zero than its dividend.
pub proof fn lemma_quotient_bounds(a: int, b: int)
    requires
        b != 0,
    ensures
        -a <= quotient(a, b) <= a || a <= quotient(a, b) <= -a,
        a < 0 && b < -1 ==> quotient(a, b) < -a,
{
    let x = if a >= 0 {
        a
    } else {
        -a
    };
    let d = if b >= 0 {
        b
    } else {
        -b
    };
    assert(0 <= x / d <= x) by (nonlinear_arith)
        requires
            x >= 0,
            d >= 1,
    ;
    if x > 0 && d > 1 {
        assert(x / d < x) by (nonlinear_arith)
            requires
                x >= 1,
                d >= 2,
        ;
    }
}

/// A remainder is no farther from zero than its dividend, and closer than its
/// divisor.
pub proof fn lemma_remainder_bounds(a: int, b: int)
    requires
        b != 0,
    ensures
        -a <= remainder(a, b) <= a || a <= remainder(a, b) <= -a,
        b > 0 ==> -b < remainder(a, b) < b,
        b < 0 ==> b < remainder(a, b) < -b,
{
    let x = if a >= 0 {
        a
    } else {
        -a
    };
    let d = if b >= 0 {
        b
    } else {
        -b
    };
    assert(0 <= x % d <= x && x % d < d) by (nonlinear_arith)
        requires
            x >= 0,
            d >= 1,
    ;
}

// The 32-bit instructions.

pub fn i32_clz(v: i32) -> (result: Value)
    ensures
        result == Value::I32(spec_i32_clz(v)),
{
    Value::I32(to_unsigned_32(v).leading_zeros() as i32)
}

pub fn i32_ctz(v: i32) -> (result: Value)
    ensures
        result == Value::I32(spec_i32_ctz(v)),
{
    Value::I32(to_unsigned_32(v).trailing_zeros() as i32)
}

pub fn i32_popcnt(v: i32) -> (result: Value)
    ensures
        result == Value::I32(spec_i32_popcnt(v)),
{
    Value::I32(count_ones(to_unsigned_32(v) as u64) as i32)
}

pub fn i32_add(a: i32, b: i32) -> (result: Value)
    ensures
        result == Value::I32(spec_i32_add(a, b)),
{
    Value::I32(a.wrapping_add(b))
}

pub fn i32_sub(a: i32, b: i32) -> (result: Value)
    ensures
        result == Value::I32(spec_i32_sub(a, b)),
{
    Value::I32(a.wrapping_sub(b))
}

pub fn i32_mul(a: i32, b: i32) -> (result: Value)
    ensures
        result == Value::I32(spec_i32_mul(a, b)),
{
    Value::I32(a.wrapping_mul(b))
}

pub fn i32_div_u(a: i32, b: i32) -> (result: Value)
    requires
        b != 0,
    ensures
        result == Value::I32(spec_i32_div_u(a, b)),
{
    Value::I32(to_signed_32(to_unsigned_32(a) / to_unsigned_32(b)))
}

pub fn i32_div_s(a: i32, b: i32) -> (result: Value)
    requires
        divisible_32(a, b),
    ensures
        result == Value::I32(spec_i32_div_s(a, b)),
{
    proof {
        lemma_quotient_bounds(a as int, b as int);
        let q = quotient(a as int, b as int);
        assert(signed_32(q) == q);
    }
    match a.checked_div(b) {
        Some(q) => Value::I32(q),
        None => Value::I32(i32::MIN),
    }
}

pub fn i32_rem_u(a: i32, b: i32) -> (result: Value)
    requires
        b != 0,
    ensures
        result == Value::I32(spec_i32_rem_u(a, b)),
{
    Value::I32(to_signed_32(to_unsigned_32(a) % to_unsigned_32(b)))
}

pub fn i32_rem_s(a: i32, b: i32) -> (result: Value)
    requires
        b != 0,
    ensures
        result == Value::I32(spec_i32_rem_s(a, b)),
{
    proof {
        lemma_remainder_bounds(a as int, b as int);
        let r = remainder(a as int, b as int);
        assert(signed_32(r) == r);
        if a == i32::MIN && b == -1 {
            assert(r == 0);
        }
    }
    match a.checked_rem(b) {
        Some(r) => Value::I32(r),
        None => Value::I32(0),
    }
}

pub fn i32_and(a: i32, b: i32) -> (result: Value)
    ensures
        result == Value::I32(a & b),
{
    Value::I32(a & b)
}

pub fn i32_or(a: i32, b: i32) -> (result: Value)
    ensures
        result == Value::I32(a | b),
{
    Value::I32(a | b)
}

pub fn i32_xor(a: i32, b: i32) -> (result: Value)
    ensures
        result == Value::I32(a ^ b),
{
    Value::I32(a ^ b)
}

pub fn i32_shl(a: i32, b: i32) -> (result: Value)
    ensures
        result == Value::I32(spec_i32_shl(a, b)),
{
    Value::I32(to_signed_32(to_unsigned_32(a) << (to_unsigned_32(b) % 32)))
}

pub fn i32_shr_u(a: i32, b: i32) -> (result: Value)
    ensures
        result == Value::I32(spec_i32_shr_u(a, b)),
{
    Value::I32(to_signed_32(to_unsigned_32(a) >> (to_unsigned_32(b) % 32)))
}

pub fn i32_shr_s(a: i32, b: i32) -> (result: Value)
    ensures
        result == Value::I32(spec_i32_shr_s(a, b)),
{
    Value::I32(a >> (to_unsigned_32(b) % 32))
}

pub fn i32_rotl(a: i32, b: i32) -> (result: Value)
    ensures
        result == Value::I32(spec_i32_rotl(a, b)),
{
    let x: u32 = to_unsigned_32(a);
    let k: u32 = to_unsigned_32(b) % 32;
    if k == 0 {
        assert((x << 0u32) | (x >> 32u32) == x) by (bit_vector);
        Value::I32(to_signed_32(x))
    } else {
        Value::I32(to_signed_32((x << k) | (x >> (32 - k))))
    }
}

pub fn i32_rotr(a: i32, b: i32) -> (result: Value)
    ensures
        result == Value::I32(spec_i32_rotr(a, b)),
{
    let x: u32 = to_unsigned_32(a);
    let k: u32 = to_unsigned_32(b) % 32;
    if k == 0 {
        assert((x >> 0u32) | (x << 32u32) == x) by (bit_vector);
        Value::I32(to_signed_32(x))
    } else {
        Value::I32(to_signed_32((x >> k) | (x << (32 - k))))
    }
}

pub fn i32_eqz(v: i32) -> (result: Value)
    ensures
        result == truth(v == 0),
{
    to_truth(v == 0)
}

pub fn i32_eq(a: i32, b: i32) -> (result: Value)
    ensures
        result == truth(a == b),
{
    to_truth(a == b)
}

pub fn i32_ne(a: i32, b: i32) -> (result: Value)
    ensures
        result == truth(a != b),
{
    to_truth(a != b)
}

pub fn i32_lt_u(a: i32, b: i32) -> (result: Value)
    ensures
        result == truth(unsigned_32(a) < unsigned_32(b)),
{
    to_truth(to_unsigned_32(a) < to_unsigned_32(b))
}

pub fn i32_lt_s(a: i32, b: i32) -> (result: Value)
    ensures
        result == truth(a < b),
{
    to_truth(a < b)
}

pub fn i32_le_u(a: i32, b: i32) -> (result: Value)
    ensures
        result == truth(unsigned_32(a) <= unsigned_32(b)),
{
    to_truth(to_unsigned_32(a) <= to_unsigned_32(b))
}

pub fn i32_le_s(a: i32, b: i32) -> (result: Value)
    ensures
        result == truth(a <= b),
{
    to_truth(a <= b)
}

pub fn i32_gt_u(a: i32, b: i32) -> (result: Value)
    ensures
        result == truth(unsigned_32(a) > unsigned_32(b)),
{
    to_truth(to_unsigned_32(a) > to_unsigned_32(b))
}

pub fn i32_gt_s(a: i32, b: i32) -> (result: Value)
    ensures
        result == truth(a > b),
{
    to_truth(a > b)
}

pub fn i32_ge_u(a: i32, b: i32) -> (result: Value)
    ensures
        result == truth(unsigned_32(a) >= unsigned_32(b)),
{
    to_truth(to_unsigned_32(a) >= to_unsigned_32(b))
}

pub fn i32_ge_s(a: i32, b: i32) -> (result: Value)
    ensures
        result == truth(a >= b),
{
    to_truth(a >= b)
}

// The 64-bit instructions.

pub fn i64_clz(v: i64) -> (result: Value)
    ensures
        result == Value::I64(spec_i64_clz(v)),
{
    Value::I64(to_unsigned_64(v).leading_zeros() as i64)
}

pub fn i64_ctz(v: i64) -> (result: Value)
    ensures
        result == Value::I64(spec_i64_ctz(v)),
{
    Value::I64(to_unsigned_64(v).trailing_zeros() as i64)
}

pub fn i64_popcnt(v: i64) -> (result: Value)
    ensures
        result == Value::I64(spec_i64_popcnt(v)),
{
    Value::I64(count_ones(to_unsigned_64(v)) as i64)
}

pub fn i64_add(a: i64, b: i64) -> (result: Value)
    ensures
        result == Value::I64(spec_i64_add(a, b)),
{
    Value::I64(a.wrapping_add(b))
}

pub fn i64_sub(a: i64, b: i64) -> (result: Value)
    ensures
        result == Value::I64(spec_i64_sub(a, b)),
{
    Value::I64(a.wrapping_sub(b))
}

pub fn i64_mul(a: i64, b: i64) -> (result: Value)
    ensures
        result == Value::I64(spec_i64_mul(a, b)),
{
    Value::I64(a.wrapping_mul(b))
}

pub fn i64_div_u(a: i64, b: i64) -> (result: Value)
    requires
        b != 0,
    ensures
        result == Value::I64(spec_i64_div_u(a, b)),
{
    Value::I64(to_signed_64(to_unsigned_64(a) / to_unsigned_64(b)))
}

pub fn i64_div_s(a: i64, b: i64) -> (result: Value)
    requires
        divisible_64(a, b),
    ensures
        result == Value::I64(spec_i64_div_s(a, b)),
{
    proof {
        lemma_quotient_bounds(a as int, b as int);
        let q = quotient(a as int, b as int);
        assert(signed_64(q) == q);
    }
    match a.checked_div(b) {
        Some(q) => Value::I64(q),
        None => Value::I64(i64::MIN),
    }
}

pub fn i64_rem_u(a: i64, b: i64) -> (result: Value)
    requires
        b != 0,
    ensures
        result == Value::I64(spec_i64_rem_u(a, b)),
{
    Value::I64(to_signed_64(to_unsigned_64(a) % to_unsigned_64(b)))
}

pub fn i64_rem_s(a: i64, b: i64) -> (result: Value)
    requires
        b != 0,
    ensures
        result == Value::I64(spec_i64_rem_s(a, b)),
{
    proof {
        lemma_remainder_bounds(a as int, b as int);
        let r = remainder(a as int, b as int);
        assert(signed_64(r) == r);
        if a == i64::MIN && b == -1 {
            assert(r == 0);
        }
    }
    match a.checked_rem(b) {
        Some(r) => Value::I64(r),
        None => Value::I64(0),
    }
}

pub fn i64_and(a: i64, b: i64) -> (result: Value)
    ensures
        result == Value::I64(a & b),
{
    Value::I64(a & b)
}

pub fn i64_or(a: i64, b: i64) -> (result: Value)
    ensures
        result == Value::I64(a | b),
{
    Value::I64(a | b)
}

pub fn i64_xor(a: i64, b: i64) -> (result: Value)
    ensures
        result == Value::I64(a ^ b),
{
    Value::I64(a ^ b)
}

pub fn i64_shl(a: i64, b: i64) -> (result: Value)
    ensures
        result == Value::I64(spec_i64_shl(a, b)),
{
    Value::I64(to_signed_64(to_unsigned_64(a) << (to_unsigned_64(b) % 64)))
}

pub fn i64_shr_u(a: i64, b: i64) -> (result: Value)
    ensures
        result == Value::I64(spec_i64_shr_u(a, b)),
{
    Value::I64(to_signed_64(to_unsigned_64(a) >> (to_unsigned_64(b) % 64)))
}

pub fn i64_shr_s(a: i64, b: i64) -> (result: Value)
    ensures
        result == Value::I64(spec_i64_shr_s(a, b)),
{
    Value::I64(a >> (to_unsigned_64(b) % 64))
}

pub fn i64_rotl(a: i64, b: i64) -> (result: Value)
    ensures
        result == Value::I64(spec_i64_rotl(a, b)),
{
    let x: u64 = to_unsigned_64(a);
    let k: u64 = to_unsigned_64(b) % 64;
    if k == 0 {
        assert((x << 0u64) | (x >> 64u64) == x) by (bit_vector);
        Value::I64(to_signed_64(x))
    } else {
        Value::I64(to_signed_64((x << k) | (x >> (64 - k))))
    }
}

pub fn i64_rotr(a: i64, b: i64) -> (result: Value)
    ensures
        result == Value::I64(spec_i64_rotr(a, b)),
{
    let x: u64 = to_unsigned_64(a);
    let k: u64 = to_unsigned_64(b) % 64;
    if k == 0 {
        assert((x >> 0u64) | (x << 64u64) == x) by (bit_vector);
        Value::I64(to_signed_64(x))
    } else {
        Value::I64(to_signed_64((x >> k) | (x << (64 - k))))
    }
}

pub fn i64_eqz(v: i64) -> (result: Value)
    ensures
        result == truth(v == 0),
{
    to_truth(v == 0)
}

pub fn i64_eq(a: i64, b: i64) -> (result: Value)
    ensures
        result == truth(a == b),
{
    to_truth(a == b)
}

pub fn i64_ne(a: i64, b: i64) -> (result: Value)
    ensures
        result == truth(a != b),
{
    to_truth(a != b)
}

pub fn i64_lt_u(a: i64, b: i64) -> (result: Value)
    ensures
        result == truth(unsigned_64(a) < unsigned_64(b)),
{
    to_truth(to_unsigned_64(a) < to_unsigned_64(b))
}

pub fn i64_lt_s(a: i64, b: i64) -> (result: Value)
    ensures
        result == truth(a < b),
{
    to_truth(a < b)
}

pub fn i64_le_u(a: i64, b: i64) -> (result: Value)
    ensures
        result == truth(unsigned_64(a) <= unsigned_64(b)),
{
    to_truth(to_unsigned_64(a) <= to_unsigned_64(b))
}

pub fn i64_le_s(a: i64, b: i64) -> (result: Value)
    ensures
        result == truth(a <= b),
{
    to_truth(a <= b)
}

pub fn i64_gt_u(a: i64, b: i64) -> (result: Value)
    ensures
        result == truth(unsigned_64(a) > unsigned_64(b)),
{
    to_truth(to_unsigned_64(a) > to_unsigned_64(b))
}

pub fn i64_gt_s(a: i64, b: i64) -> (result: Value)
    ensures
        result == truth(a > b),
{
    to_truth(a > b)
}

pub fn i64_ge_u(a: i64, b: i64) -> (result: Value)
    ensures
        result == truth(unsigned_64(a) >= unsigned_64(b)),
{
    to_truth(to_unsigned_64(a) >= to_unsigned_64(b))
}

pub fn i64_ge_s(a: i64, b: i64) -> (result: Value)
    ensures
        result == truth(a >= b),
{
    to_truth(a >= b)
}

pub fn i32_wrap_i64(v: i64) -> (result: Value)
    ensures
        result == Value::I32(signed_32(v as int)),
{
    let low: u64 = to_unsigned_64(v) % 0x1_0000_0000;
    Value::I32(to_signed_32(low as u32))
}

pub fn i64_extend_i32_u(v: i32) -> (result: Value)
    ensures
        result == Value::I64(unsigned_32(v) as i64),
{
    Value::I64(to_unsigned_32(v) as i64)
}

pub fn i64_extend_i32_s(v: i32) -> (result: Value)
    ensures
        result == Value::I64(v as i64),
{
    Value::I64(v as i64)
}

// Access to memory.

/// The number that bytes stand for, the least significant first.
pub open spec fn le_value(bytes: Seq<u8>) -> nat
    decreases bytes.len(),
{
    if bytes.len() == 0 {
        0
    } else {
        bytes[0] as nat + 256 * le_value(bytes.drop_first())
    }
}

/// The `n` lowest bytes of a number, the least significant first.
pub open spec fn le_bytes(x: nat, n: nat) -> Seq<u8>
    decreases n,
{
    if n == 0 {
        Seq::empty()
    } else {
        seq![(x % 256) as u8] + le_bytes(x / 256, (n - 1) as nat)
    }
}

/// `256^n`: how many numbers `n` bytes can stand for.
pub open spec fn byte_range(n: nat) -> nat
    decreases n,
{
    if n == 0 {
        1
    } else {
        256 * byte_range((n - 1) as nat)
    }
}

/// The signed number with the `n` bytes of `x`.
pub open spec fn sign_extended(x: nat, n: nat) -> int {
    if 2 * x < byte_range(n) {
        x as int
    } else {
        x - byte_range(n)
    }
}

/// The first byte that an access touches.
pub open spec fn effective_address(index: u32, m: Memarg) -> nat {
    (index + m.offset) as nat
}

/// Whether memory has the `n` bytes of an access.
pub open spec fn accessible(memory: Seq<u8>, index: u32, m: Memarg, n: nat) -> bool {
    effective_address(index, m) + n <= memory.len()
}

/// The answer to an access of `n` bytes that memory does not have.
pub open spec fn access_error(index: u32, m: Memarg, n: u32) -> ErrorView {
    ErrorView::AddrOutOfBound((effective_address(index, m) % 0x1_0000_0000) as u32, n)
}

/// The bytes of an access.
pub open spec fn accessed(memory: Seq<u8>, index: u32, m: Memarg, n: nat) -> Seq<u8> {
    let addr = effective_address(index, m) as int;
    memory.subrange(addr, addr + n)
}

/// Memory with the bytes from `addr` on replaced.
pub open spec fn overwritten(memory: Seq<u8>, addr: int, bytes: Seq<u8>) -> Seq<u8> {
    Seq::new(
        memory.len(),
        |i: int|
            if addr <= i < addr + bytes.len() {
                bytes[i - addr]
            } else {
                memory[i]
            },
    )
}

/// The unsigned number of `n` bytes in memory.
pub open spec fn loaded_u(memory: Seq<u8>, index: u32, m: Memarg, n: u32) -> Result<
    int,
    ErrorView,
> {
    if accessible(memory, index, m, n as nat) {
        Ok(le_value(accessed(memory, index, m, n as nat)) as int)
    } else {
        Err(access_error(index, m, n))
    }
}

/// The signed number of `n` bytes in memory.
pub open spec fn loaded_s(memory: Seq<u8>, index: u32, m: Memarg, n: u32) -> Result<
    int,
    ErrorView,
> {
    if accessible(memory, index, m, n as nat) {
        Ok(sign_extended(le_value(accessed(memory, index, m, n as nat)), n as nat))
    } else {
        Err(access_error(index, m, n))
    }
}

/// Memory after the `n` lowest bytes of `x` are written, or why they are not.
pub open spec fn stored(memory: Seq<u8>, index: u32, m: Memarg, n: u32, x: nat) -> Result<
    Seq<u8>,
    ErrorView,
> {
    if accessible(memory, index, m, n as nat) {
        Ok(overwritten(memory, effective_address(index, m) as int, le_bytes(x, n as nat)))
    } else {
        Err(access_error(index, m, n))
    }
}

/// A loaded number as a 32-bit value.
pub open spec fn i32_loaded(number: Result<int, ErrorView>) -> Result<Value, ErrorView> {
    match number {
        Ok(x) => Ok(Value::I32(signed_32(x))),
        Err(error) => Err(error),
    }
}

/// A loaded number as a 64-bit value.
pub open spec fn i64_loaded(number: Result<int, ErrorView>) -> Result<Value, ErrorView> {
    match number {
        Ok(x) => Ok(Value::I64(signed_64(x))),
        Err(error) => Err(error),
    }
}

/// Memory after a 32-bit store of `n` bytes.
pub open spec fn i32_stored(memory: Seq<u8>, index: u32, value: Value, m: Memarg, n: u32) -> Result<
    Seq<u8>,
    ErrorView,
> {
    match value.as_i32() {
        Some(v) => stored(memory, index, m, n, unsigned_32(v)),
        None => Err(ErrorView::ValueTypeMismatch),
    }
}

/// Memory after a 64-bit store of `n` bytes.
pub open spec fn i64_stored(memory: Seq<u8>, index: u32, value: Value, m: Memarg, n: u32) -> Result<
    Seq<u8>,
    ErrorView,
> {
    match value.as_i64() {
        Some(v) => stored(memory, index, m, n, unsigned_64(v)),
        None => Err(ErrorView::ValueTypeMismatch),
    }
}

/// The numbers that up to eight bytes can stand for.
pub proof fn lemma_byte_range()
    ensures
        byte_range(0) == 1,
        byte_range(1) == 0x100,
        byte_range(2) == 0x1_0000,
        byte_range(3) == 0x100_0000,
        byte_range(4) == 0x1_0000_0000,
        byte_range(5) == 0x100_0000_0000,
        byte_range(6) == 0x1_0000_0000_0000,
        byte_range(7) == 0x100_0000_0000_0000,
        byte_range(8) == 0x1_0000_0000_0000_0000,
{
    reveal_with_fuel(byte_range, 9);
}

/// A number is cut into as many bytes as asked for.
pub proof fn lemma_le_bytes_len(x: nat, n: nat)
    ensures
        le_bytes(x, n).len() == n,
    decreases n,
{
    if n > 0 {
        lemma_le_bytes_len(x / 256, (n - 1) as nat);
    }
}

/// The first address of an access, if memory has its bytes.
fn locate(index: u32, m: &Memarg, memory: &Memory, n_bytes: u32) -> (addr: ExecuteResult<usize>)
    ensures
        outcome(addr) == (if accessible(memory@.bytes, index, *m, n_bytes as nat) {
            Ok(effective_address(index, *m) as usize)
        } else {
            Err(access_error(index, *m, n_bytes))
        }),
        addr is Ok ==> addr->Ok_0 == effective_address(index, *m),
{
    let addr: u64 = index as u64 + m.offset as u64;
    let end: u64 = addr + n_bytes as u64;
    if end <= memory.len() as u64 {
        Ok(addr as usize)
    } else {
        let low: u64 = addr % 0x1_0000_0000;
        Err(ExecuteError::AddrOutOfBound(low as u32, n_bytes))
    }
}

/// Reads `n` bytes as an unsigned number.
fn read_le(memory: &Memory, addr: usize, n: usize) -> (x: u64)
    requires
        n <= 8,
        addr + n <= memory@.bytes.len(),
    ensures
        x == le_value(memory@.bytes.subrange(addr as int, addr + n)),
        x < byte_range(n as nat),
{
    let len: usize = memory.len();
    let mut x: u64 = 0;
    let mut left: usize = n;
    proof {
        lemma_byte_range();
        assert(memory@.bytes.subrange(addr + n, addr + n).len() == 0);
    }
    while left > 0
        invariant
            left <= n <= 8,
            addr + n <= len == memory@.bytes.len(),
            x == le_value(memory@.bytes.subrange(addr + left, addr + n)),
            x < byte_range((n - left) as nat),
        decreases left,
    {
        left = left - 1;
        let byte: u8 = memory.read(addr + left);
        proof {
            lemma_byte_range();
            let bytes = memory@.bytes.subrange(addr + left, addr + n);
            assert(bytes.drop_first() =~= memory@.bytes.subrange(addr + left + 1, addr + n));
            assert(bytes[0] == byte);
        }
        x = byte as u64 + 256 * x;
    }
    x
}

/// Writes the `n` lowest bytes of a number.
fn write_le(memory: &mut Memory, addr: usize, n: usize, x: u64)
    requires
        addr + n <= old(memory)@.bytes.len(),
    ensures
        final(memory)@ == (MemoryState {
            bytes: overwritten(old(memory)@.bytes, addr as int, le_bytes(x as nat, n as nat)),
            max_size: old(memory)@.max_size,
        }),
{
    let len: usize = memory.len();
    let mut rest: u64 = x;
    let mut i: usize = 0;
    let ghost whole = le_bytes(x as nat, n as nat);
    proof {
        lemma_le_bytes_len(x as nat, n as nat);
    }
    while i < n
        invariant
            i <= n,
            addr + n <= len,
            len == memory@.bytes.len() == old(memory)@.bytes.len(),
            memory@.max_size == old(memory)@.max_size,
            whole.len() == n,
            whole.skip(i as int) == le_bytes(rest as nat, (n - i) as nat),
            forall|j: int|
                0 <= j < memory@.bytes.len() ==> #[trigger] memory@.bytes[j] == (if addr <= j < addr
                    + i {
                    whole[j - addr]
                } else {
                    old(memory)@.bytes[j]
                }),
        decreases n - i,
    {
        proof {
            assert(whole.skip(i as int)[0] == whole[i as int]);
            assert(whole.skip(i + 1) =~= whole.skip(i as int).drop_first());
            assert(le_bytes(rest as nat, (n - i) as nat).drop_first() =~= le_bytes(
                rest as nat / 256,
                (n - i - 1) as nat,
            ));
        }
        memory.write(addr + i, (rest % 256) as u8);
        rest = rest / 256;
        i = i + 1;
    }
    assert(memory@.bytes =~= overwritten(old(memory)@.bytes, addr as int, whole));
}

pub fn i32_load_u(index: u32, m: &Memarg, memory: &Memory, n_bytes: u32) -> (result: ExecuteResult<
    Value,
>)
    requires
        n_bytes <= 4,
    ensures
        outcome(result) == i32_loaded(loaded_u(memory@.bytes, index, *m, n_bytes)),
{
    let addr: usize = locate(index, m, memory, n_bytes)?;
    let x: u64 = read_le(memory, addr, n_bytes as usize);
    proof {
        lemma_byte_range();
    }
    Ok(Value::I32(to_signed_32(x as u32)))
}

pub fn i32_load_s(index: u32, m: &Memarg, memory: &Memory, n_bytes: u32) -> (result: ExecuteResult<
    Value,
>)
    requires
        n_bytes <= 4,
    ensures
        outcome(result) == i32_loaded(loaded_s(memory@.bytes, index, *m, n_bytes)),
{
    let addr: usize = locate(index, m, memory, n_bytes)?;
    let x: u64 = read_le(memory, addr, n_bytes as usize);
    Ok(Value::I32(extend_sign(x, n_bytes) as i32))
}

pub fn i64_load_u(index: u32, m: &Memarg, memory: &Memory, n_bytes: u32) -> (result: ExecuteResult<
    Value,
>)
    requires
        n_bytes <= 8,
    ensures
        outcome(result) == i64_loaded(loaded_u(memory@.bytes, index, *m, n_bytes)),
{
    let addr: usize = locate(index, m, memory, n_bytes)?;
    let x: u64 = read_le(memory, addr, n_bytes as usize);
    Ok(Value::I64(to_signed_64(x)))
}

pub fn i64_load_s(index: u32, m: &Memarg, memory: &Memory, n_bytes: u32) -> (result: ExecuteResult<
    Value,
>)
    requires
        n_bytes <= 8,
    ensures
        outcome(result) == i64_loaded(loaded_s(memory@.bytes, index, *m, n_bytes)),
{
    let addr: usize = locate(index, m, memory, n_bytes)?;
    let x: u64 = read_le(memory, addr, n_bytes as usize);
    Ok(Value::I64(extend_sign(x, n_bytes)))
}

/// The signed number with the `n` bytes of `x`.
fn extend_sign(x: u64, n: u32) -> (v: i64)
    requires
        n <= 8,
        x < byte_range(n as nat),
    ensures
        v == sign_extended(x as nat, n as nat),
        n <= 4 ==> i32::MIN <= v <= i32::MAX,
{
    proof {
        lemma_byte_range();
    }
    let range: u128 = match n {
        0 => 0x1,
        1 => 0x100,
        2 => 0x1_0000,
        3 => 0x100_0000,
        4 => 0x1_0000_0000,
        5 => 0x100_0000_0000,
        6 => 0x1_0000_0000_0000,
        7 => 0x100_0000_0000_0000,
        _ => 0x1_0000_0000_0000_0000,
    };
    if 2 * (x as u128) < range {
        x as i64
    } else {
        (x as i128 - range as i128) as i64
    }
}

pub fn i32_store(
    index: u32,
    value: Value,
    m: &Memarg,
    memory: &mut Memory,
    n_bytes: u32,
) -> (result: ExecuteResult<()>)
    ensures
        match i32_stored(old(memory)@.bytes, index, value, *m, n_bytes) {
            Ok(bytes) => {
                &&& outcome(result) == Ok::<(), ErrorView>(())
                &&& final(memory)@ == (MemoryState { bytes, max_size: old(memory)@.max_size })
            },
            Err(error) => {
                &&& outcome(result) == Err::<(), ErrorView>(error)
                &&& final(memory)@ == old(memory)@
            },
        },
{
    let v: i32 = value.get_i32()?;
    let addr: usize = locate(index, m, memory, n_bytes)?;
    write_le(memory, addr, n_bytes as usize, to_unsigned_32(v) as u64);
    Ok(())
}

pub fn i64_store(
    index: u32,
    value: Value,
    m: &Memarg,
    memory: &mut Memory,
    n_bytes: u32,
) -> (result: ExecuteResult<()>)
    ensures
        match i64_stored(old(memory)@.bytes, index, value, *m, n_bytes) {
            Ok(bytes) => {
                &&& outcome(result) == Ok::<(), ErrorView>(())
                &&& final(memory)@ == (MemoryState { bytes, max_size: old(memory)@.max_size })
            },
            Err(error) => {
                &&& outcome(result) == Err::<(), ErrorView>(error)
                &&& final(memory)@ == old(memory)@
            },
        },
{
    let v: i64 = value.get_i64()?;
    let addr: usize = locate(index, m, memory, n_bytes)?;
    write_le(memory, addr, n_bytes as usize, to_unsigned_64(v));
    Ok(())
}

} // verus!
