//! What the integer instructions compute.
use vstd::arithmetic::power2::{lemma2_to64, lemma_pow2_pos, lemma_pow2_unfold, pow2};
use vstd::prelude::*;

use crate::error::ErrorView;
use crate::int_ops::{
    lemma_quotient_bounds, lemma_remainder_bounds, ones, quotient, remainder, signed_32, signed_64,
    spec_i32_clz, spec_i32_ctz, spec_i32_rotl, spec_i32_rotr, spec_i32_shl, spec_i32_shr_u,
    spec_i64_clz, spec_i64_ctz, spec_i64_rotl, spec_i64_rotr, spec_i64_shl, spec_i64_shr_u,
    unsigned_32, unsigned_64,
};
use crate::laws::lemma_quotient_and_remainder;
use crate::laws::steps::{
    answer, comes_to, goes_on, is_i32, is_i64, lemma_numeric, no_i32, no_i64, stack, stops,
};
use crate::machine::{may_step, Config, Next};
use crate::module::Module;
use crate::native::NativeResolver;
use crate::opcode::Opcode;
use crate::semantics::{read_i32, read_i32_pair, read_i64, read_i64_pair};
use crate::value::Value;

verus! {

/// The binary digit of a number at a place.
pub open spec fn digit(x: int, place: nat) -> int {
    (x / pow2(place) as int) % 2
}

/// The sum of the `n` lowest binary digits of a number.
pub open spec fn digit_sum(x: int, n: nat) -> int
    decreases n,
{
    if n == 0 {
        0
    } else {
        digit_sum(x, (n - 1) as nat) + digit(x, (n - 1) as nat)
    }
}

/// The lowest digit comes first, and the others are those of the half.
proof fn lemma_digit_sum_halves(x: int, n: nat)
    requires
        x >= 0,
        n > 0,
    ensures
        digit_sum(x, n) == x % 2 + digit_sum(x / 2, (n - 1) as nat),
    decreases n,
{
    lemma2_to64();
    if n == 1 {
        assert(digit_sum(x, 0) == 0);
        assert(digit(x, 0) == x % 2);
    } else {
        let place = (n - 1) as nat;
        lemma_digit_sum_halves(x, place);
        lemma_pow2_unfold(place);
        lemma_pow2_pos((place - 1) as nat);
        vstd::arithmetic::div_mod::lemma_div_denominator(x, 2, pow2((place - 1) as nat) as int);
        assert(digit(x, place) == digit(x / 2, (place - 1) as nat));
    }
}

/// The ones of a number are the sum of its digits.
proof fn lemma_ones(x: nat, n: nat)
    requires
        x < pow2(n),
    ensures
        ones(x) == digit_sum(x as int, n),
        ones(x) <= n,
    decreases n,
{
    lemma2_to64();
    if n > 0 {
        lemma_pow2_unfold(n);
        lemma_ones(x / 2, (n - 1) as nat);
        lemma_digit_sum_halves(x as int, n);
        if x == 0 {
            assert(ones(0) == 0);
        }
    }
}

// The 32-bit instructions.

/// The unsigned and the signed reading of 32 bits.
pub proof fn law_readings_32(v: i32, x: int)
    ensures
        unsigned_32(v) == v as u32,
        (unsigned_32(v) - v) % 0x1_0000_0000 == 0,
        (signed_32(x) - x) % 0x1_0000_0000 == 0,
        unsigned_32(signed_32(x)) == x % 0x1_0000_0000,
{
    assert((v >= 0 ==> v as u32 == v) && (v < 0 ==> v as u32 == v + 0x1_0000_0000)) by (bit_vector);
}

proof fn lemma_shl_32(x: u32, k: u32)
    requires
        k < 32,
    ensures
        (x << k) as int == (x * pow2(k as nat)) % 0x1_0000_0000,
    decreases k,
{
    lemma2_to64();
    if k == 0 {
        assert(x << 0u32 == x) by (bit_vector);
        assert(x * 1 == x);
    } else {
        let less = (k - 1) as u32;
        lemma_shl_32(x, less);
        lemma_pow2_unfold(k as nat);
        assert((x << k) == ((x << less) * 2) % 0x1_0000_0000) by (bit_vector)
            requires
                k < 32,
                less == k - 1,
        ;
        let p = x * pow2(less as nat);
        assert(x * pow2(k as nat) == 2 * p) by (nonlinear_arith)
            requires
                p == x * pow2(less as nat),
                pow2(k as nat) == 2 * pow2(less as nat),
        ;
        assert((2 * (p % 0x1_0000_0000)) % 0x1_0000_0000 == (2 * p) % 0x1_0000_0000);
    }
}

proof fn lemma_shr_s_32(a: i32, k: u32)
    requires
        k < 32,
    ensures
        (a >> k) as int == a as int / pow2(k as nat) as int,
{
    let n = !(a as u32);
    let x = a as u32;
    assert((a >= 0 ==> (a >> k) == (x >> k) && x == a) && (a < 0 ==> (a >> k) == -1 - (n >> k) && n
        == -1 - a)) by (bit_vector)
        requires
            k < 32,
            x == a as u32,
            n == !(a as u32),
    ;
    vstd::bits::lemma_u32_shr_is_div(x, k);
    vstd::bits::lemma_u32_shr_is_div(n, k);
    let p = pow2(k as nat) as int;
    lemma_pow2_pos(k as nat);
    if a < 0 {
        let m = n as int;
        assert((-1 - m) / p == -1 - m / p) by (nonlinear_arith)
            requires
                p > 0,
                m >= 0,
        ;
    }
}

proof fn lemma_rotations_32(x: u32, k: u32)
    requires
        k < 32,
    ensures
        ({
            let j = (32 - k) as u32;
            &&& ((x << k) | (x >> j)) as int == (x * pow2(k as nat)) % 0x1_0000_0000
                + x as int / pow2(j as nat) as int
            &&& ((x >> k) | (x << j)) as int == x as int / pow2(k as nat) as int + (x * pow2(
                j as nat,
            )) % 0x1_0000_0000
        }),
{
    let j = (32 - k) as u32;
    lemma2_to64();
    lemma_shl_32(x, k);
    vstd::bits::lemma_u32_shr_is_div(x, k);
    assert(((x << k) | (x >> j)) == (x << k) + (x >> j) && ((x >> k) | (x << j)) == (x >> k) + (x
        << j)) by (bit_vector)
        requires
            k < 32,
            j == 32 - k,
    ;
    if k == 0 {
        assert((x >> 32u32) == 0 && (x << 32u32) == 0) by (bit_vector);
        vstd::arithmetic::div_mod::lemma_mod_multiples_basic(x as int, 0x1_0000_0000);
        assert(x as int / 0x1_0000_0000 == 0);
    } else {
        lemma_shl_32(x, j);
        vstd::bits::lemma_u32_shr_is_div(x, j);
    }
}

proof fn lemma_digits_32(x: u32, j: u32)
    requires
        j < 32,
    ensures
        ((x >> j) & 1u32) as int == digit(x as int, j as nat),
{
    let y = x >> j;
    assert(y & 1u32 == y % 2) by (bit_vector);
    vstd::bits::lemma_u32_shr_is_div(x, j);
}

proof fn lemma_two_32(
    operands: Seq<Value>,
    rest: Seq<Value>,
    x: Value,
    y: Value,
    a: i32,
    b: i32,
)
    requires
        operands == rest.push(x).push(y),
        is_i32(x, a),
        is_i32(y, b),
    ensures
        read_i32_pair(operands) == (rest, Ok::<(i32, i32), ErrorView>((a, b))),
{
    assert(operands.take(operands.len() - 2) =~= rest);
}

proof fn lemma_one_32(operands: Seq<Value>, rest: Seq<Value>, x: Value, v: i32)
    requires
        operands == rest.push(x),
        is_i32(x, v),
    ensures
        read_i32(operands) == (rest, Ok::<i32, ErrorView>(v)),
{
    assert(operands.drop_last() =~= rest);
}

/// Addition, subtraction and multiplication take two operands and leave the number
/// that is their sum, difference or product modulo `2^32`. The second operand is
/// the one on top.
pub proof fn law_i32_sums<R: NativeResolver>(
    module: Module,
    depth: nat,
    config: Config<R>,
    next: Next<R>,
    op: Opcode,
    rest: Seq<Value>,
    x: Value,
    y: Value,
    a: i32,
    b: i32,
)
    requires
        comes_to(module, config, op),
        may_step(module, depth, config, next),
        stack(config) == rest.push(x).push(y),
        is_i32(x, a),
        is_i32(y, b),
        op is I32Add || op is I32Sub || op is I32Mul,
    ensures
        goes_on(config, next, rest.push(answer(next)), config.ip + 1),
        op is I32Add ==> (answer(next) matches Value::I32(c) && (c - (a + b))
            % 0x1_0000_0000 == 0),
        op is I32Sub ==> (answer(next) matches Value::I32(c) && (c - (a - b))
            % 0x1_0000_0000 == 0),
        op is I32Mul ==> (answer(next) matches Value::I32(c) && (c - a * b)
            % 0x1_0000_0000 == 0),
{
    lemma_numeric(module, depth, config, next, op);
    lemma_two_32(stack(config), rest, x, y, a, b);
    law_readings_32(a, a + b);
    law_readings_32(a, a - b);
    law_readings_32(a, a * b);
}

/// Division and remainder, without the sign and with it. An unsigned quotient is the
/// greatest number of times that the divisor fits; a signed one leaves a remainder
/// that is closer to zero than the divisor and not of the other sign than the
/// dividend.
#[verifier::rlimit(40)]
#[verifier::spinoff_prover]
pub proof fn law_i32_quotients<R: NativeResolver>(
    module: Module,
    depth: nat,
    config: Config<R>,
    next: Next<R>,
    op: Opcode,
    rest: Seq<Value>,
    x: Value,
    y: Value,
    a: i32,
    b: i32,
)
    requires
        comes_to(module, config, op),
        may_step(module, depth, config, next),
        stack(config) == rest.push(x).push(y),
        is_i32(x, a),
        is_i32(y, b),
        op is I32DivU || op is I32DivS || op is I32RemU || op is I32RemS,
        b != 0,
        op is I32DivS ==> !(a == i32::MIN && b == -1),
    ensures
        goes_on(config, next, rest.push(answer(next)), config.ip + 1),
        op is I32DivU ==> (answer(next) matches Value::I32(c) && {
            let times = (b as u32) * (c as u32);
            times <= (a as u32) < times + (b as u32)
        }),
        op is I32RemU ==> (answer(next) matches Value::I32(c) && {
            &&& (c as u32) < (b as u32)
            &&& ((a as u32) - (c as u32)) % (b as u32) as int == 0
        }),
        op is I32DivS ==> (answer(next) matches Value::I32(c) && {
            let r = a - b * c;
            &&& a >= 0 ==> r >= 0
            &&& a <= 0 ==> r <= 0
            &&& b > 0 ==> -b < r < b
            &&& b < 0 ==> b < r < -b
        }),
        op is I32RemS ==> (answer(next) matches Value::I32(c) && {
            &&& a >= 0 ==> c >= 0
            &&& a <= 0 ==> c <= 0
            &&& b > 0 ==> -b < c < b && (a - c) % b as int == 0
            &&& b < 0 ==> b < c < -b && (a - c) % -b == 0
        }),
{
    lemma_numeric(module, depth, config, next, op);
    lemma_two_32(stack(config), rest, x, y, a, b);
    law_readings_32(a, 0);
    law_readings_32(b, 0);
    if op is I32DivU || op is I32RemU {
        let x = unsigned_32(a) as int;
        let d = unsigned_32(b) as int;
        lemma_quotient_bounds(x, d);
        lemma_remainder_bounds(x, d);
        lemma_quotient_and_remainder(x, d);
        law_readings_32(signed_32(x / d), x / d);
        law_readings_32(signed_32(x % d), x % d);
        assert(x - x % d == d * (x / d));
        vstd::arithmetic::div_mod::lemma_mod_multiples_basic(x / d, d);
        assert((x / d) * d == d * (x / d)) by (nonlinear_arith);
    } else {
        lemma_quotient_bounds(a as int, b as int);
        lemma_remainder_bounds(a as int, b as int);
        lemma_quotient_and_remainder(a as int, b as int);
        let q = quotient(a as int, b as int);
        let r = remainder(a as int, b as int);
        assert(signed_32(r) == r);
        if b > 0 {
            vstd::arithmetic::div_mod::lemma_mod_multiples_basic(q, b as int);
            assert(q * b == b * q) by (nonlinear_arith);
        } else {
            vstd::arithmetic::div_mod::lemma_mod_multiples_basic(-q, -b);
            assert((-q) * (-b) == b * q) by (nonlinear_arith);
        }
        if op is I32DivS {
            assert(signed_32(q) == q);
        }
    }
}

/// The bitwise instructions.
pub proof fn law_i32_bits<R: NativeResolver>(
    module: Module,
    depth: nat,
    config: Config<R>,
    next: Next<R>,
    op: Opcode,
    rest: Seq<Value>,
    x: Value,
    y: Value,
    a: i32,
    b: i32,
)
    requires
        comes_to(module, config, op),
        may_step(module, depth, config, next),
        stack(config) == rest.push(x).push(y),
        is_i32(x, a),
        is_i32(y, b),
        op is I32And || op is I32Or || op is I32Xor,
    ensures
        goes_on(config, next, rest.push(answer(next)), config.ip + 1),
        op is I32And ==> answer(next) == Value::I32(a & b),
        op is I32Or ==> answer(next) == Value::I32(a | b),
        op is I32Xor ==> answer(next) == Value::I32(a ^ b),
{
    lemma_numeric(module, depth, config, next, op);
    lemma_two_32(stack(config), rest, x, y, a, b);
}

/// Shifts and rotations. The second operand, without its sign and modulo the width,
/// is the number of places. A shift to the left multiplies by a power of two, one to
/// the right divides by it and rounds down; a rotation brings back on one side what
/// a shift drops on the other.
#[verifier::rlimit(40)]
#[verifier::spinoff_prover]
pub proof fn law_i32_shifts<R: NativeResolver>(
    module: Module,
    depth: nat,
    config: Config<R>,
    next: Next<R>,
    op: Opcode,
    rest: Seq<Value>,
    x: Value,
    y: Value,
    a: i32,
    b: i32,
)
    requires
        comes_to(module, config, op),
        may_step(module, depth, config, next),
        stack(config) == rest.push(x).push(y),
        is_i32(x, a),
        is_i32(y, b),
        op is I32Shl || op is I32ShrU || op is I32ShrS || op is I32Rotl || op is I32Rotr,
    ensures
        goes_on(config, next, rest.push(answer(next)), config.ip + 1),
        answer(next) matches Value::I32(c) && {
            let k = ((b as u32) % 32) as nat;
            let x = (a as u32) as int;
            let y = (c as u32) as int;
            &&& op is I32Shl ==> y == (x * pow2(k)) % 0x1_0000_0000
            &&& op is I32ShrU ==> y == x / pow2(k) as int
            &&& op is I32ShrS ==> c == a as int / pow2(k) as int
            &&& op is I32Rotl ==> y == (x * pow2(k)) % 0x1_0000_0000 + x / pow2(
                (32 - k) as nat,
            ) as int
            &&& op is I32Rotr ==> y == x / pow2(k) as int + (x * pow2((32 - k) as nat))
                % 0x1_0000_0000
        },
{
    lemma_numeric(module, depth, config, next, op);
    lemma_two_32(stack(config), rest, x, y, a, b);
    law_readings_32(a, 0);
    law_readings_32(b, 0);
    let x = a as u32;
    let k = ((b as u32) % 32) as u32;
    let j = (32 - k) as u32;
    lemma_shl_32(x, k);
    vstd::bits::lemma_u32_shr_is_div(x, k);
    lemma_shr_s_32(a, k);
    lemma_rotations_32(x, k);
    law_readings_32(spec_i32_shl(a, b), (x << k) as int);
    law_readings_32(spec_i32_shr_u(a, b), (x >> k) as int);
    law_readings_32(spec_i32_rotl(a, b), ((x << k) | (x >> j)) as int);
    law_readings_32(spec_i32_rotr(a, b), ((x >> k) | (x << j)) as int);
}

/// Comparisons answer with one or zero.
pub proof fn law_i32_comparisons<R: NativeResolver>(
    module: Module,
    depth: nat,
    config: Config<R>,
    next: Next<R>,
    op: Opcode,
    rest: Seq<Value>,
    x: Value,
    y: Value,
    a: i32,
    b: i32,
)
    requires
        comes_to(module, config, op),
        may_step(module, depth, config, next),
        stack(config) == rest.push(x).push(y),
        is_i32(x, a),
        is_i32(y, b),
        op is I32Eq || op is I32Ne || op is I32LtU || op is I32LtS || op is I32LeU || op is I32LeS
            || op is I32GtU || op is I32GtS || op is I32GeU || op is I32GeS,
    ensures
        goes_on(config, next, rest.push(answer(next)), config.ip + 1),
        answer(next) == Value::I32(1) || answer(next) == Value::I32(0),
        op is I32Eq ==> (answer(next) == Value::I32(1) <==> a == b),
        op is I32Ne ==> (answer(next) == Value::I32(1) <==> a != b),
        op is I32LtU ==> (answer(next) == Value::I32(1) <==> (a as u32) < (b as u32)),
        op is I32LtS ==> (answer(next) == Value::I32(1) <==> a < b),
        op is I32LeU ==> (answer(next) == Value::I32(1) <==> (a as u32) <= (b as u32)),
        op is I32LeS ==> (answer(next) == Value::I32(1) <==> a <= b),
        op is I32GtU ==> (answer(next) == Value::I32(1) <==> (a as u32) > (b as u32)),
        op is I32GtS ==> (answer(next) == Value::I32(1) <==> a > b),
        op is I32GeU ==> (answer(next) == Value::I32(1) <==> (a as u32) >= (b as u32)),
        op is I32GeS ==> (answer(next) == Value::I32(1) <==> a >= b),
{
    lemma_numeric(module, depth, config, next, op);
    lemma_two_32(stack(config), rest, x, y, a, b);
    law_readings_32(a, 0);
    law_readings_32(b, 0);
}

/// The instructions that look at the digits of one number: the zeros above its
/// highest one, the zeros below its lowest one, the number of its ones, and whether
/// it has none.
pub proof fn law_i32_digits<R: NativeResolver>(
    module: Module,
    depth: nat,
    config: Config<R>,
    next: Next<R>,
    op: Opcode,
    rest: Seq<Value>,
    x: Value,
    v: i32,
)
    requires
        comes_to(module, config, op),
        may_step(module, depth, config, next),
        stack(config) == rest.push(x),
        is_i32(x, v),
        op is I32Clz || op is I32Ctz || op is I32Popcnt || op is I32Eqz,
    ensures
        goes_on(config, next, rest.push(answer(next)), config.ip + 1),
        op is I32Clz ==> (answer(next) matches Value::I32(n) && {
            &&& 0 <= n <= 32
            &&& forall|j: nat|
                32 - n <= j < 32 ==> #[trigger] digit((v as u32) as int, j) == 0
            &&& n < 32 ==> digit((v as u32) as int, (32 - 1 - n) as nat) == 1
        }),
        op is I32Ctz ==> (answer(next) matches Value::I32(n) && {
            &&& 0 <= n <= 32
            &&& forall|j: nat| j < n ==> #[trigger] digit((v as u32) as int, j) == 0
            &&& n < 32 ==> digit((v as u32) as int, n as nat) == 1
        }),
        op is I32Popcnt ==> (answer(next) matches Value::I32(n) && n == digit_sum(
            (v as u32) as int,
            32,
        )),
        op is I32Eqz ==> answer(next) == Value::I32(
            if v == 0 {
                1
            } else {
                0
            },
        ),
{
    lemma_numeric(module, depth, config, next, op);
    lemma_one_32(stack(config), rest, x, v);
    law_readings_32(v, 0);
    lemma2_to64();
    let x = v as u32;
    lemma_ones(x as nat, 32);
    vstd::std_specs::bits::axiom_u32_leading_zeros(x);
    vstd::std_specs::bits::axiom_u32_trailing_zeros(x);
    if op is I32Clz {
        let n = spec_i32_clz(v);
        assert forall|j: nat| 32 - n <= j < 32 implies #[trigger] digit(x as int, j) == 0 by {
            lemma_digits_32(x, j as u32);
        }
        if n < 32 {
            lemma_digits_32(x, (32 - 1 - n) as u32);
        }
    } else if op is I32Ctz {
        let n = spec_i32_ctz(v);
        assert forall|j: nat| j < n implies #[trigger] digit(x as int, j) == 0 by {
            lemma_digits_32(x, j as u32);
        }
        if n < 32 {
            lemma_digits_32(x, n as u32);
        }
    }
}

/// Whether an instruction takes two 32-bit integers and nothing else.
pub open spec fn takes_two_i32(op: Opcode) -> bool {
    ||| op is I32Add || op is I32Sub || op is I32Mul || op is I32DivU || op is I32DivS
    ||| op is I32RemU || op is I32RemS || op is I32And || op is I32Or || op is I32Xor
    ||| op is I32Shl || op is I32ShrU || op is I32ShrS || op is I32Rotl || op is I32Rotr
    ||| op is I32Eq || op is I32Ne || op is I32LtU || op is I32LtS || op is I32LeU
    ||| op is I32LeS || op is I32GtU || op is I32GtS || op is I32GeU || op is I32GeS
}

/// Whether a numeric instruction takes one 32-bit integer and nothing else.
pub open spec fn takes_one_i32(op: Opcode) -> bool {
    ||| op is I32Clz || op is I32Ctz || op is I32Popcnt || op is I32Eqz
    ||| op is I64ExtendI32U || op is I64ExtendI32S
}

/// Where operands are missing, those that are there are lost; where one is of another
/// type, all are taken.
pub proof fn law_i32_operands<R: NativeResolver>(
    module: Module,
    depth: nat,
    config: Config<R>,
    next: Next<R>,
    op: Opcode,
)
    requires
        comes_to(module, config, op),
        may_step(module, depth, config, next),
    ensures
        takes_two_i32(op) && stack(config).len() < 2 ==> stops(
            config,
            next,
            Seq::empty(),
            ErrorView::OperandStackUnderflow,
        ),
        takes_two_i32(op) && stack(config).len() >= 2 && (no_i32(
            stack(config)[stack(config).len() - 1],
        ) || no_i32(stack(config)[stack(config).len() - 2])) ==> stops(
            config,
            next,
            stack(config).subrange(0, stack(config).len() - 2),
            ErrorView::ValueTypeMismatch,
        ),
        takes_one_i32(op) && stack(config).len() == 0 ==> stops(
            config,
            next,
            Seq::empty(),
            ErrorView::OperandStackUnderflow,
        ),
        takes_one_i32(op) && stack(config).len() > 0 && no_i32(
            stack(config)[stack(config).len() - 1],
        ) ==> stops(
            config,
            next,
            stack(config).subrange(0, stack(config).len() - 1),
            ErrorView::ValueTypeMismatch,
        ),
{
    lemma_numeric(module, depth, config, next, op);
    let operands = stack(config);
    if operands.len() == 0 {
        assert(operands =~= Seq::empty());
    }
}

// The 64-bit instructions.

/// The unsigned and the signed reading of 64 bits.
pub proof fn law_readings_64(v: i64, x: int)
    ensures
        unsigned_64(v) == v as u64,
        (unsigned_64(v) - v) % 0x1_0000_0000_0000_0000 == 0,
        (signed_64(x) - x) % 0x1_0000_0000_0000_0000 == 0,
        unsigned_64(signed_64(x)) == x % 0x1_0000_0000_0000_0000,
{
    assert((v >= 0 ==> v as u64 == v) && (v < 0 ==> v as u64 == v + 0x1_0000_0000_0000_0000))
        by (bit_vector);
}

proof fn lemma_shl_64(x: u64, k: u64)
    requires
        k < 64,
    ensures
        (x << k) as int == (x * pow2(k as nat)) % 0x1_0000_0000_0000_0000,
    decreases k,
{
    lemma2_to64();
    if k == 0 {
        assert(x << 0u64 == x) by (bit_vector);
        assert(x * 1 == x);
    } else {
        let less = (k - 1) as u64;
        lemma_shl_64(x, less);
        lemma_pow2_unfold(k as nat);
        assert((x << k) == ((x << less) * 2) % 0x1_0000_0000_0000_0000) by (bit_vector)
            requires
                k < 64,
                less == k - 1,
        ;
        let p = x * pow2(less as nat);
        assert(x * pow2(k as nat) == 2 * p) by (nonlinear_arith)
            requires
                p == x * pow2(less as nat),
                pow2(k as nat) == 2 * pow2(less as nat),
        ;
        assert((2 * (p % 0x1_0000_0000_0000_0000)) % 0x1_0000_0000_0000_0000 == (2 * p)
            % 0x1_0000_0000_0000_0000);
    }
}

proof fn lemma_shr_s_64(a: i64, k: u64)
    requires
        k < 64,
    ensures
        (a >> k) as int == a as int / pow2(k as nat) as int,
{
    let n = !(a as u64);
    let x = a as u64;
    assert((a >= 0 ==> (a >> k) == (x >> k) && x == a) && (a < 0 ==> (a >> k) == -1 - (n >> k) && n
        == -1 - a)) by (bit_vector)
        requires
            k < 64,
            x == a as u64,
            n == !(a as u64),
    ;
    vstd::bits::lemma_u64_shr_is_div(x, k);
    vstd::bits::lemma_u64_shr_is_div(n, k);
    let p = pow2(k as nat) as int;
    lemma_pow2_pos(k as nat);
    if a < 0 {
        let m = n as int;
        assert((-1 - m) / p == -1 - m / p) by (nonlinear_arith)
            requires
                p > 0,
                m >= 0,
        ;
    }
}

proof fn lemma_rotations_64(x: u64, k: u64)
    requires
        k < 64,
    ensures
        ({
            let j = (64 - k) as u64;
            &&& ((x << k) | (x >> j)) as int == (x * pow2(k as nat)) % 0x1_0000_0000_0000_0000
                + x as int / pow2(j as nat) as int
            &&& ((x >> k) | (x << j)) as int == x as int / pow2(k as nat) as int + (x * pow2(
                j as nat,
            )) % 0x1_0000_0000_0000_0000
        }),
{
    let j = (64 - k) as u64;
    lemma2_to64();
    lemma_shl_64(x, k);
    vstd::bits::lemma_u64_shr_is_div(x, k);
    assert(((x << k) | (x >> j)) == (x << k) + (x >> j) && ((x >> k) | (x << j)) == (x >> k) + (x
        << j)) by (bit_vector)
        requires
            k < 64,
            j == 64 - k,
    ;
    if k == 0 {
        assert((x >> 64u64) == 0 && (x << 64u64) == 0) by (bit_vector);
        vstd::arithmetic::div_mod::lemma_mod_multiples_basic(x as int, 0x1_0000_0000_0000_0000);
        assert(x as int / 0x1_0000_0000_0000_0000 == 0);
    } else {
        lemma_shl_64(x, j);
        vstd::bits::lemma_u64_shr_is_div(x, j);
    }
}

proof fn lemma_digits_64(x: u64, j: u64)
    requires
        j < 64,
    ensures
        ((x >> j) & 1u64) as int == digit(x as int, j as nat),
{
    let y = x >> j;
    assert(y & 1u64 == y % 2) by (bit_vector);
    vstd::bits::lemma_u64_shr_is_div(x, j);
}

proof fn lemma_two_64(
    operands: Seq<Value>,
    rest: Seq<Value>,
    x: Value,
    y: Value,
    a: i64,
    b: i64,
)
    requires
        operands == rest.push(x).push(y),
        is_i64(x, a),
        is_i64(y, b),
    ensures
        read_i64_pair(operands) == (rest, Ok::<(i64, i64), ErrorView>((a, b))),
{
    assert(operands.take(operands.len() - 2) =~= rest);
}

proof fn lemma_one_64(operands: Seq<Value>, rest: Seq<Value>, x: Value, v: i64)
    requires
        operands == rest.push(x),
        is_i64(x, v),
    ensures
        read_i64(operands) == (rest, Ok::<i64, ErrorView>(v)),
{
    assert(operands.drop_last() =~= rest);
}

/// Addition, subtraction and multiplication take two operands and leave the number
/// that is their sum, difference or product modulo `2^64`. The second operand is
/// the one on top.
pub proof fn law_i64_sums<R: NativeResolver>(
    module: Module,
    depth: nat,
    config: Config<R>,
    next: Next<R>,
    op: Opcode,
    rest: Seq<Value>,
    x: Value,
    y: Value,
    a: i64,
    b: i64,
)
    requires
        comes_to(module, config, op),
        may_step(module, depth, config, next),
        stack(config) == rest.push(x).push(y),
        is_i64(x, a),
        is_i64(y, b),
        op is I64Add || op is I64Sub || op is I64Mul,
    ensures
        goes_on(config, next, rest.push(answer(next)), config.ip + 1),
        op is I64Add ==> (answer(next) matches Value::I64(c) && (c - (a + b))
            % 0x1_0000_0000_0000_0000 == 0),
        op is I64Sub ==> (answer(next) matches Value::I64(c) && (c - (a - b))
            % 0x1_0000_0000_0000_0000 == 0),
        op is I64Mul ==> (answer(next) matches Value::I64(c) && (c - a * b)
            % 0x1_0000_0000_0000_0000 == 0),
{
    lemma_numeric(module, depth, config, next, op);
    lemma_two_64(stack(config), rest, x, y, a, b);
    law_readings_64(a, a + b);
    law_readings_64(a, a - b);
    law_readings_64(a, a * b);
}

/// Division and remainder, without the sign and with it. An unsigned quotient is the
/// greatest number of times that the divisor fits; a signed one leaves a remainder
/// that is closer to zero than the divisor and not of the other sign than the
/// dividend.
#[verifier::rlimit(40)]
#[verifier::spinoff_prover]
pub proof fn law_i64_quotients<R: NativeResolver>(
    module: Module,
    depth: nat,
    config: Config<R>,
    next: Next<R>,
    op: Opcode,
    rest: Seq<Value>,
    x: Value,
    y: Value,
    a: i64,
    b: i64,
)
    requires
        comes_to(module, config, op),
        may_step(module, depth, config, next),
        stack(config) == rest.push(x).push(y),
        is_i64(x, a),
        is_i64(y, b),
        op is I64DivU || op is I64DivS || op is I64RemU || op is I64RemS,
        b != 0,
        op is I64DivS ==> !(a == i64::MIN && b == -1),
    ensures
        goes_on(config, next, rest.push(answer(next)), config.ip + 1),
        op is I64DivU ==> (answer(next) matches Value::I64(c) && {
            let times = (b as u64) * (c as u64);
            times <= (a as u64) < times + (b as u64)
        }),
        op is I64RemU ==> (answer(next) matches Value::I64(c) && {
            &&& (c as u64) < (b as u64)
            &&& ((a as u64) - (c as u64)) % (b as u64) as int == 0
        }),
        op is I64DivS ==> (answer(next) matches Value::I64(c) && {
            let r = a - b * c;
            &&& a >= 0 ==> r >= 0
            &&& a <= 0 ==> r <= 0
            &&& b > 0 ==> -b < r < b
            &&& b < 0 ==> b < r < -b
        }),
        op is I64RemS ==> (answer(next) matches Value::I64(c) && {
            &&& a >= 0 ==> c >= 0
            &&& a <= 0 ==> c <= 0
            &&& b > 0 ==> -b < c < b && (a - c) % b as int == 0
            &&& b < 0 ==> b < c < -b && (a - c) % -b == 0
        }),
{
    lemma_numeric(module, depth, config, next, op);
    lemma_two_64(stack(config), rest, x, y, a, b);
    law_readings_64(a, 0);
    law_readings_64(b, 0);
    if op is I64DivU || op is I64RemU {
        let x = unsigned_64(a) as int;
        let d = unsigned_64(b) as int;
        lemma_quotient_bounds(x, d);
        lemma_remainder_bounds(x, d);
        lemma_quotient_and_remainder(x, d);
        law_readings_64(signed_64(x / d), x / d);
        law_readings_64(signed_64(x % d), x % d);
        assert(x - x % d == d * (x / d));
        vstd::arithmetic::div_mod::lemma_mod_multiples_basic(x / d, d);
        assert((x / d) * d == d * (x / d)) by (nonlinear_arith);
    } else {
        lemma_quotient_bounds(a as int, b as int);
        lemma_remainder_bounds(a as int, b as int);
        lemma_quotient_and_remainder(a as int, b as int);
        let q = quotient(a as int, b as int);
        let r = remainder(a as int, b as int);
        assert(signed_64(r) == r);
        if b > 0 {
            vstd::arithmetic::div_mod::lemma_mod_multiples_basic(q, b as int);
            assert(q * b == b * q) by (nonlinear_arith);
        } else {
            vstd::arithmetic::div_mod::lemma_mod_multiples_basic(-q, -b);
            assert((-q) * (-b) == b * q) by (nonlinear_arith);
        }
        if op is I64DivS {
            assert(signed_64(q) == q);
        }
    }
}

/// The bitwise instructions.
pub proof fn law_i64_bits<R: NativeResolver>(
    module: Module,
    depth: nat,
    config: Config<R>,
    next: Next<R>,
    op: Opcode,
    rest: Seq<Value>,
    x: Value,
    y: Value,
    a: i64,
    b: i64,
)
    requires
        comes_to(module, config, op),
        may_step(module, depth, config, next),
        stack(config) == rest.push(x).push(y),
        is_i64(x, a),
        is_i64(y, b),
        op is I64And || op is I64Or || op is I64Xor,
    ensures
        goes_on(config, next, rest.push(answer(next)), config.ip + 1),
        op is I64And ==> answer(next) == Value::I64(a & b),
        op is I64Or ==> answer(next) == Value::I64(a | b),
        op is I64Xor ==> answer(next) == Value::I64(a ^ b),
{
    lemma_numeric(module, depth, config, next, op);
    lemma_two_64(stack(config), rest, x, y, a, b);
}

/// Shifts and rotations. The second operand, without its sign and modulo the width,
/// is the number of places. A shift to the left multiplies by a power of two, one to
/// the right divides by it and rounds down; a rotation brings back on one side what
/// a shift drops on the other.
#[verifier::rlimit(40)]
#[verifier::spinoff_prover]
pub proof fn law_i64_shifts<R: NativeResolver>(
    module: Module,
    depth: nat,
    config: Config<R>,
    next: Next<R>,
    op: Opcode,
    rest: Seq<Value>,
    x: Value,
    y: Value,
    a: i64,
    b: i64,
)
    requires
        comes_to(module, config, op),
        may_step(module, depth, config, next),
        stack(config) == rest.push(x).push(y),
        is_i64(x, a),
        is_i64(y, b),
        op is I64Shl || op is I64ShrU || op is I64ShrS || op is I64Rotl || op is I64Rotr,
    ensures
        goes_on(config, next, rest.push(answer(next)), config.ip + 1),
        answer(next) matches Value::I64(c) && {
            let k = ((b as u64) % 64) as nat;
            let x = (a as u64) as int;
            let y = (c as u64) as int;
            &&& op is I64Shl ==> y == (x * pow2(k)) % 0x1_0000_0000_0000_0000
            &&& op is I64ShrU ==> y == x / pow2(k) as int
            &&& op is I64ShrS ==> c == a as int / pow2(k) as int
            &&& op is I64Rotl ==> y == (x * pow2(k)) % 0x1_0000_0000_0000_0000 + x / pow2(
                (64 - k) as nat,
            ) as int
            &&& op is I64Rotr ==> y == x / pow2(k) as int + (x * pow2((64 - k) as nat))
                % 0x1_0000_0000_0000_0000
        },
{
    lemma_numeric(module, depth, config, next, op);
    lemma_two_64(stack(config), rest, x, y, a, b);
    law_readings_64(a, 0);
    law_readings_64(b, 0);
    let x = a as u64;
    let k = ((b as u64) % 64) as u64;
    let j = (64 - k) as u64;
    lemma_shl_64(x, k);
    vstd::bits::lemma_u64_shr_is_div(x, k);
    lemma_shr_s_64(a, k);
    lemma_rotations_64(x, k);
    law_readings_64(spec_i64_shl(a, b), (x << k) as int);
    law_readings_64(spec_i64_shr_u(a, b), (x >> k) as int);
    law_readings_64(spec_i64_rotl(a, b), ((x << k) | (x >> j)) as int);
    law_readings_64(spec_i64_rotr(a, b), ((x >> k) | (x << j)) as int);
}

/// Comparisons answer with one or zero.
pub proof fn law_i64_comparisons<R: NativeResolver>(
    module: Module,
    depth: nat,
    config: Config<R>,
    next: Next<R>,
    op: Opcode,
    rest: Seq<Value>,
    x: Value,
    y: Value,
    a: i64,
    b: i64,
)
    requires
        comes_to(module, config, op),
        may_step(module, depth, config, next),
        stack(config) == rest.push(x).push(y),
        is_i64(x, a),
        is_i64(y, b),
        op is I64Eq || op is I64Ne || op is I64LtU || op is I64LtS || op is I64LeU || op is I64LeS
            || op is I64GtU || op is I64GtS || op is I64GeU || op is I64GeS,
    ensures
        goes_on(config, next, rest.push(answer(next)), config.ip + 1),
        answer(next) == Value::I32(1) || answer(next) == Value::I32(0),
        op is I64Eq ==> (answer(next) == Value::I32(1) <==> a == b),
        op is I64Ne ==> (answer(next) == Value::I32(1) <==> a != b),
        op is I64LtU ==> (answer(next) == Value::I32(1) <==> (a as u64) < (b as u64)),
        op is I64LtS ==> (answer(next) == Value::I32(1) <==> a < b),
        op is I64LeU ==> (answer(next) == Value::I32(1) <==> (a as u64) <= (b as u64)),
        op is I64LeS ==> (answer(next) == Value::I32(1) <==> a <= b),
        op is I64GtU ==> (answer(next) == Value::I32(1) <==> (a as u64) > (b as u64)),
        op is I64GtS ==> (answer(next) == Value::I32(1) <==> a > b),
        op is I64GeU ==> (answer(next) == Value::I32(1) <==> (a as u64) >= (b as u64)),
        op is I64GeS ==> (answer(next) == Value::I32(1) <==> a >= b),
{
    lemma_numeric(module, depth, config, next, op);
    lemma_two_64(stack(config), rest, x, y, a, b);
    law_readings_64(a, 0);
    law_readings_64(b, 0);
}

/// The instructions that look at the digits of one number: the zeros above its
/// highest one, the zeros below its lowest one, the number of its ones, and whether
/// it has none.
pub proof fn law_i64_digits<R: NativeResolver>(
    module: Module,
    depth: nat,
    config: Config<R>,
    next: Next<R>,
    op: Opcode,
    rest: Seq<Value>,
    x: Value,
    v: i64,
)
    requires
        comes_to(module, config, op),
        may_step(module, depth, config, next),
        stack(config) == rest.push(x),
        is_i64(x, v),
        op is I64Clz || op is I64Ctz || op is I64Popcnt || op is I64Eqz,
    ensures
        goes_on(config, next, rest.push(answer(next)), config.ip + 1),
        op is I64Clz ==> (answer(next) matches Value::I64(n) && {
            &&& 0 <= n <= 64
            &&& forall|j: nat|
                64 - n <= j < 64 ==> #[trigger] digit((v as u64) as int, j) == 0
            &&& n < 64 ==> digit((v as u64) as int, (64 - 1 - n) as nat) == 1
        }),
        op is I64Ctz ==> (answer(next) matches Value::I64(n) && {
            &&& 0 <= n <= 64
            &&& forall|j: nat| j < n ==> #[trigger] digit((v as u64) as int, j) == 0
            &&& n < 64 ==> digit((v as u64) as int, n as nat) == 1
        }),
        op is I64Popcnt ==> (answer(next) matches Value::I64(n) && n == digit_sum(
            (v as u64) as int,
            64,
        )),
        op is I64Eqz ==> answer(next) == Value::I32(
            if v == 0 {
                1
            } else {
                0
            },
        ),
{
    lemma_numeric(module, depth, config, next, op);
    lemma_one_64(stack(config), rest, x, v);
    law_readings_64(v, 0);
    lemma2_to64();
    let x = v as u64;
    lemma_ones(x as nat, 64);
    vstd::std_specs::bits::axiom_u64_leading_zeros(x);
    vstd::std_specs::bits::axiom_u64_trailing_zeros(x);
    if op is I64Clz {
        let n = spec_i64_clz(v);
        assert forall|j: nat| 64 - n <= j < 64 implies #[trigger] digit(x as int, j) == 0 by {
            lemma_digits_64(x, j as u64);
        }
        if n < 64 {
            lemma_digits_64(x, (64 - 1 - n) as u64);
        }
    } else if op is I64Ctz {
        let n = spec_i64_ctz(v);
        assert forall|j: nat| j < n implies #[trigger] digit(x as int, j) == 0 by {
            lemma_digits_64(x, j as u64);
        }
        if n < 64 {
            lemma_digits_64(x, n as u64);
        }
    }
}

/// Whether an instruction takes two 64-bit integers and nothing else.
pub open spec fn takes_two_i64(op: Opcode) -> bool {
    ||| op is I64Add || op is I64Sub || op is I64Mul || op is I64DivU || op is I64DivS
    ||| op is I64RemU || op is I64RemS || op is I64And || op is I64Or || op is I64Xor
    ||| op is I64Shl || op is I64ShrU || op is I64ShrS || op is I64Rotl || op is I64Rotr
    ||| op is I64Eq || op is I64Ne || op is I64LtU || op is I64LtS || op is I64LeU
    ||| op is I64LeS || op is I64GtU || op is I64GtS || op is I64GeU || op is I64GeS
}

/// Whether a numeric instruction takes one 64-bit integer and nothing else.
pub open spec fn takes_one_i64(op: Opcode) -> bool {
    op is I64Clz || op is I64Ctz || op is I64Popcnt || op is I64Eqz || op is I32WrapI64
}

/// Where operands are missing, those that are there are lost; where one is of another
/// type, all are taken.
pub proof fn law_i64_operands<R: NativeResolver>(
    module: Module,
    depth: nat,
    config: Config<R>,
    next: Next<R>,
    op: Opcode,
)
    requires
        comes_to(module, config, op),
        may_step(module, depth, config, next),
    ensures
        takes_two_i64(op) && stack(config).len() < 2 ==> stops(
            config,
            next,
            Seq::empty(),
            ErrorView::OperandStackUnderflow,
        ),
        takes_two_i64(op) && stack(config).len() >= 2 && (no_i64(
            stack(config)[stack(config).len() - 1],
        ) || no_i64(stack(config)[stack(config).len() - 2])) ==> stops(
            config,
            next,
            stack(config).subrange(0, stack(config).len() - 2),
            ErrorView::ValueTypeMismatch,
        ),
        takes_one_i64(op) && stack(config).len() == 0 ==> stops(
            config,
            next,
            Seq::empty(),
            ErrorView::OperandStackUnderflow,
        ),
        takes_one_i64(op) && stack(config).len() > 0 && no_i64(
            stack(config)[stack(config).len() - 1],
        ) ==> stops(
            config,
            next,
            stack(config).subrange(0, stack(config).len() - 1),
            ErrorView::ValueTypeMismatch,
        ),
{
    lemma_numeric(module, depth, config, next, op);
    let operands = stack(config);
    if operands.len() == 0 {
        assert(operands =~= Seq::empty());
    }
}

// Constants and conversions.

/// Constants are pushed.
pub proof fn law_integer_constants<R: NativeResolver>(
    module: Module,
    depth: nat,
    config: Config<R>,
    next: Next<R>,
    op: Opcode,
)
    requires
        comes_to(module, config, op),
        may_step(module, depth, config, next),
    ensures
        op matches Opcode::I32Const(v) ==> goes_on(
            config,
            next,
            stack(config).push(Value::I32(v)),
            config.ip + 1,
        ),
        op matches Opcode::I64Const(v) ==> goes_on(
            config,
            next,
            stack(config).push(Value::I64(v)),
            config.ip + 1,
        ),
{
    lemma_numeric(module, depth, config, next, op);
}

/// A 64-bit number is cut down to the 32-bit number that it is modulo `2^32`.
pub proof fn law_wrap_instruction<R: NativeResolver>(
    module: Module,
    depth: nat,
    config: Config<R>,
    next: Next<R>,
    rest: Seq<Value>,
    x: Value,
    v: i64,
)
    requires
        comes_to(module, config, Opcode::I32WrapI64),
        may_step(module, depth, config, next),
        stack(config) == rest.push(x),
        is_i64(x, v),
    ensures
        goes_on(config, next, rest.push(answer(next)), config.ip + 1),
        answer(next) matches Value::I32(c) && (c - v) % 0x1_0000_0000 == 0,
{
    lemma_numeric(module, depth, config, next, Opcode::I32WrapI64);
    lemma_one_64(stack(config), rest, x, v);
    law_readings_32(0, v as int);
}

/// A 32-bit number is extended to the 64-bit number that it is, without its sign or
/// with it.
pub proof fn law_extend_instructions<R: NativeResolver>(
    module: Module,
    depth: nat,
    config: Config<R>,
    next: Next<R>,
    op: Opcode,
    rest: Seq<Value>,
    x: Value,
    v: i32,
)
    requires
        comes_to(module, config, op),
        may_step(module, depth, config, next),
        stack(config) == rest.push(x),
        is_i32(x, v),
        op is I64ExtendI32U || op is I64ExtendI32S,
    ensures
        goes_on(config, next, rest.push(answer(next)), config.ip + 1),
        op is I64ExtendI32U ==> (answer(next) matches Value::I64(c) && 0 <= c < 0x1_0000_0000 && (c
            - v) % 0x1_0000_0000 == 0),
        op is I64ExtendI32S ==> (answer(next) matches Value::I64(c) && c == v),
{
    lemma_numeric(module, depth, config, next, op);
    lemma_one_32(stack(config), rest, x, v);
    law_readings_32(v, 0);
}

} // verus!
