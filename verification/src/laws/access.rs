//! What loads and stores read and write.
use vstd::arithmetic::power::{lemma_pow0, lemma_pow_positive, pow};
use vstd::prelude::*;

use crate::error::ErrorView;
use crate::int_ops::{
    accessed, byte_range, effective_address, i32_loaded, i32_stored, i64_loaded, i64_stored,
    le_bytes, le_value, lemma_byte_range, lemma_le_bytes_len, loaded_s, loaded_u, overwritten,
    sign_extended, signed_32, signed_64, stored, unsigned_32, unsigned_64,
};
use crate::laws::integers::{law_readings_32, law_readings_64};
use crate::laws::steps::{
    answer, comes_to, goes_on, is_i32, is_i64, lemma_loading, lemma_local, no_i32, no_i64, stack,
    stops, with_stack,
};
use crate::machine::{may_step, Config, Machine, Next};
use crate::memory::MemoryState;
use crate::module::Module;
use crate::native::NativeResolver;
use crate::opcode::{Memarg, Opcode};
use crate::runtime::RuntimeState;
use crate::semantics::storing;
use crate::value::Value;

verus! {

/// The byte of a number at a place, the least significant at place zero.
pub open spec fn byte_at(x: int, place: nat) -> int {
    (x / pow(256, place)) % 256
}

/// The bytes of a machine's memory.
pub open spec fn memory_of<R: NativeResolver>(config: Config<R>) -> Seq<u8> {
    config.machine.runtime.memory.bytes
}

/// The address of an access: the index without its sign, and the offset of the
/// instruction.
pub open spec fn address(index: i32, m: Memarg) -> int {
    (index as u32) + m.offset
}

/// What a load puts into the bytes that it does not read.
pub open spec fn filling(signed: bool, highest: u8) -> int {
    if signed && highest >= 0x80 {
        0xff
    } else {
        0
    }
}

/// Whether a step leaves these operands and these bytes in memory and goes on behind
/// its instruction, with everything else as it was.
pub open spec fn writes<R: NativeResolver>(
    config: Config<R>,
    next: Next<R>,
    operands: Seq<Value>,
    bytes: Seq<u8>,
) -> bool {
    let runtime = config.machine.runtime;
    next == Next::Continue(
        Config {
            machine: Machine {
                runtime: RuntimeState {
                    memory: MemoryState { bytes, max_size: runtime.memory.max_size },
                    ..runtime
                },
                ..with_stack(config, operands)
            },
            ip: config.ip + 1,
        },
    )
}

/// The bytes of memory after a step that goes on.
pub open spec fn memory_after<R: NativeResolver>(next: Next<R>) -> Seq<u8> {
    next->Continue_0.machine.runtime.memory.bytes
}

// Numbers and their bytes.

proof fn lemma_pow_next(place: nat)
    ensures
        pow(256, place + 1) == 256 * pow(256, place),
        pow(256, place) > 0,
{
    vstd::arithmetic::power::lemma_pow_adds(256, 1, place);
    vstd::arithmetic::power::lemma_pow1(256);
    lemma_pow_positive(256, place);
}

/// The bytes of a number above its lowest are those of its 256th part.
proof fn lemma_byte_above(x: int, place: nat)
    requires
        x >= 0,
    ensures
        byte_at(x, 0) == x % 256,
        byte_at(x, place + 1) == byte_at(x / 256, place),
{
    lemma_pow0(256);
    lemma_pow_next(place);
    vstd::arithmetic::div_mod::lemma_div_denominator(x, 256, pow(256, place));
}

proof fn lemma_byte_range_is_pow(n: nat)
    ensures
        byte_range(n) == pow(256, n),
        byte_range(n) > 0,
    decreases n,
{
    if n == 0 {
        lemma_pow0(256);
    } else {
        lemma_byte_range_is_pow((n - 1) as nat);
        lemma_pow_next((n - 1) as nat);
    }
}

/// Bytes are the bytes of the number that they stand for.
proof fn lemma_bytes_of_value(bytes: Seq<u8>, place: nat)
    ensures
        place < bytes.len() ==> byte_at(le_value(bytes) as int, place) == bytes[place as int],
        place >= bytes.len() ==> byte_at(le_value(bytes) as int, place) == 0,
        le_value(bytes) < pow(256, bytes.len()),
    decreases bytes.len(),
{
    if bytes.len() == 0 {
        lemma_pow0(256);
        lemma_pow_positive(256, place);
        assert(0int / pow(256, place) == 0) by (nonlinear_arith)
            requires
                pow(256, place) > 0,
        ;
    } else {
        let rest = bytes.drop_first();
        let less = if place == 0 {
            0
        } else {
            (place - 1) as nat
        };
        lemma_bytes_of_value(rest, less);
        lemma_byte_above(le_value(bytes) as int, less);
        lemma_pow_next(rest.len());
        assert(le_value(bytes) as int / 256 == le_value(rest));
    }
}

/// The bytes that a number is cut into are its bytes.
proof fn lemma_le_bytes_at(x: nat, n: nat, place: nat)
    requires
        place < n,
    ensures
        le_bytes(x, n).len() == n,
        le_bytes(x, n)[place as int] == byte_at(x as int, place),
    decreases n,
{
    lemma_le_bytes_len(x, n);
    lemma_le_bytes_len(x / 256, (n - 1) as nat);
    if place == 0 {
        lemma_byte_above(x as int, 0);
    } else {
        lemma_le_bytes_at(x / 256, (n - 1) as nat, (place - 1) as nat);
        lemma_byte_above(x as int, (place - 1) as nat);
    }
}

/// Two sequences of bytes, one behind the other.
proof fn lemma_le_value_of_two(low: Seq<u8>, high: Seq<u8>)
    ensures
        le_value(low + high) == le_value(low) + pow(256, low.len()) * le_value(high),
    decreases low.len(),
{
    if low.len() == 0 {
        lemma_pow0(256);
        assert(low + high =~= high);
        assert(1 * le_value(high) == le_value(high));
    } else {
        let rest = low.drop_first();
        lemma_le_value_of_two(rest, high);
        lemma_pow_next(rest.len());
        assert((low + high).drop_first() =~= rest + high);
        let p = pow(256, rest.len());
        let h = le_value(high) as int;
        assert((256 * p) * h == 256 * (p * h)) by (nonlinear_arith);
    }
}

/// `n` times the same byte.
pub(crate) open spec fn repeated(byte: u8, n: nat) -> Seq<u8> {
    Seq::new(n, |i: int| byte)
}

proof fn lemma_le_value_of_fill(n: nat)
    ensures
        le_value(repeated(0, n)) == 0,
        le_value(repeated(0xff, n)) == pow(256, n) - 1,
    decreases n,
{
    if n == 0 {
        lemma_pow0(256);
    } else {
        let less = (n - 1) as nat;
        lemma_le_value_of_fill(less);
        lemma_pow_next(less);
        assert(repeated(0, n).drop_first() =~= repeated(0, less));
        assert(repeated(0xff, n).drop_first() =~= repeated(0xff, less));
    }
}

/// The number that is loaded has the bytes that were read and the filling above them.
proof fn lemma_extended(bytes: Seq<u8>, signed: bool, width: nat, place: nat)
    requires
        0 < bytes.len() <= width,
        place < width,
    ensures
        ({
            let n = bytes.len();
            let number = if signed {
                sign_extended(le_value(bytes), n)
            } else {
                le_value(bytes) as int
            };
            byte_at(number % pow(256, width), place) == (if place < n {
                bytes[place as int] as int
            } else {
                filling(signed, bytes[n - 1])
            })
        }),
{
    let n = bytes.len();
    let above = (width - n) as nat;
    let fill: u8 = if signed && bytes[n - 1] >= 0x80 {
        0xff
    } else {
        0
    };
    let whole = bytes + repeated(fill, above);
    lemma_bytes_of_value(whole, place);
    lemma_bytes_of_value(bytes, (n - 1) as nat);
    lemma_le_value_of_two(bytes, repeated(fill, above));
    lemma_le_value_of_fill(above);
    lemma_byte_range_is_pow(n);
    vstd::arithmetic::power::lemma_pow_adds(256, n, above);
    lemma_highest_byte(bytes);
    let p = pow(256, n);
    let q = pow(256, above);
    let x = le_value(bytes) as int;
    if fill == 0xff {
        assert(p * (q - 1) == p * q - p) by (nonlinear_arith);
        assert(le_value(whole) == (x - p) + p * q);
        vstd::arithmetic::div_mod::lemma_mod_add_multiples_vanish(x - p, p * q);
        vstd::arithmetic::div_mod::lemma_small_mod(le_value(whole), (p * q) as nat);
    } else {
        assert(p * 0 == 0) by (nonlinear_arith);
        vstd::arithmetic::div_mod::lemma_small_mod(le_value(whole), (p * q) as nat);
    }
}

/// The highest byte tells in which half of its range a number is.
proof fn lemma_highest_byte(bytes: Seq<u8>)
    requires
        bytes.len() > 0,
    ensures
        2 * le_value(bytes) < byte_range(bytes.len()) <==> bytes[bytes.len() - 1] < 0x80,
    decreases bytes.len(),
{
    let rest = bytes.drop_first();
    lemma_byte_range();
    if bytes.len() == 1 {
        assert(le_value(rest) == 0);
    } else {
        lemma_highest_byte(rest);
        lemma_byte_range_even(rest.len());
    }
}

proof fn lemma_byte_range_even(n: nat)
    requires
        n > 0,
    ensures
        byte_range(n) % 256 == 0,
{
}

// The parts of loads and stores.

/// A load that memory has the bytes for gives the number whose lowest bytes they are,
/// filled up with zeros, or with the sign. One that memory does not have the bytes
/// for is refused.
pub proof fn law_i32_load(memory: Seq<u8>, index: i32, m: Memarg, n: u32, signed: bool, place: nat)
    requires
        0 < n <= 4,
        place < 4,
    ensures
        ({
            let addr = address(index, m);
            let number = if signed {
                loaded_s(memory, unsigned_32(index) as u32, m, n)
            } else {
                loaded_u(memory, unsigned_32(index) as u32, m, n)
            };
            if addr + n <= memory.len() {
                i32_loaded(number) matches Ok(Value::I32(v)) && byte_at((v as u32) as int, place)
                    == (if place < n {
                    memory[addr + place] as int
                } else {
                    filling(signed, memory[addr + n - 1])
                })
            } else {
                i32_loaded(number) == Err::<Value, ErrorView>(
                    ErrorView::AddrOutOfBound((addr % 0x1_0000_0000) as u32, n),
                )
            }
        }),
{
    law_readings_32(index, 0);
    let i = unsigned_32(index) as u32;
    if address(index, m) + n <= memory.len() {
        let bytes = accessed(memory, i, m, n as nat);
        lemma_extended(bytes, signed, 4, place);
        lemma_byte_range();
        lemma_byte_range_is_pow(4);
        let number = if signed {
            sign_extended(le_value(bytes), n as nat)
        } else {
            le_value(bytes) as int
        };
        law_readings_32(signed_32(number), number);
    }
}

/// The same for loads of 64-bit integers.
pub proof fn law_i64_load(memory: Seq<u8>, index: i32, m: Memarg, n: u32, signed: bool, place: nat)
    requires
        0 < n <= 8,
        place < 8,
    ensures
        ({
            let addr = address(index, m);
            let number = if signed {
                loaded_s(memory, unsigned_32(index) as u32, m, n)
            } else {
                loaded_u(memory, unsigned_32(index) as u32, m, n)
            };
            if addr + n <= memory.len() {
                i64_loaded(number) matches Ok(Value::I64(v)) && byte_at((v as u64) as int, place)
                    == (if place < n {
                    memory[addr + place] as int
                } else {
                    filling(signed, memory[addr + n - 1])
                })
            } else {
                i64_loaded(number) == Err::<Value, ErrorView>(
                    ErrorView::AddrOutOfBound((addr % 0x1_0000_0000) as u32, n),
                )
            }
        }),
{
    law_readings_32(index, 0);
    let i = unsigned_32(index) as u32;
    if address(index, m) + n <= memory.len() {
        let bytes = accessed(memory, i, m, n as nat);
        lemma_extended(bytes, signed, 8, place);
        lemma_byte_range();
        lemma_byte_range_is_pow(8);
        let number = if signed {
            sign_extended(le_value(bytes), n as nat)
        } else {
            le_value(bytes) as int
        };
        law_readings_64(signed_64(number), number);
    }
}

/// A load of no bytes gives zero, where its address is within memory or at its end.
pub proof fn law_load_of_nothing(memory: Seq<u8>, index: i32, m: Memarg)
    ensures
        ({
            let i = unsigned_32(index) as u32;
            address(index, m) <= memory.len() ==> {
                &&& i32_loaded(loaded_u(memory, i, m, 0)) == Ok::<Value, ErrorView>(Value::I32(0))
                &&& i32_loaded(loaded_s(memory, i, m, 0)) == Ok::<Value, ErrorView>(Value::I32(0))
                &&& i64_loaded(loaded_u(memory, i, m, 0)) == Ok::<Value, ErrorView>(Value::I64(0))
                &&& i64_loaded(loaded_s(memory, i, m, 0)) == Ok::<Value, ErrorView>(Value::I64(0))
            }
        }),
{
    law_readings_32(index, 0);
    lemma_byte_range();
}

/// Whether memory has the `n` lowest bytes of a number from an address on, and is
/// otherwise as before.
pub open spec fn holds(before: Seq<u8>, after: Seq<u8>, addr: int, n: u32, x: int) -> bool {
    &&& after.len() == before.len()
    &&& forall|i: int| #![trigger after[i]]
        0 <= i < before.len() ==> after[i] == (if addr <= i < addr + n {
            byte_at(x, (i - addr) as nat)
        } else {
            before[i] as int
        })
}

proof fn lemma_stored(memory: Seq<u8>, index: u32, m: Memarg, n: u32, x: nat)
    requires
        index + m.offset + n <= memory.len(),
    ensures
        stored(memory, index, m, n, x) matches Ok(after) && holds(
            memory,
            after,
            index + m.offset,
            n,
            x as int,
        ),
{
    lemma_le_bytes_len(x, n as nat);
    let addr = effective_address(index, m) as int;
    let after = overwritten(memory, addr, le_bytes(x, n as nat));
    assert forall|i: int| #![trigger after[i]] 0 <= i < memory.len() implies after[i] == (if addr
        <= i < addr + n {
        byte_at(x as int, (i - addr) as nat)
    } else {
        memory[i] as int
    }) by {
        if addr <= i < addr + n {
            lemma_le_bytes_at(x, n as nat, (i - addr) as nat);
        }
    }
}

/// A store that memory has the bytes for writes the lowest bytes of the number, and
/// nothing else. A value of another type, and a store that memory does not have the
/// bytes for, are refused.
pub proof fn law_i32_store(memory: Seq<u8>, index: i32, value: Value, m: Memarg, n: u32)
    ensures
        ({
            let addr = address(index, m);
            let after = i32_stored(memory, unsigned_32(index) as u32, value, m, n);
            &&& no_i32(value) ==> after == Err::<Seq<u8>, ErrorView>(ErrorView::ValueTypeMismatch)
            &&& !no_i32(value) && addr + n > memory.len() ==> after == Err::<Seq<u8>, ErrorView>(
                ErrorView::AddrOutOfBound((addr % 0x1_0000_0000) as u32, n),
            )
            &&& forall|v: i32| #[trigger]
                is_i32(value, v) && addr + n <= memory.len() ==> (after matches Ok(bytes)
                    && holds(memory, bytes, addr, n, (v as u32) as int))
        }),
{
    law_readings_32(index, 0);
    let i = unsigned_32(index) as u32;
    assert forall|v: i32| #[trigger] is_i32(value, v) && address(index, m) + n
        <= memory.len() implies (i32_stored(memory, i, value, m, n) matches Ok(bytes) && holds(
        memory,
        bytes,
        address(index, m),
        n,
        (v as u32) as int,
    )) by {
        law_readings_32(v, 0);
        lemma_stored(memory, i, m, n, unsigned_32(v));
    }
}

/// The same for stores of 64-bit integers.
pub proof fn law_i64_store(memory: Seq<u8>, index: i32, value: Value, m: Memarg, n: u32)
    ensures
        ({
            let addr = address(index, m);
            let after = i64_stored(memory, unsigned_32(index) as u32, value, m, n);
            &&& no_i64(value) ==> after == Err::<Seq<u8>, ErrorView>(ErrorView::ValueTypeMismatch)
            &&& !no_i64(value) && addr + n > memory.len() ==> after == Err::<Seq<u8>, ErrorView>(
                ErrorView::AddrOutOfBound((addr % 0x1_0000_0000) as u32, n),
            )
            &&& forall|v: i64| #[trigger]
                is_i64(value, v) && addr + n <= memory.len() ==> (after matches Ok(bytes)
                    && holds(memory, bytes, addr, n, (v as u64) as int))
        }),
{
    law_readings_32(index, 0);
    let i = unsigned_32(index) as u32;
    assert forall|v: i64| #[trigger] is_i64(value, v) && address(index, m) + n
        <= memory.len() implies (i64_stored(memory, i, value, m, n) matches Ok(bytes) && holds(
        memory,
        bytes,
        address(index, m),
        n,
        (v as u64) as int,
    )) by {
        law_readings_64(v, 0);
        lemma_stored(memory, i, m, n, unsigned_64(v));
    }
}

// The instructions.

/// The loads of 32-bit integers. Each reads the bytes of its width, from the address
/// on that its operand and its offset give; the byte at every place of the number is
/// the byte read there, and above them the filling.
pub proof fn law_i32_load_instructions<R: NativeResolver>(
    module: Module,
    depth: nat,
    config: Config<R>,
    next: Next<R>,
    op: Opcode,
    m: Memarg,
    n: u32,
    signed: bool,
    rest: Seq<Value>,
    x: Value,
    index: i32,
)
    requires
        comes_to(module, config, op),
        may_step(module, depth, config, next),
        ({
            ||| op == Opcode::I32Load(m) && n == 4 && !signed
            ||| op == Opcode::I32Load8U(m) && n == 1 && !signed
            ||| op == Opcode::I32Load8S(m) && n == 1 && signed
            ||| op == Opcode::I32Load16U(m) && n == 2 && !signed
            ||| op == Opcode::I32Load16S(m) && n == 2 && signed
        }),
        stack(config) == rest.push(x),
        is_i32(x, index),
    ensures
        address(index, m) + n > memory_of(config).len() ==> stops(
            config,
            next,
            rest,
            ErrorView::AddrOutOfBound((address(index, m) % 0x1_0000_0000) as u32, n),
        ),
        address(index, m) + n <= memory_of(config).len() ==> {
            &&& goes_on(config, next, rest.push(answer(next)), config.ip + 1)
            &&& answer(next) matches Value::I32(v) && forall|place: nat|
                place < 4 ==> #[trigger] byte_at((v as u32) as int, place) == (if place < n {
                    memory_of(config)[address(index, m) + place] as int
                } else {
                    filling(signed, memory_of(config)[address(index, m) + n - 1])
                })
        },
{
    lemma_loading(module, depth, config, next, op);
    assert(stack(config).drop_last() =~= rest);
    law_readings_32(index, 0);
    let addr = address(index, m);
    let memory = memory_of(config);
    law_i32_load(memory, index, m, n, signed, 0);
    if addr + n <= memory.len() {
        let v = answer(next)->I32_0;
        assert forall|place: nat| place < 4 implies #[trigger] byte_at((v as u32) as int, place)
            == (if place < n {
            memory[addr + place] as int
        } else {
            filling(signed, memory[addr + n - 1])
        }) by {
            law_i32_load(memory, index, m, n, signed, place);
        }
    }
}

/// The stores of 32-bit integers. Each writes as many of the lowest bytes of its
/// number as it is wide, from the address on that the operand below the number and
/// its offset give.
pub proof fn law_i32_store_instructions<R: NativeResolver>(
    module: Module,
    depth: nat,
    config: Config<R>,
    next: Next<R>,
    op: Opcode,
    m: Memarg,
    n: u32,
    rest: Seq<Value>,
    x: Value,
    y: Value,
    index: i32,
)
    requires
        comes_to(module, config, op),
        may_step(module, depth, config, next),
        ({
            ||| op == Opcode::I32Store(m) && n == 4
            ||| op == Opcode::I32Store8(m) && n == 1
            ||| op == Opcode::I32Store16(m) && n == 2
        }),
        stack(config) == rest.push(x).push(y),
        is_i32(x, index),
    ensures
        no_i32(y) ==> stops(config, next, rest, ErrorView::ValueTypeMismatch),
        !no_i32(y) && address(index, m) + n > memory_of(config).len() ==> stops(
            config,
            next,
            rest,
            ErrorView::AddrOutOfBound((address(index, m) % 0x1_0000_0000) as u32, n),
        ),
        forall|v: i32| #[trigger]
            is_i32(y, v) && address(index, m) + n <= memory_of(config).len() ==> {
                &&& writes(config, next, rest, memory_after(next))
                &&& holds(
                    memory_of(config),
                    memory_after(next),
                    address(index, m),
                    n,
                    (v as u32) as int,
                )
            },
{
    lemma_storing(module, depth, config, next, op);
    assert(stack(config).drop_last() =~= rest.push(x));
    assert(rest.push(x).drop_last() =~= rest);
    law_readings_32(index, 0);
    law_i32_store(memory_of(config), index, y, m, n);
}

/// The loads of 64-bit integers. Each reads the bytes of its width, from the address
/// on that its operand and its offset give; the byte at every place of the number is
/// the byte read there, and above them the filling.
pub proof fn law_i64_load_instructions<R: NativeResolver>(
    module: Module,
    depth: nat,
    config: Config<R>,
    next: Next<R>,
    op: Opcode,
    m: Memarg,
    n: u32,
    signed: bool,
    rest: Seq<Value>,
    x: Value,
    index: i32,
)
    requires
        comes_to(module, config, op),
        may_step(module, depth, config, next),
        ({
            ||| op == Opcode::I64Load(m) && n == 8 && !signed
            ||| op == Opcode::I64Load8U(m) && n == 1 && !signed
            ||| op == Opcode::I64Load8S(m) && n == 1 && signed
            ||| op == Opcode::I64Load16U(m) && n == 2 && !signed
            ||| op == Opcode::I64Load16S(m) && n == 2 && signed
            ||| op == Opcode::I64Load32U(m) && n == 4 && !signed
            ||| op == Opcode::I64Load32S(m) && n == 4 && signed
        }),
        stack(config) == rest.push(x),
        is_i32(x, index),
    ensures
        address(index, m) + n > memory_of(config).len() ==> stops(
            config,
            next,
            rest,
            ErrorView::AddrOutOfBound((address(index, m) % 0x1_0000_0000) as u32, n),
        ),
        address(index, m) + n <= memory_of(config).len() ==> {
            &&& goes_on(config, next, rest.push(answer(next)), config.ip + 1)
            &&& answer(next) matches Value::I64(v) && forall|place: nat|
                place < 8 ==> #[trigger] byte_at((v as u64) as int, place) == (if place < n {
                    memory_of(config)[address(index, m) + place] as int
                } else {
                    filling(signed, memory_of(config)[address(index, m) + n - 1])
                })
        },
{
    lemma_loading(module, depth, config, next, op);
    assert(stack(config).drop_last() =~= rest);
    law_readings_32(index, 0);
    let addr = address(index, m);
    let memory = memory_of(config);
    law_i64_load(memory, index, m, n, signed, 0);
    if addr + n <= memory.len() {
        let v = answer(next)->I64_0;
        assert forall|place: nat| place < 8 implies #[trigger] byte_at((v as u64) as int, place)
            == (if place < n {
            memory[addr + place] as int
        } else {
            filling(signed, memory[addr + n - 1])
        }) by {
            law_i64_load(memory, index, m, n, signed, place);
        }
    }
}

/// The stores of 64-bit integers. Each writes as many of the lowest bytes of its
/// number as it is wide, from the address on that the operand below the number and
/// its offset give.
pub proof fn law_i64_store_instructions<R: NativeResolver>(
    module: Module,
    depth: nat,
    config: Config<R>,
    next: Next<R>,
    op: Opcode,
    m: Memarg,
    n: u32,
    rest: Seq<Value>,
    x: Value,
    y: Value,
    index: i32,
)
    requires
        comes_to(module, config, op),
        may_step(module, depth, config, next),
        ({
            ||| op == Opcode::I64Store(m) && n == 8
            ||| op == Opcode::I64Store8(m) && n == 1
            ||| op == Opcode::I64Store16(m) && n == 2
            ||| op == Opcode::I64Store32(m) && n == 4
        }),
        stack(config) == rest.push(x).push(y),
        is_i32(x, index),
    ensures
        no_i64(y) ==> stops(config, next, rest, ErrorView::ValueTypeMismatch),
        !no_i64(y) && address(index, m) + n > memory_of(config).len() ==> stops(
            config,
            next,
            rest,
            ErrorView::AddrOutOfBound((address(index, m) % 0x1_0000_0000) as u32, n),
        ),
        forall|v: i64| #[trigger]
            is_i64(y, v) && address(index, m) + n <= memory_of(config).len() ==> {
                &&& writes(config, next, rest, memory_after(next))
                &&& holds(
                    memory_of(config),
                    memory_after(next),
                    address(index, m),
                    n,
                    (v as u64) as int,
                )
            },
{
    lemma_storing(module, depth, config, next, op);
    assert(stack(config).drop_last() =~= rest.push(x));
    assert(rest.push(x).drop_last() =~= rest);
    law_readings_32(index, 0);
    law_i64_store(memory_of(config), index, y, m, n);
}

/// Whether an instruction is a load.
pub open spec fn is_load(op: Opcode) -> bool {
    ||| op is I32Load || op is I32Load8U || op is I32Load8S || op is I32Load16U
    ||| op is I32Load16S || op is I64Load || op is I64Load8U || op is I64Load8S
    ||| op is I64Load16U || op is I64Load16S || op is I64Load32U || op is I64Load32S
}

/// Whether an instruction is a store.
pub open spec fn is_store(op: Opcode) -> bool {
    ||| op is I32Store || op is I32Store8 || op is I32Store16 || op is I64Store
    ||| op is I64Store8 || op is I64Store16 || op is I64Store32
}

/// Loads and stores without their operands, or with an address that is no 32-bit
/// integer.
pub proof fn law_access_operands<R: NativeResolver>(
    module: Module,
    depth: nat,
    config: Config<R>,
    next: Next<R>,
    op: Opcode,
)
    requires
        comes_to(module, config, op),
        may_step(module, depth, config, next),
    ensures
        is_load(op) && stack(config).len() == 0 || is_store(op) && stack(config).len() < 2
            ==> stops(
            config,
            next,
            Seq::empty(),
            ErrorView::OperandStackUnderflow,
        ),
        is_load(op) && stack(config).len() > 0 && no_i32(stack(config)[stack(config).len() - 1])
            ==> stops(
            config,
            next,
            stack(config).subrange(0, stack(config).len() - 1),
            ErrorView::ValueTypeMismatch,
        ),
        is_store(op) && stack(config).len() >= 2 && no_i32(stack(config)[stack(config).len() - 2])
            ==> stops(
            config,
            next,
            stack(config).subrange(0, stack(config).len() - 2),
            ErrorView::ValueTypeMismatch,
        ),
{
    let operands = stack(config);
    if operands.len() == 0 {
        assert(operands =~= Seq::empty());
    } else {
        assert(operands.drop_last() =~= operands.subrange(0, operands.len() - 1));
        if operands.len() >= 2 {
            assert(operands.drop_last().drop_last() =~= operands.subrange(
                0,
                operands.len() - 2,
            ));
        }
    }
    if is_load(op) {
        lemma_loading(module, depth, config, next, op);
    } else if is_store(op) {
        lemma_storing(module, depth, config, next, op);
    }
}

/// A step at a store.
#[verifier::rlimit(40)]
#[verifier::spinoff_prover]
proof fn lemma_storing<R: NativeResolver>(
    module: Module,
    depth: nat,
    config: Config<R>,
    next: Next<R>,
    op: Opcode,
)
    requires
        comes_to(module, config, op),
        may_step(module, depth, config, next),
    ensures
        ({
            let result = storing(op, stack(config), memory_of(config));
            &&& result matches Some((left, Ok(bytes))) ==> writes(config, next, left, bytes)
            &&& result matches Some((left, Err(error))) ==> stops(config, next, left, error)
        }),
{
    if storing(op, stack(config), memory_of(config)) is Some {
        lemma_local(module, depth, config, next, op);
        let machine = config.machine;
        assert((RuntimeState {
            memory: machine.runtime.memory,
            globals: machine.runtime.globals,
            ..machine.runtime
        }) == machine.runtime);
    }
}

/// A 32-bit integer is stored and then loaded by instructions of the same width, at
/// the same index and offset: the load gives back the stored bytes of the number, and
/// so the whole number where the width is that of the number.
pub proof fn law_i32_load_instruction_gives_back_store<R: NativeResolver>(
    module: Module,
    depth: nat,
    config: Config<R>,
    between: Next<R>,
    again: Config<R>,
    next: Next<R>,
    store: Opcode,
    load: Opcode,
    m: Memarg,
    n: u32,
    signed: bool,
    rest: Seq<Value>,
    x: Value,
    y: Value,
    left: Seq<Value>,
    z: Value,
    index: i32,
    v: i32,
)
    requires
        ({
            ||| store == Opcode::I32Store(m) && load == Opcode::I32Load(m) && n == 4 && !signed
            ||| store == Opcode::I32Store8(m) && load == Opcode::I32Load8U(m) && n == 1 && !signed
            ||| store == Opcode::I32Store8(m) && load == Opcode::I32Load8S(m) && n == 1 && signed
            ||| store == Opcode::I32Store16(m) && load == Opcode::I32Load16U(m) && n == 2 && !signed
            ||| store == Opcode::I32Store16(m) && load == Opcode::I32Load16S(m) && n == 2 && signed
        }),
        comes_to(module, config, store),
        may_step(module, depth, config, between),
        stack(config) == rest.push(x).push(y),
        is_i32(x, index),
        is_i32(y, v),
        address(index, m) + n <= memory_of(config).len(),
        comes_to(module, again, load),
        may_step(module, depth, again, next),
        memory_of(again) == memory_after(between),
        stack(again) == left.push(z),
        is_i32(z, index),
    ensures
        between is Continue,
        goes_on(again, next, left.push(answer(next)), again.ip + 1),
        answer(next) matches Value::I32(c) && {
            &&& forall|place: nat|
                place < n ==> #[trigger] byte_at((c as u32) as int, place) == byte_at(
                    (v as u32) as int,
                    place,
                )
            &&& n == 4 ==> c == v
        },
{
    law_i32_store_instructions(module, depth, config, between, store, m, n, rest, x, y, index);
    law_i32_load_instructions(
        module,
        depth,
        again,
        next,
        load,
        m,
        n,
        signed,
        left,
        z,
        index,
    );
    let addr = address(index, m);
    let c = answer(next)->I32_0;
    assert forall|place: nat| place < n implies #[trigger] byte_at((c as u32) as int, place)
        == byte_at((v as u32) as int, place) by {
        assert(memory_of(again)[addr + place] == byte_at((v as u32) as int, place));
    }
    if n == 4 {
        lemma_byte_range();
        lemma_byte_range_is_pow(4);
        lemma_same_bytes((c as u32) as nat, (v as u32) as nat, 4);
        law_readings_32(c, 0);
        law_readings_32(v, 0);
    }
}

/// A 64-bit integer is stored and then loaded by instructions of the same width, at
/// the same index and offset: the load gives back the stored bytes of the number, and
/// so the whole number where the width is that of the number.
pub proof fn law_i64_load_instruction_gives_back_store<R: NativeResolver>(
    module: Module,
    depth: nat,
    config: Config<R>,
    between: Next<R>,
    again: Config<R>,
    next: Next<R>,
    store: Opcode,
    load: Opcode,
    m: Memarg,
    n: u32,
    signed: bool,
    rest: Seq<Value>,
    x: Value,
    y: Value,
    left: Seq<Value>,
    z: Value,
    index: i32,
    v: i64,
)
    requires
        ({
            ||| store == Opcode::I64Store(m) && load == Opcode::I64Load(m) && n == 8 && !signed
            ||| store == Opcode::I64Store8(m) && load == Opcode::I64Load8U(m) && n == 1 && !signed
            ||| store == Opcode::I64Store8(m) && load == Opcode::I64Load8S(m) && n == 1 && signed
            ||| store == Opcode::I64Store16(m) && load == Opcode::I64Load16U(m) && n == 2 && !signed
            ||| store == Opcode::I64Store16(m) && load == Opcode::I64Load16S(m) && n == 2 && signed
            ||| store == Opcode::I64Store32(m) && load == Opcode::I64Load32U(m) && n == 4 && !signed
            ||| store == Opcode::I64Store32(m) && load == Opcode::I64Load32S(m) && n == 4 && signed
        }),
        comes_to(module, config, store),
        may_step(module, depth, config, between),
        stack(config) == rest.push(x).push(y),
        is_i32(x, index),
        is_i64(y, v),
        address(index, m) + n <= memory_of(config).len(),
        comes_to(module, again, load),
        may_step(module, depth, again, next),
        memory_of(again) == memory_after(between),
        stack(again) == left.push(z),
        is_i32(z, index),
    ensures
        between is Continue,
        goes_on(again, next, left.push(answer(next)), again.ip + 1),
        answer(next) matches Value::I64(c) && {
            &&& forall|place: nat|
                place < n ==> #[trigger] byte_at((c as u64) as int, place) == byte_at(
                    (v as u64) as int,
                    place,
                )
            &&& n == 8 ==> c == v
        },
{
    law_i64_store_instructions(module, depth, config, between, store, m, n, rest, x, y, index);
    law_i64_load_instructions(
        module,
        depth,
        again,
        next,
        load,
        m,
        n,
        signed,
        left,
        z,
        index,
    );
    let addr = address(index, m);
    let c = answer(next)->I64_0;
    assert forall|place: nat| place < n implies #[trigger] byte_at((c as u64) as int, place)
        == byte_at((v as u64) as int, place) by {
        assert(memory_of(again)[addr + place] == byte_at((v as u64) as int, place));
    }
    if n == 8 {
        lemma_byte_range();
        lemma_byte_range_is_pow(8);
        lemma_same_bytes((c as u64) as nat, (v as u64) as nat, 8);
        law_readings_64(c, 0);
        law_readings_64(v, 0);
    }
}

/// A number of so many bytes is known by its bytes.
proof fn lemma_same_bytes(a: nat, b: nat, n: nat)
    requires
        a < pow(256, n),
        b < pow(256, n),
        forall|place: nat|
            place < n ==> #[trigger] byte_at(a as int, place) == byte_at(b as int, place),
    ensures
        a == b,
    decreases n,
{
    if n == 0 {
        lemma_pow0(256);
    } else {
        let less = (n - 1) as nat;
        lemma_pow_next(less);
        assert forall|place: nat| place < less implies #[trigger] byte_at(
            (a / 256) as int,
            place,
        ) == byte_at((b / 256) as int, place) by {
            lemma_byte_above(a as int, place);
            lemma_byte_above(b as int, place);
            assert(byte_at(a as int, place + 1) == byte_at(b as int, place + 1));
        }
        lemma_same_bytes(a / 256, b / 256, less);
        lemma_byte_above(a as int, 0);
        lemma_byte_above(b as int, 0);
        assert(byte_at(a as int, 0) == byte_at(b as int, 0));
    }
}

} // verus!
