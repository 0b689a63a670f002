//! What instructions do within a function, as mathematics.
use vstd::prelude::*;

use crate::error::ErrorView;
use crate::frame::FrameState;
use crate::int_ops::{
    divisible_32, divisible_64, i32_loaded, i32_stored, i64_loaded, i64_stored, loaded_s, loaded_u,
    signed_32, spec_i32_add, spec_i32_clz, spec_i32_ctz, spec_i32_div_s, spec_i32_div_u,
    spec_i32_mul, spec_i32_popcnt, spec_i32_rem_s, spec_i32_rem_u, spec_i32_rotl, spec_i32_rotr,
    spec_i32_shl, spec_i32_shr_s, spec_i32_shr_u, spec_i32_sub, spec_i64_add, spec_i64_clz,
    spec_i64_ctz, spec_i64_div_s, spec_i64_div_u, spec_i64_mul, spec_i64_popcnt, spec_i64_rem_s,
    spec_i64_rem_u, spec_i64_rotl, spec_i64_rotr, spec_i64_shl, spec_i64_shr_s, spec_i64_shr_u,
    spec_i64_sub, truth, unsigned_32, unsigned_64,
};
use crate::memory::{page_count, MemoryState};
use crate::native::index_of;
use crate::opcode::Opcode;
use crate::value::Value;

verus! {

// Operands.

/// The operands after the top one is read, and the operand.
pub open spec fn read_value(operands: Seq<Value>) -> (Seq<Value>, Result<Value, ErrorView>) {
    if operands.len() > 0 {
        (operands.drop_last(), Ok(operands.last()))
    } else {
        (operands, Err(ErrorView::OperandStackUnderflow))
    }
}

/// The operands after the top one is read as a 32-bit integer, and the integer.
pub open spec fn read_i32(operands: Seq<Value>) -> (Seq<Value>, Result<i32, ErrorView>) {
    if operands.len() > 0 {
        (
            operands.drop_last(),
            match operands.last().as_i32() {
                Some(v) => Ok(v),
                None => Err(ErrorView::ValueTypeMismatch),
            },
        )
    } else {
        (operands, Err(ErrorView::OperandStackUnderflow))
    }
}

/// The operands after the top one is read as a 64-bit integer, and the integer.
pub open spec fn read_i64(operands: Seq<Value>) -> (Seq<Value>, Result<i64, ErrorView>) {
    if operands.len() > 0 {
        (
            operands.drop_last(),
            match operands.last().as_i64() {
                Some(v) => Ok(v),
                None => Err(ErrorView::ValueTypeMismatch),
            },
        )
    } else {
        (operands, Err(ErrorView::OperandStackUnderflow))
    }
}

/// The operands after two are read as 32-bit integers, and the integers: the
/// second is the one on top.
pub open spec fn read_i32_pair(operands: Seq<Value>) -> (
    Seq<Value>,
    Result<(i32, i32), ErrorView>,
) {
    let n = operands.len();
    if n < 2 {
        (Seq::empty(), Err(ErrorView::OperandStackUnderflow))
    } else {
        (
            operands.take(n - 2),
            match (operands[n - 2].as_i32(), operands[n - 1].as_i32()) {
                (Some(a), Some(b)) => Ok((a, b)),
                _ => Err(ErrorView::ValueTypeMismatch),
            },
        )
    }
}

/// The operands after two are read as 64-bit integers, and the integers: the
/// second is the one on top.
pub open spec fn read_i64_pair(operands: Seq<Value>) -> (
    Seq<Value>,
    Result<(i64, i64), ErrorView>,
) {
    let n = operands.len();
    if n < 2 {
        (Seq::empty(), Err(ErrorView::OperandStackUnderflow))
    } else {
        (
            operands.take(n - 2),
            match (operands[n - 2].as_i64(), operands[n - 1].as_i64()) {
                (Some(a), Some(b)) => Ok((a, b)),
                _ => Err(ErrorView::ValueTypeMismatch),
            },
        )
    }
}

pub open spec fn unary_i32(operands: Seq<Value>, f: spec_fn(i32) -> Value) -> (
    Seq<Value>,
    Result<(), ErrorView>,
) {
    let (rest, operand) = read_i32(operands);
    match operand {
        Ok(v) => (rest.push(f(v)), Ok(())),
        Err(error) => (rest, Err(error)),
    }
}

pub open spec fn unary_i64(operands: Seq<Value>, f: spec_fn(i64) -> Value) -> (
    Seq<Value>,
    Result<(), ErrorView>,
) {
    let (rest, operand) = read_i64(operands);
    match operand {
        Ok(v) => (rest.push(f(v)), Ok(())),
        Err(error) => (rest, Err(error)),
    }
}

pub open spec fn binary_i32(operands: Seq<Value>, f: spec_fn(i32, i32) -> Value) -> (
    Seq<Value>,
    Result<(), ErrorView>,
) {
    let (rest, pair) = read_i32_pair(operands);
    match pair {
        Ok((a, b)) => (rest.push(f(a, b)), Ok(())),
        Err(error) => (rest, Err(error)),
    }
}

pub open spec fn binary_i64(operands: Seq<Value>, f: spec_fn(i64, i64) -> Value) -> (
    Seq<Value>,
    Result<(), ErrorView>,
) {
    let (rest, pair) = read_i64_pair(operands);
    match pair {
        Ok((a, b)) => (rest.push(f(a, b)), Ok(())),
        Err(error) => (rest, Err(error)),
    }
}

// Instructions that stay within a function.

/// What a 32-bit numeric instruction does to the operand stack; `None` for every
/// other instruction.
pub open spec fn numeric_i32(op: Opcode, operands: Seq<Value>) -> Option<
    (Seq<Value>, Result<(), ErrorView>),
> {
    match op {
        Opcode::I32Const(v) => Some((operands.push(Value::I32(v)), Ok(()))),
        Opcode::I32Clz => Some(unary_i32(operands, |v: i32| Value::I32(spec_i32_clz(v)))),
        Opcode::I32Ctz => Some(unary_i32(operands, |v: i32| Value::I32(spec_i32_ctz(v)))),
        Opcode::I32Popcnt => Some(unary_i32(operands, |v: i32| Value::I32(spec_i32_popcnt(v)))),
        Opcode::I32Add => Some(
            binary_i32(operands, |a: i32, b: i32| Value::I32(spec_i32_add(a, b))),
        ),
        Opcode::I32Sub => Some(
            binary_i32(operands, |a: i32, b: i32| Value::I32(spec_i32_sub(a, b))),
        ),
        Opcode::I32Mul => Some(
            binary_i32(operands, |a: i32, b: i32| Value::I32(spec_i32_mul(a, b))),
        ),
        Opcode::I32DivU => Some(
            binary_i32(operands, |a: i32, b: i32| Value::I32(spec_i32_div_u(a, b))),
        ),
        Opcode::I32DivS => Some(
            binary_i32(operands, |a: i32, b: i32| Value::I32(spec_i32_div_s(a, b))),
        ),
        Opcode::I32RemU => Some(
            binary_i32(operands, |a: i32, b: i32| Value::I32(spec_i32_rem_u(a, b))),
        ),
        Opcode::I32RemS => Some(
            binary_i32(operands, |a: i32, b: i32| Value::I32(spec_i32_rem_s(a, b))),
        ),
        Opcode::I32And => Some(
            binary_i32(operands, |a: i32, b: i32| Value::I32(a & b)),
        ),
        Opcode::I32Or => Some(
            binary_i32(operands, |a: i32, b: i32| Value::I32(a | b)),
        ),
        Opcode::I32Xor => Some(
            binary_i32(operands, |a: i32, b: i32| Value::I32(a ^ b)),
        ),
        Opcode::I32Shl => Some(
            binary_i32(operands, |a: i32, b: i32| Value::I32(spec_i32_shl(a, b))),
        ),
        Opcode::I32ShrU => Some(
            binary_i32(operands, |a: i32, b: i32| Value::I32(spec_i32_shr_u(a, b))),
        ),
        Opcode::I32ShrS => Some(
            binary_i32(operands, |a: i32, b: i32| Value::I32(spec_i32_shr_s(a, b))),
        ),
        Opcode::I32Rotl => Some(
            binary_i32(operands, |a: i32, b: i32| Value::I32(spec_i32_rotl(a, b))),
        ),
        Opcode::I32Rotr => Some(
            binary_i32(operands, |a: i32, b: i32| Value::I32(spec_i32_rotr(a, b))),
        ),
        Opcode::I32Eqz => Some(unary_i32(operands, |v: i32| truth(v == 0))),
        Opcode::I32Eq => Some(
            binary_i32(operands, |a: i32, b: i32| truth(a == b)),
        ),
        Opcode::I32Ne => Some(
            binary_i32(operands, |a: i32, b: i32| truth(a != b)),
        ),
        Opcode::I32LtU => Some(
            binary_i32(operands, |a: i32, b: i32| truth(unsigned_32(a) < unsigned_32(b))),
        ),
        Opcode::I32LtS => Some(
            binary_i32(operands, |a: i32, b: i32| truth(a < b)),
        ),
        Opcode::I32LeU => Some(
            binary_i32(operands, |a: i32, b: i32| truth(unsigned_32(a) <= unsigned_32(b))),
        ),
        Opcode::I32LeS => Some(
            binary_i32(operands, |a: i32, b: i32| truth(a <= b)),
        ),
        Opcode::I32GtU => Some(
            binary_i32(operands, |a: i32, b: i32| truth(unsigned_32(a) > unsigned_32(b))),
        ),
        Opcode::I32GtS => Some(
            binary_i32(operands, |a: i32, b: i32| truth(a > b)),
        ),
        Opcode::I32GeU => Some(
            binary_i32(operands, |a: i32, b: i32| truth(unsigned_32(a) >= unsigned_32(b))),
        ),
        Opcode::I32GeS => Some(
            binary_i32(operands, |a: i32, b: i32| truth(a >= b)),
        ),
        Opcode::I32WrapI64 => Some(
            unary_i64(operands, |v: i64| Value::I32(signed_32(v as int))),
        ),
        _ => None,
    }
}

/// What a 64-bit numeric instruction does to the operand stack; `None` for every
/// other instruction.
pub open spec fn numeric_i64(op: Opcode, operands: Seq<Value>) -> Option<
    (Seq<Value>, Result<(), ErrorView>),
> {
    match op {
        Opcode::I64Const(v) => Some((operands.push(Value::I64(v)), Ok(()))),
        Opcode::I64Clz => Some(unary_i64(operands, |v: i64| Value::I64(spec_i64_clz(v)))),
        Opcode::I64Ctz => Some(unary_i64(operands, |v: i64| Value::I64(spec_i64_ctz(v)))),
        Opcode::I64Popcnt => Some(unary_i64(operands, |v: i64| Value::I64(spec_i64_popcnt(v)))),
        Opcode::I64Add => Some(
            binary_i64(operands, |a: i64, b: i64| Value::I64(spec_i64_add(a, b))),
        ),
        Opcode::I64Sub => Some(
            binary_i64(operands, |a: i64, b: i64| Value::I64(spec_i64_sub(a, b))),
        ),
        Opcode::I64Mul => Some(
            binary_i64(operands, |a: i64, b: i64| Value::I64(spec_i64_mul(a, b))),
        ),
        Opcode::I64DivU => Some(
            binary_i64(operands, |a: i64, b: i64| Value::I64(spec_i64_div_u(a, b))),
        ),
        Opcode::I64DivS => Some(
            binary_i64(operands, |a: i64, b: i64| Value::I64(spec_i64_div_s(a, b))),
        ),
        Opcode::I64RemU => Some(
            binary_i64(operands, |a: i64, b: i64| Value::I64(spec_i64_rem_u(a, b))),
        ),
        Opcode::I64RemS => Some(
            binary_i64(operands, |a: i64, b: i64| Value::I64(spec_i64_rem_s(a, b))),
        ),
        Opcode::I64And => Some(
            binary_i64(operands, |a: i64, b: i64| Value::I64(a & b)),
        ),
        Opcode::I64Or => Some(
            binary_i64(operands, |a: i64, b: i64| Value::I64(a | b)),
        ),
        Opcode::I64Xor => Some(
            binary_i64(operands, |a: i64, b: i64| Value::I64(a ^ b)),
        ),
        Opcode::I64Shl => Some(
            binary_i64(operands, |a: i64, b: i64| Value::I64(spec_i64_shl(a, b))),
        ),
        Opcode::I64ShrU => Some(
            binary_i64(operands, |a: i64, b: i64| Value::I64(spec_i64_shr_u(a, b))),
        ),
        Opcode::I64ShrS => Some(
            binary_i64(operands, |a: i64, b: i64| Value::I64(spec_i64_shr_s(a, b))),
        ),
        Opcode::I64Rotl => Some(
            binary_i64(operands, |a: i64, b: i64| Value::I64(spec_i64_rotl(a, b))),
        ),
        Opcode::I64Rotr => Some(
            binary_i64(operands, |a: i64, b: i64| Value::I64(spec_i64_rotr(a, b))),
        ),
        Opcode::I64Eqz => Some(unary_i64(operands, |v: i64| truth(v == 0))),
        Opcode::I64Eq => Some(
            binary_i64(operands, |a: i64, b: i64| truth(a == b)),
        ),
        Opcode::I64Ne => Some(
            binary_i64(operands, |a: i64, b: i64| truth(a != b)),
        ),
        Opcode::I64LtU => Some(
            binary_i64(operands, |a: i64, b: i64| truth(unsigned_64(a) < unsigned_64(b))),
        ),
        Opcode::I64LtS => Some(
            binary_i64(operands, |a: i64, b: i64| truth(a < b)),
        ),
        Opcode::I64LeU => Some(
            binary_i64(operands, |a: i64, b: i64| truth(unsigned_64(a) <= unsigned_64(b))),
        ),
        Opcode::I64LeS => Some(
            binary_i64(operands, |a: i64, b: i64| truth(a <= b)),
        ),
        Opcode::I64GtU => Some(
            binary_i64(operands, |a: i64, b: i64| truth(unsigned_64(a) > unsigned_64(b))),
        ),
        Opcode::I64GtS => Some(
            binary_i64(operands, |a: i64, b: i64| truth(a > b)),
        ),
        Opcode::I64GeU => Some(
            binary_i64(operands, |a: i64, b: i64| truth(unsigned_64(a) >= unsigned_64(b))),
        ),
        Opcode::I64GeS => Some(
            binary_i64(operands, |a: i64, b: i64| truth(a >= b)),
        ),
        Opcode::I64ExtendI32U => Some(
            unary_i32(operands, |v: i32| Value::I64(unsigned_32(v) as i64)),
        ),
        Opcode::I64ExtendI32S => Some(unary_i32(operands, |v: i32| Value::I64(v as i64))),
        _ => None,
    }
}

/// What a load finds on the operand stack and in memory, and what it leaves.
pub open spec fn load(
    operands: Seq<Value>,
    result: spec_fn(u32) -> Result<Value, ErrorView>,
) -> (Seq<Value>, Result<(), ErrorView>) {
    let (rest, index) = read_i32(operands);
    match index {
        Err(error) => (rest, Err(error)),
        Ok(index) => match result(unsigned_32(index) as u32) {
            Ok(value) => (rest.push(value), Ok(())),
            Err(error) => (rest, Err(error)),
        },
    }
}

/// What a load instruction does to the operand stack; `None` for every other
/// instruction.
pub open spec fn loading(op: Opcode, operands: Seq<Value>, memory: Seq<u8>) -> Option<
    (Seq<Value>, Result<(), ErrorView>),
> {
    match op {
        Opcode::I32Load(m) => Some(
            load(operands, |index: u32| i32_loaded(loaded_u(memory, index, m, 4))),
        ),
        Opcode::I32Load8U(m) => Some(
            load(operands, |index: u32| i32_loaded(loaded_u(memory, index, m, 1))),
        ),
        Opcode::I32Load8S(m) => Some(
            load(operands, |index: u32| i32_loaded(loaded_s(memory, index, m, 1))),
        ),
        Opcode::I32Load16U(m) => Some(
            load(operands, |index: u32| i32_loaded(loaded_u(memory, index, m, 2))),
        ),
        Opcode::I32Load16S(m) => Some(
            load(operands, |index: u32| i32_loaded(loaded_s(memory, index, m, 2))),
        ),
        Opcode::I64Load(m) => Some(
            load(operands, |index: u32| i64_loaded(loaded_u(memory, index, m, 8))),
        ),
        Opcode::I64Load8U(m) => Some(
            load(operands, |index: u32| i64_loaded(loaded_u(memory, index, m, 1))),
        ),
        Opcode::I64Load8S(m) => Some(
            load(operands, |index: u32| i64_loaded(loaded_s(memory, index, m, 1))),
        ),
        Opcode::I64Load16U(m) => Some(
            load(operands, |index: u32| i64_loaded(loaded_u(memory, index, m, 2))),
        ),
        Opcode::I64Load16S(m) => Some(
            load(operands, |index: u32| i64_loaded(loaded_s(memory, index, m, 2))),
        ),
        Opcode::I64Load32U(m) => Some(
            load(operands, |index: u32| i64_loaded(loaded_u(memory, index, m, 4))),
        ),
        Opcode::I64Load32S(m) => Some(
            load(operands, |index: u32| i64_loaded(loaded_s(memory, index, m, 4))),
        ),
        _ => None,
    }
}

/// What a store finds on the operand stack, and the memory that it leaves.
pub open spec fn store(
    operands: Seq<Value>,
    result: spec_fn(u32, Value) -> Result<Seq<u8>, ErrorView>,
) -> (Seq<Value>, Result<Seq<u8>, ErrorView>) {
    if operands.len() < 2 {
        (Seq::empty(), Err(ErrorView::OperandStackUnderflow))
    } else {
        let (rest, index) = read_i32(operands.drop_last());
        match index {
            Ok(index) => (rest, result(unsigned_32(index) as u32, operands.last())),
            Err(error) => (rest, Err(error)),
        }
    }
}

/// What a store instruction does to the operand stack and to memory; `None` for
/// every other instruction.
pub open spec fn storing(op: Opcode, operands: Seq<Value>, memory: Seq<u8>) -> Option<
    (Seq<Value>, Result<Seq<u8>, ErrorView>),
> {
    match op {
        Opcode::I32Store(m) => Some(
            store(operands, |index: u32, v: Value| i32_stored(memory, index, v, m, 4)),
        ),
        Opcode::I32Store8(m) => Some(
            store(operands, |index: u32, v: Value| i32_stored(memory, index, v, m, 1)),
        ),
        Opcode::I32Store16(m) => Some(
            store(operands, |index: u32, v: Value| i32_stored(memory, index, v, m, 2)),
        ),
        Opcode::I64Store(m) => Some(
            store(operands, |index: u32, v: Value| i64_stored(memory, index, v, m, 8)),
        ),
        Opcode::I64Store8(m) => Some(
            store(operands, |index: u32, v: Value| i64_stored(memory, index, v, m, 1)),
        ),
        Opcode::I64Store16(m) => Some(
            store(operands, |index: u32, v: Value| i64_stored(memory, index, v, m, 2)),
        ),
        Opcode::I64Store32(m) => Some(
            store(operands, |index: u32, v: Value| i64_stored(memory, index, v, m, 4)),
        ),
        _ => None,
    }
}

/// Memory after `n` bytes are copied one by one, the lowest first.
pub open spec fn copied(memory: Seq<u8>, dest: int, src: int, n: nat) -> Seq<u8>
    decreases n,
{
    if n == 0 {
        memory
    } else {
        let before = copied(memory, dest, src, (n - 1) as nat);
        before.update(dest + n - 1, before[src + n - 1])
    }
}

/// The operands of a copy, from the top down: length, source, destination.
pub open spec fn read_copy(operands: Seq<Value>) -> (
    Seq<Value>,
    Result<(i32, i32, i32), ErrorView>,
) {
    let (rest, n_bytes) = read_i32(operands);
    match n_bytes {
        Err(error) => (rest, Err(error)),
        Ok(n_bytes) => {
            let (rest, src) = read_i32(rest);
            match src {
                Err(error) => (rest, Err(error)),
                Ok(src) => {
                    let (rest, dest) = read_i32(rest);
                    match dest {
                        Err(error) => (rest, Err(error)),
                        Ok(dest) => (rest, Ok((n_bytes, src, dest))),
                    }
                },
            }
        },
    }
}

/// Memory after a copy, or why it is refused: both regions have to end before
/// the last byte of memory.
pub open spec fn copy(memory: Seq<u8>, n_bytes: i32, src: i32, dest: i32) -> Result<
    Seq<u8>,
    ErrorView,
> {
    let n = index_of(n_bytes);
    if index_of(dest) + n >= memory.len() {
        Err(ErrorView::AddrOutOfBound(unsigned_32(dest) as u32, unsigned_32(n_bytes) as u32))
    } else if index_of(src) + n >= memory.len() {
        Err(ErrorView::AddrOutOfBound(unsigned_32(src) as u32, unsigned_32(n_bytes) as u32))
    } else {
        Ok(copied(memory, index_of(dest) as int, index_of(src) as int, n))
    }
}

/// Whether an instruction has no result at all on its operands: a division
/// without a quotient.
pub open spec fn undefined_operation(op: Opcode, operands: Seq<Value>) -> bool {
    match op {
        Opcode::I32DivU | Opcode::I32RemU | Opcode::I32RemS => {
            read_i32_pair(operands).1 matches Ok((a, b)) && b == 0
        },
        Opcode::I32DivS => read_i32_pair(operands).1 matches Ok((a, b)) && !divisible_32(a, b),
        Opcode::I64DivU | Opcode::I64RemU | Opcode::I64RemS => {
            read_i64_pair(operands).1 matches Ok((a, b)) && b == 0
        },
        Opcode::I64DivS => read_i64_pair(operands).1 matches Ok((a, b)) && !divisible_64(a, b),
        _ => false,
    }
}

/// Whether a copy has a region whose end is not a number of this machine.
pub open spec fn copy_overflows(op: Opcode, operands: Seq<Value>, memory: Seq<u8>) -> bool {
    op is Memcpy && (read_copy(operands).1 matches Ok((n_bytes, src, dest)) && {
        let n = index_of(n_bytes);
        ||| index_of(dest) + n > usize::MAX
        ||| index_of(dest) + n < memory.len() && index_of(src) + n > usize::MAX
    })
}

/// What an instruction that stays within its function can see and change.
#[verifier::ext_equal]
pub struct Scope {
    pub frame: FrameState,
    pub memory: MemoryState,
    pub globals: Seq<Value>,
}

/// Where a function goes on: behind the instruction, or at a target.
#[derive(Copy, Clone, Debug, PartialEq, Eq, Structural)]
pub enum Flow {
    Next,
    Jump(u32),
}

impl Scope {
    pub open spec fn with_operands(self, operands: Seq<Value>) -> Scope {
        Scope { frame: self.frame.with_operands(operands), ..self }
    }

    /// The effect of an instruction that leaves these operands and then goes on
    /// or fails.
    pub open spec fn leaving(self, operands: Seq<Value>, result: Result<(), ErrorView>) -> (
        Scope,
        Result<Flow, ErrorView>,
    ) {
        (
            self.with_operands(operands),
            match result {
                Ok(_) => Ok(Flow::Next),
                Err(error) => Err(error),
            },
        )
    }

    /// The effect of a jump that reads an integer first.
    pub open spec fn jumping(self, target: spec_fn(i32) -> Flow) -> (
        Scope,
        Result<Flow, ErrorView>,
    ) {
        let (rest, condition) = read_i32(self.frame.operands);
        (
            self.with_operands(rest),
            match condition {
                Ok(v) => Ok(target(v)),
                Err(error) => Err(error),
            },
        )
    }
}

/// What `Select` leaves: the lower of two values if the condition above them is
/// not zero, and the upper one if it is.
pub open spec fn select(operands: Seq<Value>) -> (Seq<Value>, Result<(), ErrorView>) {
    let (rest, condition) = read_i32(operands);
    match condition {
        Err(error) => (rest, Err(error)),
        Ok(c) => if rest.len() < 2 {
            (Seq::empty(), Err(ErrorView::OperandStackUnderflow))
        } else {
            let upper = rest[rest.len() - 1];
            let lower = rest[rest.len() - 2];
            (
                rest.take(rest.len() - 2).push(
                    if c != 0 {
                        lower
                    } else {
                        upper
                    },
                ),
                Ok(()),
            )
        },
    }
}

/// The effect of an instruction that stays within its function.
pub open spec fn local_effect(op: Opcode, s: Scope) -> (Scope, Result<Flow, ErrorView>) {
    let operands = s.frame.operands;
    match op {
        Opcode::Drop => {
            let (rest, operand) = read_value(operands);
            s.leaving(
                rest,
                match operand {
                    Ok(_) => Ok(()),
                    Err(error) => Err(error),
                },
            )
        },
        Opcode::Select => {
            let (rest, result) = select(operands);
            s.leaving(rest, result)
        },
        Opcode::CurrentMemory => s.leaving(
            operands.push(page_count(s.memory.bytes.len())),
            Ok(()),
        ),
        Opcode::GrowMemory => {
            let (rest, n_pages) = read_i32(operands);
            match n_pages {
                Err(error) => s.leaving(rest, Err(error)),
                Ok(n_pages) => {
                    let (memory, answer) = s.memory.grown(n_pages);
                    (
                        Scope { memory, ..s.with_operands(rest.push(answer)) },
                        Ok(Flow::Next),
                    )
                },
            }
        },
        Opcode::Nop => (s, Ok(Flow::Next)),
        Opcode::Jmp(target) => (s, Ok(Flow::Jump(target))),
        Opcode::JmpIf(target) => s.jumping(
            |v: i32|
                if v != 0 {
                    Flow::Jump(target)
                } else {
                    Flow::Next
                },
        ),
        Opcode::JmpEither(if_true, if_false) => s.jumping(
            |v: i32|
                if v != 0 {
                    Flow::Jump(if_true)
                } else {
                    Flow::Jump(if_false)
                },
        ),
        Opcode::JmpTable(table, otherwise) => s.jumping(
            |v: i32|
                if index_of(v) < table@.len() {
                    Flow::Jump(table@[index_of(v) as int])
                } else {
                    Flow::Jump(otherwise)
                },
        ),
        Opcode::SetLocal(idx) => {
            let (rest, operand) = read_value(operands);
            match operand {
                Err(error) => s.leaving(rest, Err(error)),
                Ok(value) => (
                    Scope { frame: s.frame.with_operands(rest).with_local(idx, value), ..s },
                    match s.frame.local(idx) {
                        Ok(_) => Ok(Flow::Next),
                        Err(error) => Err(error),
                    },
                ),
            }
        },
        Opcode::GetLocal(idx) => match s.frame.local(idx) {
            Ok(value) => s.leaving(operands.push(value), Ok(())),
            Err(error) => (s, Err(error)),
        },
        Opcode::TeeLocal(idx) => match s.frame.top() {
            Err(error) => (s, Err(error)),
            Ok(value) => (
                Scope { frame: s.frame.with_local(idx, value), ..s },
                match s.frame.local(idx) {
                    Ok(_) => Ok(Flow::Next),
                    Err(error) => Err(error),
                },
            ),
        },
        Opcode::GetGlobal(idx) => if idx < s.globals.len() {
            s.leaving(operands.push(s.globals[idx as int]), Ok(()))
        } else {
            (s, Err(ErrorView::GlobalIndexOutOfBound))
        },
        Opcode::SetGlobal(idx) => if idx < s.globals.len() {
            let (rest, operand) = read_value(operands);
            match operand {
                Err(error) => s.leaving(rest, Err(error)),
                Ok(value) => (
                    Scope {
                        globals: s.globals.update(idx as int, value),
                        ..s.with_operands(rest)
                    },
                    Ok(Flow::Next),
                ),
            }
        } else {
            (s, Err(ErrorView::GlobalIndexOutOfBound))
        },
        Opcode::Unreachable => (s, Err(ErrorView::UnreachableExecuted)),
        Opcode::Memcpy => {
            let (rest, region) = read_copy(operands);
            match region {
                Err(error) => s.leaving(rest, Err(error)),
                Ok((n_bytes, src, dest)) => match copy(s.memory.bytes, n_bytes, src, dest) {
                    Err(error) => s.leaving(rest, Err(error)),
                    Ok(bytes) => (
                        Scope {
                            memory: MemoryState { bytes, max_size: s.memory.max_size },
                            ..s.with_operands(rest)
                        },
                        Ok(Flow::Next),
                    ),
                },
            }
        },
        Opcode::NotImplemented(what) => (
            s,
            Err(ErrorView::Custom("Not implemented: "@ + what@)),
        ),
        Opcode::F32Const(bits) => s.leaving(operands.push(Value::F32(bits)), Ok(())),
        Opcode::F64Const(bits) => s.leaving(operands.push(Value::F64(bits)), Ok(())),
        _ => computation(op, s),
    }
}

/// The effect of a numeric instruction, a load or a store.
pub open spec fn computation(op: Opcode, s: Scope) -> (Scope, Result<Flow, ErrorView>) {
    let operands = s.frame.operands;
    match (
        numeric_i32(op, operands),
        numeric_i64(op, operands),
        loading(op, operands, s.memory.bytes),
        storing(op, operands, s.memory.bytes),
    ) {
        (Some((rest, result)), _, _, _) => s.leaving(rest, result),
        (None, Some((rest, result)), _, _) => s.leaving(rest, result),
        (None, None, Some((rest, result)), _) => s.leaving(rest, result),
        (None, None, None, Some((rest, result))) => match result {
            Ok(bytes) => (
                Scope {
                    memory: MemoryState { bytes, max_size: s.memory.max_size },
                    ..s.with_operands(rest)
                },
                Ok(Flow::Next),
            ),
            Err(error) => s.leaving(rest, Err(error)),
        },
        (None, None, None, None) => (s, Ok(Flow::Next)),
    }
}

} // verus!
