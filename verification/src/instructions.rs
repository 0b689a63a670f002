//! The instructions that stay within a function.
use vstd::prelude::*;
use vstd::string::*;

use crate::error::{outcome, ErrorView, ExecuteError, ExecuteResult};
use crate::frame::Frame;
use crate::int_ops;
use crate::int_ops::to_unsigned_32;
use crate::memory::{Memory, MemoryState};
use crate::native::{index_of, to_index};
use crate::opcode::Opcode;
use crate::runtime::{RuntimeInfo, RuntimeState};
use crate::semantics::{
    computation, copied, copy, copy_overflows, loading, local_effect, numeric_i32, numeric_i64,
    read_copy, read_i32, read_i32_pair, read_i64, read_i64_pair, select, storing,
    undefined_operation, Flow, Scope,
};
use crate::value::Value;

verus! {

/// Pops a 32-bit integer.
pub(crate) fn pop_i32(frame: &mut Frame) -> (result: ExecuteResult<i32>)
    ensures
        outcome(result) == read_i32(old(frame)@.operands).1,
        final(frame)@ == old(frame)@.with_operands(read_i32(old(frame)@.operands).0),
{
    let operand: Value = frame.pop_operand()?;
    operand.get_i32()
}

/// Pops a 64-bit integer.
fn pop_i64(frame: &mut Frame) -> (result: ExecuteResult<i64>)
    ensures
        outcome(result) == read_i64(old(frame)@.operands).1,
        final(frame)@ == old(frame)@.with_operands(read_i64(old(frame)@.operands).0),
{
    let operand: Value = frame.pop_operand()?;
    operand.get_i64()
}

/// Pops two operands; the second of the result is the one that was on top.
fn pop_pair(frame: &mut Frame) -> (result: ExecuteResult<(Value, Value)>)
    ensures
        ({
            let operands = old(frame)@.operands;
            let n = operands.len();
            if n < 2 {
                &&& outcome(result) == Err::<(Value, Value), ErrorView>(
                    ErrorView::OperandStackUnderflow,
                )
                &&& final(frame)@ == old(frame)@.with_operands(Seq::empty())
            } else {
                &&& outcome(result) == Ok::<(Value, Value), ErrorView>(
                    (operands[n - 2], operands[n - 1]),
                )
                &&& final(frame)@ == old(frame)@.with_operands(operands.take(n - 2))
            }
        }),
{
    let c2: Value = frame.pop_operand()?;
    let c1: Value = frame.pop_operand()?;
    Ok((c1, c2))
}

/// Pops two 32-bit integers; the second of the result was on top.
fn pop_i32_pair(frame: &mut Frame) -> (result: ExecuteResult<(i32, i32)>)
    ensures
        outcome(result) == read_i32_pair(old(frame)@.operands).1,
        final(frame)@ == old(frame)@.with_operands(read_i32_pair(old(frame)@.operands).0),
{
    let (c1, c2): (Value, Value) = pop_pair(frame)?;
    let a: i32 = c1.get_i32()?;
    let b: i32 = c2.get_i32()?;
    Ok((a, b))
}

/// Pops two 64-bit integers; the second of the result was on top.
fn pop_i64_pair(frame: &mut Frame) -> (result: ExecuteResult<(i64, i64)>)
    ensures
        outcome(result) == read_i64_pair(old(frame)@.operands).1,
        final(frame)@ == old(frame)@.with_operands(read_i64_pair(old(frame)@.operands).0),
{
    let (c1, c2): (Value, Value) = pop_pair(frame)?;
    let a: i64 = c1.get_i64()?;
    let b: i64 = c2.get_i64()?;
    Ok((a, b))
}

/// Pushes the result of an instruction.
fn push_result(frame: &mut Frame, value: Value) -> (result: ExecuteResult<()>)
    ensures
        result is Ok,
        final(frame)@ == old(frame)@.pushed(value),
{
    frame.push_operand(value);
    Ok(())
}

/// Carries out a 32-bit numeric instruction; `None` for every other instruction.
pub(crate) fn run_numeric_i32(op: &Opcode, frame: &mut Frame) -> (done: Option<ExecuteResult<()>>)
    requires
        !undefined_operation(*op, old(frame)@.operands),
    ensures
        match numeric_i32(*op, old(frame)@.operands) {
            Some((operands, result)) => {
                &&& done matches Some(r) && outcome(r) == result
                &&& final(frame)@ == old(frame)@.with_operands(operands)
            },
            None => done is None && final(frame)@ == old(frame)@,
        },
{
    Some(
        match op {
            Opcode::I32Const(v) => {
                frame.push_operand(Value::I32(*v));
                Ok(())
            },
            Opcode::I32Clz => match pop_i32(frame) {
                Ok(v) => push_result(frame, int_ops::i32_clz(v)),
                Err(error) => Err(error),
            },
            Opcode::I32Ctz => match pop_i32(frame) {
                Ok(v) => push_result(frame, int_ops::i32_ctz(v)),
                Err(error) => Err(error),
            },
            Opcode::I32Popcnt => match pop_i32(frame) {
                Ok(v) => push_result(frame, int_ops::i32_popcnt(v)),
                Err(error) => Err(error),
            },
            Opcode::I32Add => match pop_i32_pair(frame) {
                Ok((a, b)) => push_result(frame, int_ops::i32_add(a, b)),
                Err(error) => Err(error),
            },
            Opcode::I32Sub => match pop_i32_pair(frame) {
                Ok((a, b)) => push_result(frame, int_ops::i32_sub(a, b)),
                Err(error) => Err(error),
            },
            Opcode::I32Mul => match pop_i32_pair(frame) {
                Ok((a, b)) => push_result(frame, int_ops::i32_mul(a, b)),
                Err(error) => Err(error),
            },
            Opcode::I32DivU => match pop_i32_pair(frame) {
                Ok((a, b)) => push_result(frame, int_ops::i32_div_u(a, b)),
                Err(error) => Err(error),
            },
            Opcode::I32DivS => match pop_i32_pair(frame) {
                Ok((a, b)) => push_result(frame, int_ops::i32_div_s(a, b)),
                Err(error) => Err(error),
            },
            Opcode::I32RemU => match pop_i32_pair(frame) {
                Ok((a, b)) => push_result(frame, int_ops::i32_rem_u(a, b)),
                Err(error) => Err(error),
            },
            Opcode::I32RemS => match pop_i32_pair(frame) {
                Ok((a, b)) => push_result(frame, int_ops::i32_rem_s(a, b)),
                Err(error) => Err(error),
            },
            Opcode::I32And => match pop_i32_pair(frame) {
                Ok((a, b)) => push_result(frame, int_ops::i32_and(a, b)),
                Err(error) => Err(error),
            },
            Opcode::I32Or => match pop_i32_pair(frame) {
                Ok((a, b)) => push_result(frame, int_ops::i32_or(a, b)),
                Err(error) => Err(error),
            },
            Opcode::I32Xor => match pop_i32_pair(frame) {
                Ok((a, b)) => push_result(frame, int_ops::i32_xor(a, b)),
                Err(error) => Err(error),
            },
            Opcode::I32Shl => match pop_i32_pair(frame) {
                Ok((a, b)) => push_result(frame, int_ops::i32_shl(a, b)),
                Err(error) => Err(error),
            },
            Opcode::I32ShrU => match pop_i32_pair(frame) {
                Ok((a, b)) => push_result(frame, int_ops::i32_shr_u(a, b)),
                Err(error) => Err(error),
            },
            Opcode::I32ShrS => match pop_i32_pair(frame) {
                Ok((a, b)) => push_result(frame, int_ops::i32_shr_s(a, b)),
                Err(error) => Err(error),
            },
            Opcode::I32Rotl => match pop_i32_pair(frame) {
                Ok((a, b)) => push_result(frame, int_ops::i32_rotl(a, b)),
                Err(error) => Err(error),
            },
            Opcode::I32Rotr => match pop_i32_pair(frame) {
                Ok((a, b)) => push_result(frame, int_ops::i32_rotr(a, b)),
                Err(error) => Err(error),
            },
            Opcode::I32Eqz => match pop_i32(frame) {
                Ok(v) => push_result(frame, int_ops::i32_eqz(v)),
                Err(error) => Err(error),
            },
            Opcode::I32Eq => match pop_i32_pair(frame) {
                Ok((a, b)) => push_result(frame, int_ops::i32_eq(a, b)),
                Err(error) => Err(error),
            },
            Opcode::I32Ne => match pop_i32_pair(frame) {
                Ok((a, b)) => push_result(frame, int_ops::i32_ne(a, b)),
                Err(error) => Err(error),
            },
            Opcode::I32LtU => match pop_i32_pair(frame) {
                Ok((a, b)) => push_result(frame, int_ops::i32_lt_u(a, b)),
                Err(error) => Err(error),
            },
            Opcode::I32LtS => match pop_i32_pair(frame) {
                Ok((a, b)) => push_result(frame, int_ops::i32_lt_s(a, b)),
                Err(error) => Err(error),
            },
            Opcode::I32LeU => match pop_i32_pair(frame) {
                Ok((a, b)) => push_result(frame, int_ops::i32_le_u(a, b)),
                Err(error) => Err(error),
            },
            Opcode::I32LeS => match pop_i32_pair(frame) {
                Ok((a, b)) => push_result(frame, int_ops::i32_le_s(a, b)),
                Err(error) => Err(error),
            },
            Opcode::I32GtU => match pop_i32_pair(frame) {
                Ok((a, b)) => push_result(frame, int_ops::i32_gt_u(a, b)),
                Err(error) => Err(error),
            },
            Opcode::I32GtS => match pop_i32_pair(frame) {
                Ok((a, b)) => push_result(frame, int_ops::i32_gt_s(a, b)),
                Err(error) => Err(error),
            },
            Opcode::I32GeU => match pop_i32_pair(frame) {
                Ok((a, b)) => push_result(frame, int_ops::i32_ge_u(a, b)),
                Err(error) => Err(error),
            },
            Opcode::I32GeS => match pop_i32_pair(frame) {
                Ok((a, b)) => push_result(frame, int_ops::i32_ge_s(a, b)),
                Err(error) => Err(error),
            },
            Opcode::I32WrapI64 => match pop_i64(frame) {
                Ok(v) => push_result(frame, int_ops::i32_wrap_i64(v)),
                Err(error) => Err(error),
            },
            _ => return None,
        },
    )
}

/// Carries out a 64-bit numeric instruction; `None` for every other instruction.
pub(crate) fn run_numeric_i64(op: &Opcode, frame: &mut Frame) -> (done: Option<ExecuteResult<()>>)
    requires
        !undefined_operation(*op, old(frame)@.operands),
    ensures
        match numeric_i64(*op, old(frame)@.operands) {
            Some((operands, result)) => {
                &&& done matches Some(r) && outcome(r) == result
                &&& final(frame)@ == old(frame)@.with_operands(operands)
            },
            None => done is None && final(frame)@ == old(frame)@,
        },
{
    Some(
        match op {
            Opcode::I64Const(v) => {
                frame.push_operand(Value::I64(*v));
                Ok(())
            },
            Opcode::I64Clz => match pop_i64(frame) {
                Ok(v) => push_result(frame, int_ops::i64_clz(v)),
                Err(error) => Err(error),
            },
            Opcode::I64Ctz => match pop_i64(frame) {
                Ok(v) => push_result(frame, int_ops::i64_ctz(v)),
                Err(error) => Err(error),
            },
            Opcode::I64Popcnt => match pop_i64(frame) {
                Ok(v) => push_result(frame, int_ops::i64_popcnt(v)),
                Err(error) => Err(error),
            },
            Opcode::I64Add => match pop_i64_pair(frame) {
                Ok((a, b)) => push_result(frame, int_ops::i64_add(a, b)),
                Err(error) => Err(error),
            },
            Opcode::I64Sub => match pop_i64_pair(frame) {
                Ok((a, b)) => push_result(frame, int_ops::i64_sub(a, b)),
                Err(error) => Err(error),
            },
            Opcode::I64Mul => match pop_i64_pair(frame) {
                Ok((a, b)) => push_result(frame, int_ops::i64_mul(a, b)),
                Err(error) => Err(error),
            },
            Opcode::I64DivU => match pop_i64_pair(frame) {
                Ok((a, b)) => push_result(frame, int_ops::i64_div_u(a, b)),
                Err(error) => Err(error),
            },
            Opcode::I64DivS => match pop_i64_pair(frame) {
                Ok((a, b)) => push_result(frame, int_ops::i64_div_s(a, b)),
                Err(error) => Err(error),
            },
            Opcode::I64RemU => match pop_i64_pair(frame) {
                Ok((a, b)) => push_result(frame, int_ops::i64_rem_u(a, b)),
                Err(error) => Err(error),
            },
            Opcode::I64RemS => match pop_i64_pair(frame) {
                Ok((a, b)) => push_result(frame, int_ops::i64_rem_s(a, b)),
                Err(error) => Err(error),
            },
            Opcode::I64And => match pop_i64_pair(frame) {
                Ok((a, b)) => push_result(frame, int_ops::i64_and(a, b)),
                Err(error) => Err(error),
            },
            Opcode::I64Or => match pop_i64_pair(frame) {
                Ok((a, b)) => push_result(frame, int_ops::i64_or(a, b)),
                Err(error) => Err(error),
            },
            Opcode::I64Xor => match pop_i64_pair(frame) {
                Ok((a, b)) => push_result(frame, int_ops::i64_xor(a, b)),
                Err(error) => Err(error),
            },
            Opcode::I64Shl => match pop_i64_pair(frame) {
                Ok((a, b)) => push_result(frame, int_ops::i64_shl(a, b)),
                Err(error) => Err(error),
            },
            Opcode::I64ShrU => match pop_i64_pair(frame) {
                Ok((a, b)) => push_result(frame, int_ops::i64_shr_u(a, b)),
                Err(error) => Err(error),
            },
            Opcode::I64ShrS => match pop_i64_pair(frame) {
                Ok((a, b)) => push_result(frame, int_ops::i64_shr_s(a, b)),
                Err(error) => Err(error),
            },
            Opcode::I64Rotl => match pop_i64_pair(frame) {
                Ok((a, b)) => push_result(frame, int_ops::i64_rotl(a, b)),
                Err(error) => Err(error),
            },
            Opcode::I64Rotr => match pop_i64_pair(frame) {
                Ok((a, b)) => push_result(frame, int_ops::i64_rotr(a, b)),
                Err(error) => Err(error),
            },
            Opcode::I64Eqz => match pop_i64(frame) {
                Ok(v) => push_result(frame, int_ops::i64_eqz(v)),
                Err(error) => Err(error),
            },
            Opcode::I64Eq => match pop_i64_pair(frame) {
                Ok((a, b)) => push_result(frame, int_ops::i64_eq(a, b)),
                Err(error) => Err(error),
            },
            Opcode::I64Ne => match pop_i64_pair(frame) {
                Ok((a, b)) => push_result(frame, int_ops::i64_ne(a, b)),
                Err(error) => Err(error),
            },
            Opcode::I64LtU => match pop_i64_pair(frame) {
                Ok((a, b)) => push_result(frame, int_ops::i64_lt_u(a, b)),
                Err(error) => Err(error),
            },
            Opcode::I64LtS => match pop_i64_pair(frame) {
                Ok((a, b)) => push_result(frame, int_ops::i64_lt_s(a, b)),
                Err(error) => Err(error),
            },
            Opcode::I64LeU => match pop_i64_pair(frame) {
                Ok((a, b)) => push_result(frame, int_ops::i64_le_u(a, b)),
                Err(error) => Err(error),
            },
            Opcode::I64LeS => match pop_i64_pair(frame) {
                Ok((a, b)) => push_result(frame, int_ops::i64_le_s(a, b)),
                Err(error) => Err(error),
            },
            Opcode::I64GtU => match pop_i64_pair(frame) {
                Ok((a, b)) => push_result(frame, int_ops::i64_gt_u(a, b)),
                Err(error) => Err(error),
            },
            Opcode::I64GtS => match pop_i64_pair(frame) {
                Ok((a, b)) => push_result(frame, int_ops::i64_gt_s(a, b)),
                Err(error) => Err(error),
            },
            Opcode::I64GeU => match pop_i64_pair(frame) {
                Ok((a, b)) => push_result(frame, int_ops::i64_ge_u(a, b)),
                Err(error) => Err(error),
            },
            Opcode::I64GeS => match pop_i64_pair(frame) {
                Ok((a, b)) => push_result(frame, int_ops::i64_ge_s(a, b)),
                Err(error) => Err(error),
            },
            Opcode::I64ExtendI32U => match pop_i32(frame) {
                Ok(v) => push_result(frame, int_ops::i64_extend_i32_u(v)),
                Err(error) => Err(error),
            },
            Opcode::I64ExtendI32S => match pop_i32(frame) {
                Ok(v) => push_result(frame, int_ops::i64_extend_i32_s(v)),
                Err(error) => Err(error),
            },
            _ => return None,
        },
    )
}

/// Carries out a load instruction; `None` for every other instruction.
pub(crate) fn run_load(op: &Opcode, frame: &mut Frame, memory: &Memory) -> (done: Option<
    ExecuteResult<()>,
>)
    ensures
        match loading(*op, old(frame)@.operands, memory@.bytes) {
            Some((operands, result)) => {
                &&& done matches Some(r) && outcome(r) == result
                &&& final(frame)@ == old(frame)@.with_operands(operands)
            },
            None => done is None && final(frame)@ == old(frame)@,
        },
{
    match op {
        Opcode::I32Load(_)
        | Opcode::I32Load8U(_)
        | Opcode::I32Load8S(_)
        | Opcode::I32Load16U(_)
        | Opcode::I32Load16S(_)
        | Opcode::I64Load(_)
        | Opcode::I64Load8U(_)
        | Opcode::I64Load8S(_)
        | Opcode::I64Load16U(_)
        | Opcode::I64Load16S(_)
        | Opcode::I64Load32U(_)
        | Opcode::I64Load32S(_) => {},
        _ => return None,
    }
    let index: u32 = match pop_i32(frame) {
        Ok(index) => to_unsigned_32(index),
        Err(error) => return Some(Err(error)),
    };
    let loaded: ExecuteResult<Value> = match op {
        Opcode::I32Load(m) => int_ops::i32_load_u(index, m, memory, 4),
        Opcode::I32Load8U(m) => int_ops::i32_load_u(index, m, memory, 1),
        Opcode::I32Load8S(m) => int_ops::i32_load_s(index, m, memory, 1),
        Opcode::I32Load16U(m) => int_ops::i32_load_u(index, m, memory, 2),
        Opcode::I32Load16S(m) => int_ops::i32_load_s(index, m, memory, 2),
        Opcode::I64Load(m) => int_ops::i64_load_u(index, m, memory, 8),
        Opcode::I64Load8U(m) => int_ops::i64_load_u(index, m, memory, 1),
        Opcode::I64Load8S(m) => int_ops::i64_load_s(index, m, memory, 1),
        Opcode::I64Load16U(m) => int_ops::i64_load_u(index, m, memory, 2),
        Opcode::I64Load16S(m) => int_ops::i64_load_s(index, m, memory, 2),
        Opcode::I64Load32U(m) => int_ops::i64_load_u(index, m, memory, 4),
        Opcode::I64Load32S(m) => int_ops::i64_load_s(index, m, memory, 4),
        _ => return None,
    };
    match loaded {
        Ok(value) => Some(push_result(frame, value)),
        Err(error) => Some(Err(error)),
    }
}

/// Carries out a store instruction; `None` for every other instruction.
pub(crate) fn run_store(op: &Opcode, frame: &mut Frame, memory: &mut Memory) -> (done: Option<
    ExecuteResult<()>,
>)
    ensures
        match storing(*op, old(frame)@.operands, old(memory)@.bytes) {
            Some((operands, result)) => {
                &&& final(frame)@ == old(frame)@.with_operands(operands)
                &&& match result {
                    Ok(bytes) => {
                        &&& done matches Some(r) && r is Ok
                        &&& final(memory)@ == (MemoryState {
                            bytes,
                            max_size: old(memory)@.max_size,
                        })
                    },
                    Err(error) => {
                        &&& done matches Some(Err(e)) && e@ == error
                        &&& final(memory)@ == old(memory)@
                    },
                }
            },
            None => {
                &&& done is None
                &&& final(frame)@ == old(frame)@
                &&& final(memory)@ == old(memory)@
            },
        },
{
    match op {
        Opcode::I32Store(_)
        | Opcode::I32Store8(_)
        | Opcode::I32Store16(_)
        | Opcode::I64Store(_)
        | Opcode::I64Store8(_)
        | Opcode::I64Store16(_)
        | Opcode::I64Store32(_) => {},
        _ => return None,
    }
    let value: Value = match frame.pop_operand() {
        Ok(value) => value,
        Err(error) => return Some(Err(error)),
    };
    let index: u32 = match pop_i32(frame) {
        Ok(index) => to_unsigned_32(index),
        Err(error) => return Some(Err(error)),
    };
    match op {
        Opcode::I32Store(m) => Some(int_ops::i32_store(index, value, m, memory, 4)),
        Opcode::I32Store8(m) => Some(int_ops::i32_store(index, value, m, memory, 1)),
        Opcode::I32Store16(m) => Some(int_ops::i32_store(index, value, m, memory, 2)),
        Opcode::I64Store(m) => Some(int_ops::i64_store(index, value, m, memory, 8)),
        Opcode::I64Store8(m) => Some(int_ops::i64_store(index, value, m, memory, 1)),
        Opcode::I64Store16(m) => Some(int_ops::i64_store(index, value, m, memory, 2)),
        Opcode::I64Store32(m) => Some(int_ops::i64_store(index, value, m, memory, 4)),
        _ => None,
    }
}

/// Copies bytes within memory, the lowest first.
fn run_copy(memory: &mut Memory, n_bytes: i32, src: i32, dest: i32) -> (result: ExecuteResult<()>)
    requires
        index_of(dest) + index_of(n_bytes) <= usize::MAX,
        index_of(dest) + index_of(n_bytes) < old(memory)@.bytes.len() ==> index_of(src) + index_of(
            n_bytes,
        ) <= usize::MAX,
    ensures
        match copy(old(memory)@.bytes, n_bytes, src, dest) {
            Ok(bytes) => {
                &&& result is Ok
                &&& final(memory)@ == (MemoryState { bytes, max_size: old(memory)@.max_size })
            },
            Err(error) => {
                &&& result matches Err(e) && e@ == error
                &&& final(memory)@ == old(memory)@
            },
        },
{
    let n: usize = to_index(n_bytes);
    let from: usize = to_index(src);
    let to: usize = to_index(dest);
    if to + n >= memory.len() {
        return Err(
            ExecuteError::AddrOutOfBound(to_unsigned_32(dest), to_unsigned_32(n_bytes)),
        );
    }
    if from + n >= memory.len() {
        return Err(ExecuteError::AddrOutOfBound(to_unsigned_32(src), to_unsigned_32(n_bytes)));
    }
    let mut i: usize = 0;
    while i < n
        invariant
            i <= n,
            to + n < memory@.bytes.len(),
            from + n < memory@.bytes.len(),
            to + n <= usize::MAX,
            from + n <= usize::MAX,
            memory@.max_size == old(memory)@.max_size,
            memory@.bytes == copied(old(memory)@.bytes, to as int, from as int, i as nat),
        decreases n - i,
    {
        let byte: u8 = memory.read(from + i);
        memory.write(to + i, byte);
        i = i + 1;
    }
    Ok(())
}

/// Pops the operands of a copy: length, source and destination.
fn pop_copy(frame: &mut Frame) -> (result: ExecuteResult<(i32, i32, i32)>)
    ensures
        outcome(result) == read_copy(old(frame)@.operands).1,
        final(frame)@ == old(frame)@.with_operands(read_copy(old(frame)@.operands).0),
{
    let n_bytes: i32 = pop_i32(frame)?;
    let src: i32 = pop_i32(frame)?;
    let dest: i32 = pop_i32(frame)?;
    Ok((n_bytes, src, dest))
}

/// Carries out `Select`.
fn run_select(frame: &mut Frame) -> (result: ExecuteResult<()>)
    ensures
        outcome(result) == select(old(frame)@.operands).1,
        final(frame)@ == old(frame)@.with_operands(select(old(frame)@.operands).0),
{
    let c: i32 = pop_i32(frame)?;
    let (val1, val2): (Value, Value) = pop_pair(frame)?;
    if c != 0 {
        frame.push_operand(val1);
    } else {
        frame.push_operand(val2);
    }
    Ok(())
}

/// Carries out a numeric instruction, a load or a store.
fn run_computation<R, H>(
    op: &Opcode,
    frame: &mut Frame,
    rt: &mut RuntimeInfo<R, H>,
) -> (result: ExecuteResult<Flow>)
    requires
        !undefined_operation(*op, old(frame)@.operands),
    ensures
        ({
            let before = Scope {
                frame: old(frame)@,
                memory: old(rt)@.memory,
                globals: old(rt)@.globals,
            };
            let (after, flow) = computation(*op, before);
            &&& outcome(result) == flow
            &&& final(frame)@ == after.frame
            &&& final(rt)@ == (RuntimeState {
                memory: after.memory,
                globals: after.globals,
                ..old(rt)@
            })
        }),
{
    let numeric: Option<ExecuteResult<()>> = match run_numeric_i32(op, frame) {
        Some(done) => Some(done),
        None => match run_numeric_i64(op, frame) {
            Some(done) => Some(done),
            None => run_load(op, frame, rt.mem()),
        },
    };
    let done: Option<ExecuteResult<()>> = match numeric {
        Some(done) => Some(done),
        None => run_store(op, frame, rt.mem_mut()),
    };
    match done {
        Some(Err(error)) => Err(error),
        _ => Ok(Flow::Next),
    }
}

/// Carries out an instruction that stays within its function.
pub(crate) fn run_local<R, H>(
    op: &Opcode,
    frame: &mut Frame,
    rt: &mut RuntimeInfo<R, H>,
) -> (result: ExecuteResult<Flow>)
    requires
        !undefined_operation(*op, old(frame)@.operands),
        !copy_overflows(*op, old(frame)@.operands, old(rt)@.memory.bytes),
    ensures
        ({
            let before = Scope {
                frame: old(frame)@,
                memory: old(rt)@.memory,
                globals: old(rt)@.globals,
            };
            let (after, flow) = local_effect(*op, before);
            &&& outcome(result) == flow
            &&& final(frame)@ == after.frame
            &&& final(rt)@ == (RuntimeState {
                memory: after.memory,
                globals: after.globals,
                ..old(rt)@
            })
        }),
{
    match op {
        Opcode::Drop => {
            frame.pop_operand()?;
        },
        Opcode::Select => {
            run_select(frame)?;
        },
        Opcode::CurrentMemory => {
            frame.push_operand(rt.mem().current_size());
        },
        Opcode::GrowMemory => {
            let n_pages: i32 = pop_i32(frame)?;
            let answer: Value = rt.mem_mut().grow(n_pages);
            frame.push_operand(answer);
        },
        Opcode::Nop => {},
        Opcode::Jmp(target) => {
            return Ok(Flow::Jump(*target));
        },
        Opcode::JmpIf(target) => {
            let v: i32 = pop_i32(frame)?;
            if v != 0 {
                return Ok(Flow::Jump(*target));
            }
        },
        Opcode::JmpEither(if_true, if_false) => {
            let v: i32 = pop_i32(frame)?;
            return Ok(
                if v != 0 {
                    Flow::Jump(*if_true)
                } else {
                    Flow::Jump(*if_false)
                },
            );
        },
        Opcode::JmpTable(table, otherwise) => {
            let v: i32 = pop_i32(frame)?;
            let idx: usize = to_index(v);
            return Ok(
                if idx < table.len() {
                    Flow::Jump(table[idx])
                } else {
                    Flow::Jump(*otherwise)
                },
            );
        },
        Opcode::SetLocal(idx) => {
            let v: Value = frame.pop_operand()?;
            frame.set_local(*idx, v)?;
        },
        Opcode::GetLocal(idx) => {
            let v: Value = frame.get_local(*idx)?;
            frame.push_operand(v);
        },
        Opcode::TeeLocal(idx) => {
            let v: Value = frame.top_operand()?;
            frame.set_local(*idx, v)?;
        },
        Opcode::GetGlobal(idx) => {
            let idx: usize = *idx as usize;
            if idx >= rt.globals().len() {
                return Err(ExecuteError::GlobalIndexOutOfBound);
            }
            let v: Value = rt.globals()[idx];
            frame.push_operand(v);
        },
        Opcode::SetGlobal(idx) => {
            let idx: usize = *idx as usize;
            if idx >= rt.globals().len() {
                return Err(ExecuteError::GlobalIndexOutOfBound);
            }
            let v: Value = frame.pop_operand()?;
            rt.set_global(idx, v);
        },
        Opcode::Unreachable => {
            return Err(ExecuteError::UnreachableExecuted);
        },
        Opcode::Memcpy => {
            let (n_bytes, src, dest): (i32, i32, i32) = pop_copy(frame)?;
            run_copy(rt.mem_mut(), n_bytes, src, dest)?;
        },
        Opcode::NotImplemented(what) => {
            let message: String = "Not implemented: ".to_owned().concat(what.as_str());
            return Err(ExecuteError::Custom(message));
        },
        Opcode::F32Const(bits) => {
            frame.push_operand(Value::F32(*bits));
        },
        Opcode::F64Const(bits) => {
            frame.push_operand(Value::F64(*bits));
        },
        _ => {
            return run_computation(op, frame, rt);
        },
    }
    Ok(Flow::Next)
}

/// Whether a division has no result on the operands of a frame.
fn division_fails(op: &Opcode, frame: &Frame) -> (fails: bool)
    ensures
        fails == undefined_operation(*op, frame@.operands),
{
    let operands: &[Value] = frame.operands();
    let n: usize = operands.len();
    if n < 2 {
        return false;
    }
    match op {
        Opcode::I32DivU | Opcode::I32RemU | Opcode::I32RemS | Opcode::I32DivS => {
            match (operands[n - 2].get_i32(), operands[n - 1].get_i32()) {
                (Ok(a), Ok(b)) => b == 0 || (matches!(op, Opcode::I32DivS) && a == i32::MIN && b
                    == -1),
                _ => false,
            }
        },
        Opcode::I64DivU | Opcode::I64RemU | Opcode::I64RemS | Opcode::I64DivS => {
            match (operands[n - 2].get_i64(), operands[n - 1].get_i64()) {
                (Ok(a), Ok(b)) => b == 0 || (matches!(op, Opcode::I64DivS) && a == i64::MIN && b
                    == -1),
                _ => false,
            }
        },
        _ => false,
    }
}

/// Whether a copy has a region whose end is not a number of this machine.
fn copy_fails(op: &Opcode, frame: &Frame, memory: &Memory) -> (fails: bool)
    ensures
        fails == copy_overflows(*op, frame@.operands, memory@.bytes),
{
    if !matches!(op, Opcode::Memcpy) {
        return false;
    }
    let operands: &[Value] = frame.operands();
    let n: usize = operands.len();
    if n < 3 {
        return false;
    }
    match (operands[n - 1].get_i32(), operands[n - 2].get_i32(), operands[n - 3].get_i32()) {
        (Ok(n_bytes), Ok(src), Ok(dest)) => {
            match to_index(dest).checked_add(to_index(n_bytes)) {
                None => true,
                Some(end) => end < memory.len() && to_index(src).checked_add(
                    to_index(n_bytes),
                ).is_none(),
            }
        },
        _ => false,
    }
}

/// Whether an instruction has no effect at all on a frame and a memory: neither
/// a result nor an error.
pub(crate) fn has_no_effect(op: &Opcode, frame: &Frame, memory: &Memory) -> (none: bool)
    ensures
        none == (undefined_operation(*op, frame@.operands) || copy_overflows(
            *op,
            frame@.operands,
            memory@.bytes,
        )),
{
    division_fails(op, frame) || copy_fails(op, frame, memory)
}

} // verus!
