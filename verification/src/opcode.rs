//! The instructions of a function body.
use vstd::prelude::*;

verus! {

/// The immediate of a memory instruction.
#[derive(Copy, Clone, Debug, PartialEq, Eq, Structural)]
pub struct Memarg {
    pub offset: u32,
    pub align: u32,
}

#[derive(Debug)]
pub enum Opcode {
    Drop,
    Select,
    Call(u32),
    CallIndirect(u32),
    NativeInvoke(u32),
    Return,
    CurrentMemory,
    GrowMemory,
    Nop,
    Jmp(u32),
    JmpIf(u32),
    /// Target if the condition is not zero, target if it is.
    JmpEither(u32, u32),
    /// Targets by index, target of every other index.
    JmpTable(Vec<u32>, u32),
    SetLocal(u32),
    GetLocal(u32),
    TeeLocal(u32),
    GetGlobal(u32),
    SetGlobal(u32),
    Unreachable,
    Memcpy,
    /// An instruction that the compiler of the module could not express.
    NotImplemented(String),
    I32Const(i32),
    I32Clz,
    I32Ctz,
    I32Popcnt,
    I32Add,
    I32Sub,
    I32Mul,
    I32DivU,
    I32DivS,
    I32RemU,
    I32RemS,
    I32And,
    I32Or,
    I32Xor,
    I32Shl,
    I32ShrU,
    I32ShrS,
    I32Rotl,
    I32Rotr,
    I32Eqz,
    I32Eq,
    I32Ne,
    I32LtU,
    I32LtS,
    I32LeU,
    I32LeS,
    I32GtU,
    I32GtS,
    I32GeU,
    I32GeS,
    I32WrapI64,
    I32Load(Memarg),
    I32Load8U(Memarg),
    I32Load8S(Memarg),
    I32Load16U(Memarg),
    I32Load16S(Memarg),
    I32Store(Memarg),
    I32Store8(Memarg),
    I32Store16(Memarg),
    I64Const(i64),
    I64Clz,
    I64Ctz,
    I64Popcnt,
    I64Add,
    I64Sub,
    I64Mul,
    I64DivU,
    I64DivS,
    I64RemU,
    I64RemS,
    I64And,
    I64Or,
    I64Xor,
    I64Shl,
    I64ShrU,
    I64ShrS,
    I64Rotl,
    I64Rotr,
    I64Eqz,
    I64Eq,
    I64Ne,
    I64LtU,
    I64LtS,
    I64LeU,
    I64LeS,
    I64GtU,
    I64GtS,
    I64GeU,
    I64GeS,
    I64ExtendI32U,
    I64ExtendI32S,
    I64Load(Memarg),
    I64Load8U(Memarg),
    I64Load8S(Memarg),
    I64Load16U(Memarg),
    I64Load16S(Memarg),
    I64Load32U(Memarg),
    I64Load32S(Memarg),
    I64Store(Memarg),
    I64Store8(Memarg),
    I64Store16(Memarg),
    I64Store32(Memarg),
    /// The bit pattern of a 32-bit float.
    F32Const(u32),
    /// The bit pattern of a 64-bit float.
    F64Const(u64),
}

} // verus!
