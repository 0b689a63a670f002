//! The errors of a running machine.
use vstd::prelude::*;

use crate::module::{Signature, Type};

verus! {

/// Why a machine could not be built, or why a run stopped without a result.
#[derive(Debug)]
pub enum ExecuteError {
    Custom(String),
    OperandStackUnderflow,
    NotImplemented,
    TableIndexOutOfBound,
    TypeIdxIndexOufOfBound,
    FunctionIndexOutOfBound,
    OpcodeIndexOutOfBound,
    FrameIndexOutOfBound,
    LocalIndexOutOfBound(usize),
    GlobalIndexOutOfBound,
    UnreachableExecuted,
    /// Address and number of bytes of the refused access.
    AddrOutOfBound(u32, u32),
    TypeMismatch,
    ValueTypeMismatch,
    ReturnTypeMismatch,
    UndefinedTableEntry,
    FunctionNotFound,
    ExportEntryNotFound,
    InvalidMemoryOperation,
    FloatingPointException,
    /// Function, expected signature, actual signature.
    IndirectCallTypeMismatch(usize, Type, Type),
}

/// An [`ExecuteError`] with its strings and vectors taken as sequences.
pub enum ErrorView {
    Custom(Seq<char>),
    OperandStackUnderflow,
    NotImplemented,
    TableIndexOutOfBound,
    TypeIdxIndexOufOfBound,
    FunctionIndexOutOfBound,
    OpcodeIndexOutOfBound,
    FrameIndexOutOfBound,
    LocalIndexOutOfBound(usize),
    GlobalIndexOutOfBound,
    UnreachableExecuted,
    AddrOutOfBound(u32, u32),
    TypeMismatch,
    ValueTypeMismatch,
    ReturnTypeMismatch,
    UndefinedTableEntry,
    FunctionNotFound,
    ExportEntryNotFound,
    InvalidMemoryOperation,
    FloatingPointException,
    IndirectCallTypeMismatch(usize, Signature, Signature),
}

impl View for ExecuteError {
    type V = ErrorView;

    open spec fn view(&self) -> ErrorView {
        match *self {
            ExecuteError::Custom(message) => ErrorView::Custom(message@),
            ExecuteError::OperandStackUnderflow => ErrorView::OperandStackUnderflow,
            ExecuteError::NotImplemented => ErrorView::NotImplemented,
            ExecuteError::TableIndexOutOfBound => ErrorView::TableIndexOutOfBound,
            ExecuteError::TypeIdxIndexOufOfBound => ErrorView::TypeIdxIndexOufOfBound,
            ExecuteError::FunctionIndexOutOfBound => ErrorView::FunctionIndexOutOfBound,
            ExecuteError::OpcodeIndexOutOfBound => ErrorView::OpcodeIndexOutOfBound,
            ExecuteError::FrameIndexOutOfBound => ErrorView::FrameIndexOutOfBound,
            ExecuteError::LocalIndexOutOfBound(idx) => ErrorView::LocalIndexOutOfBound(idx),
            ExecuteError::GlobalIndexOutOfBound => ErrorView::GlobalIndexOutOfBound,
            ExecuteError::UnreachableExecuted => ErrorView::UnreachableExecuted,
            ExecuteError::AddrOutOfBound(addr, len) => ErrorView::AddrOutOfBound(addr, len),
            ExecuteError::TypeMismatch => ErrorView::TypeMismatch,
            ExecuteError::ValueTypeMismatch => ErrorView::ValueTypeMismatch,
            ExecuteError::ReturnTypeMismatch => ErrorView::ReturnTypeMismatch,
            ExecuteError::UndefinedTableEntry => ErrorView::UndefinedTableEntry,
            ExecuteError::FunctionNotFound => ErrorView::FunctionNotFound,
            ExecuteError::ExportEntryNotFound => ErrorView::ExportEntryNotFound,
            ExecuteError::InvalidMemoryOperation => ErrorView::InvalidMemoryOperation,
            ExecuteError::FloatingPointException => ErrorView::FloatingPointException,
            ExecuteError::IndirectCallTypeMismatch(id, expected, actual) =>
                ErrorView::IndirectCallTypeMismatch(id, expected@, actual@),
        }
    }
}

pub type ExecuteResult<T> = Result<T, ExecuteError>;

/// A result with its error taken by its view.
pub open spec fn outcome<T>(result: ExecuteResult<T>) -> Result<T, ErrorView> {
    match result {
        Ok(value) => Ok(value),
        Err(error) => Err(error@),
    }
}

} // verus!
