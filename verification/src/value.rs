//! The values that instructions work on.
use vstd::prelude::*;

use crate::error::{outcome, ErrorView, ExecuteError, ExecuteResult};
use crate::fp_ops;

verus! {

/// A value on the operand stack, in a local or in a global.
///
/// Floating-point values are held by their IEEE 754 bit patterns.
#[derive(Copy, Clone, Debug, PartialEq, Eq, Structural)]
pub enum Value {
    Undef,
    I32(i32),
    I64(i64),
    F32(u32),
    F64(u64),
}

impl Default for Value {
    fn default() -> (value: Value)
        ensures
            value == Value::Undef,
    {
        Value::Undef
    }
}

impl Value {
    /// The 32-bit integer that a value is read as; an undefined value is zero.
    pub open spec fn as_i32(self) -> Option<i32> {
        match self {
            Value::Undef => Some(0),
            Value::I32(v) => Some(v),
            _ => None,
        }
    }

    /// The 64-bit integer that a value is read as; an undefined value is zero.
    pub open spec fn as_i64(self) -> Option<i64> {
        match self {
            Value::Undef => Some(0),
            Value::I64(v) => Some(v),
            _ => None,
        }
    }

    /// The 64-bit integer that a value converts to: integers keep their
    /// number, floats are truncated towards zero, and a float without a 64-bit
    /// truncation is zero.
    pub open spec fn to_i64(self) -> i64 {
        match self {
            Value::Undef => 0,
            Value::I32(v) => v as i64,
            Value::I64(v) => v,
            Value::F32(bits) => match fp_ops::f32_truncation(bits) {
                Some(v) => v,
                None => 0,
            },
            Value::F64(bits) => match fp_ops::f64_truncation(bits) {
                Some(v) => v,
                None => 0,
            },
        }
    }

    pub fn get_i32(&self) -> (result: ExecuteResult<i32>)
        ensures
            outcome(result) == (match self.as_i32() {
                Some(v) => Ok(v),
                None => Err(ErrorView::ValueTypeMismatch),
            }),
    {
        match *self {
            Value::Undef => Ok(0),
            Value::I32(v) => Ok(v),
            _ => Err(ExecuteError::ValueTypeMismatch),
        }
    }

    pub fn get_i64(&self) -> (result: ExecuteResult<i64>)
        ensures
            outcome(result) == (match self.as_i64() {
                Some(v) => Ok(v),
                None => Err(ErrorView::ValueTypeMismatch),
            }),
    {
        match *self {
            Value::Undef => Ok(0),
            Value::I64(v) => Ok(v),
            _ => Err(ExecuteError::ValueTypeMismatch),
        }
    }

    pub fn cast_to_i64(&self) -> (result: i64)
        ensures
            result == self.to_i64(),
    {
        match *self {
            Value::Undef => 0,
            Value::I32(v) => v as i64,
            Value::I64(v) => v,
            Value::F32(bits) => fp_ops::f32_convert_i64_s(bits).unwrap_or(0),
            Value::F64(bits) => fp_ops::f64_convert_i64_s(bits).unwrap_or(0),
        }
    }
}

} // verus!
