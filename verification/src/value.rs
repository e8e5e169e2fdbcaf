//! Tagged scalar values, and the untyped numeric literals produced by the
//! parser before type resolution fixes their type.
//!
//! Floating-point payloads are carried as their IEEE 754 bit patterns
//! (`u32` for F32, `u64` for F64); the analysis never computes with the
//! magnitudes, it only converts representations, which is done in
//! [`crate::float_bits`] as pure integer arithmetic.

use vstd::prelude::*;
use crate::value_type::ValueType;
use crate::errors::CommonError;
use crate::float_bits;

verus! {

/// A `ValueType`-tagged scalar carrying its payload. `F32`/`F64` carry the
/// IEEE 754 bit pattern of the value.
#[derive(PartialEq, Eq, Structural, Clone, Copy, Debug)]
pub enum Value {
    U8 { inner: u8 },
    U16 { inner: u16 },
    U32 { inner: u32 },
    U64 { inner: u64 },
    USize { inner: usize },
    I8 { inner: i8 },
    I16 { inner: i16 },
    I32 { inner: i32 },
    I64 { inner: i64 },
    F32 { bits: u32 },
    F64 { bits: u64 },
    Bool { inner: bool },
}

pub open spec fn spec_value_type(v: Value) -> ValueType {
    match v {
        Value::U8 { .. } => ValueType::U8,
        Value::U16 { .. } => ValueType::U16,
        Value::U32 { .. } => ValueType::U32,
        Value::U64 { .. } => ValueType::U64,
        Value::USize { .. } => ValueType::USize,
        Value::I8 { .. } => ValueType::I8,
        Value::I16 { .. } => ValueType::I16,
        Value::I32 { .. } => ValueType::I32,
        Value::I64 { .. } => ValueType::I64,
        Value::F32 { .. } => ValueType::F32,
        Value::F64 { .. } => ValueType::F64,
        Value::Bool { .. } => ValueType::Bool,
    }
}

impl Value {
    pub fn get_value_type(&self) -> (t: ValueType)
        ensures
            t == spec_value_type(*self),
    {
        match self {
            Value::U8 { .. } => ValueType::U8,
            Value::U16 { .. } => ValueType::U16,
            Value::U32 { .. } => ValueType::U32,
            Value::U64 { .. } => ValueType::U64,
            Value::USize { .. } => ValueType::USize,
            Value::I8 { .. } => ValueType::I8,
            Value::I16 { .. } => ValueType::I16,
            Value::I32 { .. } => ValueType::I32,
            Value::I64 { .. } => ValueType::I64,
            Value::F32 { .. } => ValueType::F32,
            Value::F64 { .. } => ValueType::F64,
            Value::Bool { .. } => ValueType::Bool,
        }
    }
}

/// A numeric literal whose type has not been fixed yet. `Float` carries the
/// f64 bit pattern of the parsed magnitude; `Integer` carries the magnitude.
#[derive(PartialEq, Eq, Structural, Clone, Copy, Debug)]
pub enum UntypedValue {
    Float { bits: u64 },
    Integer { inner: u64 },
}

/// What an untyped literal resolves to at a given target type: a `Float` only
/// ever becomes F32 or F64; an `Integer` becomes any integer type it fits in,
/// or F32/F64 by value conversion. `None` is a resolution failure.
pub open spec fn spec_resolved_value(v: UntypedValue, t: ValueType) -> Option<Value> {
    match v {
        UntypedValue::Float { bits } => match t {
            ValueType::F32 => Some(
                Value::F32 { bits: float_bits::spec_f32_bits_from_f64_bits(bits) },
            ),
            ValueType::F64 => Some(Value::F64 { bits }),
            _ => None,
        },
        UntypedValue::Integer { inner } => match t {
            ValueType::U8 => if inner <= u8::MAX as u64 {
                Some(Value::U8 { inner: inner as u8 })
            } else {
                None
            },
            ValueType::U16 => if inner <= u16::MAX as u64 {
                Some(Value::U16 { inner: inner as u16 })
            } else {
                None
            },
            ValueType::U32 => if inner <= u32::MAX as u64 {
                Some(Value::U32 { inner: inner as u32 })
            } else {
                None
            },
            ValueType::U64 => Some(Value::U64 { inner }),
            ValueType::USize => if inner <= usize::MAX as u64 {
                Some(Value::USize { inner: inner as usize })
            } else {
                None
            },
            ValueType::I8 => if inner <= i8::MAX as u64 {
                Some(Value::I8 { inner: inner as i8 })
            } else {
                None
            },
            ValueType::I16 => if inner <= i16::MAX as u64 {
                Some(Value::I16 { inner: inner as i16 })
            } else {
                None
            },
            ValueType::I32 => if inner <= i32::MAX as u64 {
                Some(Value::I32 { inner: inner as i32 })
            } else {
                None
            },
            ValueType::I64 => if inner <= i64::MAX as u64 {
                Some(Value::I64 { inner: inner as i64 })
            } else {
                None
            },
            ValueType::F32 => Some(
                Value::F32 { bits: float_bits::spec_f32_bits_from_u64(inner) },
            ),
            ValueType::F64 => Some(
                Value::F64 { bits: float_bits::spec_f64_bits_from_u64(inner) },
            ),
            ValueType::Bool => None,
        },
    }
}

impl UntypedValue {
    /// Resolve this literal at `resolved_type`, or fail with `CannotResolve`
    /// when the target type does not fit the literal.
    pub fn get_resolved_value(&self, resolved_type: ValueType) -> (r: Result<Value, CommonError>)
        ensures
            match r {
                Ok(v) => spec_resolved_value(*self, resolved_type) == Some(v),
                Err(e) => spec_resolved_value(*self, resolved_type) is None && e == (
                CommonError::CannotResolve { from: *self, to: resolved_type }),
            },
    {
        match self {
            UntypedValue::Float { bits } => match resolved_type {
                ValueType::F32 => Ok(
                    Value::F32 { bits: float_bits::f32_bits_from_f64_bits(*bits) },
                ),
                ValueType::F64 => Ok(Value::F64 { bits: *bits }),
                _ => Err(CommonError::CannotResolve { from: *self, to: resolved_type }),
            },
            UntypedValue::Integer { inner } => {
                let n = *inner;
                match resolved_type {
                    ValueType::U8 => if n <= u8::MAX as u64 {
                        Ok(Value::U8 { inner: n as u8 })
                    } else {
                        Err(CommonError::CannotResolve { from: *self, to: resolved_type })
                    },
                    ValueType::U16 => if n <= u16::MAX as u64 {
                        Ok(Value::U16 { inner: n as u16 })
                    } else {
                        Err(CommonError::CannotResolve { from: *self, to: resolved_type })
                    },
                    ValueType::U32 => if n <= u32::MAX as u64 {
                        Ok(Value::U32 { inner: n as u32 })
                    } else {
                        Err(CommonError::CannotResolve { from: *self, to: resolved_type })
                    },
                    ValueType::U64 => Ok(Value::U64 { inner: n }),
                    ValueType::USize => if n <= usize::MAX as u64 {
                        Ok(Value::USize { inner: n as usize })
                    } else {
                        Err(CommonError::CannotResolve { from: *self, to: resolved_type })
                    },
                    ValueType::I8 => if n <= i8::MAX as u64 {
                        Ok(Value::I8 { inner: n as i8 })
                    } else {
                        Err(CommonError::CannotResolve { from: *self, to: resolved_type })
                    },
                    ValueType::I16 => if n <= i16::MAX as u64 {
                        Ok(Value::I16 { inner: n as i16 })
                    } else {
                        Err(CommonError::CannotResolve { from: *self, to: resolved_type })
                    },
                    ValueType::I32 => if n <= i32::MAX as u64 {
                        Ok(Value::I32 { inner: n as i32 })
                    } else {
                        Err(CommonError::CannotResolve { from: *self, to: resolved_type })
                    },
                    ValueType::I64 => if n <= i64::MAX as u64 {
                        Ok(Value::I64 { inner: n as i64 })
                    } else {
                        Err(CommonError::CannotResolve { from: *self, to: resolved_type })
                    },
                    ValueType::F32 => Ok(
                        Value::F32 { bits: float_bits::f32_bits_from_u64(n) },
                    ),
                    ValueType::F64 => Ok(
                        Value::F64 { bits: float_bits::f64_bits_from_u64(n) },
                    ),
                    ValueType::Bool => Err(
                        CommonError::CannotResolve { from: *self, to: resolved_type },
                    ),
                }
            },
        }
    }
}

} // verus!
