//! Named symbols a host registers in a table: constants, variables, and
//! function specializations whose parameters may be pre-bound to constants or
//! hidden-state slots.

use vstd::prelude::*;
use crate::errors::CommonError;
use crate::value::Value;
use crate::value::spec_value_type;
use crate::value_type::ValueType;

verus! {

/// A constant an argument folded to at specialization time.
#[derive(Clone, Copy, Debug)]
pub enum IRConst {
    Int { inner: i64 },
    Uint { inner: u64 },
    Float { bits: u64 },
}

/// Per-argument constant hints handed to a function specialization.
pub struct FnSpecHints {
    pub consts: Vec<Option<IRConst>>,
}

/// How one physical parameter of a bound host function is filled: from an
/// expression-level parameter, from a constant, or from a hidden-state slot.
#[derive(Clone, Copy, Debug)]
pub enum FnSpecCallArg {
    MappedArgument { param_idx: usize },
    ConstArgument { value: Value },
    HiddenStateArgument { hidden_state_idx: usize, cast_to_type: Option<ValueType> },
}

/// A named symbol: a constant value, a typed variable stored in the slab, or
/// a host function with its C-ABI signature and argument specialization.
#[derive(Debug)]
pub enum Binding {
    Const { value: Value },
    Variable { value_type: ValueType },
    Function {
        ret_type: ValueType,
        params: Vec<ValueType>,
        call_args: Vec<FnSpecCallArg>,
        fn_ptr: usize,
    },
}

/// The scalar type a Rust primitive is marshalled as across the C-ABI call
/// boundary. References are passed as pointer-width integers.
pub trait ToBFPValueType {
    spec fn spec_bfp_value_type() -> ValueType;

    fn to_bfp_value_type() -> (t: ValueType)
        ensures
            t == Self::spec_bfp_value_type(),
    ;
}

impl ToBFPValueType for u8 {
    open spec fn spec_bfp_value_type() -> ValueType {
        ValueType::U8
    }

    fn to_bfp_value_type() -> ValueType {
        ValueType::U8
    }
}

impl ToBFPValueType for u16 {
    open spec fn spec_bfp_value_type() -> ValueType {
        ValueType::U16
    }

    fn to_bfp_value_type() -> ValueType {
        ValueType::U16
    }
}

impl ToBFPValueType for u32 {
    open spec fn spec_bfp_value_type() -> ValueType {
        ValueType::U32
    }

    fn to_bfp_value_type() -> ValueType {
        ValueType::U32
    }
}

impl ToBFPValueType for u64 {
    open spec fn spec_bfp_value_type() -> ValueType {
        ValueType::U64
    }

    fn to_bfp_value_type() -> ValueType {
        ValueType::U64
    }
}

impl ToBFPValueType for usize {
    open spec fn spec_bfp_value_type() -> ValueType {
        ValueType::USize
    }

    fn to_bfp_value_type() -> ValueType {
        ValueType::USize
    }
}

impl ToBFPValueType for i8 {
    open spec fn spec_bfp_value_type() -> ValueType {
        ValueType::I8
    }

    fn to_bfp_value_type() -> ValueType {
        ValueType::I8
    }
}

impl ToBFPValueType for i16 {
    open spec fn spec_bfp_value_type() -> ValueType {
        ValueType::I16
    }

    fn to_bfp_value_type() -> ValueType {
        ValueType::I16
    }
}

impl ToBFPValueType for i32 {
    open spec fn spec_bfp_value_type() -> ValueType {
        ValueType::I32
    }

    fn to_bfp_value_type() -> ValueType {
        ValueType::I32
    }
}

impl ToBFPValueType for i64 {
    open spec fn spec_bfp_value_type() -> ValueType {
        ValueType::I64
    }

    fn to_bfp_value_type() -> ValueType {
        ValueType::I64
    }
}

impl ToBFPValueType for bool {
    open spec fn spec_bfp_value_type() -> ValueType {
        ValueType::Bool
    }

    fn to_bfp_value_type() -> ValueType {
        ValueType::Bool
    }
}

impl<T> ToBFPValueType for &T {
    open spec fn spec_bfp_value_type() -> ValueType {
        ValueType::USize
    }

    fn to_bfp_value_type() -> ValueType {
        ValueType::USize
    }
}

impl<T> ToBFPValueType for &mut T {
    open spec fn spec_bfp_value_type() -> ValueType {
        ValueType::USize
    }

    fn to_bfp_value_type() -> ValueType {
        ValueType::USize
    }
}

/// What `guard` checks: the scalar type this argument will actually carry,
/// where it can be known at registration time.
pub open spec fn spec_guard_got(
    arg: FnSpecCallArg,
    params: Seq<ValueType>,
) -> Option<ValueType> {
    match arg {
        FnSpecCallArg::MappedArgument { param_idx } => if param_idx < params.len() {
            Some(params[param_idx as int])
        } else {
            None
        },
        FnSpecCallArg::ConstArgument { value } => Some(spec_value_type(value)),
        FnSpecCallArg::HiddenStateArgument { cast_to_type, .. } => cast_to_type,
    }
}

/// The outcome `guard` must produce for an argument against a parameter list
/// and the expected C-ABI type of its position.
pub open spec fn spec_guard(
    arg: FnSpecCallArg,
    params: Seq<ValueType>,
    expected: ValueType,
) -> Result<(), CommonError> {
    match arg {
        FnSpecCallArg::MappedArgument { param_idx } => if param_idx >= params.len() {
            Err(CommonError::FuncSpecArgBadParamIndex { idx: param_idx, count: params.len() as usize })
        } else if params[param_idx as int] == expected {
            Ok(())
        } else {
            Err(CommonError::FuncSpecArgBadType { expected, got: params[param_idx as int] })
        },
        FnSpecCallArg::ConstArgument { value } => if spec_value_type(value) == expected {
            Ok(())
        } else {
            Err(CommonError::FuncSpecArgBadType { expected, got: spec_value_type(value) })
        },
        FnSpecCallArg::HiddenStateArgument { cast_to_type, .. } => match cast_to_type {
            Some(t) => if t == expected {
                Ok(())
            } else {
                Err(CommonError::FuncSpecArgBadType { expected, got: t })
            },
            None => Ok(()),
        },
    }
}

impl FnSpecCallArg {
    /// An argument drawn from the hidden-state slot `hidden_state_idx`,
    /// passed at the slot's own type.
    pub fn from_hidden_state(hidden_state_idx: usize) -> (r: Self)
        ensures
            r == (FnSpecCallArg::HiddenStateArgument { hidden_state_idx, cast_to_type: None }),
    {
        Self::HiddenStateArgument { hidden_state_idx, cast_to_type: None }
    }

    /// An argument drawn from a hidden-state slot and cast to `value_type`
    /// before the call.
    pub fn from_hidden_state_cast(hidden_state_idx: usize, value_type: ValueType) -> (r: Self)
        ensures
            r == (FnSpecCallArg::HiddenStateArgument {
                hidden_state_idx,
                cast_to_type: Some(value_type),
            }),
    {
        Self::HiddenStateArgument { hidden_state_idx, cast_to_type: Some(value_type) }
    }

    /// Check this argument against the declared parameter list, expecting the
    /// C-ABI type `expected` in its position.
    pub fn guard_with(&self, params: &Vec<ValueType>, expected: ValueType) -> (r: Result<
        (),
        CommonError,
    >)
        ensures
            r == spec_guard(*self, params@, expected),
    {
        let got: ValueType = match *self {
            Self::MappedArgument { param_idx } => {
                let count = params.len();
                if param_idx >= count {
                    return Err(CommonError::FuncSpecArgBadParamIndex { idx: param_idx, count });
                }
                params[param_idx]
            },
            Self::ConstArgument { ref value } => value.get_value_type(),
            Self::HiddenStateArgument { hidden_state_idx: _, cast_to_type } => {
                if let Some(value_type) = cast_to_type {
                    value_type
                } else {
                    return Ok(());
                }
            },
        };
        if got == expected {
            Ok(())
        } else {
            Err(CommonError::FuncSpecArgBadType { expected, got })
        }
    }

    /// `guard_with`, with the expected type taken from the Rust type of the
    /// corresponding parameter of the bound function pointer.
    pub fn guard<T: ToBFPValueType>(&self, params: &Vec<ValueType>) -> (r: Result<(), CommonError>)
        ensures
            r == spec_guard(*self, params@, T::spec_bfp_value_type()),
    {
        self.guard_with(params, T::to_bfp_value_type())
    }
}

} // verus!
