//! The closed set of scalar types an expression can evaluate to, and the
//! implicit-cast lattice over them.

use vstd::prelude::*;
use crate::errors::CommonError;

verus! {

/// The scalar types supported by the expression compiler. `USize` is the
/// platform pointer width and doubles as the receptacle for host pointers.
#[derive(PartialEq, Eq, Structural, Clone, Copy, Debug)]
pub enum ValueType {
    U8,
    U16,
    U32,
    U64,
    USize,
    I8,
    I16,
    I32,
    I64,
    F32,
    F64,
    Bool,
}

/// Position of a type in the implicit-cast ordering:
/// Bool < U8 < I8 < U16 < I16 < U32 < I32 < U64 < I64 < USize < F32 < F64.
pub open spec fn spec_priority(t: ValueType) -> u32 {
    match t {
        ValueType::Bool => 0,
        ValueType::U8 => 1,
        ValueType::I8 => 2,
        ValueType::U16 => 3,
        ValueType::I16 => 4,
        ValueType::U32 => 5,
        ValueType::I32 => 6,
        ValueType::U64 => 7,
        ValueType::I64 => 8,
        ValueType::USize => 9,
        ValueType::F32 => 10,
        ValueType::F64 => 11,
    }
}

pub open spec fn spec_is_signed(t: ValueType) -> bool {
    match t {
        ValueType::Bool
        | ValueType::U8
        | ValueType::U16
        | ValueType::U32
        | ValueType::U64
        | ValueType::USize => false,
        ValueType::I8
        | ValueType::I16
        | ValueType::I32
        | ValueType::I64
        | ValueType::F32
        | ValueType::F64 => true,
    }
}

pub open spec fn spec_is_float(t: ValueType) -> bool {
    match t {
        ValueType::F32 | ValueType::F64 => true,
        _ => false,
    }
}

/// `from` may be implicitly cast to `to` iff `from` sits strictly lower in the
/// priority ordering and the cast never reinterprets a sign: the target must be
/// signed, or the source unsigned.
pub open spec fn spec_can_implicit_cast(from: ValueType, to: ValueType) -> bool {
    spec_priority(from) < spec_priority(to) && (spec_is_signed(to) || !spec_is_signed(from))
}

/// Of two distinct types, the one lower in the priority ordering.
pub open spec fn spec_widen_lo(a: ValueType, b: ValueType) -> ValueType {
    if spec_priority(a) > spec_priority(b) {
        b
    } else {
        a
    }
}

/// Of two distinct types, the one higher in the priority ordering.
pub open spec fn spec_widen_hi(a: ValueType, b: ValueType) -> ValueType {
    if spec_priority(a) > spec_priority(b) {
        a
    } else {
        b
    }
}

/// The common implicit-cast supertype of `a` and `b`: for equal types the
/// type itself, otherwise the higher-priority one when the lower may
/// implicitly cast to it, and `None` when it may not.
pub open spec fn spec_widen(a: ValueType, b: ValueType) -> Option<ValueType> {
    if a == b {
        Some(a)
    } else if spec_can_implicit_cast(spec_widen_lo(a, b), spec_widen_hi(a, b)) {
        Some(spec_widen_hi(a, b))
    } else {
        None
    }
}

/// U8..U64 made signed at the same width; signed and float types unchanged;
/// Bool and USize have no signed counterpart.
pub open spec fn spec_to_signed(t: ValueType) -> Option<ValueType> {
    match t {
        ValueType::Bool | ValueType::USize => None,
        ValueType::U8 => Some(ValueType::I8),
        ValueType::U16 => Some(ValueType::I16),
        ValueType::U32 => Some(ValueType::I32),
        ValueType::U64 => Some(ValueType::I64),
        _ => Some(t),
    }
}

/// Widening lifted to optional types, taking whichever side is present when
/// only one is: `None` only when both sides are `None`, a failure only when
/// both are present and incompatible.
pub open spec fn spec_widen_optional_greedy(a: Option<ValueType>, b: Option<ValueType>) -> Option<
    Option<ValueType>,
> {
    match (a, b) {
        (Some(x), Some(y)) => match spec_widen(x, y) {
            Some(w) => Some(Some(w)),
            None => None,
        },
        (Some(x), None) => Some(Some(x)),
        (None, Some(y)) => Some(Some(y)),
        (None, None) => Some(None),
    }
}

/// Widening lifted to optional types, demanding both sides: the result is
/// unresolved unless both are present, a failure only when both are present
/// and incompatible.
pub open spec fn spec_widen_optional_non_greedy(
    a: Option<ValueType>,
    b: Option<ValueType>,
) -> Option<Option<ValueType>> {
    match (a, b) {
        (Some(x), Some(y)) => match spec_widen(x, y) {
            Some(w) => Some(Some(w)),
            None => None,
        },
        _ => Some(None),
    }
}

pub open spec fn spec_to_signed_optional(t: Option<ValueType>) -> Option<Option<ValueType>> {
    match t {
        Some(x) => match spec_to_signed(x) {
            Some(s) => Some(Some(s)),
            None => None,
        },
        None => Some(None),
    }
}

impl ValueType {
    pub fn get_implicit_cast_priority(&self) -> (p: u32)
        ensures
            p == spec_priority(*self),
    {
        match self {
            Self::Bool => 0,
            Self::U8 => 1,
            Self::I8 => 2,
            Self::U16 => 3,
            Self::I16 => 4,
            Self::U32 => 5,
            Self::I32 => 6,
            Self::U64 => 7,
            Self::I64 => 8,
            Self::USize => 9,
            Self::F32 => 10,
            Self::F64 => 11,
        }
    }

    pub fn is_signed(&self) -> (s: bool)
        ensures
            s == spec_is_signed(*self),
    {
        match self {
            Self::Bool | Self::U8 | Self::U16 | Self::U32 | Self::U64 | Self::USize => false,
            Self::I8 | Self::I16 | Self::I32 | Self::I64 | Self::F32 | Self::F64 => true,
        }
    }

    pub fn is_float(&self) -> (f: bool)
        ensures
            f == spec_is_float(*self),
    {
        match self {
            Self::F32 | Self::F64 => true,
            _ => false,
        }
    }

    pub fn can_implicit_cast_to(&self, to: &Self) -> (c: bool)
        ensures
            c == spec_can_implicit_cast(*self, *to),
    {
        (self.get_implicit_cast_priority() < to.get_implicit_cast_priority())
            && (to.is_signed() || !self.is_signed())
    }

    /// The common implicit-cast supertype of `a` and `b`, or
    /// `CannotImplicitCast` naming the pair, lower-priority side first.
    pub fn widen(a: Self, b: Self) -> (r: Result<Self, CommonError>)
        ensures
            match r {
                Ok(t) => spec_widen(a, b) == Some(t),
                Err(e) => spec_widen(a, b) is None && e == (CommonError::CannotImplicitCast {
                    from: spec_widen_lo(a, b),
                    to: spec_widen_hi(a, b),
                }),
            },
    {
        if a == b {
            return Ok(a);
        }
        let (lo, hi) = if a.get_implicit_cast_priority() > b.get_implicit_cast_priority() {
            (b, a)
        } else {
            (a, b)
        };
        if lo.can_implicit_cast_to(&hi) {
            Ok(hi)
        } else {
            Err(CommonError::CannotImplicitCast { from: lo, to: hi })
        }
    }

    pub fn widen_optional_greedy(a: Option<Self>, b: Option<Self>) -> (r: Result<
        Option<Self>,
        CommonError,
    >)
        ensures
            match r {
                Ok(t) => spec_widen_optional_greedy(a, b) == Some(t),
                Err(e) => spec_widen_optional_greedy(a, b) is None && a is Some && b is Some && e
                    == (CommonError::CannotImplicitCast {
                    from: spec_widen_lo(a->Some_0, b->Some_0),
                    to: spec_widen_hi(a->Some_0, b->Some_0),
                }),
            },
    {
        match (a, b) {
            (Some(x), Some(y)) => match Self::widen(x, y) {
                Ok(w) => Ok(Some(w)),
                Err(e) => Err(e),
            },
            (Some(x), None) => Ok(Some(x)),
            (None, Some(y)) => Ok(Some(y)),
            (None, None) => Ok(None),
        }
    }

    pub fn widen_optional_non_greedy(a: Option<Self>, b: Option<Self>) -> (r: Result<
        Option<Self>,
        CommonError,
    >)
        ensures
            match r {
                Ok(t) => spec_widen_optional_non_greedy(a, b) == Some(t),
                Err(e) => spec_widen_optional_non_greedy(a, b) is None && a is Some && b is Some
                    && e == (CommonError::CannotImplicitCast {
                    from: spec_widen_lo(a->Some_0, b->Some_0),
                    to: spec_widen_hi(a->Some_0, b->Some_0),
                }),
            },
    {
        match (a, b) {
            (Some(x), Some(y)) => match Self::widen(x, y) {
                Ok(w) => Ok(Some(w)),
                Err(e) => Err(e),
            },
            _ => Ok(None),
        }
    }

    /// The signed counterpart of an unsigned integer type, or
    /// `CannotMakeSigned` for Bool and USize.
    pub fn to_signed(&self) -> (r: Result<Self, CommonError>)
        ensures
            match r {
                Ok(t) => spec_to_signed(*self) == Some(t),
                Err(e) => spec_to_signed(*self) is None && e == (CommonError::CannotMakeSigned {
                    from: *self,
                }),
            },
    {
        match self {
            Self::Bool | Self::USize => Err(CommonError::CannotMakeSigned { from: *self }),
            Self::U8 => Ok(Self::I8),
            Self::U16 => Ok(Self::I16),
            Self::U32 => Ok(Self::I32),
            Self::U64 => Ok(Self::I64),
            _ => Ok(*self),
        }
    }

    pub fn to_signed_optional(t: Option<Self>) -> (r: Result<Option<Self>, CommonError>)
        ensures
            match r {
                Ok(s) => spec_to_signed_optional(t) == Some(s),
                Err(e) => spec_to_signed_optional(t) is None && t is Some && e == (
                CommonError::CannotMakeSigned { from: t->Some_0 }),
            },
    {
        match t {
            Some(x) => match x.to_signed() {
                Ok(s) => Ok(Some(s)),
                Err(e) => Err(e),
            },
            None => Ok(None),
        }
    }
}

/// Widening is commutative: `widen(a, b)` and `widen(b, a)` agree, whether
/// they are defined or not.
pub proof fn lemma_widen_commutative(a: ValueType, b: ValueType)
    ensures
        spec_widen(a, b) == spec_widen(b, a),
{
    if a != b {
        assert(spec_priority(a) != spec_priority(b)) by {
            lemma_priority_injective(a, b);
        }
    }
}

/// Distinct types have distinct priorities.
pub proof fn lemma_priority_injective(a: ValueType, b: ValueType)
    ensures
        a != b ==> spec_priority(a) != spec_priority(b),
{
}

} // verus!
