//! The expression tree handed over by the parser. Child ordering is fixed:
//! function arguments in declared order, ternary children `(cond, then, else)`.

use vstd::prelude::*;
use crate::value::{UntypedValue, Value};

verus! {

#[derive(PartialEq, Eq, Structural, Clone, Copy, Debug)]
pub enum UnaryOperator {
    Negate,
    LogicalNot,
}

#[derive(PartialEq, Eq, Structural, Clone, Copy, Debug)]
pub enum BinaryOperator {
    Mul,
    Div,
    Mod,
    Add,
    Sub,
    Equals,
    NotEquals,
    LesserThanEquals,
    GreaterThanEquals,
    LesserThan,
    GreaterThan,
    LogicalAnd,
    LogicalOr,
}

/// An arithmetic operator, as opposed to a comparison or a logical connective.
pub open spec fn spec_is_arithmetic(op: BinaryOperator) -> bool {
    match op {
        BinaryOperator::Mul
        | BinaryOperator::Div
        | BinaryOperator::Mod
        | BinaryOperator::Add
        | BinaryOperator::Sub => true,
        _ => false,
    }
}

/// An ordering or equality comparison; the result type is always Bool.
pub open spec fn spec_is_comparison(op: BinaryOperator) -> bool {
    match op {
        BinaryOperator::Equals
        | BinaryOperator::NotEquals
        | BinaryOperator::LesserThanEquals
        | BinaryOperator::GreaterThanEquals
        | BinaryOperator::LesserThan
        | BinaryOperator::GreaterThan => true,
        _ => false,
    }
}

impl BinaryOperator {
    pub fn is_arithmetic(&self) -> (r: bool)
        ensures
            r == spec_is_arithmetic(*self),
    {
        match self {
            Self::Mul | Self::Div | Self::Mod | Self::Add | Self::Sub => true,
            _ => false,
        }
    }
}

/// The parser's output tree. `Binding` is a bare reference to a named symbol;
/// whether it is a constant or a variable is resolved against the table.
#[derive(Debug)]
pub enum Expression {
    TypedValue { value: Value },
    UntypedValue { value: UntypedValue },
    FunctionCall { name: String, arguments: Vec<Expression> },
    UnaryOperation { operator: UnaryOperator, right: Box<Expression> },
    BinaryOperation { operator: BinaryOperator, left: Box<Expression>, right: Box<Expression> },
    Binding { name: String },
    Ternary { cond: Box<Expression>, left: Box<Expression>, right: Box<Expression> },
}

} // verus!
