//! The failure kinds raised across the compilation phases.

use vstd::prelude::*;
use crate::value_type::ValueType;
use crate::value::UntypedValue;

verus! {

/// Failures of the shared numeric model and of symbol registration.
#[derive(Clone, Debug)]
pub enum CommonError {
    CannotImplicitCast { from: ValueType, to: ValueType },
    CannotResolve { from: UntypedValue, to: ValueType },
    CannotMakeSigned { from: ValueType },
    BindingAlreadyExists { name: String },
    FuncSpecArgBadType { expected: ValueType, got: ValueType },
    FuncSpecArgBadParamIndex { idx: usize, count: usize },
    FuncSpecArgParamIndexConflict { idx: usize, new_type: ValueType, existing_type: ValueType },
    FuncSpecArgDiscontinuousParamMap { max_idx: usize, missing_idx: usize },
}

/// Failures of semantic analysis over the flat expression tree.
#[derive(Clone, Debug)]
pub enum AnalysisError {
    BadAnalysis,
    EmptyAST,
    InvalidTypeForOp { value_type: ValueType },
    UnknownBinding { name: String },
    BadBindingKind { name: String, is_var: bool },
    BadArguments { name: String, expected_argc: usize, actual_argc: usize },
    UnknownHiddenState { idx: usize },
}

/// Failures of lowering an analyzed tree to the instruction stream.
#[derive(Clone, Debug)]
pub enum CodegenError {
    UnexpectedBaseType,
    UnknownBinding { name: String },
    BadBindingType { name: String, actual_type: ValueType, expected_type: ValueType },
    BadBindingKind { name: String, is_var: bool },
    UnknownHiddenState { idx: usize },
}

/// Any compilation failure: the phases keep their own taxonomies and this
/// carries whichever one was raised.
#[derive(Clone, Debug)]
pub enum HotEvalError {
    Common { err: CommonError },
    Analysis { err: AnalysisError },
    Codegen { err: CodegenError },
}

/// The failures type inference can raise: a widening or signing conflict, a
/// literal that cannot be resolved at the demanded type, or the verdict that
/// the tree cannot be typed.
pub open spec fn spec_inference_error(e: HotEvalError) -> bool {
    match e {
        HotEvalError::Common { err } => match err {
            CommonError::CannotImplicitCast { .. }
            | CommonError::CannotMakeSigned { .. }
            | CommonError::CannotResolve { .. } => true,
            _ => false,
        },
        HotEvalError::Analysis { err } => err matches AnalysisError::BadAnalysis,
        _ => false,
    }
}

/// The failures flattening an expression against a table can raise: name,
/// kind and arity problems, an out-of-range hidden-state index, or a
/// structurally bad specialization.
pub open spec fn spec_flatten_error(e: HotEvalError) -> bool {
    match e {
        HotEvalError::Analysis { err } => match err {
            AnalysisError::UnknownBinding { .. }
            | AnalysisError::BadBindingKind { .. }
            | AnalysisError::BadArguments { .. }
            | AnalysisError::UnknownHiddenState { .. }
            | AnalysisError::BadAnalysis => true,
            _ => false,
        },
        _ => false,
    }
}

} // verus!
