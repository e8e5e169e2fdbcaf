//! Tests of the flat analysis tree and the bidirectional type inference.

use hot_eval::analysis::{PackedAnalysisNodeData, PackedAnalysisTree};
use hot_eval::ast::{BinaryOperator, Expression, UnaryOperator};
use hot_eval::errors::{AnalysisError, CommonError, HotEvalError};
use hot_eval::table::Table;
use hot_eval::value::{UntypedValue, Value};
use hot_eval::value_type::ValueType;

fn int_lit(n: u64) -> Expression {
    Expression::UntypedValue { value: UntypedValue::Integer { inner: n } }
}

fn flt(x: f64) -> Expression {
    Expression::UntypedValue { value: UntypedValue::Float { bits: x.to_bits() } }
}

fn bin(op: BinaryOperator, l: Expression, r: Expression) -> Expression {
    Expression::BinaryOperation { operator: op, left: Box::new(l), right: Box::new(r) }
}

#[test]
fn variable_plus_literal_adopts_variable_type() {
    // x + 1 with x: I32 resolves the untyped 1 to I32 (sibling-driven)
    let mut table = Table::new();
    table.add_variable("x".to_string(), ValueType::I32).unwrap();
    let ast = bin(BinaryOperator::Add, Expression::Binding { name: "x".to_string() }, int_lit(1));
    let tree = PackedAnalysisTree::from_ast(&ast, &table).unwrap();
    assert_eq!(tree.data.len(), 3);
    assert_eq!(tree.get_expr_type().unwrap(), ValueType::I32);
    assert_eq!(tree.get_node_type(0).unwrap(), ValueType::I32);
    assert_eq!(tree.get_node_type(1).unwrap(), ValueType::I32);
    // the literal was converted into a typed value
    assert!(matches!(
        tree.data[1],
        PackedAnalysisNodeData::TypedValue { value: Value::I32 { inner: 1 } }
    ));
    // flat-tree ordering: root is last, children point backwards
    assert_eq!(tree.parents[0], Some(2));
    assert_eq!(tree.parents[1], Some(2));
    assert_eq!(tree.parents[2], None);
}

#[test]
fn integer_widens_to_float_sibling() {
    // 1 + 2.5: nothing constrains either literal during the fixed point, so
    // the fallback types the integer I32 and the float F64; the second fixed
    // point then widens the sum to F64 (the cast to F64 happens at codegen)
    let table = Table::new();
    let ast = bin(BinaryOperator::Add, int_lit(1), flt(2.5));
    let tree = PackedAnalysisTree::from_ast(&ast, &table).unwrap();
    assert_eq!(tree.get_expr_type().unwrap(), ValueType::F64);
    assert!(matches!(
        tree.data[0],
        PackedAnalysisNodeData::TypedValue { value: Value::I32 { inner: 1 } }
    ));
    assert!(matches!(
        tree.data[1],
        PackedAnalysisNodeData::TypedValue { value: Value::F64 { bits } } if bits == 2.5f64.to_bits()
    ));
}

#[test]
fn negated_literal_defaults_to_i32() {
    // -1: Negate of untyped 1 resolves through to_signed to I32
    let table = Table::new();
    let ast = Expression::UnaryOperation {
        operator: UnaryOperator::Negate,
        right: Box::new(int_lit(1)),
    };
    let tree = PackedAnalysisTree::from_ast(&ast, &table).unwrap();
    assert_eq!(tree.get_expr_type().unwrap(), ValueType::I32);
    assert!(matches!(
        tree.data[0],
        PackedAnalysisNodeData::TypedValue { value: Value::I32 { inner: 1 } }
    ));
}

#[test]
fn large_literal_defaults_to_i64() {
    let table = Table::new();
    let n = (i32::MAX as u64) + 1;
    let tree = PackedAnalysisTree::from_ast(&int_lit(n), &table).unwrap();
    assert_eq!(tree.get_expr_type().unwrap(), ValueType::I64);
}

#[test]
fn oversized_literal_fails_analysis() {
    // u64::MAX fits neither I32 nor I64 and nothing else constrains it
    let table = Table::new();
    let r = PackedAnalysisTree::from_ast(&int_lit(u64::MAX), &table);
    assert!(matches!(
        r,
        Err(HotEvalError::Analysis { err: AnalysisError::BadAnalysis })
    ));
}

#[test]
fn comparison_types_are_bool_operands_widen() {
    // (x < 0) with x: F64: comparison is Bool, the 0 becomes F64
    let mut table = Table::new();
    table.add_variable("y".to_string(), ValueType::F64).unwrap();
    let ast = bin(
        BinaryOperator::LesserThan,
        Expression::Binding { name: "y".to_string() },
        int_lit(0),
    );
    let tree = PackedAnalysisTree::from_ast(&ast, &table).unwrap();
    assert_eq!(tree.get_expr_type().unwrap(), ValueType::Bool);
    assert_eq!(tree.get_node_type(1).unwrap(), ValueType::F64);
}

#[test]
fn ternary_branches_widen() {
    // cond ? 1 : 2.5 widens the ternary itself to F64
    let table = Table::new();
    let ast = Expression::Ternary {
        cond: Box::new(Expression::TypedValue { value: Value::Bool { inner: true } }),
        left: Box::new(int_lit(1)),
        right: Box::new(flt(2.5)),
    };
    let tree = PackedAnalysisTree::from_ast(&ast, &table).unwrap();
    assert_eq!(tree.get_expr_type().unwrap(), ValueType::F64);
    // the branches keep their fallback types; codegen casts them to F64
    assert_eq!(tree.get_node_type(1).unwrap(), ValueType::I32);
    assert_eq!(tree.get_node_type(2).unwrap(), ValueType::F64);
}

#[test]
fn incompatible_operands_fail() {
    // I32 + U64 has no common implicit supertype
    let mut table = Table::new();
    table.add_variable("a".to_string(), ValueType::I32).unwrap();
    table.add_variable("b".to_string(), ValueType::U64).unwrap();
    let ast = bin(
        BinaryOperator::Add,
        Expression::Binding { name: "a".to_string() },
        Expression::Binding { name: "b".to_string() },
    );
    let r = PackedAnalysisTree::from_ast(&ast, &table);
    assert!(matches!(
        r,
        Err(HotEvalError::Common { err: CommonError::CannotImplicitCast { .. } })
    ));
}

#[test]
fn unknown_binding_fails() {
    let table = Table::new();
    let ast = Expression::Binding { name: "ghostvar".to_string() };
    match PackedAnalysisTree::from_ast(&ast, &table) {
        Err(HotEvalError::Analysis { err: AnalysisError::UnknownBinding { name } }) => {
            assert_eq!(name, "ghostvar");
        },
        other => panic!("expected UnknownBinding, got {:?}", other),
    }
}

#[test]
fn calling_a_variable_fails() {
    let mut table = Table::new();
    table.add_variable("x".to_string(), ValueType::I32).unwrap();
    let ast = Expression::FunctionCall { name: "x".to_string(), arguments: vec![] };
    assert!(matches!(
        PackedAnalysisTree::from_ast(&ast, &table),
        Err(HotEvalError::Analysis { err: AnalysisError::BadBindingKind { is_var: true, .. } })
    ));
}

#[test]
fn wrong_argument_count_fails() {
    let mut table = Table::new();
    table.add_function_1::<u32, u32>("f".to_string(), 0x1000).unwrap();
    let ast = Expression::FunctionCall { name: "f".to_string(), arguments: vec![] };
    match PackedAnalysisTree::from_ast(&ast, &table) {
        Err(HotEvalError::Analysis {
            err: AnalysisError::BadArguments { expected_argc, actual_argc, .. },
        }) => {
            assert_eq!(expected_argc, 1);
            assert_eq!(actual_argc, 0);
        },
        other => panic!("expected BadArguments, got {:?}", other),
    }
}

#[test]
fn call_argument_adopts_declared_type() {
    // f(2) with f: fn(u16) -> u32 resolves the literal to U16 via the hint
    let mut table = Table::new();
    table.add_function_1::<u32, u16>("f".to_string(), 0x1000).unwrap();
    let ast = Expression::FunctionCall { name: "f".to_string(), arguments: vec![int_lit(2)] };
    let tree = PackedAnalysisTree::from_ast(&ast, &table).unwrap();
    assert_eq!(tree.get_expr_type().unwrap(), ValueType::U32);
    assert_eq!(tree.get_node_type(0).unwrap(), ValueType::U16);
}

#[test]
fn constants_inline_as_typed_values() {
    let mut table = Table::new();
    table.add_const("c".to_string(), Value::I16 { inner: -3 }).unwrap();
    let ast = Expression::Binding { name: "c".to_string() };
    let tree = PackedAnalysisTree::from_ast(&ast, &table).unwrap();
    assert_eq!(tree.get_expr_type().unwrap(), ValueType::I16);
    assert!(matches!(
        tree.data[0],
        PackedAnalysisNodeData::TypedValue { value: Value::I16 { inner: -3 } }
    ));
}

#[test]
fn empty_tree_reports_empty_ast() {
    let tree = PackedAnalysisTree {
        data: vec![],
        resolved_types: vec![],
        parents: vec![],
    };
    assert!(matches!(tree.get_expr_type(), Err(AnalysisError::EmptyAST)));
}
