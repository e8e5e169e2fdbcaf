//! Tests of the lowering: an interpreter for the emitted instruction stream
//! runs compiled expressions the way a JIT backend would, reading slab slots
//! through their baked addresses and dispatching indirect calls through a
//! table of host closures keyed by baked function address.

use std::collections::HashMap;

use hot_eval::analysis::PackedAnalysisTree;
use hot_eval::ast::{BinaryOperator, Expression, UnaryOperator};
use hot_eval::binding::FnSpecCallArg;
use hot_eval::codegen::{cast_if_needed, from_ast_typed_value, CompilationContext, CompiledExpression, IRValue, JITContext};
use hot_eval::errors::{CodegenError, HotEvalError};
use hot_eval::ir::{FloatBinOp, FloatPredicate, FunctionBuilder, Instruction, IntBinOp, IntPredicate, IRFunction, Terminator};
use hot_eval::slab::Slab;
use hot_eval::table::Table;
use hot_eval::value::{UntypedValue, Value};
use hot_eval::value_type::ValueType;

#[derive(Clone, Copy, Debug)]
enum V {
    I { bits: u64, width: u32 },
    F32(f32),
    F64(f64),
}

fn width_of(t: &ValueType) -> u32 {
    match t {
        ValueType::U8 | ValueType::I8 => 8,
        ValueType::U16 | ValueType::I16 => 16,
        ValueType::U32 | ValueType::I32 => 32,
        ValueType::U64 | ValueType::I64 => 64,
        ValueType::USize => usize::BITS,
        ValueType::F32 => 32,
        ValueType::F64 => 64,
        ValueType::Bool => 1,
    }
}

fn mask(bits: u64, width: u32) -> u64 {
    if width >= 64 {
        bits
    } else {
        bits & ((1u64 << width) - 1)
    }
}

fn sext(bits: u64, width: u32) -> i64 {
    if width >= 64 {
        bits as i64
    } else {
        let shift = 64 - width;
        (((bits << shift) as i64) >> shift) as i64
    }
}

fn int_of(v: &V) -> (u64, u32) {
    match v {
        V::I { bits, width } => (*bits, *width),
        other => panic!("expected int value, got {:?}", other),
    }
}

fn raw_bits(v: &V) -> u64 {
    match v {
        V::I { bits, .. } => *bits,
        V::F32(x) => x.to_bits() as u64,
        V::F64(x) => x.to_bits(),
    }
}

fn value_from_bits(t: &ValueType, bits: u64) -> V {
    match t {
        ValueType::F32 => V::F32(f32::from_bits(bits as u32)),
        ValueType::F64 => V::F64(f64::from_bits(bits)),
        _ => V::I { bits: mask(bits, width_of(t)), width: width_of(t) },
    }
}

struct Host<'a> {
    fns: HashMap<usize, Box<dyn FnMut(&[u64]) -> u64 + 'a>>,
}

fn interpret(func: &IRFunction, mem: &HashMap<usize, u64>, host: &mut Host) -> V {
    let mut regs: Vec<Option<V>> = vec![None; func.reg_count];
    let mut cur: usize = 0;
    let mut prev: usize = usize::MAX;
    loop {
        let block = &func.blocks[cur];
        for instr in block.instructions.iter() {
            match instr {
                Instruction::ConstInt { dst, value_type, bits } => {
                    regs[*dst] = Some(V::I {
                        bits: mask(*bits, width_of(value_type)),
                        width: width_of(value_type),
                    });
                },
                Instruction::ConstFloat { dst, value_type, bits } => {
                    regs[*dst] = Some(match value_type {
                        ValueType::F32 => V::F32(f32::from_bits(*bits as u32)),
                        _ => V::F64(f64::from_bits(*bits)),
                    });
                },
                Instruction::IntCompare { dst, pred, lhs, rhs } => {
                    let (a, w) = int_of(regs[*lhs].as_ref().unwrap());
                    let (b, _) = int_of(regs[*rhs].as_ref().unwrap());
                    let (sa, sb) = (sext(a, w), sext(b, w));
                    let r = match pred {
                        IntPredicate::Eq => a == b,
                        IntPredicate::Ne => a != b,
                        IntPredicate::Ult => a < b,
                        IntPredicate::Ule => a <= b,
                        IntPredicate::Ugt => a > b,
                        IntPredicate::Uge => a >= b,
                        IntPredicate::Slt => sa < sb,
                        IntPredicate::Sle => sa <= sb,
                        IntPredicate::Sgt => sa > sb,
                        IntPredicate::Sge => sa >= sb,
                    };
                    regs[*dst] = Some(V::I { bits: r as u64, width: 1 });
                },
                Instruction::FloatCompare { dst, pred, lhs, rhs } => {
                    let r = match (regs[*lhs].as_ref().unwrap(), regs[*rhs].as_ref().unwrap()) {
                        (V::F32(a), V::F32(b)) => float_cmp(*a as f64, *b as f64, pred),
                        (V::F64(a), V::F64(b)) => float_cmp(*a, *b, pred),
                        other => panic!("mixed float compare {:?}", other),
                    };
                    regs[*dst] = Some(V::I { bits: r as u64, width: 1 });
                },
                Instruction::IntCast { dst, to, is_signed, src } => {
                    let (a, w) = int_of(regs[*src].as_ref().unwrap());
                    let w2 = width_of(to);
                    let bits = if w2 > w {
                        if *is_signed {
                            mask(sext(a, w) as u64, w2)
                        } else {
                            a
                        }
                    } else {
                        mask(a, w2)
                    };
                    regs[*dst] = Some(V::I { bits, width: w2 });
                },
                Instruction::FloatToInt { dst, to, is_signed, src } => {
                    let x = match regs[*src].as_ref().unwrap() {
                        V::F32(a) => *a as f64,
                        V::F64(a) => *a,
                        other => panic!("expected float, got {:?}", other),
                    };
                    let w2 = width_of(to);
                    let bits = if *is_signed {
                        mask((x as i64) as u64, w2)
                    } else {
                        mask(x as u64, w2)
                    };
                    regs[*dst] = Some(V::I { bits, width: w2 });
                },
                Instruction::IntToFloat { dst, to, src_signed, src } => {
                    let (a, w) = int_of(regs[*src].as_ref().unwrap());
                    let x = if *src_signed {
                        sext(a, w) as f64
                    } else {
                        a as f64
                    };
                    regs[*dst] = Some(match to {
                        ValueType::F32 => V::F32(x as f32),
                        _ => V::F64(x),
                    });
                },
                Instruction::FloatCast { dst, to, src } => {
                    let x = match regs[*src].as_ref().unwrap() {
                        V::F32(a) => *a as f64,
                        V::F64(a) => *a,
                        other => panic!("expected float, got {:?}", other),
                    };
                    regs[*dst] = Some(match to {
                        ValueType::F32 => V::F32(x as f32),
                        _ => V::F64(x),
                    });
                },
                Instruction::IntBinary { dst, op, lhs, rhs } => {
                    let (a, w) = int_of(regs[*lhs].as_ref().unwrap());
                    let (b, _) = int_of(regs[*rhs].as_ref().unwrap());
                    let bits = match op {
                        IntBinOp::Add => mask(a.wrapping_add(b), w),
                        IntBinOp::Sub => mask(a.wrapping_sub(b), w),
                        IntBinOp::Mul => mask(a.wrapping_mul(b), w),
                        IntBinOp::DivUnsigned => mask(a / b, w),
                        IntBinOp::DivSigned => mask((sext(a, w) / sext(b, w)) as u64, w),
                        IntBinOp::RemUnsigned => mask(a % b, w),
                        IntBinOp::RemSigned => mask((sext(a, w) % sext(b, w)) as u64, w),
                    };
                    regs[*dst] = Some(V::I { bits, width: w });
                },
                Instruction::FloatBinary { dst, op, lhs, rhs } => {
                    let f = |a: f64, b: f64| match op {
                        FloatBinOp::Add => a + b,
                        FloatBinOp::Sub => a - b,
                        FloatBinOp::Mul => a * b,
                        FloatBinOp::Div => a / b,
                        FloatBinOp::Rem => a % b,
                    };
                    regs[*dst] = Some(
                        match (regs[*lhs].as_ref().unwrap(), regs[*rhs].as_ref().unwrap()) {
                            (V::F32(a), V::F32(b)) => V::F32(f(*a as f64, *b as f64) as f32),
                            (V::F64(a), V::F64(b)) => V::F64(f(*a, *b)),
                            other => panic!("mixed float binary {:?}", other),
                        },
                    );
                },
                Instruction::IntNeg { dst, src } => {
                    let (a, w) = int_of(regs[*src].as_ref().unwrap());
                    regs[*dst] = Some(V::I { bits: mask(a.wrapping_neg(), w), width: w });
                },
                Instruction::FloatNeg { dst, src } => {
                    regs[*dst] = Some(match regs[*src].as_ref().unwrap() {
                        V::F32(a) => V::F32(-*a),
                        V::F64(a) => V::F64(-*a),
                        other => panic!("expected float, got {:?}", other),
                    });
                },
                Instruction::Load { dst, value_type, addr } => {
                    let bits = *mem.get(addr).expect("load from unknown address");
                    regs[*dst] = Some(value_from_bits(value_type, bits));
                },
                Instruction::CallIndirect { dst, fn_addr, ret_type, arg_types: _, args } => {
                    let raw: Vec<u64> = args
                        .iter()
                        .map(|r| raw_bits(regs[*r].as_ref().unwrap()))
                        .collect();
                    let f = host.fns.get_mut(fn_addr).expect("call to unknown address");
                    let out = f(&raw);
                    regs[*dst] = Some(value_from_bits(ret_type, out));
                },
                Instruction::Phi { dst, value_type: _, incoming_a, incoming_b } => {
                    let v = if prev == incoming_a.1 {
                        regs[incoming_a.0].unwrap()
                    } else if prev == incoming_b.1 {
                        regs[incoming_b.0].unwrap()
                    } else {
                        panic!("phi from unexpected predecessor {}", prev);
                    };
                    regs[*dst] = Some(v);
                },
            }
        }
        match block.terminator.as_ref().expect("block without terminator") {
            Terminator::Branch { target } => {
                prev = cur;
                cur = *target;
            },
            Terminator::CondBranch { cond, then_block, else_block } => {
                let (c, _) = int_of(regs[*cond].as_ref().unwrap());
                prev = cur;
                cur = if c != 0 { *then_block } else { *else_block };
            },
            Terminator::Return { value } => {
                return regs[*value].unwrap();
            },
        }
    }
}

fn float_cmp(a: f64, b: f64, pred: &FloatPredicate) -> bool {
    let ordered = !a.is_nan() && !b.is_nan();
    match pred {
        FloatPredicate::Oeq => ordered && a == b,
        FloatPredicate::One => ordered && a != b,
        FloatPredicate::Olt => ordered && a < b,
        FloatPredicate::Ole => ordered && a <= b,
        FloatPredicate::Ogt => ordered && a > b,
        FloatPredicate::Oge => ordered && a >= b,
        FloatPredicate::Ueq => !ordered || a == b,
        FloatPredicate::Une => !ordered || a != b,
    }
}

fn slab_memory(slab: &Slab) -> HashMap<usize, u64> {
    let mut mem = HashMap::new();
    for i in 0..slab.slot_count() {
        mem.insert(slab.get_address(i), slab.get_raw(i) as u64);
    }
    mem
}

fn int_lit(n: u64) -> Expression {
    Expression::UntypedValue { value: UntypedValue::Integer { inner: n } }
}

fn flt(x: f64) -> Expression {
    Expression::UntypedValue { value: UntypedValue::Float { bits: x.to_bits() } }
}

fn bin(op: BinaryOperator, l: Expression, r: Expression) -> Expression {
    Expression::BinaryOperation { operator: op, left: Box::new(l), right: Box::new(r) }
}

fn var(name: &str) -> Expression {
    Expression::Binding { name: name.to_string() }
}

#[test]
fn variable_plus_one_evaluates() {
    // x + 1 with x: I32 = 41 evaluates to I32 42
    let mut table = Table::new();
    table.add_variable("x".to_string(), ValueType::I32).unwrap();
    let mut jit = JITContext::new();
    let mut ctx = jit.make_compilation_context();
    let ast = bin(BinaryOperator::Add, var("x"), int_lit(1));
    let mut ce = ctx.compile_ast(&ast, &table).unwrap();
    assert_eq!(ce.value_type, ValueType::I32);
    let idx = ce.slab.get_binding_index(&"x".to_string()).unwrap();
    ce.slab.set_value(idx, Value::I32 { inner: 41 });
    let mem = slab_memory(&ce.slab);
    let mut host = Host { fns: HashMap::new() };
    match interpret(&ce.func, &mem, &mut host) {
        V::I { bits, width } => {
            assert_eq!(width, 32);
            assert_eq!(bits, 42);
        },
        other => panic!("expected int result, got {:?}", other),
    }
}

#[test]
fn float_ternary_absolute_value() {
    // y < 0 ? -y : y with y = -7.0 evaluates to F64 7.0
    let mut table = Table::new();
    table.add_variable("y".to_string(), ValueType::F64).unwrap();
    let mut ctx = CompilationContext::new(0);
    let ast = Expression::Ternary {
        cond: Box::new(bin(BinaryOperator::LesserThan, var("y"), int_lit(0))),
        left: Box::new(Expression::UnaryOperation {
            operator: UnaryOperator::Negate,
            right: Box::new(var("y")),
        }),
        right: Box::new(var("y")),
    };
    let mut ce = ctx.compile_ast(&ast, &table).unwrap();
    assert_eq!(ce.value_type, ValueType::F64);
    let idx = ce.slab.get_binding_index(&"y".to_string()).unwrap();
    ce.slab.set_value(idx, Value::F64 { bits: (-7.0f64).to_bits() });
    let mem = slab_memory(&ce.slab);
    let mut host = Host { fns: HashMap::new() };
    match interpret(&ce.func, &mem, &mut host) {
        V::F64(x) => assert_eq!(x, 7.0),
        other => panic!("expected f64 result, got {:?}", other),
    }
}

fn compile_const_expr(ast: &Expression) -> CompiledExpression {
    let table = Table::new();
    let mut ctx = CompilationContext::new(0);
    ctx.compile_ast(ast, &table).unwrap()
}

fn run_const(ast: &Expression) -> V {
    let ce = compile_const_expr(ast);
    let mem = slab_memory(&ce.slab);
    let mut host = Host { fns: HashMap::new() };
    interpret(&ce.func, &mem, &mut host)
}

fn nan() -> Expression {
    Expression::TypedValue { value: Value::F64 { bits: f64::NAN.to_bits() } }
}

fn as_bool(v: V) -> bool {
    match v {
        V::I { bits, width: 1 } => bits != 0,
        other => panic!("expected bool result, got {:?}", other),
    }
}

#[test]
fn nan_equality_is_false() {
    assert!(!as_bool(run_const(&bin(BinaryOperator::Equals, nan(), nan()))));
}

#[test]
fn nan_inequality_is_true() {
    // not-equals lowers to the unordered predicate, so two NaNs compare
    // not-equal
    assert!(as_bool(run_const(&bin(BinaryOperator::NotEquals, nan(), nan()))));
}

#[test]
fn float_not_equals_uses_unordered_predicate() {
    let ast = bin(BinaryOperator::NotEquals, nan(), flt(1.0));
    let ce = compile_const_expr(&ast);
    let has_une = ce.func.blocks.iter().any(|b| {
        b.instructions.iter().any(|i| {
            matches!(i, Instruction::FloatCompare { pred: FloatPredicate::Une, .. })
        })
    });
    assert!(has_une);
}

#[test]
fn not_nan_is_true() {
    let ast = Expression::UnaryOperation {
        operator: UnaryOperator::LogicalNot,
        right: Box::new(nan()),
    };
    assert!(as_bool(run_const(&ast)));
}

#[test]
fn nan_is_falsy_as_condition() {
    // NaN ? 1 : 2 takes the else branch: converting NaN to Bool uses the
    // ordered comparison, so it is false
    let ast = Expression::Ternary {
        cond: Box::new(nan()),
        left: Box::new(int_lit(1)),
        right: Box::new(int_lit(2)),
    };
    match run_const(&ast) {
        V::I { bits, .. } => assert_eq!(bits, 2),
        other => panic!("expected int result, got {:?}", other),
    }
}

#[test]
fn nan_ordering_comparisons_are_false() {
    assert!(!as_bool(run_const(&bin(BinaryOperator::LesserThan, nan(), flt(1.0)))));
    assert!(!as_bool(run_const(&bin(BinaryOperator::GreaterThanEquals, nan(), flt(1.0)))));
}

#[test]
fn short_circuit_and_skips_rhs() {
    // (1 == 2) && host_counter(): the host function must never be called
    let mut table = Table::new();
    let counter_addr: usize = 0x1234;
    table.add_function_0::<bool>("host_counter".to_string(), counter_addr).unwrap();
    let ast = bin(
        BinaryOperator::LogicalAnd,
        bin(BinaryOperator::Equals, int_lit(1), int_lit(2)),
        Expression::FunctionCall { name: "host_counter".to_string(), arguments: vec![] },
    );
    let mut ctx = CompilationContext::new(0);
    let ce = ctx.compile_ast(&ast, &table).unwrap();
    let mem = slab_memory(&ce.slab);
    let mut calls = 0u32;
    {
        let mut host = Host { fns: HashMap::new() };
        host.fns.insert(
            counter_addr,
            Box::new(|_args: &[u64]| {
                calls += 1;
                1
            }),
        );
        assert!(!as_bool(interpret(&ce.func, &mem, &mut host)));
    }
    assert_eq!(calls, 0);
}

#[test]
fn and_with_true_lhs_evaluates_rhs() {
    let mut table = Table::new();
    let counter_addr: usize = 0x1234;
    table.add_function_0::<bool>("host_counter".to_string(), counter_addr).unwrap();
    let ast = bin(
        BinaryOperator::LogicalAnd,
        bin(BinaryOperator::Equals, int_lit(1), int_lit(1)),
        Expression::FunctionCall { name: "host_counter".to_string(), arguments: vec![] },
    );
    let mut ctx = CompilationContext::new(0);
    let ce = ctx.compile_ast(&ast, &table).unwrap();
    let mem = slab_memory(&ce.slab);
    let mut calls = 0u32;
    {
        let mut host = Host { fns: HashMap::new() };
        host.fns.insert(
            counter_addr,
            Box::new(|_args: &[u64]| {
                calls += 1;
                1
            }),
        );
        assert!(as_bool(interpret(&ce.func, &mem, &mut host)));
    }
    assert_eq!(calls, 1);
}

#[test]
fn short_circuit_or_skips_rhs() {
    // (1 == 1) || host_counter(): true without calling the host function
    let mut table = Table::new();
    let counter_addr: usize = 0x4321;
    table.add_function_0::<bool>("host_counter".to_string(), counter_addr).unwrap();
    let ast = bin(
        BinaryOperator::LogicalOr,
        bin(BinaryOperator::Equals, int_lit(1), int_lit(1)),
        Expression::FunctionCall { name: "host_counter".to_string(), arguments: vec![] },
    );
    let mut ctx = CompilationContext::new(0);
    let ce = ctx.compile_ast(&ast, &table).unwrap();
    let mem = slab_memory(&ce.slab);
    let mut calls = 0u32;
    {
        let mut host = Host { fns: HashMap::new() };
        host.fns.insert(
            counter_addr,
            Box::new(|_args: &[u64]| {
                calls += 1;
                1
            }),
        );
        assert!(as_bool(interpret(&ce.func, &mem, &mut host)));
    }
    assert_eq!(calls, 0);
}

#[test]
fn short_circuit_block_is_only_a_constant() {
    // structural check: in `a && b` some block holds exactly the constant
    // false and a jump, and a conditional branch targets it as its false edge
    let table = Table::new();
    let ast = bin(
        BinaryOperator::LogicalAnd,
        bin(BinaryOperator::Equals, int_lit(1), int_lit(2)),
        bin(BinaryOperator::Equals, int_lit(3), int_lit(3)),
    );
    let mut ctx = CompilationContext::new(0);
    let ce = ctx.compile_ast(&ast, &table).unwrap();
    let mut found = false;
    for block in ce.func.blocks.iter() {
        if let Some(Terminator::CondBranch { else_block, .. }) = block.terminator {
            let eb = &ce.func.blocks[else_block];
            assert_eq!(eb.instructions.len(), 1);
            assert!(matches!(
                eb.instructions[0],
                Instruction::ConstInt { value_type: ValueType::Bool, bits: 0, .. }
            ));
            assert!(matches!(eb.terminator, Some(Terminator::Branch { .. })));
            found = true;
        }
    }
    assert!(found, "no conditional branch in the compiled function");
}

#[test]
fn specialized_call_with_hidden_state() {
    // x == f(2) where f's physical parameters are (const 3, mapped, hidden
    // slot 0); the host closure computes (a * 123 - 45) / b + c
    let mut table = Table::new();
    let h = table.add_ptr_hidden_state();
    let fn_addr: usize = 0x7777;
    table.add_variable("x".to_string(), ValueType::U32).unwrap();
    table
        .add_function_3_map::<u32, u32, u32, usize>(
            "get_wanted_x".to_string(),
            fn_addr,
            FnSpecCallArg::ConstArgument { value: Value::U32 { inner: 3 } },
            FnSpecCallArg::MappedArgument { param_idx: 0 },
            FnSpecCallArg::from_hidden_state(h),
        )
        .unwrap();
    let ast = bin(
        BinaryOperator::Equals,
        var("x"),
        Expression::FunctionCall { name: "get_wanted_x".to_string(), arguments: vec![int_lit(2)] },
    );
    let mut ctx = CompilationContext::new(0);
    let mut ce = ctx.compile_ast(&ast, &table).unwrap();
    assert_eq!(ce.value_type, ValueType::Bool);
    let expected: u32 = (3 * 123 - 45) / 2 + 42;
    let xi = ce.slab.get_binding_index(&"x".to_string()).unwrap();
    ce.slab.set_value(xi, Value::U32 { inner: expected });
    ce.slab.set_raw(h, 42);
    let mem = slab_memory(&ce.slab);
    let mut host = Host { fns: HashMap::new() };
    host.fns.insert(
        fn_addr,
        Box::new(|args: &[u64]| {
            assert_eq!(args.len(), 3);
            let a = args[0] as u32;
            let b = args[1] as u32;
            let c = args[2] as u32;
            ((a * 123 - 45) / b + c) as u64
        }),
    );
    assert!(as_bool(interpret(&ce.func, &mem, &mut host)));
}

#[test]
fn unsigned_division_picks_unsigned_variant() {
    // U32 250 / 100 = 2; check both the result and the chosen variant
    let mut table = Table::new();
    table.add_const("a".to_string(), Value::U32 { inner: 250 }).unwrap();
    table.add_const("b".to_string(), Value::U32 { inner: 100 }).unwrap();
    let ast = bin(BinaryOperator::Div, var("a"), var("b"));
    let mut ctx = CompilationContext::new(0);
    let ce = ctx.compile_ast(&ast, &table).unwrap();
    let has_udiv = ce.func.blocks.iter().any(|b| {
        b.instructions.iter().any(|i| {
            matches!(i, Instruction::IntBinary { op: IntBinOp::DivUnsigned, .. })
        })
    });
    assert!(has_udiv);
    let mem = slab_memory(&ce.slab);
    let mut host = Host { fns: HashMap::new() };
    match interpret(&ce.func, &mem, &mut host) {
        V::I { bits, .. } => assert_eq!(bits, 2),
        other => panic!("expected int, got {:?}", other),
    }
}

#[test]
fn signed_remainder_matches_rust() {
    // I32: -7 % 3 is -1 (remainder, not modulo)
    let mut table = Table::new();
    table.add_const("a".to_string(), Value::I32 { inner: -7 }).unwrap();
    let ast = bin(BinaryOperator::Mod, var("a"), int_lit(3));
    let mut ctx = CompilationContext::new(0);
    let ce = ctx.compile_ast(&ast, &table).unwrap();
    let mem = slab_memory(&ce.slab);
    let mut host = Host { fns: HashMap::new() };
    match interpret(&ce.func, &mem, &mut host) {
        V::I { bits, width } => assert_eq!(sext(bits, width), -1),
        other => panic!("expected int, got {:?}", other),
    }
}

#[test]
fn mixed_width_comparison_widens() {
    // u8 200 < i32 1000: operands widen to I32 and compare signed
    let mut table = Table::new();
    table.add_const("a".to_string(), Value::U8 { inner: 200 }).unwrap();
    table.add_const("b".to_string(), Value::I32 { inner: 1000 }).unwrap();
    let ast = bin(BinaryOperator::LesserThan, var("a"), var("b"));
    let mut ctx = CompilationContext::new(0);
    let ce = ctx.compile_ast(&ast, &table).unwrap();
    let has_slt = ce.func.blocks.iter().any(|b| {
        b.instructions.iter().any(|i| {
            matches!(i, Instruction::IntCompare { pred: IntPredicate::Slt, .. })
        })
    });
    assert!(has_slt);
    let mem = slab_memory(&ce.slab);
    let mut host = Host { fns: HashMap::new() };
    assert!(as_bool(interpret(&ce.func, &mem, &mut host)));
}

#[test]
fn cast_identity_emits_nothing() {
    let mut builder = FunctionBuilder::new();
    let v = from_ast_typed_value(&Value::I32 { inner: 5 }, &mut builder);
    let before = builder.blocks[0].instructions.len();
    let w = cast_if_needed(v, ValueType::I32, ValueType::I32, &mut builder);
    assert_eq!(builder.blocks[0].instructions.len(), before);
    assert_eq!(v, w);
    // a real cast does emit
    let _ = cast_if_needed(v, ValueType::I32, ValueType::I64, &mut builder);
    assert_eq!(builder.blocks[0].instructions.len(), before + 1);
}

#[test]
fn nan_to_bool_uses_ordered_ne() {
    let mut builder = FunctionBuilder::new();
    let v = from_ast_typed_value(&Value::F64 { bits: f64::NAN.to_bits() }, &mut builder);
    let _ = cast_if_needed(v, ValueType::F64, ValueType::Bool, &mut builder);
    let last = builder.blocks[0].instructions.last().unwrap();
    assert!(matches!(
        last,
        Instruction::FloatCompare { pred: FloatPredicate::One, .. }
    ));
}

#[test]
fn logical_not_on_float_uses_unordered_eq() {
    let table = Table::new();
    let ast = Expression::UnaryOperation {
        operator: UnaryOperator::LogicalNot,
        right: Box::new(nan()),
    };
    let mut ctx = CompilationContext::new(0);
    let ce = ctx.compile_ast(&ast, &table).unwrap();
    let has_ueq = ce.func.blocks.iter().any(|b| {
        b.instructions.iter().any(|i| {
            matches!(i, Instruction::FloatCompare { pred: FloatPredicate::Ueq, .. })
        })
    });
    assert!(has_ueq);
}

#[test]
fn context_and_function_ids_are_sequential() {
    let mut jit = JITContext::new();
    let mut c0 = jit.make_compilation_context();
    let c1 = jit.make_compilation_context();
    assert_eq!(c0.ctx_id, 0);
    assert_eq!(c1.ctx_id, 1);
    let table = Table::new();
    let ce0 = c0.compile_ast(&int_lit(1), &table).unwrap();
    let ce1 = c0.compile_ast(&int_lit(2), &table).unwrap();
    assert_eq!(ce0.func.ctx_id, 0);
    assert_eq!(ce0.func.fn_id, 0);
    assert_eq!(ce1.func.fn_id, 1);
}

#[test]
fn variable_type_mismatch_is_rejected() {
    // analyze against one table, hand codegen a slab whose x has another type
    let mut t1 = Table::new();
    t1.add_variable("x".to_string(), ValueType::I32).unwrap();
    let mut t2 = Table::new();
    t2.add_variable("x".to_string(), ValueType::U32).unwrap();
    let ast = bin(BinaryOperator::Add, var("x"), int_lit(1));
    let aast = PackedAnalysisTree::from_ast(&ast, &t1).unwrap();
    let slab = Slab::from_table(&t2).unwrap();
    let mut ctx = CompilationContext::new(0);
    match ctx.compile_analysed_ast(&aast, slab) {
        Err(HotEvalError::Codegen { err: CodegenError::BadBindingType { name, actual_type, expected_type } }) => {
            assert_eq!(name, "x");
            assert_eq!(actual_type, ValueType::I32);
            assert_eq!(expected_type, ValueType::U32);
        },
        other => panic!("expected BadBindingType, got {:?}", other),
    }
}

#[test]
fn unknown_variable_in_slab_is_rejected() {
    let mut t1 = Table::new();
    t1.add_variable("x".to_string(), ValueType::I32).unwrap();
    let t2 = Table::new();
    let ast = bin(BinaryOperator::Add, var("x"), int_lit(1));
    let aast = PackedAnalysisTree::from_ast(&ast, &t1).unwrap();
    let slab = Slab::from_table(&t2).unwrap();
    let mut ctx = CompilationContext::new(0);
    assert!(matches!(
        ctx.compile_analysed_ast(&aast, slab),
        Err(HotEvalError::Codegen { err: CodegenError::UnknownBinding { .. } })
    ));
}

#[test]
fn float_arithmetic_evaluates() {
    // 1 + 2.5 evaluates to F64 3.5
    match run_const(&bin(BinaryOperator::Add, int_lit(1), flt(2.5))) {
        V::F64(x) => assert_eq!(x, 3.5),
        other => panic!("expected f64, got {:?}", other),
    }
}

#[test]
fn widened_argument_is_cast_for_call() {
    // f(200) with f: fn(u64) -> u64 widens the argument
    let mut table = Table::new();
    let fn_addr: usize = 0x9999;
    table.add_function_1::<u64, u64>("f".to_string(), fn_addr).unwrap();
    let ast = Expression::FunctionCall { name: "f".to_string(), arguments: vec![int_lit(200)] };
    let mut ctx = CompilationContext::new(0);
    let ce = ctx.compile_ast(&ast, &table).unwrap();
    let mem = slab_memory(&ce.slab);
    let mut host = Host { fns: HashMap::new() };
    host.fns.insert(fn_addr, Box::new(|args: &[u64]| args[0] * 2));
    match interpret(&ce.func, &mem, &mut host) {
        V::I { bits, width } => {
            assert_eq!(width, 64);
            assert_eq!(bits, 400);
        },
        other => panic!("expected int, got {:?}", other),
    }
}

#[test]
fn negation_of_unsigned_variable_via_to_signed() {
    // -u with u: U16 = 5 resolves to I16 -5
    let mut table = Table::new();
    table.add_variable("u".to_string(), ValueType::U16).unwrap();
    let ast = Expression::UnaryOperation {
        operator: UnaryOperator::Negate,
        right: Box::new(var("u")),
    };
    let mut ctx = CompilationContext::new(0);
    let mut ce = ctx.compile_ast(&ast, &table).unwrap();
    assert_eq!(ce.value_type, ValueType::I16);
    let ui = ce.slab.get_binding_index(&"u".to_string()).unwrap();
    ce.slab.set_value(ui, Value::U16 { inner: 5 });
    let mem = slab_memory(&ce.slab);
    let mut host = Host { fns: HashMap::new() };
    match interpret(&ce.func, &mem, &mut host) {
        V::I { bits, width } => assert_eq!(sext(bits, width), -5),
        other => panic!("expected int, got {:?}", other),
    }
}
