//! Lowering of an analyzed tree into the instruction stream: numeric casting
//! rules, comparison semantics (NaN compares false on the ordered
//! predicates), short-circuit boolean evaluation via basic-block branching
//! with phi joins, loads from baked slab addresses, and indirect calls to
//! host functions at baked-in pointer addresses.

use vstd::prelude::*;
use crate::analysis::{spec_children, FunctionArgument, PackedAnalysisNodeData, PackedAnalysisTree};
use crate::ast::{BinaryOperator, UnaryOperator};
use crate::ast::{spec_is_arithmetic, spec_is_comparison};
use crate::errors::{CodegenError, HotEvalError};
use crate::ir::{
    lemma_emits_ok_trans, spec_emits_ok, FloatBinOp, FloatPredicate, FunctionBuilder, Instruction,
    IntBinOp, IntPredicate, IRValueType, Terminator,
};
use crate::analysis::{spec_corresponds, spec_flattenable, spec_inner_pass_stable, spec_outer_pass_stable};
use crate::slab::{spec_slab_lookup, spec_slab_map_ok, Slab, SlabBindingInfo};
use crate::value::{spec_value_type, Value};
use crate::value_type::spec_widen;
use crate::value_type::{spec_is_float, spec_is_signed, ValueType};

verus! {

/// Lowering the subtree at `i` succeeds exactly when this holds: every node
/// is resolved consistently (a typed value at its own type; logical-not,
/// comparisons and logical connectives at Bool), every variable resolves in
/// the slab to a variable slot of exactly the node's type, every
/// hidden-state argument's index is within the slab's hidden states, and
/// the operand types of every comparison have a common widening.
pub open spec fn spec_lowerable(t: PackedAnalysisTree, i: int, slab: Slab) -> bool
    decreases i, 1int, 0int,
{
    0 <= i < t.spec_len() && t.resolved_types@[i] is Some && {
        let rt = t.resolved_types@[i]->Some_0;
        match t.data@[i] {
            PackedAnalysisNodeData::TypedValue { value } => spec_value_type(value) == rt,
            PackedAnalysisNodeData::UntypedValue { .. } => false,
            PackedAnalysisNodeData::Variable { name } => match spec_slab_lookup(
                slab.spec_binding_map(),
                name@,
            ) {
                Some(info) => info matches SlabBindingInfo::Variable { value_type, .. }
                    && value_type == rt,
                None => false,
            },
            PackedAnalysisNodeData::UnaryOperation { operator, right_idx } => {
                &&& right_idx < i
                &&& spec_lowerable(t, right_idx as int, slab)
                &&& (operator == UnaryOperator::LogicalNot ==> rt == ValueType::Bool)
            },
            PackedAnalysisNodeData::BinaryOperation { operator, left_idx, right_idx } => {
                &&& left_idx < i && right_idx < i
                &&& (!spec_is_arithmetic(operator) ==> rt == ValueType::Bool)
                &&& spec_lowerable(t, left_idx as int, slab)
                &&& spec_lowerable(t, right_idx as int, slab)
                &&& (spec_is_comparison(operator) ==> spec_widen(
                    t.resolved_types@[left_idx as int]->Some_0,
                    t.resolved_types@[right_idx as int]->Some_0,
                ) is Some)
            },
            PackedAnalysisNodeData::Ternary { cond_idx, left_idx, right_idx } => {
                &&& cond_idx < i && left_idx < i && right_idx < i
                &&& spec_lowerable(t, cond_idx as int, slab)
                &&& spec_lowerable(t, left_idx as int, slab)
                &&& spec_lowerable(t, right_idx as int, slab)
            },
            PackedAnalysisNodeData::FunctionCall { args, .. } => spec_args_lowerable(
                t,
                i,
                args@,
                slab,
                args@.len() as int,
            ),
        }
    }
}

/// The first `k` arguments of a call node are lowerable.
pub open spec fn spec_args_lowerable(
    t: PackedAnalysisTree,
    i: int,
    args: Seq<FunctionArgument>,
    slab: Slab,
    k: int,
) -> bool
    decreases i, 0int, k,
{
    k <= 0 || {
        &&& 0 <= i
        &&& spec_args_lowerable(t, i, args, slab, k - 1)
        &&& k <= args.len()
        &&& match args[k - 1] {
            FunctionArgument::Parameter { idx: c, .. } => c < i && spec_lowerable(
                t,
                c as int,
                slab,
            ),
            FunctionArgument::ConstArgument { .. } => true,
            FunctionArgument::HiddenStateArgument { hidden_state_idx, .. } => (
            hidden_state_idx as int) < slab.spec_hidden_count(),
        }
    }
}

/// A full argument-list lowerability projects down to every prefix.
proof fn lemma_args_lowerable_prefix(
    t: PackedAnalysisTree,
    i: int,
    args: Seq<FunctionArgument>,
    slab: Slab,
    k1: int,
    k2: int,
)
    requires
        spec_args_lowerable(t, i, args, slab, k2),
        k1 <= k2,
    ensures
        spec_args_lowerable(t, i, args, slab, k1),
    decreases k2,
{
    if k1 < k2 && k2 > 0 {
        lemma_args_lowerable_prefix(t, i, args, slab, k1, k2 - 1);
    }
}

/// The blocks `cb`, `sb`, `ab` form a short-circuit: the conditional branch
/// in `cb` leads, on the edge taken when the left operand decides the result
/// (the false edge for `&&`, the true edge for `||`), to the block `sb`
/// holding exactly the Bool constant of that decision and a jump to the join
/// `ab` - so no side effect of the skipped operand can occur on that edge.
pub open spec fn spec_short_circuit_blocks(
    blocks: Seq<crate::ir::BasicBlock>,
    is_and: bool,
    cb: int,
    sb: int,
    ab: int,
) -> bool {
    &&& 0 <= cb < blocks.len()
    &&& 0 <= sb < blocks.len()
    &&& 0 <= ab < blocks.len()
    &&& ((blocks[cb].terminator) matches Some(
        Terminator::CondBranch { cond: _, then_block, else_block },
    ) && (if is_and {
        sb == else_block as int
    } else {
        sb == then_block as int
    }))
    &&& blocks[sb].instructions@.len() == 1
    &&& (blocks[sb].instructions@[0] matches Instruction::ConstInt { value_type, bits, .. }
        && value_type == ValueType::Bool && bits == (if is_and {
        0u64
    } else {
        1u64
    }))
    &&& blocks[sb].terminator == Some(Terminator::Branch { target: ab as usize })
}

/// Some conditional branch among the blocks short-circuits as `&&`/`||`
/// demand.
pub open spec fn spec_short_circuit_shape(
    blocks: Seq<crate::ir::BasicBlock>,
    is_and: bool,
) -> bool {
    (exists|cb: int, sb: int, ab: int| spec_short_circuit_blocks(blocks, is_and, cb, sb, ab))
}

/// The instruction converts its source to `to` and defines register `dst`.
pub open spec fn spec_cast_instr(i: Instruction, to: ValueType, dst: usize) -> bool {
    match i {
        Instruction::IntCast { dst: d, to: t, .. } => t == to && d == dst,
        Instruction::FloatToInt { dst: d, to: t, .. } => t == to && d == dst,
        Instruction::IntToFloat { dst: d, to: t, .. } => t == to && d == dst,
        Instruction::FloatCast { dst: d, to: t, .. } => t == to && d == dst,
        _ => false,
    }
}

/// An expression value during lowering: the virtual register holding it, and
/// whether an integer is treated as signed (floats carry no flag).
#[derive(PartialEq, Eq, Structural, Clone, Copy, Debug)]
pub enum IRValue {
    Int { reg: usize, is_signed: bool },
    Float { reg: usize },
}

pub open spec fn spec_reg_of(v: IRValue) -> usize {
    match v {
        IRValue::Int { reg, .. } => reg,
        IRValue::Float { reg } => reg,
    }
}

/// The value has the IR shape of scalar type `t`: float values for float
/// types, integer values with the type's signedness otherwise.
pub open spec fn spec_value_matches_type(v: IRValue, t: ValueType) -> bool {
    match v {
        IRValue::Int { is_signed, .. } => !spec_is_float(t) && is_signed == spec_is_signed(t),
        IRValue::Float { .. } => spec_is_float(t),
    }
}

impl IRValue {
    pub fn reg(&self) -> (r: usize)
        ensures
            r == spec_reg_of(*self),
    {
        match self {
            IRValue::Int { reg, .. } => *reg,
            IRValue::Float { reg } => *reg,
        }
    }
}

/// The integer predicate a comparison lowers to, by operand signedness.
pub open spec fn spec_int_pred(op: BinaryOperator, is_signed: bool) -> IntPredicate {
    match op {
        BinaryOperator::Equals => IntPredicate::Eq,
        BinaryOperator::NotEquals => IntPredicate::Ne,
        BinaryOperator::LesserThanEquals => if is_signed {
            IntPredicate::Sle
        } else {
            IntPredicate::Ule
        },
        BinaryOperator::GreaterThanEquals => if is_signed {
            IntPredicate::Sge
        } else {
            IntPredicate::Uge
        },
        BinaryOperator::LesserThan => if is_signed {
            IntPredicate::Slt
        } else {
            IntPredicate::Ult
        },
        BinaryOperator::GreaterThan => if is_signed {
            IntPredicate::Sgt
        } else {
            IntPredicate::Ugt
        },
        _ => IntPredicate::Eq,
    }
}

/// The float predicate a comparison lowers to: the ordered form for
/// equality and the orderings, so `NaN == NaN` and every ordering against a
/// NaN are false; not-equals alone uses the unordered form, so
/// `NaN != NaN` is true.
pub open spec fn spec_float_pred(op: BinaryOperator) -> FloatPredicate {
    match op {
        BinaryOperator::Equals => FloatPredicate::Oeq,
        BinaryOperator::NotEquals => FloatPredicate::Une,
        BinaryOperator::LesserThanEquals => FloatPredicate::Ole,
        BinaryOperator::GreaterThanEquals => FloatPredicate::Oge,
        BinaryOperator::LesserThan => FloatPredicate::Olt,
        BinaryOperator::GreaterThan => FloatPredicate::Ogt,
        _ => FloatPredicate::Oeq,
    }
}

/// The integer operation an arithmetic node lowers to: division and remainder
/// pick the signed or unsigned variant from the result type's signedness.
pub open spec fn spec_int_binop(op: BinaryOperator, is_signed: bool) -> IntBinOp {
    match op {
        BinaryOperator::Mul => IntBinOp::Mul,
        BinaryOperator::Div => if is_signed {
            IntBinOp::DivSigned
        } else {
            IntBinOp::DivUnsigned
        },
        BinaryOperator::Mod => if is_signed {
            IntBinOp::RemSigned
        } else {
            IntBinOp::RemUnsigned
        },
        BinaryOperator::Add => IntBinOp::Add,
        BinaryOperator::Sub => IntBinOp::Sub,
        _ => IntBinOp::Add,
    }
}

pub open spec fn spec_float_binop(op: BinaryOperator) -> FloatBinOp {
    match op {
        BinaryOperator::Mul => FloatBinOp::Mul,
        BinaryOperator::Div => FloatBinOp::Div,
        BinaryOperator::Mod => FloatBinOp::Rem,
        BinaryOperator::Add => FloatBinOp::Add,
        BinaryOperator::Sub => FloatBinOp::Sub,
        _ => FloatBinOp::Add,
    }
}

/// The constant instruction a typed value lowers to: integers carry their
/// (sign-extended) bit pattern, floats their IEEE bit pattern.
pub open spec fn spec_const_instr(value: Value, dst: usize) -> Instruction {
    match value {
        Value::U8 { inner } => Instruction::ConstInt {
            dst,
            value_type: ValueType::U8,
            bits: inner as u64,
        },
        Value::U16 { inner } => Instruction::ConstInt {
            dst,
            value_type: ValueType::U16,
            bits: inner as u64,
        },
        Value::U32 { inner } => Instruction::ConstInt {
            dst,
            value_type: ValueType::U32,
            bits: inner as u64,
        },
        Value::U64 { inner } => Instruction::ConstInt {
            dst,
            value_type: ValueType::U64,
            bits: inner,
        },
        Value::USize { inner } => Instruction::ConstInt {
            dst,
            value_type: ValueType::USize,
            bits: inner as u64,
        },
        Value::I8 { inner } => Instruction::ConstInt {
            dst,
            value_type: ValueType::I8,
            bits: inner as u64,
        },
        Value::I16 { inner } => Instruction::ConstInt {
            dst,
            value_type: ValueType::I16,
            bits: inner as u64,
        },
        Value::I32 { inner } => Instruction::ConstInt {
            dst,
            value_type: ValueType::I32,
            bits: inner as u64,
        },
        Value::I64 { inner } => Instruction::ConstInt {
            dst,
            value_type: ValueType::I64,
            bits: inner as u64,
        },
        Value::F32 { bits } => Instruction::ConstFloat {
            dst,
            value_type: ValueType::F32,
            bits: bits as u64,
        },
        Value::F64 { bits } => Instruction::ConstFloat { dst, value_type: ValueType::F64, bits },
        Value::Bool { inner } => Instruction::ConstInt {
            dst,
            value_type: ValueType::Bool,
            bits: if inner {
                1
            } else {
                0
            },
        },
    }
}

/// Emit the constant for a typed value.
pub fn from_ast_typed_value(typed_value: &Value, builder: &mut FunctionBuilder) -> (v: IRValue)
    requires
        old(builder).wf(),
    ensures
        final(builder).wf(),
        spec_emits_ok(*old(builder), *final(builder)),
        final(builder).current == old(builder).current,
        final(builder).blocks@.len() == old(builder).blocks@.len(),
        spec_value_matches_type(v, spec_value_type(*typed_value)),
        final(builder).cur_instrs() == old(builder).cur_instrs().push(
            spec_const_instr(*typed_value, spec_reg_of(v)),
        ),
{
    let dst = builder.fresh_reg();
    match typed_value {
        Value::U8 { inner } => {
            builder.emit(
                Instruction::ConstInt { dst, value_type: ValueType::U8, bits: *inner as u64 },
            );
            IRValue::Int { reg: dst, is_signed: false }
        },
        Value::U16 { inner } => {
            builder.emit(
                Instruction::ConstInt { dst, value_type: ValueType::U16, bits: *inner as u64 },
            );
            IRValue::Int { reg: dst, is_signed: false }
        },
        Value::U32 { inner } => {
            builder.emit(
                Instruction::ConstInt { dst, value_type: ValueType::U32, bits: *inner as u64 },
            );
            IRValue::Int { reg: dst, is_signed: false }
        },
        Value::U64 { inner } => {
            builder.emit(Instruction::ConstInt { dst, value_type: ValueType::U64, bits: *inner });
            IRValue::Int { reg: dst, is_signed: false }
        },
        Value::USize { inner } => {
            builder.emit(
                Instruction::ConstInt { dst, value_type: ValueType::USize, bits: *inner as u64 },
            );
            IRValue::Int { reg: dst, is_signed: false }
        },
        Value::I8 { inner } => {
            builder.emit(
                Instruction::ConstInt { dst, value_type: ValueType::I8, bits: *inner as u64 },
            );
            IRValue::Int { reg: dst, is_signed: true }
        },
        Value::I16 { inner } => {
            builder.emit(
                Instruction::ConstInt { dst, value_type: ValueType::I16, bits: *inner as u64 },
            );
            IRValue::Int { reg: dst, is_signed: true }
        },
        Value::I32 { inner } => {
            builder.emit(
                Instruction::ConstInt { dst, value_type: ValueType::I32, bits: *inner as u64 },
            );
            IRValue::Int { reg: dst, is_signed: true }
        },
        Value::I64 { inner } => {
            builder.emit(
                Instruction::ConstInt { dst, value_type: ValueType::I64, bits: *inner as u64 },
            );
            IRValue::Int { reg: dst, is_signed: true }
        },
        Value::F32 { bits } => {
            builder.emit(
                Instruction::ConstFloat { dst, value_type: ValueType::F32, bits: *bits as u64 },
            );
            IRValue::Float { reg: dst }
        },
        Value::F64 { bits } => {
            builder.emit(Instruction::ConstFloat { dst, value_type: ValueType::F64, bits: *bits });
            IRValue::Float { reg: dst }
        },
        Value::Bool { inner } => {
            builder.emit(
                Instruction::ConstInt {
                    dst,
                    value_type: ValueType::Bool,
                    bits: if *inner {
                        1
                    } else {
                        0
                    },
                },
            );
            IRValue::Int { reg: dst, is_signed: false }
        },
    }
}

/// Insert the conversion from `from` to `to`, if one is needed at all:
/// equal types emit nothing and hand the value back; casting to Bool compares
/// against zero (ordered-ne for floats, so NaN converts to false); otherwise
/// one cast instruction is emitted, signed variants chosen by the
/// destination's (for int results) or source's (for int-to-float)
/// signedness.
pub fn cast_if_needed(
    value: IRValue,
    from: ValueType,
    to: ValueType,
    builder: &mut FunctionBuilder,
) -> (r: IRValue)
    requires
        old(builder).wf(),
        spec_value_matches_type(value, from),
    ensures
        final(builder).wf(),
        spec_emits_ok(*old(builder), *final(builder)),
        spec_value_matches_type(r, to),
        final(builder).current == old(builder).current,
        final(builder).blocks@.len() == old(builder).blocks@.len(),
        from == to ==> r == value && *final(builder) == *old(builder),
        from != to ==> final(builder).cur_instrs().len() == old(builder).cur_instrs().len() + (
        if to == ValueType::Bool {
            2int
        } else {
            1int
        }),
        (from != to && to == ValueType::Bool && spec_is_float(from)) ==> ({
            let fi = final(builder).cur_instrs();
            fi.last() matches Instruction::FloatCompare { dst, pred, lhs, rhs } && dst
                == spec_reg_of(r) && pred == FloatPredicate::One && lhs == spec_reg_of(value)
                && fi[fi.len() - 2] == (Instruction::ConstFloat {
                dst: rhs,
                value_type: from,
                bits: 0,
            })
        }),
        (from != to && to == ValueType::Bool && !spec_is_float(from)) ==> ({
            let fi = final(builder).cur_instrs();
            fi.last() matches Instruction::IntCompare { dst, pred, lhs, rhs } && dst
                == spec_reg_of(r) && pred == IntPredicate::Ne && lhs == spec_reg_of(value)
                && fi[fi.len() - 2] == (Instruction::ConstInt {
                dst: rhs,
                value_type: from,
                bits: 0,
            })
        }),
        (from != to && to != ValueType::Bool && !spec_is_float(to) && !spec_is_float(from)) ==> (
        final(builder).cur_instrs().last() matches Instruction::IntCast {
            dst,
            to: t2,
            is_signed,
            src,
        } && dst == spec_reg_of(r) && t2 == to && is_signed == spec_is_signed(to) && src
            == spec_reg_of(value)),
        (from != to && to != ValueType::Bool && !spec_is_float(to) && spec_is_float(from)) ==> (
        final(builder).cur_instrs().last() matches Instruction::FloatToInt {
            dst,
            to: t2,
            is_signed,
            src,
        } && dst == spec_reg_of(r) && t2 == to && is_signed == spec_is_signed(to) && src
            == spec_reg_of(value)),
        (from != to && spec_is_float(to) && !spec_is_float(from)) ==> (final(builder).cur_instrs().last() matches Instruction::IntToFloat {
            dst,
            to: t2,
            src_signed,
            src,
        } && dst == spec_reg_of(r) && t2 == to && src_signed == spec_is_signed(from) && src
            == spec_reg_of(value)),
        (from != to && spec_is_float(to) && spec_is_float(from)) ==> (final(builder).cur_instrs().last() matches Instruction::FloatCast { dst, to: t2, src } && dst == spec_reg_of(
            r,
        ) && t2 == to && src == spec_reg_of(value)),
{
    if from == to {
        return value;
    }
    if to == ValueType::Bool {
        match value {
            IRValue::Int { reg, .. } => {
                let z = builder.fresh_reg();
                builder.emit(Instruction::ConstInt { dst: z, value_type: from, bits: 0 });
                let d = builder.fresh_reg();
                builder.emit(
                    Instruction::IntCompare { dst: d, pred: IntPredicate::Ne, lhs: reg, rhs: z },
                );
                IRValue::Int { reg: d, is_signed: false }
            },
            IRValue::Float { reg } => {
                let z = builder.fresh_reg();
                builder.emit(Instruction::ConstFloat { dst: z, value_type: from, bits: 0 });
                let d = builder.fresh_reg();
                builder.emit(
                    Instruction::FloatCompare {
                        dst: d,
                        pred: FloatPredicate::One,
                        lhs: reg,
                        rhs: z,
                    },
                );
                IRValue::Int { reg: d, is_signed: false }
            },
        }
    } else {
        match IRValueType::from_value_type(&to) {
            IRValueType::Int { width: _, is_signed: to_signed } => match value {
                IRValue::Int { reg, .. } => {
                    let d = builder.fresh_reg();
                    builder.emit(
                        Instruction::IntCast { dst: d, to, is_signed: to_signed, src: reg },
                    );
                    IRValue::Int { reg: d, is_signed: to_signed }
                },
                IRValue::Float { reg } => {
                    let d = builder.fresh_reg();
                    builder.emit(
                        Instruction::FloatToInt { dst: d, to, is_signed: to_signed, src: reg },
                    );
                    IRValue::Int { reg: d, is_signed: to_signed }
                },
            },
            IRValueType::Float { .. } => match value {
                IRValue::Int { reg, is_signed: from_signed } => {
                    let d = builder.fresh_reg();
                    builder.emit(
                        Instruction::IntToFloat { dst: d, to, src_signed: from_signed, src: reg },
                    );
                    IRValue::Float { reg: d }
                },
                IRValue::Float { reg } => {
                    let d = builder.fresh_reg();
                    builder.emit(Instruction::FloatCast { dst: d, to, src: reg });
                    IRValue::Float { reg: d }
                },
            },
        }
    }
}

/// A value of type `value_type` held in register `dst`.
pub fn classify_result(dst: usize, value_type: ValueType) -> (v: IRValue)
    ensures
        spec_value_matches_type(v, value_type),
        spec_reg_of(v) == dst,
{
    if value_type.is_float() {
        IRValue::Float { reg: dst }
    } else {
        IRValue::Int { reg: dst, is_signed: value_type.is_signed() }
    }
}

/// Emit a load of one `slab_value_type` value from the baked address of slab
/// slot `slab_idx`.
pub fn from_slab_value(
    slab_idx: usize,
    slab_value_type: ValueType,
    slab: &Slab,
    builder: &mut FunctionBuilder,
) -> (v: IRValue)
    requires
        old(builder).wf(),
        slab_idx < slab.spec_data().len(),
    ensures
        final(builder).wf(),
        spec_emits_ok(*old(builder), *final(builder)),
        spec_value_matches_type(v, slab_value_type),
        final(builder).cur_instrs().len() == old(builder).cur_instrs().len() + 1,
        (final(builder).cur_instrs().last() matches Instruction::Load { value_type, .. }
            && value_type == slab_value_type),
{
    let addr = slab.get_address(slab_idx);
    let dst = builder.fresh_reg();
    builder.emit(Instruction::Load { dst, value_type: slab_value_type, addr });
    classify_result(dst, slab_value_type)
}

/// Emit the comparison of two operands already widened to `widened`: an
/// integer compare with the predicate picked by signedness, or a float
/// compare with the predicate from `spec_float_pred` (ordered for equality
/// and orderings, unordered for not-equals, so a NaN operand makes `==` and
/// every ordering false and `!=` true). The result is Bool.
pub fn emit_compare(
    op: BinaryOperator,
    widened: ValueType,
    lhs: IRValue,
    rhs: IRValue,
    builder: &mut FunctionBuilder,
) -> (v: IRValue)
    requires
        old(builder).wf(),
        spec_is_comparison(op),
        spec_value_matches_type(lhs, widened),
        spec_value_matches_type(rhs, widened),
    ensures
        final(builder).wf(),
        spec_emits_ok(*old(builder), *final(builder)),
        final(builder).current == old(builder).current,
        final(builder).blocks@.len() == old(builder).blocks@.len(),
        spec_value_matches_type(v, ValueType::Bool),
        final(builder).cur_instrs() == old(builder).cur_instrs().push(
            if spec_is_float(widened) {
                Instruction::FloatCompare {
                    dst: spec_reg_of(v),
                    pred: spec_float_pred(op),
                    lhs: spec_reg_of(lhs),
                    rhs: spec_reg_of(rhs),
                }
            } else {
                Instruction::IntCompare {
                    dst: spec_reg_of(v),
                    pred: spec_int_pred(op, spec_is_signed(widened)),
                    lhs: spec_reg_of(lhs),
                    rhs: spec_reg_of(rhs),
                }
            },
        ),
{
    let d = builder.fresh_reg();
    if widened.is_float() {
        let pred = match op {
            BinaryOperator::Equals => FloatPredicate::Oeq,
            BinaryOperator::NotEquals => FloatPredicate::Une,
            BinaryOperator::LesserThanEquals => FloatPredicate::Ole,
            BinaryOperator::GreaterThanEquals => FloatPredicate::Oge,
            BinaryOperator::LesserThan => FloatPredicate::Olt,
            _ => FloatPredicate::Ogt,
        };
        builder.emit(
            Instruction::FloatCompare { dst: d, pred, lhs: lhs.reg(), rhs: rhs.reg() },
        );
    } else {
        let signed = widened.is_signed();
        let pred = match op {
            BinaryOperator::Equals => IntPredicate::Eq,
            BinaryOperator::NotEquals => IntPredicate::Ne,
            BinaryOperator::LesserThanEquals => if signed {
                IntPredicate::Sle
            } else {
                IntPredicate::Ule
            },
            BinaryOperator::GreaterThanEquals => if signed {
                IntPredicate::Sge
            } else {
                IntPredicate::Uge
            },
            BinaryOperator::LesserThan => if signed {
                IntPredicate::Slt
            } else {
                IntPredicate::Ult
            },
            _ => if signed {
                IntPredicate::Sgt
            } else {
                IntPredicate::Ugt
            },
        };
        builder.emit(Instruction::IntCompare { dst: d, pred, lhs: lhs.reg(), rhs: rhs.reg() });
    }
    IRValue::Int { reg: d, is_signed: false }
}

/// Emit the arithmetic operation on two operands already cast to the node's
/// resolved type `t`: division and remainder use the signed or unsigned
/// variant per `t`'s signedness; float operations are the ordered IEEE forms.
pub fn emit_arith(
    op: BinaryOperator,
    t: ValueType,
    lhs: IRValue,
    rhs: IRValue,
    builder: &mut FunctionBuilder,
) -> (v: IRValue)
    requires
        old(builder).wf(),
        spec_is_arithmetic(op),
        spec_value_matches_type(lhs, t),
        spec_value_matches_type(rhs, t),
    ensures
        final(builder).wf(),
        spec_emits_ok(*old(builder), *final(builder)),
        final(builder).current == old(builder).current,
        final(builder).blocks@.len() == old(builder).blocks@.len(),
        spec_value_matches_type(v, t),
        final(builder).cur_instrs() == old(builder).cur_instrs().push(
            if spec_is_float(t) {
                Instruction::FloatBinary {
                    dst: spec_reg_of(v),
                    op: spec_float_binop(op),
                    lhs: spec_reg_of(lhs),
                    rhs: spec_reg_of(rhs),
                }
            } else {
                Instruction::IntBinary {
                    dst: spec_reg_of(v),
                    op: spec_int_binop(op, spec_is_signed(t)),
                    lhs: spec_reg_of(lhs),
                    rhs: spec_reg_of(rhs),
                }
            },
        ),
{
    let d = builder.fresh_reg();
    if t.is_float() {
        let fop = match op {
            BinaryOperator::Mul => FloatBinOp::Mul,
            BinaryOperator::Div => FloatBinOp::Div,
            BinaryOperator::Mod => FloatBinOp::Rem,
            BinaryOperator::Add => FloatBinOp::Add,
            _ => FloatBinOp::Sub,
        };
        builder.emit(
            Instruction::FloatBinary { dst: d, op: fop, lhs: lhs.reg(), rhs: rhs.reg() },
        );
        IRValue::Float { reg: d }
    } else {
        let signed = t.is_signed();
        let iop = match op {
            BinaryOperator::Mul => IntBinOp::Mul,
            BinaryOperator::Div => if signed {
                IntBinOp::DivSigned
            } else {
                IntBinOp::DivUnsigned
            },
            BinaryOperator::Mod => if signed {
                IntBinOp::RemSigned
            } else {
                IntBinOp::RemUnsigned
            },
            BinaryOperator::Add => IntBinOp::Add,
            _ => IntBinOp::Sub,
        };
        builder.emit(Instruction::IntBinary { dst: d, op: iop, lhs: lhs.reg(), rhs: rhs.reg() });
        IRValue::Int { reg: d, is_signed: signed }
    }
}

/// Emit logical not on the child's native form: compare-equal against zero,
/// with the unordered-equal predicate for floats, so `!NaN` is true.
pub fn emit_logical_not(
    inner_val: IRValue,
    child_type: ValueType,
    builder: &mut FunctionBuilder,
) -> (v: IRValue)
    requires
        old(builder).wf(),
        spec_value_matches_type(inner_val, child_type),
    ensures
        final(builder).wf(),
        spec_emits_ok(*old(builder), *final(builder)),
        spec_value_matches_type(v, ValueType::Bool),
        final(builder).cur_instrs().len() == old(builder).cur_instrs().len() + 2,
        spec_is_float(child_type) ==> ({
            let fi = final(builder).cur_instrs();
            fi.last() matches Instruction::FloatCompare { dst: _, pred, lhs, rhs } && pred
                == FloatPredicate::Ueq && lhs == spec_reg_of(inner_val) && fi[fi.len() - 2] == (
            Instruction::ConstFloat { dst: rhs, value_type: child_type, bits: 0 })
        }),
        !spec_is_float(child_type) ==> ({
            let fi = final(builder).cur_instrs();
            fi.last() matches Instruction::IntCompare { dst: _, pred, lhs, rhs } && pred
                == IntPredicate::Eq && lhs == spec_reg_of(inner_val) && fi[fi.len() - 2] == (
            Instruction::ConstInt { dst: rhs, value_type: child_type, bits: 0 })
        }),
{
    match inner_val {
        IRValue::Int { reg, .. } => {
            let z = builder.fresh_reg();
            builder.emit(Instruction::ConstInt { dst: z, value_type: child_type, bits: 0 });
            let d = builder.fresh_reg();
            builder.emit(
                Instruction::IntCompare { dst: d, pred: IntPredicate::Eq, lhs: reg, rhs: z },
            );
            IRValue::Int { reg: d, is_signed: false }
        },
        IRValue::Float { reg } => {
            let z = builder.fresh_reg();
            builder.emit(Instruction::ConstFloat { dst: z, value_type: child_type, bits: 0 });
            let d = builder.fresh_reg();
            builder.emit(
                Instruction::FloatCompare { dst: d, pred: FloatPredicate::Ueq, lhs: reg, rhs: z },
            );
            IRValue::Int { reg: d, is_signed: false }
        },
    }
}

/// Lower `a && b` / `a || b` as control flow, never as arithmetic: evaluate
/// the left side, cast it to Bool and branch. For `&&` the false edge yields
/// the constant false without evaluating the right side at all; for `||` the
/// true edge yields the constant true likewise. A phi joins the two edges.
/// The postcondition exhibits the short-circuit edge: a block holding exactly
/// the constant and a jump to the join, so no side effect of the skipped
/// operand can occur on it.
fn lower_short_circuit(
    aast: &PackedAnalysisTree,
    idx: usize,
    left_idx: usize,
    right_idx: usize,
    is_and: bool,
    builder: &mut FunctionBuilder,
    slab: &Slab,
) -> (r: Result<IRValue, HotEvalError>)
    requires
        aast.inv(),
        aast.fully_typed(),
        idx < aast.spec_len(),
        left_idx < idx,
        right_idx < idx,
        old(builder).wf(),
        slab.wf(),
    ensures
        final(builder).wf(),
        spec_emits_ok(*old(builder), *final(builder)),
        match r {
            Ok(v) => spec_value_matches_type(v, ValueType::Bool),
            Err(_) => true,
        },
        r is Ok <==> spec_lowerable(*aast, left_idx as int, *slab) && spec_lowerable(
            *aast,
            right_idx as int,
            *slab,
        ),
        r matches Err(e) ==> (e is Codegen || e is Common),
        r is Ok ==> spec_short_circuit_shape(final(builder).blocks@, is_and),
    decreases idx, 0int,
{
    let ghost b0 = *old(builder);
    let cond_val = match from_aast_node(aast, left_idx, builder, slab) {
        Ok(v) => v,
        Err(e) => {
            return Err(e);
        },
    };
    let cond_ty = match aast.get_node_type(left_idx) {
        Ok(t) => t,
        Err(_) => unreached(),
    };
    let ghost s1 = *builder;
    let cond_bool = cast_if_needed(cond_val, cond_ty, ValueType::Bool, builder);
    proof {
        lemma_emits_ok_trans(b0, s1, *builder);
    }
    let then_b = builder.append_block();
    let else_b = builder.append_block();
    let after_b = builder.append_block();
    let ghost s2 = *builder;
    let ghost cond_block = builder.current as int;
    builder.terminate(
        Terminator::CondBranch {
            cond: cond_bool.reg(),
            then_block: then_b,
            else_block: else_b,
        },
    );
    let ghost s3 = *builder;
    builder.position_at_end(then_b);
    let ghost s4 = *builder;
    proof {
        assert(spec_emits_ok(b0, s4));
    }
    // the then edge: for `&&` it evaluates the right side, for `||` it is the
    // short-circuit constant
    let then_val: IRValue;
    if is_and {
        let rhs_val = match from_aast_node(aast, right_idx, builder, slab) {
            Ok(v) => v,
            Err(e) => {
                return Err(e);
            },
        };
        let rhs_ty = match aast.get_node_type(right_idx) {
            Ok(t) => t,
            Err(_) => unreached(),
        };
        let ghost s5 = *builder;
        then_val = cast_if_needed(rhs_val, rhs_ty, ValueType::Bool, builder);
        proof {
            lemma_emits_ok_trans(s4, s5, *builder);
        }
    } else {
        proof {
            assert(s4.blocks@[then_b as int].instructions@.len() == 0);
        }
        then_val = from_ast_typed_value(&Value::Bool { inner: true }, builder);
        proof {
            assert(builder.blocks@[then_b as int].instructions@.len() == 1);
            assert(builder.blocks@[then_b as int].instructions@[0] matches
                Instruction::ConstInt { value_type: ValueType::Bool, bits: 1u64, .. });
        }
    }
    let then_src = builder.current;
    let ghost s6 = *builder;
    builder.terminate(Terminator::Branch { target: after_b });
    let ghost s7 = *builder;
    proof {
        lemma_emits_ok_trans(s4, s6, s7);
        assert(s7.blocks@[else_b as int] == s3.blocks@[else_b as int]);
        assert(s7.blocks@[else_b as int].terminator is None);
        if !is_and {
            assert(s7.blocks@[then_b as int].instructions@.len() == 1);
            assert(s7.blocks@[then_b as int].terminator == Some(
                Terminator::Branch { target: after_b },
            ));
        }
    }
    builder.position_at_end(else_b);
    let ghost s8 = *builder;
    let else_val: IRValue;
    if is_and {
        proof {
            assert(s8.blocks@[else_b as int].instructions@.len() == 0);
        }
        else_val = from_ast_typed_value(&Value::Bool { inner: false }, builder);
        proof {
            assert(builder.blocks@[else_b as int].instructions@.len() == 1);
            assert(builder.blocks@[else_b as int].instructions@[0] matches
                Instruction::ConstInt { value_type: ValueType::Bool, bits: 0u64, .. });
        }
    } else {
        let rhs_val = match from_aast_node(aast, right_idx, builder, slab) {
            Ok(v) => v,
            Err(e) => {
                return Err(e);
            },
        };
        let rhs_ty = match aast.get_node_type(right_idx) {
            Ok(t) => t,
            Err(_) => unreached(),
        };
        let ghost s9 = *builder;
        else_val = cast_if_needed(rhs_val, rhs_ty, ValueType::Bool, builder);
        proof {
            lemma_emits_ok_trans(s8, s9, *builder);
        }
    }
    let else_src = builder.current;
    let ghost s10 = *builder;
    builder.terminate(Terminator::Branch { target: after_b });
    let ghost s11 = *builder;
    proof {
        lemma_emits_ok_trans(s8, s10, s11);
        assert(s11.blocks@[after_b as int] == s3.blocks@[after_b as int]);
        assert(s11.blocks@[after_b as int].terminator is None);
        if is_and {
            assert(s11.blocks@[else_b as int].instructions@.len() == 1);
            assert(s11.blocks@[else_b as int].terminator == Some(
                Terminator::Branch { target: after_b },
            ));
        } else {
            assert(s11.blocks@[then_b as int] == s7.blocks@[then_b as int]);
        }
    }
    builder.position_at_end(after_b);
    let d = builder.fresh_reg();
    builder.emit(
        Instruction::Phi {
            dst: d,
            value_type: ValueType::Bool,
            incoming_a: (then_val.reg(), then_src),
            incoming_b: (else_val.reg(), else_src),
        },
    );
    proof {
        let fin = *builder;
        let ghost sbb = if is_and {
            else_b as int
        } else {
            then_b as int
        };
        assert(sbb != after_b as int);
        assert(fin.blocks@[sbb] == s11.blocks@[sbb]);
        // the conditional branch survives: its block was sealed at s3
        assert(fin.blocks@[cond_block].terminator == Some(
            Terminator::CondBranch {
                cond: spec_reg_of(cond_bool),
                then_block: then_b,
                else_block: else_b,
            },
        ));
        // the short-circuit block holds exactly the constant and the jump
        let sb = if is_and {
            else_b as int
        } else {
            then_b as int
        };
        assert(fin.blocks@[sb].instructions@.len() == 1);
        assert(fin.blocks@[sb].terminator == Some(Terminator::Branch { target: after_b }));
        assert(spec_emits_ok(b0, fin));
        assert(fin.blocks@[cond_block].instructions@.len() >= 0);
        assert(spec_short_circuit_blocks(fin.blocks@, is_and, cond_block, sb, after_b as int));
        assert(spec_short_circuit_shape(fin.blocks@, is_and));
    }
    Ok(IRValue::Int { reg: d, is_signed: false })
}

/// Lower `c ? x : y`: evaluate the condition as Bool and branch; each branch
/// evaluates its subtree and casts it to the node's resolved type; a phi
/// joins the branches.
fn lower_ternary(
    aast: &PackedAnalysisTree,
    idx: usize,
    cond_idx: usize,
    left_idx: usize,
    right_idx: usize,
    out_type: ValueType,
    builder: &mut FunctionBuilder,
    slab: &Slab,
) -> (r: Result<IRValue, HotEvalError>)
    requires
        aast.inv(),
        aast.fully_typed(),
        idx < aast.spec_len(),
        cond_idx < idx,
        left_idx < idx,
        right_idx < idx,
        old(builder).wf(),
        slab.wf(),
    ensures
        final(builder).wf(),
        spec_emits_ok(*old(builder), *final(builder)),
        match r {
            Ok(v) => spec_value_matches_type(v, out_type),
            Err(_) => true,
        },
        r is Ok <==> spec_lowerable(*aast, cond_idx as int, *slab) && spec_lowerable(
            *aast,
            left_idx as int,
            *slab,
        ) && spec_lowerable(*aast, right_idx as int, *slab),
        r matches Err(e) ==> (e is Codegen || e is Common),
    decreases idx, 0int,
{
    let ghost b0 = *old(builder);
    let cond_val = match from_aast_node(aast, cond_idx, builder, slab) {
        Ok(v) => v,
        Err(e) => {
            return Err(e);
        },
    };
    let cond_ty = match aast.get_node_type(cond_idx) {
        Ok(t) => t,
        Err(_) => unreached(),
    };
    let ghost s1 = *builder;
    let cond_bool = cast_if_needed(cond_val, cond_ty, ValueType::Bool, builder);
    proof {
        lemma_emits_ok_trans(b0, s1, *builder);
    }
    let then_b = builder.append_block();
    let else_b = builder.append_block();
    let after_b = builder.append_block();
    builder.terminate(
        Terminator::CondBranch {
            cond: cond_bool.reg(),
            then_block: then_b,
            else_block: else_b,
        },
    );
    let ghost s3 = *builder;
    builder.position_at_end(then_b);
    let ghost s4 = *builder;
    proof {
        assert(spec_emits_ok(b0, s4));
    }
    let left_val = match from_aast_node(aast, left_idx, builder, slab) {
        Ok(v) => v,
        Err(e) => {
            return Err(e);
        },
    };
    let left_ty = match aast.get_node_type(left_idx) {
        Ok(t) => t,
        Err(_) => unreached(),
    };
    let ghost s5 = *builder;
    let then_val = cast_if_needed(left_val, left_ty, out_type, builder);
    let then_src = builder.current;
    let ghost s6 = *builder;
    builder.terminate(Terminator::Branch { target: after_b });
    let ghost s7 = *builder;
    proof {
        lemma_emits_ok_trans(s4, s5, s6);
        lemma_emits_ok_trans(s4, s6, s7);
        assert(s7.blocks@[else_b as int] == s3.blocks@[else_b as int]);
        assert(s7.blocks@[else_b as int].terminator is None);
    }
    builder.position_at_end(else_b);
    let ghost s8 = *builder;
    let right_val = match from_aast_node(aast, right_idx, builder, slab) {
        Ok(v) => v,
        Err(e) => {
            return Err(e);
        },
    };
    let right_ty = match aast.get_node_type(right_idx) {
        Ok(t) => t,
        Err(_) => unreached(),
    };
    let ghost s9 = *builder;
    let else_val = cast_if_needed(right_val, right_ty, out_type, builder);
    let else_src = builder.current;
    let ghost s10 = *builder;
    builder.terminate(Terminator::Branch { target: after_b });
    let ghost s11 = *builder;
    proof {
        lemma_emits_ok_trans(s8, s9, s10);
        lemma_emits_ok_trans(s8, s10, s11);
        assert(s11.blocks@[after_b as int] == s3.blocks@[after_b as int]);
        assert(s11.blocks@[after_b as int].terminator is None);
    }
    builder.position_at_end(after_b);
    let d = builder.fresh_reg();
    builder.emit(
        Instruction::Phi {
            dst: d,
            value_type: out_type,
            incoming_a: (then_val.reg(), then_src),
            incoming_b: (else_val.reg(), else_src),
        },
    );
    proof {
        assert(spec_emits_ok(b0, *builder));
    }
    Ok(classify_result(d, out_type))
}

/// Lower the node at `idx` (and, recursively, its subtree) to a value.
/// Arithmetic carries the node's resolved type through both operands;
/// comparisons widen both operands to their common supertype and pick signed
/// or ordered predicates; logical operators and ternaries branch; variables
/// load from their slab slot after an exact type check; calls marshal each
/// argument per its specialization and call the host function's baked
/// address.
#[verifier::rlimit(60)]
pub fn from_aast_node(
    aast: &PackedAnalysisTree,
    idx: usize,
    builder: &mut FunctionBuilder,
    slab: &Slab,
) -> (r: Result<IRValue, HotEvalError>)
    requires
        aast.inv(),
        aast.fully_typed(),
        idx < aast.spec_len(),
        old(builder).wf(),
        slab.wf(),
    ensures
        final(builder).wf(),
        spec_emits_ok(*old(builder), *final(builder)),
        match r {
            Ok(v) => spec_value_matches_type(
                v,
                aast.resolved_types@[idx as int]->Some_0,
            ),
            Err(_) => true,
        },
        r is Ok <==> spec_lowerable(*aast, idx as int, *slab),
        r matches Err(e) ==> (e is Codegen || e is Common),
        (match aast.data@[idx as int] {
            PackedAnalysisNodeData::BinaryOperation { operator, left_idx, right_idx } => (
            spec_is_comparison(operator) && r is Ok) ==> ({
                let lt = aast.resolved_types@[left_idx as int]->Some_0;
                let rt2 = aast.resolved_types@[right_idx as int]->Some_0;
                let w = spec_widen(lt, rt2)->Some_0;
                let fi = final(builder).cur_instrs();
                let n = fi.len() as int;
                &&& n > 0
                &&& (if spec_is_float(w) {
                    fi.last() matches Instruction::FloatCompare { dst: _, pred, lhs, rhs } && pred
                        == spec_float_pred(operator) && (lt != w ==> n >= 2 && spec_cast_instr(
                        fi[n - 2],
                        w,
                        lhs,
                    )) && (rt2 != w ==> (if lt != w {
                        n >= 3 && spec_cast_instr(fi[n - 3], w, rhs)
                    } else {
                        n >= 2 && spec_cast_instr(fi[n - 2], w, rhs)
                    }))
                } else {
                    fi.last() matches Instruction::IntCompare { dst: _, pred, lhs, rhs } && pred
                        == spec_int_pred(operator, spec_is_signed(w)) && (lt != w ==> n >= 2
                        && spec_cast_instr(fi[n - 2], w, lhs)) && (rt2 != w ==> (if lt != w {
                        n >= 3 && spec_cast_instr(fi[n - 3], w, rhs)
                    } else {
                        n >= 2 && spec_cast_instr(fi[n - 2], w, rhs)
                    }))
                })
            }),
            _ => true,
        }),
        (match aast.data@[idx as int] {
            PackedAnalysisNodeData::BinaryOperation { operator, left_idx, right_idx } => (
            spec_is_arithmetic(operator) && r is Ok) ==> ({
                let t = aast.resolved_types@[idx as int]->Some_0;
                let lt = aast.resolved_types@[left_idx as int]->Some_0;
                let rt2 = aast.resolved_types@[right_idx as int]->Some_0;
                let fi = final(builder).cur_instrs();
                let n = fi.len() as int;
                &&& n > 0
                &&& (if spec_is_float(t) {
                    fi.last() matches Instruction::FloatBinary { dst: _, op, lhs, rhs } && op
                        == spec_float_binop(operator) && (lt != t && t != ValueType::Bool ==> n
                        >= 2 && spec_cast_instr(fi[n - 2], t, lhs)) && (rt2 != t && t
                        != ValueType::Bool ==> (if lt != t {
                        n >= 3 && spec_cast_instr(fi[n - 3], t, rhs)
                    } else {
                        n >= 2 && spec_cast_instr(fi[n - 2], t, rhs)
                    }))
                } else {
                    fi.last() matches Instruction::IntBinary { dst: _, op, lhs, rhs } && op
                        == spec_int_binop(operator, spec_is_signed(t)) && (lt != t && t
                        != ValueType::Bool ==> n >= 2 && spec_cast_instr(fi[n - 2], t, lhs)) && (
                    rt2 != t && t != ValueType::Bool ==> (if lt != t {
                        n >= 3 && spec_cast_instr(fi[n - 3], t, rhs)
                    } else {
                        n >= 2 && spec_cast_instr(fi[n - 2], t, rhs)
                    }))
                })
            }),
            _ => true,
        }),
        (match aast.data@[idx as int] {
            PackedAnalysisNodeData::UnaryOperation { operator, right_idx } => (operator
                == UnaryOperator::LogicalNot && r is Ok) ==> ({
                &&& final(builder).cur_instrs().len() > 0
                &&& (if spec_is_float(aast.resolved_types@[right_idx as int]->Some_0) {
                    final(builder).cur_instrs().last() matches Instruction::FloatCompare {
                        pred,
                        ..
                    } && pred == FloatPredicate::Ueq
                } else {
                    final(builder).cur_instrs().last() matches Instruction::IntCompare {
                        pred,
                        ..
                    } && pred == IntPredicate::Eq
                })
            }),
            _ => true,
        }),
        (match aast.data@[idx as int] {
            PackedAnalysisNodeData::BinaryOperation { operator, .. } => ((operator
                == BinaryOperator::LogicalAnd || operator == BinaryOperator::LogicalOr) && r
                is Ok) ==> spec_short_circuit_shape(
                final(builder).blocks@,
                operator == BinaryOperator::LogicalAnd,
            ),
            _ => true,
        }),
        (match aast.data@[idx as int] {
            PackedAnalysisNodeData::Variable { .. } => r is Ok ==> (final(builder).cur_instrs().len() > 0 && (final(builder).cur_instrs().last() matches
            Instruction::Load { value_type, .. } && value_type == aast.resolved_types@[
                idx as int
            ]->Some_0)),
            _ => true,
        }),
        (match aast.data@[idx as int] {
            PackedAnalysisNodeData::Variable { name } => r is Err ==> (match spec_slab_lookup(
                slab.spec_binding_map(),
                name@,
            ) {
                Some(info) => match info {
                    SlabBindingInfo::Variable { value_type, .. } => value_type
                        != aast.resolved_types@[idx as int]->Some_0 && r->Err_0 == (
                    HotEvalError::Codegen {
                        err: CodegenError::BadBindingType {
                            name,
                            actual_type: aast.resolved_types@[idx as int]->Some_0,
                            expected_type: value_type,
                        },
                    }),
                    SlabBindingInfo::Function { .. } => r->Err_0 == (HotEvalError::Codegen {
                        err: CodegenError::BadBindingKind { name, is_var: false },
                    }),
                },
                None => r->Err_0 == (HotEvalError::Codegen {
                    err: CodegenError::UnknownBinding { name },
                }),
            }),
            _ => true,
        }),
    decreases idx, 1int,
{
    let ghost b0 = *old(builder);
    let resolved_type = match aast.get_node_type(idx) {
        Ok(t) => t,
        Err(_) => unreached(),
    };
    proof {
        assert(aast.node_wf(idx as int));
    }
    match &aast.data[idx] {
        PackedAnalysisNodeData::TypedValue { value } => {
            let vt = value.get_value_type();
            if vt != resolved_type {
                return Err(HotEvalError::Codegen { err: CodegenError::UnexpectedBaseType });
            }
            Ok(from_ast_typed_value(value, builder))
        },
        PackedAnalysisNodeData::UntypedValue { .. } => unreached(),
        PackedAnalysisNodeData::Variable { name } => {
            let info = match slab.get_binding_info(name) {
                Some(x) => x,
                None => {
                    return Err(
                        HotEvalError::Codegen {
                            err: CodegenError::UnknownBinding { name: name.clone() },
                        },
                    );
                },
            };
            match info {
                SlabBindingInfo::Variable { idx: slab_idx, value_type } => {
                    if *value_type != resolved_type {
                        return Err(
                            HotEvalError::Codegen {
                                err: CodegenError::BadBindingType {
                                    name: name.clone(),
                                    actual_type: resolved_type,
                                    expected_type: *value_type,
                                },
                            },
                        );
                    }
                    proof {
                        crate::slab::lemma_slab_lookup_member(slab.spec_binding_map(), name@);
                    }
                    Ok(from_slab_value(*slab_idx, resolved_type, slab, builder))
                },
                SlabBindingInfo::Function { .. } => Err(
                    HotEvalError::Codegen {
                        err: CodegenError::BadBindingKind { name: name.clone(), is_var: false },
                    },
                ),
            }
        },
        PackedAnalysisNodeData::UnaryOperation { operator, right_idx } => {
            let r_idx = *right_idx;
            proof {
                assert(spec_children(aast.data@[idx as int])[0] == r_idx as int);
            }
            let inner_val = match from_aast_node(aast, r_idx, builder, slab) {
                Ok(v) => v,
                Err(e) => {
                    return Err(e);
                },
            };
            let child_ty = match aast.get_node_type(r_idx) {
                Ok(t) => t,
                Err(_) => unreached(),
            };
            match operator {
                UnaryOperator::Negate => {
                    let ghost s1 = *builder;
                    let casted = cast_if_needed(inner_val, child_ty, resolved_type, builder);
                    let d = builder.fresh_reg();
                    let out = match casted {
                        IRValue::Int { reg, is_signed } => {
                            builder.emit(Instruction::IntNeg { dst: d, src: reg });
                            IRValue::Int { reg: d, is_signed }
                        },
                        IRValue::Float { reg } => {
                            builder.emit(Instruction::FloatNeg { dst: d, src: reg });
                            IRValue::Float { reg: d }
                        },
                    };
                    proof {
                        lemma_emits_ok_trans(b0, s1, *builder);
                    }
                    Ok(out)
                },
                UnaryOperator::LogicalNot => {
                    if resolved_type != ValueType::Bool {
                        return Err(
                            HotEvalError::Codegen { err: CodegenError::UnexpectedBaseType },
                        );
                    }
                    let ghost s1 = *builder;
                    let v = emit_logical_not(inner_val, child_ty, builder);
                    proof {
                        lemma_emits_ok_trans(b0, s1, *builder);
                    }
                    Ok(v)
                },
            }
        },
        PackedAnalysisNodeData::BinaryOperation { operator, left_idx, right_idx } => {
            let l = *left_idx;
            let rr = *right_idx;
            let op = *operator;
            proof {
                assert(spec_children(aast.data@[idx as int])[0] == l as int);
                assert(spec_children(aast.data@[idx as int])[1] == rr as int);
            }
            if op.is_arithmetic() {
                let left_val = match from_aast_node(aast, l, builder, slab) {
                    Ok(v) => v,
                    Err(e) => {
                        return Err(e);
                    },
                };
                let ghost s1 = *builder;
                let right_val = match from_aast_node(aast, rr, builder, slab) {
                    Ok(v) => v,
                    Err(e) => {
                        proof {
                            lemma_emits_ok_trans(b0, s1, *builder);
                        }
                        return Err(e);
                    },
                };
                let lt = match aast.get_node_type(l) {
                    Ok(t) => t,
                    Err(_) => unreached(),
                };
                let rt = match aast.get_node_type(rr) {
                    Ok(t) => t,
                    Err(_) => unreached(),
                };
                let ghost s2 = *builder;
                let right_casted = cast_if_needed(right_val, rt, resolved_type, builder);
                let ghost s3 = *builder;
                let left_casted = cast_if_needed(left_val, lt, resolved_type, builder);
                let ghost s4 = *builder;
                let out = emit_arith(op, resolved_type, left_casted, right_casted, builder);
                proof {
                    lemma_emits_ok_trans(b0, s1, s2);
                    lemma_emits_ok_trans(b0, s2, s3);
                    lemma_emits_ok_trans(b0, s3, s4);
                    lemma_emits_ok_trans(b0, s4, *builder);
                    let fi = builder.cur_instrs();
                    let n = fi.len() as int;
                    if lt != resolved_type && resolved_type != ValueType::Bool {
                        assert(fi.len() == s4.cur_instrs().len() + 1);
                        assert(fi[n - 2] == s4.cur_instrs().last());
                        assert(spec_cast_instr(
                            fi[n - 2],
                            resolved_type,
                            spec_reg_of(left_casted),
                        ));
                    }
                    if rt != resolved_type && resolved_type != ValueType::Bool {
                        if lt != resolved_type {
                            assert(s4.cur_instrs()[s3.cur_instrs().len() - 1]
                                == s3.cur_instrs().last());
                            assert(fi[n - 3] == s3.cur_instrs().last());
                            assert(spec_cast_instr(
                                fi[n - 3],
                                resolved_type,
                                spec_reg_of(right_casted),
                            ));
                        } else {
                            assert(fi[n - 2] == s3.cur_instrs().last());
                            assert(spec_cast_instr(
                                fi[n - 2],
                                resolved_type,
                                spec_reg_of(right_casted),
                            ));
                        }
                    }
                }
                Ok(out)
            } else {
                match op {
                    BinaryOperator::LogicalAnd => {
                        if resolved_type != ValueType::Bool {
                            return Err(
                                HotEvalError::Codegen { err: CodegenError::UnexpectedBaseType },
                            );
                        }
                        lower_short_circuit(aast, idx, l, rr, true, builder, slab)
                    },
                    BinaryOperator::LogicalOr => {
                        if resolved_type != ValueType::Bool {
                            return Err(
                                HotEvalError::Codegen { err: CodegenError::UnexpectedBaseType },
                            );
                        }
                        lower_short_circuit(aast, idx, l, rr, false, builder, slab)
                    },
                    _ => {
                        if resolved_type != ValueType::Bool {
                            return Err(
                                HotEvalError::Codegen { err: CodegenError::UnexpectedBaseType },
                            );
                        }
                        let left_val = match from_aast_node(aast, l, builder, slab) {
                            Ok(v) => v,
                            Err(e) => {
                                return Err(e);
                            },
                        };
                        let ghost s1 = *builder;
                        let right_val = match from_aast_node(aast, rr, builder, slab) {
                            Ok(v) => v,
                            Err(e) => {
                                proof {
                                    lemma_emits_ok_trans(b0, s1, *builder);
                                }
                                return Err(e);
                            },
                        };
                        let lt = match aast.get_node_type(l) {
                            Ok(t) => t,
                            Err(_) => unreached(),
                        };
                        let rt = match aast.get_node_type(rr) {
                            Ok(t) => t,
                            Err(_) => unreached(),
                        };
                        let widened = match ValueType::widen(lt, rt) {
                            Ok(w) => w,
                            Err(e) => {
                                proof {
                                    lemma_emits_ok_trans(b0, s1, *builder);
                                }
                                return Err(HotEvalError::Common { err: e });
                            },
                        };
                        let ghost s2 = *builder;
                        let right_casted = cast_if_needed(right_val, rt, widened, builder);
                        let ghost s3 = *builder;
                        let left_casted = cast_if_needed(left_val, lt, widened, builder);
                        let ghost s4 = *builder;
                        let out = emit_compare(op, widened, left_casted, right_casted, builder);
                        proof {
                            lemma_emits_ok_trans(b0, s1, s2);
                            lemma_emits_ok_trans(b0, s2, s3);
                            lemma_emits_ok_trans(b0, s3, s4);
                            lemma_emits_ok_trans(b0, s4, *builder);
                            let fi = builder.cur_instrs();
                            let n = fi.len() as int;
                            if lt != widened {
                                assert(widened != ValueType::Bool);
                                assert(fi.len() == s4.cur_instrs().len() + 1);
                                assert(s4.cur_instrs().len() >= 1);
                                assert(fi[n - 2] == s4.cur_instrs()[n - 2]);
                                assert(fi[n - 2] == s4.cur_instrs().last());
                                assert(spec_cast_instr(
                                    fi[n - 2],
                                    widened,
                                    spec_reg_of(left_casted),
                                ));
                            }
                            if rt != widened {
                                assert(widened != ValueType::Bool);
                                if lt != widened {
                                    assert(s4.cur_instrs()[s3.cur_instrs().len() - 1]
                                        == s3.cur_instrs().last());
                                    assert(fi[n - 3] == s3.cur_instrs().last());
                                    assert(spec_cast_instr(
                                        fi[n - 3],
                                        widened,
                                        spec_reg_of(right_casted),
                                    ));
                                } else {
                                    assert(fi[n - 2] == s3.cur_instrs().last());
                                    assert(spec_cast_instr(
                                        fi[n - 2],
                                        widened,
                                        spec_reg_of(right_casted),
                                    ));
                                }
                            }
                        }
                        Ok(out)
                    },
                }
            }
        },
        PackedAnalysisNodeData::Ternary { cond_idx, left_idx, right_idx } => {
            let c = *cond_idx;
            let l = *left_idx;
            let rr = *right_idx;
            proof {
                assert(spec_children(aast.data@[idx as int])[0] == c as int);
                assert(spec_children(aast.data@[idx as int])[1] == l as int);
                assert(spec_children(aast.data@[idx as int])[2] == rr as int);
            }
            lower_ternary(aast, idx, c, l, rr, resolved_type, builder, slab)
        },
        PackedAnalysisNodeData::FunctionCall { args, fn_ptr } => {
            let mut arg_types: Vec<ValueType> = Vec::new();
            let mut arg_regs: Vec<usize> = Vec::new();
            let mut a: usize = 0;
            while a < args.len()
                invariant
                    a <= args@.len(),
                    aast.inv(),
                    aast.fully_typed(),
                    idx < aast.spec_len(),
                    slab.wf(),
                    builder.wf(),
                    b0 == *old(builder),
                    spec_emits_ok(b0, *builder),
                    (aast.data@[idx as int] matches PackedAnalysisNodeData::FunctionCall {
                        args: a2,
                        ..
                    } && a2@ == args@),
                    spec_args_lowerable(*aast, idx as int, args@, *slab, a as int),
                decreases args@.len() - a,
            {
                match &args[a] {
                    FunctionArgument::Parameter { idx: arg_idx, expected_type } => {
                        proof {
                            crate::analysis::lemma_arg_child_member(args@, a as int);
                            assert(aast.node_wf(idx as int));
                            assert(spec_children(aast.data@[idx as int]).contains(
                                *arg_idx as int,
                            ));
                            let w = choose|w: int|
                                0 <= w < spec_children(aast.data@[idx as int]).len()
                                    && spec_children(aast.data@[idx as int])[w]
                                    == *arg_idx as int;
                        }
                        let ghost sp = *builder;
                        let child_val = match from_aast_node(aast, *arg_idx, builder, slab) {
                            Ok(v) => v,
                            Err(e) => {
                                proof {
                                    lemma_emits_ok_trans(b0, sp, *builder);
                                    if spec_lowerable(*aast, idx as int, *slab) {
                                        lemma_args_lowerable_prefix(
                                            *aast,
                                            idx as int,
                                            args@,
                                            *slab,
                                            a as int + 1,
                                            args@.len() as int,
                                        );
                                        assert(false);
                                    }
                                }
                                return Err(e);
                            },
                        };
                        let child_ty = match aast.get_node_type(*arg_idx) {
                            Ok(t) => t,
                            Err(_) => unreached(),
                        };
                        let ghost sq = *builder;
                        let casted = cast_if_needed(child_val, child_ty, *expected_type, builder);
                        proof {
                            lemma_emits_ok_trans(b0, sp, sq);
                            lemma_emits_ok_trans(b0, sq, *builder);
                        }
                        arg_types.push(*expected_type);
                        arg_regs.push(casted.reg());
                        proof {
                            assert(spec_args_lowerable(
                                *aast,
                                idx as int,
                                args@,
                                *slab,
                                a as int + 1,
                            ));
                        }
                    },
                    FunctionArgument::ConstArgument { value } => {
                        let ghost sp = *builder;
                        let v = from_ast_typed_value(value, builder);
                        proof {
                            lemma_emits_ok_trans(b0, sp, *builder);
                        }
                        arg_types.push(value.get_value_type());
                        arg_regs.push(v.reg());
                        proof {
                            assert(spec_args_lowerable(
                                *aast,
                                idx as int,
                                args@,
                                *slab,
                                a as int + 1,
                            ));
                        }
                    },
                    FunctionArgument::HiddenStateArgument {
                        hidden_state_idx,
                        slab_value_type,
                        cast_to_type,
                    } => {
                        let hcount = slab.get_hidden_state_count();
                        if *hidden_state_idx >= hcount {
                            proof {
                                if spec_lowerable(*aast, idx as int, *slab) {
                                    lemma_args_lowerable_prefix(
                                        *aast,
                                        idx as int,
                                        args@,
                                        *slab,
                                        a as int + 1,
                                        args@.len() as int,
                                    );
                                    assert(false);
                                }
                            }
                            return Err(
                                HotEvalError::Codegen {
                                    err: CodegenError::UnknownHiddenState {
                                        idx: *hidden_state_idx,
                                    },
                                },
                            );
                        }
                        let ghost sp = *builder;
                        let loaded = from_slab_value(
                            *hidden_state_idx,
                            *slab_value_type,
                            slab,
                            builder,
                        );
                        proof {
                            lemma_emits_ok_trans(b0, sp, *builder);
                        }
                        match cast_to_type {
                            Some(ct) => {
                                let ghost sq = *builder;
                                let casted = cast_if_needed(
                                    loaded,
                                    *slab_value_type,
                                    *ct,
                                    builder,
                                );
                                proof {
                                    lemma_emits_ok_trans(b0, sq, *builder);
                                }
                                arg_types.push(*ct);
                                arg_regs.push(casted.reg());
                            },
                            None => {
                                arg_types.push(*slab_value_type);
                                arg_regs.push(loaded.reg());
                            },
                        }
                        proof {
                            assert(spec_args_lowerable(
                                *aast,
                                idx as int,
                                args@,
                                *slab,
                                a as int + 1,
                            ));
                        }
                    },
                }
                a = a + 1;
            }
            let d = builder.fresh_reg();
            let ghost sp = *builder;
            builder.emit(
                Instruction::CallIndirect {
                    dst: d,
                    fn_addr: *fn_ptr,
                    ret_type: resolved_type,
                    arg_types,
                    args: arg_regs,
                },
            );
            proof {
                lemma_emits_ok_trans(b0, sp, *builder);
                assert(spec_lowerable(*aast, idx as int, *slab));
            }
            Ok(classify_result(d, resolved_type))
        },
    }
}

/// One compiled expression: its result type, the instruction-level function,
/// and the slab it owns. The slab must stay where it is for as long as native
/// code produced from `func` can run, because `func` bakes slot addresses in.
#[derive(Debug)]
pub struct CompiledExpression {
    pub value_type: ValueType,
    pub slab: Slab,
    pub func: crate::ir::IRFunction,
}

/// Compiles expressions against one module; functions it produces are
/// numbered sequentially.
#[derive(Debug)]
pub struct CompilationContext {
    pub ctx_id: usize,
    pub next: usize,
}

/// Issues compilation contexts, numbered sequentially.
#[derive(Debug)]
pub struct JITContext {
    pub next: usize,
}

impl JITContext {
    pub fn new() -> (r: JITContext)
        ensures
            r.next == 0,
    {
        JITContext { next: 0 }
    }

    pub fn make_compilation_context(&mut self) -> (r: CompilationContext)
        requires
            old(self).next < usize::MAX,
        ensures
            r.ctx_id == old(self).next,
            r.next == 0,
            final(self).next == old(self).next + 1,
    {
        let comp_ctx_id = self.next;
        self.next = self.next + 1;
        CompilationContext { ctx_id: comp_ctx_id, next: 0 }
    }
}

impl CompilationContext {
    pub fn new(comp_ctx_id: usize) -> (r: CompilationContext)
        ensures
            r.ctx_id == comp_ctx_id,
            r.next == 0,
    {
        CompilationContext { ctx_id: comp_ctx_id, next: 0 }
    }

    /// Lower an analyzed tree into a function: emit the root expression into
    /// an entry block and return its value. The function is named by this
    /// context's id and the next sequential function id, which is consumed
    /// even when compilation fails.
    #[verifier::rlimit(100)]
    pub fn compile_analysed_ast(&mut self, aast: &PackedAnalysisTree, slab: Slab) -> (r: Result<
        CompiledExpression,
        HotEvalError,
    >)
        requires
            aast.inv(),
            aast.fully_typed(),
            slab.wf(),
            old(self).next < usize::MAX,
        ensures
            final(self).ctx_id == old(self).ctx_id,
            final(self).next == old(self).next + 1,
            r is Ok <==> (aast.spec_len() > 0 && spec_lowerable(
                *aast,
                aast.spec_len() - 1,
                slab,
            )),
            r matches Err(e) ==> (e matches HotEvalError::Analysis { .. } ==> aast.spec_len()
                == 0),
            match r {
                Ok(ce) => {
                    &&& aast.spec_len() > 0
                    &&& Some(ce.value_type) == aast.resolved_types@[aast.spec_len() - 1]
                    &&& ce.func.return_type == ce.value_type
                    &&& ce.func.ctx_id == old(self).ctx_id
                    &&& ce.func.fn_id == old(self).next
                    &&& ce.func.blocks@.len() > 0
                    &&& ce.slab == slab
                    &&& (exists|b: int|
                        0 <= b < ce.func.blocks@.len() && (#[trigger] ce.func.blocks@[b].terminator)
                            matches Some(Terminator::Return { .. }))
                    &&& (match aast.data@[aast.spec_len() - 1] {
                        PackedAnalysisNodeData::BinaryOperation { operator, .. } => (operator
                            == BinaryOperator::LogicalAnd || operator
                            == BinaryOperator::LogicalOr) ==> spec_short_circuit_shape(
                            ce.func.blocks@,
                            operator == BinaryOperator::LogicalAnd,
                        ),
                        _ => true,
                    })
                },
                Err(_) => true,
            },
    {
        let id = self.next;
        self.next = self.next + 1;
        let fn_ast_type = match aast.get_expr_type() {
            Ok(t) => t,
            Err(e) => {
                return Err(HotEvalError::Analysis { err: e });
            },
        };
        let mut builder = FunctionBuilder::new();
        let root = aast.node_count() - 1;
        let expr = match from_aast_node(aast, root, &mut builder, &slab) {
            Ok(v) => v,
            Err(e) => {
                return Err(e);
            },
        };
        let ghost lowered = builder;
        builder.terminate(Terminator::Return { value: expr.reg() });
        proof {
            let fb = builder.blocks@;
            assert(fb[lowered.current as int].terminator matches Some(
                Terminator::Return { .. },
            ));
            match aast.data@[aast.spec_len() - 1] {
                PackedAnalysisNodeData::BinaryOperation { operator, .. } => {
                    if operator == BinaryOperator::LogicalAnd || operator
                        == BinaryOperator::LogicalOr {
                        let is_and = operator == BinaryOperator::LogicalAnd;
                        let (cb, sb, ab) = choose|cb: int, sb: int, ab: int|
                            spec_short_circuit_blocks(lowered.blocks@, is_and, cb, sb, ab);
                        assert(fb[cb] == lowered.blocks@[cb]);
                        assert(fb[sb] == lowered.blocks@[sb]);
                        assert(spec_short_circuit_blocks(fb, is_and, cb, sb, ab));
                    }
                },
                _ => {},
            }
        }
        let reg_count = builder.regs.len();
        let ghost final_blocks = builder.blocks@;
        let ce = CompiledExpression {
            value_type: fn_ast_type,
            slab,
            func: crate::ir::IRFunction {
                ctx_id: self.ctx_id,
                fn_id: id,
                return_type: fn_ast_type,
                blocks: builder.blocks,
                reg_count,
            },
        };
        proof {
            assert(ce.func.blocks@ == final_blocks);
            assert(ce.func.blocks@[lowered.current as int].terminator matches Some(
                Terminator::Return { .. },
            ));
            assert(exists|b: int|
                0 <= b < ce.func.blocks@.len() && (#[trigger] ce.func.blocks@[b].terminator)
                    matches Some(Terminator::Return { .. }));
        }
        Ok(ce)
    }

    /// Derive the slab from the table, analyze the expression against it, and
    /// lower the result: on success the compiled expression owns a slab with
    /// the table's deterministic layout, its type is the analyzed root's
    /// resolved type, and the analyzed tree is the faithful, fully typed image
    /// of the given expression.
    pub fn compile_ast(&mut self, ast: &crate::ast::Expression, table: &crate::table::Table) -> (r:
        Result<CompiledExpression, HotEvalError>)
        requires
            table.wf(),
            table.spec_hidden_states().len() + table.spec_bindings().len() <= usize::MAX,
            old(self).next < usize::MAX,
        ensures
            final(self).ctx_id == old(self).ctx_id,
            match r {
                Ok(ce) => {
                    &&& spec_slab_map_ok(
                        ce.slab.spec_binding_map(),
                        table.spec_bindings(),
                        ce.slab.spec_hidden_count(),
                    )
                    &&& ce.slab.spec_hidden_types() == table.spec_hidden_states()
                    &&& ce.slab.spec_hidden_count() == table.spec_hidden_states().len()
                    &&& ce.func.return_type == ce.value_type
                    &&& ce.func.ctx_id == old(self).ctx_id
                    &&& ce.func.blocks@.len() > 0
                    &&& (exists|aast: PackedAnalysisTree|
                        #![trigger aast.rooted()]
                        {
                            &&& aast.inv()
                            &&& aast.rooted()
                            &&& aast.fully_typed()
                            &&& spec_corresponds(aast, aast.spec_len() - 1, *ast, *table)
                            &&& Some(ce.value_type) == aast.resolved_types@[aast.spec_len() - 1]
                            &&& spec_lowerable(aast, aast.spec_len() - 1, ce.slab)
                        })
                    &&& (match *ast {
                        crate::ast::Expression::BinaryOperation { operator, .. } => (operator
                            == BinaryOperator::LogicalAnd || operator
                            == BinaryOperator::LogicalOr) ==> spec_short_circuit_shape(
                            ce.func.blocks@,
                            operator == BinaryOperator::LogicalAnd,
                        ),
                        _ => true,
                    })
                },
                Err(_) => true,
            },
            r is Ok ==> spec_flattenable(*ast, *table),
            !spec_flattenable(*ast, *table) ==> r is Err,
            r matches Err(ea) ==> (ea matches HotEvalError::Analysis { .. } ==> (
            spec_flattenable(*ast, *table) ==> exists|t: PackedAnalysisTree|
                #![trigger t.rooted()]
                {
                    &&& t.inv()
                    &&& t.rooted()
                    &&& spec_corresponds(t, t.spec_len() - 1, *ast, *table)
                    &&& spec_inner_pass_stable(t)
                    &&& spec_outer_pass_stable(t)
                    &&& !t.fully_typed()
                })),
    {
        let slab = match Slab::from_table(table) {
            Ok(s) => s,
            Err(e) => {
                return Err(HotEvalError::Common { err: e });
            },
        };
        let aast = match PackedAnalysisTree::from_ast(ast, table) {
            Ok(t) => t,
            Err(e) => {
                return Err(e);
            },
        };
        let res = self.compile_analysed_ast(&aast, slab);
        proof {
            match res {
                Ok(ref ce) => {
                    assert(aast.inv() && aast.rooted() && aast.fully_typed() && spec_corresponds(
                        aast,
                        aast.spec_len() - 1,
                        *ast,
                        *table,
                    ) && Some(ce.value_type) == aast.resolved_types@[aast.spec_len() - 1]
                        && spec_lowerable(aast, aast.spec_len() - 1, ce.slab));
                    match *ast {
                        crate::ast::Expression::BinaryOperation { operator, .. } => {
                            if operator == BinaryOperator::LogicalAnd || operator
                                == BinaryOperator::LogicalOr {
                                assert(aast.data@[aast.spec_len() - 1] matches
                                    PackedAnalysisNodeData::BinaryOperation { operator: o2, .. }
                                    && o2 == operator);
                                assert(spec_short_circuit_shape(
                                    ce.func.blocks@,
                                    operator == BinaryOperator::LogicalAnd,
                                ));
                            }
                        },
                        _ => {},
                    }
                },
                Err(_) => {},
            }
        }
        res
    }
}

} // verus!
