//! The flat analysis tree and the bidirectional type inference run over it.
//!
//! The tree is a post-order flattening of the parser's expression tree:
//! children always sit at lower indices than their parent and the root is the
//! last node. Node data, resolved types, and parent back-pointers are kept in
//! three parallel vectors so that inference can mutate types in place while
//! walking links in both directions.

use vstd::prelude::*;
use crate::ast::{BinaryOperator, Expression, UnaryOperator};
use crate::ast::{spec_is_arithmetic, spec_is_comparison};
use crate::binding::Binding;
use crate::errors::{spec_flatten_error, spec_inference_error, AnalysisError, CommonError, HotEvalError};
use crate::table::{spec_table_lookup, Table};
use crate::binding::FnSpecCallArg;
use crate::value::{spec_resolved_value, spec_value_type, UntypedValue, Value};
use crate::value_type::ValueType;

verus! {

/// How one physical argument of a lowered call is produced: from a child
/// subtree cast to the declared parameter type, from a constant, or from a
/// hidden-state slot (optionally cast).
#[derive(Debug)]
pub enum FunctionArgument {
    Parameter { idx: usize, expected_type: ValueType },
    ConstArgument { value: Value },
    HiddenStateArgument {
        hidden_state_idx: usize,
        slab_value_type: ValueType,
        cast_to_type: Option<ValueType>,
    },
}

/// One analysis node. Child indices always refer to earlier nodes.
#[derive(Debug)]
pub enum PackedAnalysisNodeData {
    TypedValue { value: Value },
    UntypedValue { value: UntypedValue },
    FunctionCall { args: Vec<FunctionArgument>, fn_ptr: usize },
    UnaryOperation { operator: UnaryOperator, right_idx: usize },
    BinaryOperation { operator: BinaryOperator, left_idx: usize, right_idx: usize },
    Variable { name: String },
    Ternary { cond_idx: usize, left_idx: usize, right_idx: usize },
}

/// The flat analysis tree: `data`, `resolved_types` and `parents` are
/// parallel, indexed by node. A `None` resolved type is permitted only while
/// analysis is still running, and only for untyped literals and the operators
/// whose type depends on them.
#[derive(Debug)]
pub struct PackedAnalysisTree {
    pub data: Vec<PackedAnalysisNodeData>,
    pub resolved_types: Vec<Option<ValueType>>,
    pub parents: Vec<Option<usize>>,
}

/// Child indices contributed by a call's argument list (one per `Parameter`).
pub open spec fn spec_arg_children(args: Seq<FunctionArgument>) -> Seq<int>
    decreases args.len(),
{
    if args.len() == 0 {
        Seq::empty()
    } else {
        let rest = spec_arg_children(args.drop_last());
        match args.last() {
            FunctionArgument::Parameter { idx, .. } => rest.push(idx as int),
            _ => rest,
        }
    }
}

/// A `Parameter` argument's child index is among the call node's children.
pub proof fn lemma_arg_child_member(args: Seq<FunctionArgument>, a: int)
    requires
        0 <= a < args.len(),
        args[a] matches FunctionArgument::Parameter { .. },
    ensures
        (args[a] matches FunctionArgument::Parameter { idx, .. } ==> spec_arg_children(
            args,
        ).contains(idx as int)),
    decreases args.len(),
{
    if a == args.len() - 1 {
        match args[a] {
            FunctionArgument::Parameter { idx, .. } => {
                let cs = spec_arg_children(args);
                assert(cs[cs.len() - 1] == idx as int);
            },
            _ => {},
        }
    } else {
        lemma_arg_child_member(args.drop_last(), a);
        assert(args.drop_last()[a] == args[a]);
        match args[a] {
            FunctionArgument::Parameter { idx, .. } => {
                let rest = spec_arg_children(args.drop_last());
                let w = choose|w: int| 0 <= w < rest.len() && rest[w] == idx as int;
                assert(spec_arg_children(args)[w] == idx as int) by {
                    match args.last() {
                        FunctionArgument::Parameter { .. } => {
                            assert(spec_arg_children(args) == rest.push(
                                spec_arg_children(args)[spec_arg_children(args).len() - 1],
                            )) by {
                                assert(spec_arg_children(args).drop_last() =~= rest);
                            }
                        },
                        _ => {},
                    }
                }
                assert(spec_arg_children(args).contains(idx as int));
            },
            _ => {},
        }
    }
}

/// The child indices of a node.
pub open spec fn spec_children(d: PackedAnalysisNodeData) -> Seq<int> {
    match d {
        PackedAnalysisNodeData::TypedValue { .. } => Seq::empty(),
        PackedAnalysisNodeData::UntypedValue { .. } => Seq::empty(),
        PackedAnalysisNodeData::Variable { .. } => Seq::empty(),
        PackedAnalysisNodeData::FunctionCall { args, .. } => spec_arg_children(args@),
        PackedAnalysisNodeData::UnaryOperation { right_idx, .. } => seq![right_idx as int],
        PackedAnalysisNodeData::BinaryOperation { left_idx, right_idx, .. } => seq![
            left_idx as int,
            right_idx as int,
        ],
        PackedAnalysisNodeData::Ternary { cond_idx, left_idx, right_idx } => seq![
            cond_idx as int,
            left_idx as int,
            right_idx as int,
        ],
    }
}

impl PackedAnalysisTree {
    pub open spec fn spec_len(&self) -> int {
        self.data@.len() as int
    }

    /// The three vectors stay in lockstep.
    pub open spec fn lens_ok(&self) -> bool {
        self.resolved_types@.len() == self.data@.len() && self.parents@.len() == self.data@.len()
    }

    /// Flat-tree ordering: every child index is strictly below its parent's
    /// index and points back at it, and a parent back-pointer always leads to
    /// a later node that lists this node among its children (so no two nodes
    /// share a child).
    pub open spec fn node_wf(&self, i: int) -> bool {
        &&& forall|k: int|
            0 <= k < spec_children(self.data@[i]).len() ==> 0 <= #[trigger] spec_children(
                self.data@[i],
            )[k] < i
        &&& forall|k: int|
            0 <= k < spec_children(self.data@[i]).len() ==> self.parents@[#[trigger] spec_children(
                self.data@[i],
            )[k]] == Some(i as usize)
        &&& match self.parents@[i] {
            Some(p) => i < p < self.spec_len() && spec_children(self.data@[p as int]).contains(i),
            None => true,
        }
    }

    pub open spec fn tree_wf(&self) -> bool {
        &&& self.lens_ok()
        &&& forall|i: int| 0 <= i < self.spec_len() ==> #[trigger] self.node_wf(i)
    }

    /// Only untyped literals, negations, arithmetic operators and ternaries
    /// may still lack a resolved type.
    pub open spec fn none_type_ok(&self) -> bool {
        forall|i: int|
            0 <= i < self.spec_len() && self.resolved_types@[i] is None
                ==> match #[trigger] self.data@[i] {
                PackedAnalysisNodeData::UntypedValue { .. } => true,
                PackedAnalysisNodeData::UnaryOperation { operator, .. } => operator
                    == UnaryOperator::Negate,
                PackedAnalysisNodeData::BinaryOperation { operator, .. } => spec_is_arithmetic(
                    operator,
                ),
                PackedAnalysisNodeData::Ternary { .. } => true,
                _ => false,
            }
    }

    /// An untyped literal never carries a resolved type: resolving one always
    /// turns it into a typed value.
    pub open spec fn untyped_consistent(&self) -> bool {
        forall|i: int|
            0 <= i < self.spec_len() && ((#[trigger] self.data@[i]) matches
            PackedAnalysisNodeData::UntypedValue { .. }) ==> self.resolved_types@[i] is None
    }

    /// Everything analysis relies on between passes.
    pub open spec fn inv(&self) -> bool {
        self.tree_wf() && self.none_type_ok() && self.untyped_consistent()
    }

    /// The last node is the root and no other node is parentless.
    pub open spec fn rooted(&self) -> bool {
        &&& self.spec_len() > 0
        &&& self.parents@[self.spec_len() - 1] is None
        &&& forall|i: int| 0 <= i < self.spec_len() - 1 ==> self.parents@[i] is Some
    }

    /// Every node has a resolved type and no untyped literal is left.
    pub open spec fn fully_typed(&self) -> bool {
        forall|i: int|
            0 <= i < self.spec_len() ==> (#[trigger] self.resolved_types@[i]) is Some && !(
            self.data@[i] matches PackedAnalysisNodeData::UntypedValue { .. })
    }
}

/// Type monotonicity: every type that was already resolved in `a` is resolved
/// to the same type in `b`.
pub open spec fn spec_types_preserved(a: PackedAnalysisTree, b: PackedAnalysisTree) -> bool {
    &&& b.resolved_types@.len() == a.resolved_types@.len()
    &&& forall|i: int|
        0 <= i < a.resolved_types@.len() && (#[trigger] a.resolved_types@[i]) is Some
            ==> b.resolved_types@[i] == a.resolved_types@[i]
}

/// Structural indices never change after flattening: node count, parents and
/// children are fixed, and node data changes only by an untyped literal
/// being replaced, at some resolved type, by exactly the typed value the
/// literal resolves to at that type.
pub open spec fn spec_same_structure(a: PackedAnalysisTree, b: PackedAnalysisTree) -> bool {
    &&& b.data@.len() == a.data@.len()
    &&& b.resolved_types@.len() == a.resolved_types@.len()
    &&& b.parents@ == a.parents@
    &&& forall|i: int|
        0 <= i < a.data@.len() ==> #[trigger] b.data@[i] == a.data@[i] || (
        a.data@[i] matches PackedAnalysisNodeData::UntypedValue { value } && exists|rt: ValueType|
            spec_resolved_value(value, rt) is Some && b.data@[i] == (
            PackedAnalysisNodeData::TypedValue {
                value: spec_resolved_value(value, rt)->Some_0,
            }) && b.resolved_types@[i] == Some(rt))
    &&& forall|i: int|
        0 <= i < a.data@.len() ==> spec_children(#[trigger] b.data@[i]) == spec_children(
            a.data@[i],
        )
}

/// What an inner-to-outer pass computes for a node from its children's types:
/// negation lifts the child's type to signed, arithmetic operators and
/// ternaries take the non-greedy widening of their operands (resolved only
/// when both operands are). The outer `None` is a widening or signing failure.
pub open spec fn spec_inner_result(t: PackedAnalysisTree, idx: int) -> Option<Option<ValueType>> {
    match t.data@[idx] {
        PackedAnalysisNodeData::UnaryOperation { right_idx, .. } => crate::value_type::spec_to_signed_optional(
            t.resolved_types@[right_idx as int],
        ),
        PackedAnalysisNodeData::BinaryOperation { left_idx, right_idx, .. } => crate::value_type::spec_widen_optional_non_greedy(
            t.resolved_types@[left_idx as int],
            t.resolved_types@[right_idx as int],
        ),
        PackedAnalysisNodeData::Ternary { left_idx, right_idx, .. } => crate::value_type::spec_widen_optional_non_greedy(
            t.resolved_types@[left_idx as int],
            t.resolved_types@[right_idx as int],
        ),
        _ => Some(None),
    }
}

/// The declared type of the first call argument that feeds child `c`, if any.
pub open spec fn spec_arg_hint_from(args: Seq<FunctionArgument>, i: int, c: int) -> Option<
    ValueType,
>
    decreases args.len() - i,
{
    if i < 0 || i >= args.len() {
        None
    } else {
        match args[i] {
            FunctionArgument::Parameter { idx, expected_type } => if idx as int == c {
                Some(expected_type)
            } else {
                spec_arg_hint_from(args, i + 1, c)
            },
            _ => spec_arg_hint_from(args, i + 1, c),
        }
    }
}

/// The hint a parent offers a child during outer-to-inner propagation, per
/// parent kind: a call offers the argument's declared type; negation the
/// signed form of its own hint or type; logical operators and a ternary's
/// condition demand Bool; arithmetic offers its own type, else the incoming
/// hint, else the greedy widening of its operands; comparisons and ternary
/// branches offer the greedy widening of the operands or branches. The outer
/// `None` is a failure: a leaf was asked, a stranger child was asked, or
/// widening/signing failed.
pub open spec fn spec_child_hint(
    t: PackedAnalysisTree,
    p: int,
    c: int,
    parent_hint: Option<ValueType>,
) -> Option<Option<ValueType>> {
    match t.data@[p] {
        PackedAnalysisNodeData::TypedValue { .. }
        | PackedAnalysisNodeData::UntypedValue { .. }
        | PackedAnalysisNodeData::Variable { .. } => None,
        PackedAnalysisNodeData::FunctionCall { args, .. } => match spec_arg_hint_from(args@, 0, c) {
            Some(et) => Some(Some(et)),
            None => None,
        },
        PackedAnalysisNodeData::UnaryOperation { operator, right_idx } => if c != right_idx as int {
            None
        } else {
            match operator {
                UnaryOperator::Negate => match parent_hint {
                    Some(ph) => match crate::value_type::spec_to_signed(ph) {
                        Some(s) => Some(Some(s)),
                        None => None,
                    },
                    None => crate::value_type::spec_to_signed_optional(t.resolved_types@[p]),
                },
                UnaryOperator::LogicalNot => Some(Some(ValueType::Bool)),
            }
        },
        PackedAnalysisNodeData::BinaryOperation { operator, left_idx, right_idx } => if c
            != left_idx as int && c != right_idx as int {
            None
        } else if spec_is_arithmetic(operator) {
            if t.resolved_types@[p] is Some {
                Some(t.resolved_types@[p])
            } else if parent_hint is Some {
                Some(parent_hint)
            } else {
                crate::value_type::spec_widen_optional_greedy(
                    t.resolved_types@[left_idx as int],
                    t.resolved_types@[right_idx as int],
                )
            }
        } else if spec_is_comparison(operator) {
            crate::value_type::spec_widen_optional_greedy(
                t.resolved_types@[left_idx as int],
                t.resolved_types@[right_idx as int],
            )
        } else {
            Some(Some(ValueType::Bool))
        },
        PackedAnalysisNodeData::Ternary { cond_idx, left_idx, right_idx } => if c
            == cond_idx as int {
            Some(Some(ValueType::Bool))
        } else if c != left_idx as int && c != right_idx as int {
            None
        } else {
            crate::value_type::spec_widen_optional_greedy(
                t.resolved_types@[left_idx as int],
                t.resolved_types@[right_idx as int],
            )
        },
    }
}

/// Setting one node's type (on a node that is not an untyped literal) keeps
/// the analysis invariant.
proof fn lemma_set_type_preserves_inv(
    a: PackedAnalysisTree,
    b: PackedAnalysisTree,
    idx: int,
    t: ValueType,
)
    requires
        a.inv(),
        0 <= idx < a.spec_len(),
        !(a.data@[idx] matches PackedAnalysisNodeData::UntypedValue { .. }),
        b.data@ == a.data@,
        b.parents@ == a.parents@,
        b.resolved_types@ == a.resolved_types@.update(idx, Some(t)),
    ensures
        b.inv(),
{
    assert forall|i: int| 0 <= i < b.spec_len() implies #[trigger] b.node_wf(i) by {
        assert(a.node_wf(i));
    }
}

/// Replacing an untyped literal by a typed value of the resolved type keeps
/// the analysis invariant: both are leaves, so no link changes.
proof fn lemma_convert_untyped_preserves_inv(
    a: PackedAnalysisTree,
    b: PackedAnalysisTree,
    idx: int,
    uv: UntypedValue,
    v: Value,
    t: ValueType,
)
    requires
        a.inv(),
        0 <= idx < a.spec_len(),
        a.data@[idx] == (PackedAnalysisNodeData::UntypedValue { value: uv }),
        spec_resolved_value(uv, t) == Some(v),
        b.data@ == a.data@.update(idx, PackedAnalysisNodeData::TypedValue { value: v }),
        b.parents@ == a.parents@,
        b.resolved_types@ == a.resolved_types@.update(idx, Some(t)),
    ensures
        b.inv(),
        spec_same_structure(a, b),
        spec_types_preserved(a, b),
{
    assert forall|i: int| 0 <= i < b.spec_len() implies #[trigger] b.node_wf(i) by {
        assert(a.node_wf(i));
        match b.parents@[i] {
            Some(p) => {
                if p as int == idx {
                    assert(spec_children(a.data@[idx]).contains(i));
                    assert(false);
                }
            },
            None => {},
        }
    }
    assert forall|i: int|
        0 <= i < a.data@.len() implies spec_children(#[trigger] b.data@[i]) == spec_children(
        a.data@[i],
    ) by {
        if i == idx {
            assert(spec_children(b.data@[i]) =~= spec_children(a.data@[i]));
        }
    }
}


/// The node at `i` is the image of `ast` under flattening and analysis:
/// operator and call nodes mirror the expression with their children below
/// them, table constants are inlined as typed values, variables carry their
/// declared type, logical-not, comparisons and logical connectives are Bool,
/// a call carries its binding's return type and specialization, and an
/// untyped literal is either still unresolved or has been replaced, at some
/// type, by exactly the value the literal resolves to at that type.
pub open spec fn spec_corresponds(
    t: PackedAnalysisTree,
    i: int,
    ast: Expression,
    table: Table,
) -> bool
    decreases i, 1int, 0int,
{
    0 <= i < t.spec_len() && match ast {
        Expression::TypedValue { value } => t.data@[i] == (PackedAnalysisNodeData::TypedValue {
            value,
        }) && t.resolved_types@[i] == Some(spec_value_type(value)),
        Expression::UntypedValue { value } => (t.data@[i] == (
        PackedAnalysisNodeData::UntypedValue { value }) && t.resolved_types@[i] is None) || (
        exists|rt: ValueType|
            spec_resolved_value(value, rt) is Some && t.data@[i] == (
            PackedAnalysisNodeData::TypedValue {
                value: spec_resolved_value(value, rt)->Some_0,
            }) && t.resolved_types@[i] == Some(rt)),
        Expression::Binding { name } => match spec_table_lookup(table.spec_bindings(), name@) {
            Some(b) => match b {
                Binding::Const { value } => t.data@[i] == (PackedAnalysisNodeData::TypedValue {
                    value,
                }) && t.resolved_types@[i] == Some(spec_value_type(value)),
                Binding::Variable { value_type } => (t.data@[i] matches
                PackedAnalysisNodeData::Variable { name: n } && n@ == name@) && t.resolved_types@[i]
                    == Some(value_type),
                _ => false,
            },
            None => false,
        },
        Expression::UnaryOperation { operator, right } => {
            &&& (t.data@[i] matches PackedAnalysisNodeData::UnaryOperation {
                operator: op2,
                right_idx,
            } && op2 == operator && right_idx < i && spec_corresponds(
                t,
                right_idx as int,
                *right,
                table,
            ))
            &&& (operator == UnaryOperator::LogicalNot ==> t.resolved_types@[i] == Some(
                ValueType::Bool,
            ))
        },
        Expression::BinaryOperation { operator, left, right } => {
            &&& (t.data@[i] matches PackedAnalysisNodeData::BinaryOperation {
                operator: op2,
                left_idx,
                right_idx,
            } && op2 == operator && left_idx < i && right_idx < i && spec_corresponds(
                t,
                left_idx as int,
                *left,
                table,
            ) && spec_corresponds(t, right_idx as int, *right, table))
            &&& (!spec_is_arithmetic(operator) ==> t.resolved_types@[i] == Some(ValueType::Bool))
        },
        Expression::Ternary { cond, left, right } => (t.data@[i] matches
        PackedAnalysisNodeData::Ternary { cond_idx, left_idx, right_idx } && cond_idx < i
            && left_idx < i && right_idx < i && spec_corresponds(t, cond_idx as int, *cond, table)
            && spec_corresponds(t, left_idx as int, *left, table) && spec_corresponds(
            t,
            right_idx as int,
            *right,
            table,
        )),
        Expression::FunctionCall { name, arguments } => match spec_table_lookup(
            table.spec_bindings(),
            name@,
        ) {
            Some(b) => match b {
                Binding::Function { ret_type, params, call_args, fn_ptr } => {
                    &&& params@.len() == arguments@.len()
                    &&& t.resolved_types@[i] == Some(ret_type)
                    &&& (t.data@[i] matches PackedAnalysisNodeData::FunctionCall {
                        args,
                        fn_ptr: p2,
                    } && p2 == fn_ptr && args@.len() == call_args@.len()
                        && spec_args_correspond_upto(
                        t,
                        i,
                        args@,
                        call_args@,
                        params@,
                        arguments@,
                        table,
                        call_args@.len() as int,
                    ))
                },
                _ => false,
            },
            None => false,
        },
    }
}

/// Positions `0 .. k` of a lowered call's argument list mirror the binding's
/// specialization: a mapped argument becomes a `Parameter` at the declared
/// parameter type whose child node is the image of the mapped expression
/// argument, a constant argument is carried verbatim, and a hidden-state
/// argument carries its slot's declared type.
pub open spec fn spec_args_correspond_upto(
    t: PackedAnalysisTree,
    i: int,
    args: Seq<FunctionArgument>,
    call_args: Seq<FnSpecCallArg>,
    params: Seq<ValueType>,
    arguments: Seq<Expression>,
    table: Table,
    k: int,
) -> bool
    decreases i, 0int, k,
{
    k <= 0 || {
        &&& 0 <= i
        &&& spec_args_correspond_upto(t, i, args, call_args, params, arguments, table, k - 1)
        &&& k <= args.len() && k <= call_args.len()
        &&& match call_args[k - 1] {
            FnSpecCallArg::MappedArgument { param_idx } => {
                &&& (param_idx as int) < params.len()
                &&& (param_idx as int) < arguments.len()
                &&& (args[k - 1] matches FunctionArgument::Parameter { idx: c, expected_type }
                    && expected_type == params[param_idx as int] && c < i && spec_corresponds(
                    t,
                    c as int,
                    arguments[param_idx as int],
                    table,
                ))
            },
            FnSpecCallArg::ConstArgument { value } => args[k - 1] == (
            FunctionArgument::ConstArgument { value }),
            FnSpecCallArg::HiddenStateArgument { hidden_state_idx, cast_to_type } => {
                &&& (hidden_state_idx as int) < table.spec_hidden_states().len()
                &&& args[k - 1] == (FunctionArgument::HiddenStateArgument {
                    hidden_state_idx,
                    slab_value_type: table.spec_hidden_states()[hidden_state_idx as int],
                    cast_to_type,
                })
            },
        }
    }
}

/// Correspondence reads only the nodes at and below `i`: a tree that agrees
/// with `a` there corresponds as well.
proof fn lemma_corresponds_agree(
    a: PackedAnalysisTree,
    b: PackedAnalysisTree,
    i: int,
    ast: Expression,
    table: Table,
)
    requires
        spec_corresponds(a, i, ast, table),
        i < b.spec_len(),
        forall|j: int|
            0 <= j <= i ==> b.data@[j] == a.data@[j] && b.resolved_types@[j]
                == a.resolved_types@[j],
    ensures
        spec_corresponds(b, i, ast, table),
    decreases i, 1int, 0int,
{
    match ast {
        Expression::UntypedValue { value } => {
            if !(a.data@[i] == (PackedAnalysisNodeData::UntypedValue { value })
                && a.resolved_types@[i] is None) {
                let rt = choose|rt: ValueType|
                    spec_resolved_value(value, rt) is Some && a.data@[i] == (
                    PackedAnalysisNodeData::TypedValue {
                        value: spec_resolved_value(value, rt)->Some_0,
                    }) && a.resolved_types@[i] == Some(rt);
                assert(spec_resolved_value(value, rt) is Some && b.data@[i] == (
                PackedAnalysisNodeData::TypedValue {
                    value: spec_resolved_value(value, rt)->Some_0,
                }) && b.resolved_types@[i] == Some(rt));
            }
        },
        Expression::UnaryOperation { operator: _, right } => {
            match a.data@[i] {
                PackedAnalysisNodeData::UnaryOperation { right_idx, .. } => {
                    lemma_corresponds_agree(a, b, right_idx as int, *right, table);
                },
                _ => {},
            }
        },
        Expression::BinaryOperation { operator: _, left, right } => {
            match a.data@[i] {
                PackedAnalysisNodeData::BinaryOperation { left_idx, right_idx, .. } => {
                    lemma_corresponds_agree(a, b, left_idx as int, *left, table);
                    lemma_corresponds_agree(a, b, right_idx as int, *right, table);
                },
                _ => {},
            }
        },
        Expression::Ternary { cond, left, right } => {
            match a.data@[i] {
                PackedAnalysisNodeData::Ternary { cond_idx, left_idx, right_idx } => {
                    lemma_corresponds_agree(a, b, cond_idx as int, *cond, table);
                    lemma_corresponds_agree(a, b, left_idx as int, *left, table);
                    lemma_corresponds_agree(a, b, right_idx as int, *right, table);
                },
                _ => {},
            }
        },
        Expression::FunctionCall { name, arguments } => {
            match a.data@[i] {
                PackedAnalysisNodeData::FunctionCall { args, .. } => {
                    match spec_table_lookup(table.spec_bindings(), name@) {
                        Some(binding) => match binding {
                            Binding::Function { params, call_args, .. } => {
                                lemma_args_corresponds_agree(
                                    a,
                                    b,
                                    i,
                                    args@,
                                    call_args@,
                                    params@,
                                    arguments@,
                                    table,
                                    call_args@.len() as int,
                                );
                            },
                            _ => {},
                        },
                        None => {},
                    }
                },
                _ => {},
            }
        },
        _ => {},
    }
}

proof fn lemma_args_corresponds_agree(
    a: PackedAnalysisTree,
    b: PackedAnalysisTree,
    i: int,
    args: Seq<FunctionArgument>,
    call_args: Seq<FnSpecCallArg>,
    params: Seq<ValueType>,
    arguments: Seq<Expression>,
    table: Table,
    k: int,
)
    requires
        spec_args_correspond_upto(a, i, args, call_args, params, arguments, table, k),
        i <= b.spec_len(),
        forall|j: int|
            0 <= j < i ==> b.data@[j] == a.data@[j] && b.resolved_types@[j]
                == a.resolved_types@[j],
    ensures
        spec_args_correspond_upto(b, i, args, call_args, params, arguments, table, k),
    decreases i, 0int, k,
{
    if k > 0 {
        lemma_args_corresponds_agree(a, b, i, args, call_args, params, arguments, table, k - 1);
        match call_args[k - 1] {
            FnSpecCallArg::MappedArgument { param_idx } => {
                match args[k - 1] {
                    FunctionArgument::Parameter { idx: c, .. } => {
                        lemma_corresponds_agree(
                            a,
                            b,
                            c as int,
                            arguments[param_idx as int],
                            table,
                        );
                    },
                    _ => {},
                }
            },
            _ => {},
        }
    }
}

/// Correspondence survives analysis: the passes only set types that were
/// unresolved and replace untyped literals by their faithful resolutions.
proof fn lemma_corresponds_preserved(
    a: PackedAnalysisTree,
    b: PackedAnalysisTree,
    i: int,
    ast: Expression,
    table: Table,
)
    requires
        spec_corresponds(a, i, ast, table),
        a.lens_ok(),
        spec_same_structure(a, b),
        spec_types_preserved(a, b),
        b.untyped_consistent(),
    ensures
        spec_corresponds(b, i, ast, table),
    decreases i, 1int, 0int,
{
    match ast {
        Expression::UntypedValue { value } => {
            if a.data@[i] == (PackedAnalysisNodeData::UntypedValue { value })
                && a.resolved_types@[i] is None {
                if b.data@[i] == a.data@[i] {
                    assert(b.untyped_consistent());
                    assert(b.resolved_types@[i] is None);
                } else {
                    assert(exists|rt: ValueType|
                        spec_resolved_value(value, rt) is Some && b.data@[i] == (
                        PackedAnalysisNodeData::TypedValue {
                            value: spec_resolved_value(value, rt)->Some_0,
                        }) && b.resolved_types@[i] == Some(rt));
                }
            } else {
                let rt = choose|rt: ValueType|
                    spec_resolved_value(value, rt) is Some && a.data@[i] == (
                    PackedAnalysisNodeData::TypedValue {
                        value: spec_resolved_value(value, rt)->Some_0,
                    }) && a.resolved_types@[i] == Some(rt);
                assert(b.data@[i] == a.data@[i]);
                assert(b.resolved_types@[i] == a.resolved_types@[i]);
                assert(spec_resolved_value(value, rt) is Some && b.data@[i] == (
                PackedAnalysisNodeData::TypedValue {
                    value: spec_resolved_value(value, rt)->Some_0,
                }) && b.resolved_types@[i] == Some(rt));
            }
        },
        Expression::UnaryOperation { operator: _, right } => {
            match a.data@[i] {
                PackedAnalysisNodeData::UnaryOperation { right_idx, .. } => {
                    lemma_corresponds_preserved(a, b, right_idx as int, *right, table);
                },
                _ => {},
            }
        },
        Expression::BinaryOperation { operator: _, left, right } => {
            match a.data@[i] {
                PackedAnalysisNodeData::BinaryOperation { left_idx, right_idx, .. } => {
                    lemma_corresponds_preserved(a, b, left_idx as int, *left, table);
                    lemma_corresponds_preserved(a, b, right_idx as int, *right, table);
                },
                _ => {},
            }
        },
        Expression::Ternary { cond, left, right } => {
            match a.data@[i] {
                PackedAnalysisNodeData::Ternary { cond_idx, left_idx, right_idx } => {
                    lemma_corresponds_preserved(a, b, cond_idx as int, *cond, table);
                    lemma_corresponds_preserved(a, b, left_idx as int, *left, table);
                    lemma_corresponds_preserved(a, b, right_idx as int, *right, table);
                },
                _ => {},
            }
        },
        Expression::FunctionCall { name, arguments } => {
            match a.data@[i] {
                PackedAnalysisNodeData::FunctionCall { args, .. } => {
                    match spec_table_lookup(table.spec_bindings(), name@) {
                        Some(binding) => match binding {
                            Binding::Function { params, call_args, .. } => {
                                assert(b.data@[i] == a.data@[i]);
                                lemma_args_corresponds_preserved(
                                    a,
                                    b,
                                    i,
                                    args@,
                                    call_args@,
                                    params@,
                                    arguments@,
                                    table,
                                    call_args@.len() as int,
                                );
                            },
                            _ => {},
                        },
                        None => {},
                    }
                },
                _ => {},
            }
        },
        _ => {},
    }
}

proof fn lemma_args_corresponds_preserved(
    a: PackedAnalysisTree,
    b: PackedAnalysisTree,
    i: int,
    args: Seq<FunctionArgument>,
    call_args: Seq<FnSpecCallArg>,
    params: Seq<ValueType>,
    arguments: Seq<Expression>,
    table: Table,
    k: int,
)
    requires
        spec_args_correspond_upto(a, i, args, call_args, params, arguments, table, k),
        a.lens_ok(),
        spec_same_structure(a, b),
        spec_types_preserved(a, b),
        b.untyped_consistent(),
    ensures
        spec_args_correspond_upto(b, i, args, call_args, params, arguments, table, k),
    decreases i, 0int, k,
{
    if k > 0 {
        lemma_args_corresponds_preserved(
            a,
            b,
            i,
            args,
            call_args,
            params,
            arguments,
            table,
            k - 1,
        );
        match call_args[k - 1] {
            FnSpecCallArg::MappedArgument { param_idx } => {
                match args[k - 1] {
                    FunctionArgument::Parameter { idx: c, .. } => {
                        lemma_corresponds_preserved(
                            a,
                            b,
                            c as int,
                            arguments[param_idx as int],
                            table,
                        );
                    },
                    _ => {},
                }
            },
            _ => {},
        }
    }
}

/// The bound in an argument-list correspondence may grow: it only caps the
/// child indices.
proof fn lemma_args_upto_widen(
    t: PackedAnalysisTree,
    i1: int,
    i2: int,
    args: Seq<FunctionArgument>,
    call_args: Seq<FnSpecCallArg>,
    params: Seq<ValueType>,
    arguments: Seq<Expression>,
    table: Table,
    k: int,
)
    requires
        spec_args_correspond_upto(t, i1, args, call_args, params, arguments, table, k),
        i1 <= i2,
    ensures
        spec_args_correspond_upto(t, i2, args, call_args, params, arguments, table, k),
    decreases k,
{
    if k > 0 {
        lemma_args_upto_widen(t, i1, i2, args, call_args, params, arguments, table, k - 1);
    }
}

/// Appending further arguments does not disturb an established prefix
/// correspondence.
proof fn lemma_args_upto_grow_args(
    t: PackedAnalysisTree,
    i: int,
    args1: Seq<FunctionArgument>,
    args2: Seq<FunctionArgument>,
    call_args: Seq<FnSpecCallArg>,
    params: Seq<ValueType>,
    arguments: Seq<Expression>,
    table: Table,
    k: int,
)
    requires
        spec_args_correspond_upto(t, i, args1, call_args, params, arguments, table, k),
        forall|j: int| 0 <= j < k ==> args2[j] == args1[j],
        k <= args2.len(),
    ensures
        spec_args_correspond_upto(t, i, args2, call_args, params, arguments, table, k),
    decreases k,
{
    if k > 0 {
        lemma_args_upto_grow_args(t, i, args1, args2, call_args, params, arguments, table, k - 1);
    }
}

/// Flattening the expression against the table succeeds exactly when this
/// holds: every named symbol resolves (a value position to a constant or a
/// variable, a call position to a function), every call supplies as many
/// arguments as the binding declares parameters, every mapped specialization
/// argument stays within that count, and every hidden-state argument's index
/// is within the table's hidden states.
pub open spec fn spec_flattenable(ast: Expression, table: Table) -> bool
    decreases ast, 1int, 0int,
    via spec_flattenable_decreases
{
    match ast {
        Expression::TypedValue { .. } => true,
        Expression::UntypedValue { .. } => true,
        Expression::Binding { name } => match spec_table_lookup(table.spec_bindings(), name@) {
            Some(b) => !(b matches Binding::Function { .. }),
            None => false,
        },
        Expression::UnaryOperation { operator: _, right } => spec_flattenable(*right, table),
        Expression::BinaryOperation { operator: _, left, right } => spec_flattenable(*left, table)
            && spec_flattenable(*right, table),
        Expression::Ternary { cond, left, right } => spec_flattenable(*cond, table)
            && spec_flattenable(*left, table) && spec_flattenable(*right, table),
        Expression::FunctionCall { name, arguments } => match spec_table_lookup(
            table.spec_bindings(),
            name@,
        ) {
            Some(b) => match b {
                Binding::Function { params, call_args, .. } => {
                    &&& params@.len() == arguments@.len()
                    &&& spec_args_flattenable(
                        arguments@,
                        call_args@,
                        table,
                        call_args@.len() as int,
                    )
                },
                _ => false,
            },
            None => false,
        },
    }
}

#[via_fn]
proof fn spec_flattenable_decreases(ast: Expression, table: Table) {
    match ast {
        Expression::FunctionCall { name: _, arguments } => {
            assert(decreases_to!(ast => arguments));
            assert(decreases_to!(arguments => arguments@));
        },
        _ => {},
    }
}

/// The first `k` specialization arguments of a call are flattenable.
pub open spec fn spec_args_flattenable(
    arguments: Seq<Expression>,
    call_args: Seq<FnSpecCallArg>,
    table: Table,
    k: int,
) -> bool
    decreases arguments, 0int, k,
{
    k <= 0 || {
        &&& spec_args_flattenable(arguments, call_args, table, k - 1)
        &&& k <= call_args.len()
        &&& match call_args[k - 1] {
            FnSpecCallArg::MappedArgument { param_idx } => (param_idx as int) < arguments.len()
                && spec_flattenable(arguments[param_idx as int], table),
            FnSpecCallArg::ConstArgument { .. } => true,
            FnSpecCallArg::HiddenStateArgument { hidden_state_idx, .. } => (
            hidden_state_idx as int) < table.spec_hidden_states().len(),
        }
    }
}

/// A full argument-list flattenability projects down to every prefix.
proof fn lemma_args_flattenable_prefix(
    arguments: Seq<Expression>,
    call_args: Seq<FnSpecCallArg>,
    table: Table,
    k1: int,
    k2: int,
)
    requires
        spec_args_flattenable(arguments, call_args, table, k2),
        k1 <= k2,
    ensures
        spec_args_flattenable(arguments, call_args, table, k1),
    decreases k2,
{
    if k1 < k2 && k2 > 0 {
        lemma_args_flattenable_prefix(arguments, call_args, table, k1, k2 - 1);
    }
}

/// An inner-to-outer pass over `t` would change nothing: every parent of a
/// typed node is already typed or its operands do not determine a type yet.
pub open spec fn spec_inner_pass_stable(t: PackedAnalysisTree) -> bool {
    forall|j: int|
        0 <= j < t.spec_len() && (#[trigger] t.resolved_types@[j]) is Some ==> (
        t.parents@[j] matches Some(p) ==> (t.resolved_types@[p as int] is Some
            || spec_inner_result(t, p as int) == Some(Option::<ValueType>::None)))
}

/// An outer-to-inner pass over `t` would resolve no literal: no parent
/// offers a hint to any still-unresolved untyped literal.
pub open spec fn spec_outer_pass_stable(t: PackedAnalysisTree) -> bool {
    forall|j: int|
        0 <= j < t.spec_len() && (#[trigger] t.resolved_types@[j]) is None && (t.data@[j] matches
        PackedAnalysisNodeData::UntypedValue { .. }) ==> (t.parents@[j] matches Some(p)
            ==> spec_child_hint(t, p as int, j, Option::<ValueType>::None) == Some(
            Option::<ValueType>::None,
        ))
}

/// A child index listed by a call node comes from one of its `Parameter`
/// arguments.
proof fn lemma_children_contains_parameter(args: Seq<FunctionArgument>, c: int)
    requires
        spec_arg_children(args).contains(c),
    ensures
        exists|j: int|
            0 <= j < args.len() && ((#[trigger] args[j]) matches FunctionArgument::Parameter {
                idx,
                ..
            } && idx as int == c),
    decreases args.len(),
{
    if args.len() > 0 {
        let rest = args.drop_last();
        match args.last() {
            FunctionArgument::Parameter { idx, .. } => {
                if idx as int == c {
                    assert(args[args.len() - 1] matches FunctionArgument::Parameter {
                        idx: i2,
                        ..
                    } && i2 as int == c);
                } else {
                    assert(spec_arg_children(args) == spec_arg_children(rest).push(idx as int));
                    assert(spec_arg_children(rest).contains(c)) by {
                        let w = choose|w: int|
                            0 <= w < spec_arg_children(args).len() && spec_arg_children(args)[w]
                                == c;
                        assert(spec_arg_children(rest)[w] == c);
                    }
                    lemma_children_contains_parameter(rest, c);
                    let j = choose|j: int|
                        0 <= j < rest.len() && ((#[trigger] rest[j]) matches
                        FunctionArgument::Parameter { idx, .. } && idx as int == c);
                    assert(args[j] == rest[j]);
                }
            },
            _ => {
                assert(spec_arg_children(rest).contains(c));
                lemma_children_contains_parameter(rest, c);
                let j = choose|j: int|
                    0 <= j < rest.len() && ((#[trigger] rest[j]) matches
                    FunctionArgument::Parameter { idx, .. } && idx as int == c);
                assert(args[j] == rest[j]);
            },
        }
    }
}

/// The hint search finds a `Parameter` argument that exists at or after `k`.
proof fn lemma_arg_hint_found(args: Seq<FunctionArgument>, k: int, c: int)
    requires
        0 <= k,
        exists|j: int|
            k <= j < args.len() && ((#[trigger] args[j]) matches FunctionArgument::Parameter {
                idx,
                ..
            } && idx as int == c),
    ensures
        spec_arg_hint_from(args, k, c) is Some,
    decreases args.len() - k,
{
    let j = choose|j: int|
        k <= j < args.len() && ((#[trigger] args[j]) matches FunctionArgument::Parameter {
            idx,
            ..
        } && idx as int == c);
    if j == k {
    } else {
        match args[k] {
            FunctionArgument::Parameter { idx, .. } => {
                if idx as int != c {
                    lemma_arg_hint_found(args, k + 1, c);
                }
            },
            _ => {
                lemma_arg_hint_found(args, k + 1, c);
            },
        }
    }
}

/// Number of nodes whose type is still unresolved.







pub open spec fn spec_count_none(types: Seq<Option<ValueType>>) -> nat
    decreases types.len(),
{
    if types.len() == 0 {
        0
    } else {
        spec_count_none(types.drop_last()) + if types.last() is None {
            1nat
        } else {
            0nat
        }
    }
}

/// Resolving types never increases the number of unresolved nodes.
pub proof fn lemma_count_none_mono(a: Seq<Option<ValueType>>, b: Seq<Option<ValueType>>)
    requires
        a.len() == b.len(),
        forall|i: int| 0 <= i < b.len() && (#[trigger] b[i]) is None ==> a[i] is None,
    ensures
        spec_count_none(b) <= spec_count_none(a),
    decreases a.len(),
{
    if a.len() > 0 {
        assert(forall|i: int|
            0 <= i < b.drop_last().len() && (#[trigger] b.drop_last()[i]) is None
                ==> a.drop_last()[i] is None) by {
            assert(forall|i: int| 0 <= i < b.len() - 1 ==> b.drop_last()[i] == b[i]);
            assert(forall|i: int| 0 <= i < a.len() - 1 ==> a.drop_last()[i] == a[i]);
        }
        lemma_count_none_mono(a.drop_last(), b.drop_last());
    }
}

/// Resolving at least one type strictly decreases the count.
pub proof fn lemma_count_none_strict(
    a: Seq<Option<ValueType>>,
    b: Seq<Option<ValueType>>,
    w: int,
)
    requires
        a.len() == b.len(),
        forall|i: int| 0 <= i < b.len() && (#[trigger] b[i]) is None ==> a[i] is None,
        0 <= w < a.len(),
        a[w] is None,
        b[w] is Some,
    ensures
        spec_count_none(b) < spec_count_none(a),
    decreases a.len(),
{
    assert(forall|i: int|
        0 <= i < b.drop_last().len() && (#[trigger] b.drop_last()[i]) is None
            ==> a.drop_last()[i] is None) by {
        assert(forall|i: int| 0 <= i < b.len() - 1 ==> b.drop_last()[i] == b[i]);
        assert(forall|i: int| 0 <= i < a.len() - 1 ==> a.drop_last()[i] == a[i]);
    }
    if w == a.len() - 1 {
        lemma_count_none_mono(a.drop_last(), b.drop_last());
    } else {
        assert(a.drop_last()[w] == a[w]);
        assert(b.drop_last()[w] == b[w]);
        lemma_count_none_strict(a.drop_last(), b.drop_last(), w);
    }
}


/// What outer-to-inner propagation does at one node, extracted first so the
/// borrow of the node data ends before the tree is mutated.
enum OuterAction {
    ResolveUntyped { value: UntypedValue },
    ForwardOne { child: usize },
    ForwardTwo { first: usize, second: usize },
}

proof fn lemma_same_structure_trans(
    a: PackedAnalysisTree,
    b: PackedAnalysisTree,
    c: PackedAnalysisTree,
)
    requires
        a.lens_ok(),
        spec_same_structure(a, b),
        spec_same_structure(b, c),
        spec_types_preserved(b, c),
    ensures
        spec_same_structure(a, c),
{
    assert forall|i: int|
        0 <= i < a.data@.len() implies #[trigger] c.data@[i] == a.data@[i] || (
    a.data@[i] matches PackedAnalysisNodeData::UntypedValue { value } && exists|rt: ValueType|
        spec_resolved_value(value, rt) is Some && c.data@[i] == (
        PackedAnalysisNodeData::TypedValue {
            value: spec_resolved_value(value, rt)->Some_0,
        }) && c.resolved_types@[i] == Some(rt)) by {
        if b.data@[i] == a.data@[i] {
            if c.data@[i] != b.data@[i] {
                match b.data@[i] {
                    PackedAnalysisNodeData::UntypedValue { value } => {
                        let rt = choose|rt: ValueType|
                            spec_resolved_value(value, rt) is Some && c.data@[i] == (
                            PackedAnalysisNodeData::TypedValue {
                                value: spec_resolved_value(value, rt)->Some_0,
                            }) && c.resolved_types@[i] == Some(rt);
                        assert(spec_resolved_value(value, rt) is Some && c.data@[i] == (
                        PackedAnalysisNodeData::TypedValue {
                            value: spec_resolved_value(value, rt)->Some_0,
                        }) && c.resolved_types@[i] == Some(rt));
                    },
                    _ => {},
                }
            }
        } else {
            match a.data@[i] {
                PackedAnalysisNodeData::UntypedValue { value } => {
                    assert(exists|rt: ValueType|
                        spec_resolved_value(value, rt) is Some && b.data@[i] == (
                        PackedAnalysisNodeData::TypedValue {
                            value: spec_resolved_value(value, rt)->Some_0,
                        }) && b.resolved_types@[i] == Some(rt));
                    let rt = choose|rt: ValueType|
                        spec_resolved_value(value, rt) is Some && b.data@[i] == (
                        PackedAnalysisNodeData::TypedValue {
                            value: spec_resolved_value(value, rt)->Some_0,
                        }) && b.resolved_types@[i] == Some(rt);
                    assert(b.resolved_types@[i] == Some(rt));
                    assert(c.data@[i] == b.data@[i]);
                    assert(c.resolved_types@[i] == b.resolved_types@[i]);
                    assert(c.resolved_types@[i] == Some(rt));
                    assert(spec_resolved_value(value, rt) is Some && c.data@[i] == (
                    PackedAnalysisNodeData::TypedValue {
                        value: spec_resolved_value(value, rt)->Some_0,
                    }) && c.resolved_types@[i] == Some(rt));
                },
                _ => {},
            }
        }
    }
}

proof fn lemma_types_preserved_trans(
    a: PackedAnalysisTree,
    b: PackedAnalysisTree,
    c: PackedAnalysisTree,
)
    requires
        spec_types_preserved(a, b),
        spec_types_preserved(b, c),
    ensures
        spec_types_preserved(a, c),
{
}

impl PackedAnalysisTree {
    /// The root's resolved type: the type the compiled expression returns.
    pub fn get_expr_type(&self) -> (r: Result<ValueType, AnalysisError>)
        requires
            self.lens_ok(),
        ensures
            match r {
                Ok(t) => self.spec_len() > 0 && self.resolved_types@[self.spec_len() - 1] == Some(
                    t,
                ),
                Err(e) => match e {
                    AnalysisError::EmptyAST => self.spec_len() == 0,
                    AnalysisError::BadAnalysis => self.spec_len() > 0 && self.resolved_types@[
                        self.spec_len() - 1
                    ] is None,
                    _ => false,
                },
            },
    {
        let node_count = self.resolved_types.len();
        if node_count == 0 {
            return Err(AnalysisError::EmptyAST);
        }
        match self.resolved_types[node_count - 1] {
            Some(expr_type) => Ok(expr_type),
            None => Err(AnalysisError::BadAnalysis),
        }
    }

    /// The resolved type of node `idx`.
    pub fn get_node_type(&self, idx: usize) -> (r: Result<ValueType, AnalysisError>)
        requires
            idx < self.resolved_types@.len(),
        ensures
            match r {
                Ok(t) => self.resolved_types@[idx as int] == Some(t),
                Err(e) => self.resolved_types@[idx as int] is None && e
                    == AnalysisError::BadAnalysis,
            },
    {
        match self.resolved_types[idx] {
            Some(t) => Ok(t),
            None => Err(AnalysisError::BadAnalysis),
        }
    }

    pub fn node_count(&self) -> (r: usize)
        ensures
            r as int == self.spec_len(),
    {
        self.data.len()
    }

    /// Append a node whose children are the given earlier, still parentless
    /// nodes; their parent pointers are set to the new node.
    fn attach_and_push(
        &mut self,
        data: PackedAnalysisNodeData,
        resolved_type: Option<ValueType>,
        children: &Vec<usize>,
    ) -> (idx: usize)
        requires
            old(self).inv(),
            spec_children(data) == children@.map_values(|c: usize| c as int),
            forall|k: int|
                0 <= k < children@.len() ==> (#[trigger] children@[k]) < old(self).data@.len()
                    && old(self).parents@[children@[k] as int] is None,
            resolved_type is None ==> match data {
                PackedAnalysisNodeData::UntypedValue { .. } => true,
                PackedAnalysisNodeData::UnaryOperation { operator, .. } => operator
                    == UnaryOperator::Negate,
                PackedAnalysisNodeData::BinaryOperation { operator, .. } => spec_is_arithmetic(
                    operator,
                ),
                PackedAnalysisNodeData::Ternary { .. } => true,
                _ => false,
            },
            data matches PackedAnalysisNodeData::UntypedValue { .. } ==> resolved_type is None,
        ensures
            final(self).inv(),
            idx as int == old(self).data@.len(),
            final(self).data@.len() == old(self).data@.len() + 1,
            final(self).data@ == old(self).data@.push(data),
            final(self).resolved_types@ == old(self).resolved_types@.push(resolved_type),
            forall|i: int|
                0 <= i < old(self).data@.len() ==> final(self).parents@[i] == (
                if children@.contains(i as usize) {
                    Some(idx)
                } else {
                    old(self).parents@[i]
                }),
            final(self).parents@[idx as int] is None,
    {
        let idx = self.data.len();
        let mut k: usize = 0;
        while k < children.len()
            invariant
                old(self).inv(),
                k <= children@.len(),
                idx as int == old(self).data@.len(),
                forall|j: int|
                    0 <= j < children@.len() ==> (#[trigger] children@[j]) < old(self).data@.len() && old(self).parents@[children@[j] as int] is None,
                self.data@ == old(self).data@,
                self.resolved_types@ == old(self).resolved_types@,
                self.parents@.len() == old(self).parents@.len(),
                forall|i: int|
                    0 <= i < self.parents@.len() ==> self.parents@[i] == (
                    if children@.subrange(0, k as int).contains(i as usize) {
                        Some(idx)
                    } else {
                        old(self).parents@[i]
                    }),
            decreases children@.len() - k,
        {
            let c = children[k];
            self.parents.set(c, Some(idx));
            proof {
                assert forall|i: int|
                    0 <= i < self.parents@.len() implies self.parents@[i] == (
                    if children@.subrange(0, k + 1).contains(i as usize) {
                        Some(idx)
                    } else {
                        old(self).parents@[i]
                    }) by {
                    let sub1 = children@.subrange(0, k + 1);
                    let sub0 = children@.subrange(0, k as int);
                    if sub1.contains(i as usize) {
                        let w = choose|w: int| 0 <= w < sub1.len() && sub1[w] == i as usize;
                        if w < k {
                            assert(sub0[w] == sub1[w]);
                            assert(sub0.contains(i as usize));
                        }
                    } else {
                        assert(!sub0.contains(i as usize)) by {
                            if sub0.contains(i as usize) {
                                let w = choose|w: int|
                                    0 <= w < sub0.len() && sub0[w] == i as usize;
                                assert(sub1[w] == sub0[w]);
                            }
                        }
                        assert(i != c as int) by {
                            assert(sub1[k as int] == children@[k as int]);
                        }
                    }
                }
            }
            k = k + 1;
        }
        proof {
            assert(children@.subrange(0, children@.len() as int) =~= children@);
        }
        self.data.push(data);
        self.resolved_types.push(resolved_type);
        self.parents.push(None);
        proof {
            let newt = *self;
            let oldt = *old(self);
            let n = oldt.data@.len() as int;
            assert forall|i: int| 0 <= i < newt.spec_len() implies #[trigger] newt.node_wf(
                i,
            ) by {
                if i < n {
                    assert(oldt.node_wf(i));
                    assert(newt.data@[i] == oldt.data@[i]);
                    if children@.contains(i as usize) {
                        assert(spec_children(newt.data@[n]).contains(i)) by {
                            let w = choose|w: int|
                                0 <= w < children@.len() && children@[w] == i as usize;
                            assert(children@.map_values(|c: usize| c as int)[w] == i);
                        }
                    } else {
                        match oldt.parents@[i] {
                            Some(p) => {
                                assert(newt.data@[p as int] == oldt.data@[p as int]);
                            },
                            None => {},
                        }
                    }
                } else {
                    assert(i == n);
                    assert forall|k2: int|
                        0 <= k2 < spec_children(newt.data@[i]).len() implies 0 <= #[trigger]
                    spec_children(newt.data@[i])[k2] < i by {
                        assert(spec_children(newt.data@[i])[k2] == children@.map_values(
                            |c: usize| c as int,
                        )[k2]);
                    }
                }
            }
        }
        idx
    }

    /// Inner-to-outer propagation for one operator node whose type is still
    /// unknown: recompute it from the children's types. `Ok(true)` means the
    /// node's type was set (to what `spec_inner_result` gives); `Ok(false)`
    /// means nothing changed, either because the node is already typed or the
    /// operands do not determine a type yet; a widening or signing failure is
    /// an error and leaves the tree unchanged.
    fn propagate_type_from_inner(&mut self, idx: usize) -> (r: Result<bool, HotEvalError>)
        requires
            old(self).inv(),
            idx < old(self).spec_len(),
            exists|c: int|
                0 <= c < old(self).spec_len() && old(self).parents@[c] == Some(idx),
        ensures
            final(self).inv(),
            final(self).data@ == old(self).data@,
            final(self).parents@ == old(self).parents@,
            spec_types_preserved(*old(self), *final(self)),
            match r {
                Ok(true) => {
                    &&& old(self).resolved_types@[idx as int] is None
                    &&& spec_inner_result(*old(self), idx as int) is Some
                    &&& spec_inner_result(*old(self), idx as int)->Some_0 is Some
                    &&& final(self).resolved_types@ == old(self).resolved_types@.update(
                        idx as int,
                        spec_inner_result(*old(self), idx as int)->Some_0,
                    )
                },
                Ok(false) => *final(self) == *old(self) && (old(self).resolved_types@[
                    idx as int
                ] is Some || spec_inner_result(*old(self), idx as int) == Some(
                    Option::<ValueType>::None,
                )),
                Err(e) => *final(self) == *old(self) && spec_inner_result(*old(self), idx as int)
                    is None && old(self).resolved_types@[idx as int] is None
                    && spec_inference_error(e) && e is Common,
            },
    {
        if self.resolved_types[idx].is_some() {
            return Ok(false);
        }
        proof {
            let c = choose|c: int|
                0 <= c < old(self).spec_len() && old(self).parents@[c] == Some(idx);
            assert(self.node_wf(c));
            assert(spec_children(self.data@[idx as int]).len() > 0) by {
                assert(spec_children(self.data@[idx as int]).contains(c));
            }
            assert(self.node_wf(idx as int));
        }
        let computed: Result<Option<ValueType>, CommonError> = match &self.data[idx] {
            PackedAnalysisNodeData::TypedValue { .. }
            | PackedAnalysisNodeData::UntypedValue { .. }
            | PackedAnalysisNodeData::Variable { .. } => unreached(),
            PackedAnalysisNodeData::FunctionCall { .. } => unreached(),
            PackedAnalysisNodeData::UnaryOperation { operator, right_idx } => match operator {
                UnaryOperator::Negate => ValueType::to_signed_optional(
                    self.resolved_types[*right_idx],
                ),
                UnaryOperator::LogicalNot => unreached(),
            },
            PackedAnalysisNodeData::BinaryOperation { operator, left_idx, right_idx } => match operator {
                BinaryOperator::Mul
                | BinaryOperator::Div
                | BinaryOperator::Mod
                | BinaryOperator::Add
                | BinaryOperator::Sub => ValueType::widen_optional_non_greedy(
                    self.resolved_types[*left_idx],
                    self.resolved_types[*right_idx],
                ),
                _ => unreached(),
            },
            PackedAnalysisNodeData::Ternary { cond_idx: _, left_idx, right_idx } => ValueType::widen_optional_non_greedy(
                self.resolved_types[*left_idx],
                self.resolved_types[*right_idx],
            ),
        };
        let new_type = match computed {
            Ok(t) => t,
            Err(e) => {
                return Err(HotEvalError::Common { err: e });
            },
        };
        match new_type {
            Some(t) => {
                self.resolved_types.set(idx, Some(t));
                proof {
                    lemma_set_type_preserves_inv(*old(self), *self, idx as int, t);
                }
                Ok(true)
            },
            None => Ok(false),
        }
    }

    /// One inner-to-outer pass: for every typed node, try to type its parent.
    /// `Ok(true)` iff at least one type was set; the count of unresolved nodes
    /// then strictly decreases. `Ok(false)` leaves the tree untouched.
    fn resolve_types_from_inner(&mut self) -> (r: Result<bool, HotEvalError>)
        requires
            old(self).inv(),
        ensures
            final(self).inv(),
            final(self).data@ == old(self).data@,
            final(self).parents@ == old(self).parents@,
            spec_types_preserved(*old(self), *final(self)),
            spec_count_none(final(self).resolved_types@) <= spec_count_none(
                old(self).resolved_types@,
            ),
            match r {
                Ok(true) => spec_count_none(final(self).resolved_types@) < spec_count_none(
                    old(self).resolved_types@,
                ),
                Ok(false) => *final(self) == *old(self),
                Err(e) => spec_inference_error(e) && e is Common && !final(self).fully_typed(),
            },
            r == Ok::<bool, HotEvalError>(false) ==> spec_inner_pass_stable(*old(self)),
    {
        let mut had_changes = false;
        let mut idx: usize = 0;
        let n = self.data.len();
        while idx < n
            invariant
                idx <= n,
                n as int == self.spec_len(),
                self.inv(),
                self.data@ == old(self).data@,
                self.parents@ == old(self).parents@,
                spec_types_preserved(*old(self), *self),
                spec_count_none(self.resolved_types@) <= spec_count_none(
                    old(self).resolved_types@,
                ),
                had_changes ==> spec_count_none(self.resolved_types@) < spec_count_none(
                    old(self).resolved_types@,
                ),
                !had_changes ==> *self == *old(self),
                !had_changes ==> (forall|j: int|
                    0 <= j < idx && (#[trigger] self.resolved_types@[j]) is Some
                        ==> (self.parents@[j] matches Some(p) ==> (self.resolved_types@[
                    p as int
                ] is Some || spec_inner_result(*self, p as int) == Some(
                    Option::<ValueType>::None,
                )))),
            decreases n - idx,
        {
            if self.resolved_types[idx].is_some() {
                match self.parents[idx] {
                    Some(parent_idx) => {
                        proof {
                            assert(self.node_wf(idx as int));
                        }
                        let ghost before = *self;
                        match self.propagate_type_from_inner(parent_idx) {
                            Ok(changed) => {
                                proof {
                                    if changed {
                                        lemma_count_none_strict(
                                            before.resolved_types@,
                                            self.resolved_types@,
                                            parent_idx as int,
                                        );
                                    }
                                }
                                had_changes = changed || had_changes;
                            },
                            Err(e) => {
                                return Err(e);
                            },
                        }
                    },
                    None => {},
                }
            }
            idx = idx + 1;
        }
        Ok(had_changes)
    }

    /// The hint the parent at `parent_idx` offers the child at `child_idx`
    /// (see `spec_child_hint` for the table of cases).
    fn get_child_input_hint(
        &self,
        parent_idx: usize,
        child_idx: usize,
        parent_hint: Option<ValueType>,
    ) -> (r: Result<Option<ValueType>, HotEvalError>)
        requires
            self.inv(),
            parent_idx < self.spec_len(),
        ensures
            match r {
                Ok(h) => spec_child_hint(*self, parent_idx as int, child_idx as int, parent_hint)
                    == Some(h),
                Err(e) => spec_child_hint(
                    *self,
                    parent_idx as int,
                    child_idx as int,
                    parent_hint,
                ) is None && spec_inference_error(e),
            },
            spec_children(self.data@[parent_idx as int]).contains(child_idx as int) ==> (
            r matches Err(e4) ==> e4 is Common),
    {
        proof {
            assert(self.node_wf(parent_idx as int));
        }
        match &self.data[parent_idx] {
            PackedAnalysisNodeData::TypedValue { .. }
            | PackedAnalysisNodeData::UntypedValue { .. }
            | PackedAnalysisNodeData::Variable { .. } => Err(
                HotEvalError::Analysis { err: AnalysisError::BadAnalysis },
            ),
            PackedAnalysisNodeData::FunctionCall { args, .. } => {
                let mut i: usize = 0;
                while i < args.len()
                    invariant
                        i <= args@.len(),
                        parent_idx < self.spec_len(),
                        self.lens_ok(),
                        (self.data@[parent_idx as int] matches
                        PackedAnalysisNodeData::FunctionCall { args: a2, fn_ptr: _ } && a2@
                            == args@),
                        spec_arg_hint_from(args@, 0, child_idx as int) == spec_arg_hint_from(
                            args@,
                            i as int,
                            child_idx as int,
                        ),
                    decreases args@.len() - i,
                {
                    if let FunctionArgument::Parameter { idx, expected_type } = &args[i] {
                        if *idx == child_idx {
                            proof {
                                assert(spec_arg_hint_from(args@, i as int, child_idx as int)
                                    == Some(*expected_type));
                            }
                            return Ok(Some(*expected_type));
                        }
                    }
                    proof {
                        assert(spec_arg_hint_from(args@, i as int, child_idx as int)
                            == spec_arg_hint_from(args@, i + 1, child_idx as int));
                    }
                    i = i + 1;
                }
                proof {
                    if spec_children(self.data@[parent_idx as int]).contains(child_idx as int) {
                        lemma_children_contains_parameter(args@, child_idx as int);
                        lemma_arg_hint_found(args@, 0, child_idx as int);
                        assert(false);
                    }
                }
                Err(HotEvalError::Analysis { err: AnalysisError::BadAnalysis })
            },
            PackedAnalysisNodeData::UnaryOperation { operator, right_idx } => {
                if child_idx != *right_idx {
                    proof {
                        let cs = spec_children(self.data@[parent_idx as int]);
                        if cs.contains(child_idx as int) {
                            let w = choose|w: int| 0 <= w < cs.len() && cs[w] == child_idx as int;
                            assert(false);
                        }
                    }
                    return Err(HotEvalError::Analysis { err: AnalysisError::BadAnalysis });
                }
                match operator {
                    UnaryOperator::Negate => {
                        if let Some(ph) = parent_hint {
                            match ph.to_signed() {
                                Ok(st) => Ok(Some(st)),
                                Err(e) => Err(HotEvalError::Common { err: e }),
                            }
                        } else {
                            match ValueType::to_signed_optional(self.resolved_types[parent_idx]) {
                                Ok(t) => Ok(t),
                                Err(e) => Err(HotEvalError::Common { err: e }),
                            }
                        }
                    },
                    UnaryOperator::LogicalNot => Ok(Some(ValueType::Bool)),
                }
            },
            PackedAnalysisNodeData::BinaryOperation { operator, left_idx, right_idx } => {
                let l = *left_idx;
                let rr = *right_idx;
                proof {
                    assert(spec_children(self.data@[parent_idx as int])[0] == l as int);
                    assert(spec_children(self.data@[parent_idx as int])[1] == rr as int);
                }
                if child_idx != l && child_idx != rr {
                    proof {
                        let cs = spec_children(self.data@[parent_idx as int]);
                        if cs.contains(child_idx as int) {
                            let w = choose|w: int| 0 <= w < cs.len() && cs[w] == child_idx as int;
                            assert(false);
                        }
                    }
                    return Err(HotEvalError::Analysis { err: AnalysisError::BadAnalysis });
                }
                match operator {
                    BinaryOperator::Mul
                    | BinaryOperator::Div
                    | BinaryOperator::Mod
                    | BinaryOperator::Add
                    | BinaryOperator::Sub => {
                        if self.resolved_types[parent_idx].is_some() {
                            Ok(self.resolved_types[parent_idx])
                        } else if parent_hint.is_some() {
                            Ok(parent_hint)
                        } else {
                            match ValueType::widen_optional_greedy(
                                self.resolved_types[l],
                                self.resolved_types[rr],
                            ) {
                                Ok(t) => Ok(t),
                                Err(e) => Err(HotEvalError::Common { err: e }),
                            }
                        }
                    },
                    BinaryOperator::Equals
                    | BinaryOperator::NotEquals
                    | BinaryOperator::LesserThanEquals
                    | BinaryOperator::GreaterThanEquals
                    | BinaryOperator::LesserThan
                    | BinaryOperator::GreaterThan => {
                        match ValueType::widen_optional_greedy(
                            self.resolved_types[l],
                            self.resolved_types[rr],
                        ) {
                            Ok(t) => Ok(t),
                            Err(e) => Err(HotEvalError::Common { err: e }),
                        }
                    },
                    BinaryOperator::LogicalAnd | BinaryOperator::LogicalOr => Ok(
                        Some(ValueType::Bool),
                    ),
                }
            },
            PackedAnalysisNodeData::Ternary { cond_idx, left_idx, right_idx } => {
                let l = *left_idx;
                let rr = *right_idx;
                proof {
                    assert(spec_children(self.data@[parent_idx as int])[1] == l as int);
                    assert(spec_children(self.data@[parent_idx as int])[2] == rr as int);
                }
                if child_idx == *cond_idx {
                    Ok(Some(ValueType::Bool))
                } else if child_idx != l && child_idx != rr {
                    proof {
                        let cs = spec_children(self.data@[parent_idx as int]);
                        if cs.contains(child_idx as int) {
                            let w = choose|w: int| 0 <= w < cs.len() && cs[w] == child_idx as int;
                            assert(false);
                        }
                    }
                    Err(HotEvalError::Analysis { err: AnalysisError::BadAnalysis })
                } else {
                    match ValueType::widen_optional_greedy(
                        self.resolved_types[l],
                        self.resolved_types[rr],
                    ) {
                        Ok(t) => Ok(t),
                        Err(e) => Err(HotEvalError::Common { err: e }),
                    }
                }
            },
        }
    }

    /// Outer-to-inner propagation of a hint into the still-untyped node at
    /// `idx`: an untyped literal is resolved at the hint and becomes a typed
    /// value; negation, arithmetic, comparisons and ternaries forward the
    /// hint into their still-untyped operands; a node that is already typed
    /// is left alone. `Ok(true)` iff at least one type was set somewhere in
    /// the subtree.
    fn propagate_type_from_outer(&mut self, idx: usize, hint: ValueType) -> (r: Result<
        bool,
        HotEvalError,
    >)
        requires
            old(self).inv(),
            idx < old(self).spec_len(),
        ensures
            final(self).inv(),
            spec_same_structure(*old(self), *final(self)),
            spec_types_preserved(*old(self), *final(self)),
            spec_count_none(final(self).resolved_types@) <= spec_count_none(
                old(self).resolved_types@,
            ),
            match r {
                Ok(true) => spec_count_none(final(self).resolved_types@) < spec_count_none(
                    old(self).resolved_types@,
                ),
                Ok(false) => *final(self) == *old(self),
                Err(e) => spec_inference_error(e) && e is Common && final(self).resolved_types@[
                    idx as int
                ] == old(self).resolved_types@[idx as int],
            },
            forall|j: int|
                idx < j < old(self).spec_len() ==> final(self).resolved_types@[j] == old(
                    self,
                ).resolved_types@[j] && final(self).data@[j] == old(self).data@[j],
            match old(self).data@[idx as int] {
                PackedAnalysisNodeData::UntypedValue { value } => {
                    &&& (r == Ok::<bool, HotEvalError>(true) ==> spec_resolved_value(value, hint)
                        is Some && final(self).data@[idx as int] == (
                    PackedAnalysisNodeData::TypedValue {
                        value: spec_resolved_value(value, hint)->Some_0,
                    }) && final(self).resolved_types@[idx as int] == Some(hint))
                    &&& (r is Err <==> spec_resolved_value(value, hint) is None)
                    &&& r != Ok::<bool, HotEvalError>(false)
                    &&& (r is Err ==> r->Err_0 == (HotEvalError::Common {
                        err: CommonError::CannotResolve { from: value, to: hint },
                    }))
                },
                _ => true,
            },
        decreases idx, 0int,
    {
        if self.resolved_types[idx].is_some() {
            return Ok(false);
        }
        let action: OuterAction = match &self.data[idx] {
            PackedAnalysisNodeData::TypedValue { .. }
            | PackedAnalysisNodeData::Variable { .. }
            | PackedAnalysisNodeData::FunctionCall { .. } => unreached(),
            PackedAnalysisNodeData::UntypedValue { value } => OuterAction::ResolveUntyped {
                value: *value,
            },
            PackedAnalysisNodeData::UnaryOperation { operator, right_idx } => match operator {
                UnaryOperator::Negate => {
                    proof {
                        assert(self.node_wf(idx as int));
                        assert(spec_children(self.data@[idx as int])[0] == *right_idx as int);
                    }
                    OuterAction::ForwardOne { child: *right_idx }
                },
                UnaryOperator::LogicalNot => unreached(),
            },
            PackedAnalysisNodeData::BinaryOperation { operator, left_idx, right_idx } => match operator {
                BinaryOperator::LogicalAnd | BinaryOperator::LogicalOr => unreached(),
                _ => {
                    proof {
                        assert(self.node_wf(idx as int));
                        assert(spec_children(self.data@[idx as int])[0] == *left_idx as int);
                        assert(spec_children(self.data@[idx as int])[1] == *right_idx as int);
                    }
                    OuterAction::ForwardTwo { first: *left_idx, second: *right_idx }
                },
            },
            PackedAnalysisNodeData::Ternary { cond_idx: _, left_idx, right_idx } => {
                proof {
                    assert(self.node_wf(idx as int));
                    assert(spec_children(self.data@[idx as int])[1] == *left_idx as int);
                    assert(spec_children(self.data@[idx as int])[2] == *right_idx as int);
                }
                OuterAction::ForwardTwo { first: *left_idx, second: *right_idx }
            },
        };
        match action {
            OuterAction::ResolveUntyped { value } => {
                match value.get_resolved_value(hint) {
                    Ok(v) => {
                        self.data.set(idx, PackedAnalysisNodeData::TypedValue { value: v });
                        self.resolved_types.set(idx, Some(hint));
                        proof {
                            lemma_convert_untyped_preserves_inv(
                                *old(self),
                                *self,
                                idx as int,
                                value,
                                v,
                                hint,
                            );
                            lemma_count_none_strict(
                                old(self).resolved_types@,
                                self.resolved_types@,
                                idx as int,
                            );
                        }
                        Ok(true)
                    },
                    Err(e) => Err(HotEvalError::Common { err: e }),
                }
            },
            OuterAction::ForwardOne { child } => self.try_propagate_type_from_outer_to_child(
                idx,
                child,
                Some(hint),
            ),
            OuterAction::ForwardTwo { first, second } => {
                let ghost t0 = *self;
                let ch1 = match self.try_propagate_type_from_outer_to_child(
                    idx,
                    first,
                    Some(hint),
                ) {
                    Ok(b) => b,
                    Err(e) => {
                        return Err(e);
                    },
                };
                let ghost t1 = *self;
                let ch2 = match self.try_propagate_type_from_outer_to_child(
                    idx,
                    second,
                    Some(hint),
                ) {
                    Ok(b) => b,
                    Err(e) => {
                        return Err(e);
                    },
                };
                proof {
                    lemma_same_structure_trans(t0, t1, *self);
                    lemma_types_preserved_trans(t0, t1, *self);
                }
                Ok(ch1 || ch2)
            },
        }
    }

    /// If the child is still untyped and its parent offers a hint, push the
    /// hint into the child's subtree.
    fn try_propagate_type_from_outer_to_child(
        &mut self,
        parent_idx: usize,
        child_idx: usize,
        parent_hint: Option<ValueType>,
    ) -> (r: Result<bool, HotEvalError>)
        requires
            old(self).inv(),
            parent_idx < old(self).spec_len(),
            child_idx < parent_idx,
            spec_children(old(self).data@[parent_idx as int]).contains(child_idx as int),
        ensures
            final(self).inv(),
            spec_same_structure(*old(self), *final(self)),
            spec_types_preserved(*old(self), *final(self)),
            spec_count_none(final(self).resolved_types@) <= spec_count_none(
                old(self).resolved_types@,
            ),
            match r {
                Ok(true) => spec_count_none(final(self).resolved_types@) < spec_count_none(
                    old(self).resolved_types@,
                ),
                Ok(false) => *final(self) == *old(self),
                Err(e) => spec_inference_error(e) && e is Common,
            },
            forall|j: int|
                child_idx < j < old(self).spec_len() ==> final(self).resolved_types@[j] == old(
                    self,
                ).resolved_types@[j] && final(self).data@[j] == old(self).data@[j],
        decreases child_idx, 1int,
    {
        if self.resolved_types[child_idx].is_none() {
            match self.get_child_input_hint(parent_idx, child_idx, parent_hint) {
                Ok(Some(child_hint)) => self.propagate_type_from_outer(child_idx, child_hint),
                Ok(None) => Ok(false),
                Err(e) => Err(e),
            }
        } else {
            Ok(false)
        }
    }

    /// One outer-to-inner pass, high index to low: every still-untyped node
    /// asks its parent for a hint and, if one is offered, resolves under it.
    fn resolve_types_from_outer(&mut self) -> (r: Result<bool, HotEvalError>)
        requires
            old(self).inv(),
        ensures
            final(self).inv(),
            spec_same_structure(*old(self), *final(self)),
            spec_types_preserved(*old(self), *final(self)),
            spec_count_none(final(self).resolved_types@) <= spec_count_none(
                old(self).resolved_types@,
            ),
            match r {
                Ok(true) => spec_count_none(final(self).resolved_types@) < spec_count_none(
                    old(self).resolved_types@,
                ),
                Ok(false) => *final(self) == *old(self),
                Err(e) => spec_inference_error(e) && e is Common && !final(self).fully_typed(),
            },
            r == Ok::<bool, HotEvalError>(false) ==> spec_outer_pass_stable(*old(self)),
    {
        let mut had_changes = false;
        let mut idx = self.data.len();
        while idx > 0
            invariant
                idx <= self.spec_len(),
                self.inv(),
                spec_same_structure(*old(self), *self),
                spec_types_preserved(*old(self), *self),
                spec_count_none(self.resolved_types@) <= spec_count_none(
                    old(self).resolved_types@,
                ),
                had_changes ==> spec_count_none(self.resolved_types@) < spec_count_none(
                    old(self).resolved_types@,
                ),
                !had_changes ==> *self == *old(self),
                !had_changes ==> (forall|j: int|
                    idx <= j < self.spec_len() && (#[trigger] self.resolved_types@[j]) is None && (
                    self.data@[j] matches PackedAnalysisNodeData::UntypedValue { .. }) ==> (
                    self.parents@[j] matches Some(p) ==> spec_child_hint(
                        *self,
                        p as int,
                        j,
                        Option::<ValueType>::None,
                    ) == Some(Option::<ValueType>::None))),
            decreases idx,
        {
            idx = idx - 1;
            if self.resolved_types[idx].is_none() {
                match self.parents[idx] {
                    Some(parent_idx) => {
                        proof {
                            assert(self.node_wf(idx as int));
                        }
                        let hint_res = self.get_child_input_hint(parent_idx, idx, None);
                        match hint_res {
                            Ok(Some(hint)) => {
                                let ghost before = *self;
                                match self.propagate_type_from_outer(idx, hint) {
                                    Ok(ch) => {
                                        proof {
                                            lemma_same_structure_trans(
                                                *old(self),
                                                before,
                                                *self,
                                            );
                                            lemma_types_preserved_trans(
                                                *old(self),
                                                before,
                                                *self,
                                            );
                                        }
                                        had_changes = ch || had_changes;
                                    },
                                    Err(e) => {
                                        return Err(e);
                                    },
                                }
                            },
                            Ok(None) => {},
                            Err(e) => {
                                return Err(e);
                            },
                        }
                    },
                    None => {},
                }
            }
        }
        Ok(had_changes)
    }

    /// Alternate inner-to-outer and outer-to-inner passes until neither
    /// changes anything. Terminates because every change resolves at least
    /// one more node.
    fn resolve_types_from_both(&mut self) -> (r: Result<(), HotEvalError>)
        requires
            old(self).inv(),
        ensures
            final(self).inv(),
            spec_same_structure(*old(self), *final(self)),
            spec_types_preserved(*old(self), *final(self)),
            spec_count_none(final(self).resolved_types@) <= spec_count_none(
                old(self).resolved_types@,
            ),
            r matches Err(e) ==> spec_inference_error(e) && e is Common && !final(self).fully_typed(),
            r is Ok ==> spec_inner_pass_stable(*final(self)) && spec_outer_pass_stable(
                *final(self),
            ),
    {
        let mut had_changes = true;
        while had_changes
            invariant
                self.inv(),
                spec_same_structure(*old(self), *self),
                spec_types_preserved(*old(self), *self),
                spec_count_none(self.resolved_types@) <= spec_count_none(
                    old(self).resolved_types@,
                ),
                !had_changes ==> spec_inner_pass_stable(*self) && spec_outer_pass_stable(*self),
            decreases spec_count_none(self.resolved_types@) + (if had_changes {
                1int
            } else {
                0int
            }),
        {
            let ghost before = *self;
            let ch1 = match self.resolve_types_from_inner() {
                Ok(b) => b,
                Err(e) => {
                    return Err(e);
                },
            };
            let ghost mid = *self;
            let ch2 = match self.resolve_types_from_outer() {
                Ok(b) => b,
                Err(e) => {
                    return Err(e);
                },
            };
            had_changes = ch2 || ch1;
            proof {
                lemma_same_structure_trans(*old(self), before, mid);
                lemma_same_structure_trans(*old(self), mid, *self);
                lemma_types_preserved_trans(*old(self), before, mid);
                lemma_types_preserved_trans(*old(self), mid, *self);
            }
        }
        Ok(())
    }

    /// Every node has a resolved type.
    fn all_resolved(&self) -> (b: bool)
        ensures
            b == (forall|k: int|
                0 <= k < self.resolved_types@.len() ==> (#[trigger] self.resolved_types@[k])
                    is Some),
    {
        let mut j: usize = 0;
        let n = self.resolved_types.len();
        while j < n
            invariant
                j <= n,
                n as int == self.resolved_types@.len(),
                forall|k: int| 0 <= k < j ==> (#[trigger] self.resolved_types@[k]) is Some,
            decreases n - j,
        {
            if self.resolved_types[j].is_none() {
                return false;
            }
            j = j + 1;
        }
        true
    }

    /// Bidirectional type inference to a fixed point, then default fallbacks
    /// for untyped literals that nothing constrained (floats default to F64,
    /// integers to I32 or I64 when they fit), then a second fixed point.
    /// Succeeds exactly when every node ends up with a resolved type; types
    /// already resolved are never changed, and structural indices never move.
    pub fn semantic_analysis(&mut self) -> (r: Result<(), HotEvalError>)
        requires
            old(self).inv(),
        ensures
            final(self).inv(),
            spec_same_structure(*old(self), *final(self)),
            spec_types_preserved(*old(self), *final(self)),
            r is Ok <==> final(self).fully_typed(),
            r matches Err(e) ==> spec_inference_error(e),
            r matches Err(e5) ==> (e5 matches HotEvalError::Analysis { .. } ==> (
            spec_inner_pass_stable(*final(self)) && spec_outer_pass_stable(*final(self)))),
            r is Ok ==> final(self).rooted() == old(self).rooted(),
    {
        match self.resolve_types_from_both() {
            Ok(()) => {},
            Err(e) => {
                return Err(e);
            },
        }
        let ghost after_first = *self;
        let mut had_fallback = false;
        let n = self.data.len();
        let mut i: usize = 0;
        while i < n
            invariant
                i <= n,
                n as int == self.spec_len(),
                self.inv(),
                spec_same_structure(after_first, *self),
                spec_types_preserved(after_first, *self),
                !had_fallback ==> *self == after_first,
            decreases n - i,
        {
            if self.resolved_types[i].is_none() {
                let maybe_untyped: Option<UntypedValue> = match &self.data[i] {
                    PackedAnalysisNodeData::UntypedValue { value } => Some(*value),
                    _ => None,
                };
                if let Some(value) = maybe_untyped {
                    let resolved_type: Option<ValueType> = match value {
                        UntypedValue::Float { .. } => Some(ValueType::F64),
                        UntypedValue::Integer { inner } => {
                            if inner <= i32::MAX as u64 {
                                Some(ValueType::I32)
                            } else if inner <= i64::MAX as u64 {
                                Some(ValueType::I64)
                            } else {
                                None
                            }
                        },
                    };
                    if let Some(rt) = resolved_type {
                        match value.get_resolved_value(rt) {
                            Ok(v) => {
                                let ghost before = *self;
                                self.data.set(
                                    i,
                                    PackedAnalysisNodeData::TypedValue { value: v },
                                );
                                self.resolved_types.set(i, Some(rt));
                                proof {
                                    lemma_convert_untyped_preserves_inv(
                                        before,
                                        *self,
                                        i as int,
                                        value,
                                        v,
                                        rt,
                                    );
                                    lemma_same_structure_trans(after_first, before, *self);
                                    lemma_types_preserved_trans(after_first, before, *self);
                                }
                                had_fallback = true;
                            },
                            Err(_) => {
                                proof {
                                    assert(false);
                                }
                            },
                        }
                    }
                }
            }
            i = i + 1;
        }
        if had_fallback {
            let ghost before2 = *self;
            match self.resolve_types_from_both() {
                Ok(()) => {
                    proof {
                        lemma_same_structure_trans(after_first, before2, *self);
                        lemma_types_preserved_trans(after_first, before2, *self);
                    }
                },
                Err(e) => {
                    return Err(e);
                },
            }
        }
        proof {
            lemma_same_structure_trans(*old(self), after_first, *self);
            lemma_types_preserved_trans(*old(self), after_first, *self);
        }
        if !self.all_resolved() {
            return Err(HotEvalError::Analysis { err: AnalysisError::BadAnalysis });
        }
        Ok(())
    }

    /// Flatten one expression into the tree, post-order: children first, then
    /// the node itself, which becomes the last node and is returned. Initial
    /// types follow the node kind: values, variables, calls, logical-not,
    /// comparisons and logical connectives are typed at once; negation,
    /// arithmetic, ternaries and untyped literals start unresolved.
    fn ast_to_analysis_node(&mut self, ast_node: &Expression, table: &Table) -> (r: Result<
        usize,
        HotEvalError,
    >)
        requires
            old(self).inv(),
            table.wf(),
        ensures
            final(self).inv(),
            final(self).data@.len() >= old(self).data@.len(),
            forall|i: int|
                0 <= i < old(self).data@.len() ==> final(self).data@[i] == old(self).data@[i]
                    && final(self).resolved_types@[i] == old(self).resolved_types@[i]
                    && final(self).parents@[i] == old(self).parents@[i],
            match r {
                Ok(idx) => {
                    &&& idx as int == final(self).spec_len() - 1
                    &&& old(self).data@.len() <= idx as int
                    &&& final(self).parents@[idx as int] is None
                    &&& forall|i: int|
                        old(self).data@.len() <= i < idx as int ==> final(self).parents@[i] is Some
                    &&& spec_corresponds(*final(self), idx as int, *ast_node, *table)
                },
                Err(e) => spec_flatten_error(e),
            },
            r is Ok <==> spec_flattenable(*ast_node, *table),
        decreases *ast_node,
    {
        let no_children: Vec<usize> = Vec::new();
        proof {
            assert(no_children@.map_values(|c: usize| c as int) =~= Seq::<int>::empty());
        }
        match ast_node {
            Expression::TypedValue { value } => {
                let t = value.get_value_type();
                let idx = self.attach_and_push(
                    PackedAnalysisNodeData::TypedValue { value: *value },
                    Some(t),
                    &no_children,
                );
                Ok(idx)
            },
            Expression::UntypedValue { value } => {
                let idx = self.attach_and_push(
                    PackedAnalysisNodeData::UntypedValue { value: *value },
                    None,
                    &no_children,
                );
                Ok(idx)
            },
            Expression::Binding { name } => {
                match table.get_binding(name) {
                    None => Err(
                        HotEvalError::Analysis {
                            err: AnalysisError::UnknownBinding { name: name.clone() },
                        },
                    ),
                    Some(binding) => match binding {
                        Binding::Const { value } => {
                            let t = value.get_value_type();
                            let idx = self.attach_and_push(
                                PackedAnalysisNodeData::TypedValue { value: *value },
                                Some(t),
                                &no_children,
                            );
                            Ok(idx)
                        },
                        Binding::Variable { value_type } => {
                            let idx = self.attach_and_push(
                                PackedAnalysisNodeData::Variable { name: name.clone() },
                                Some(*value_type),
                                &no_children,
                            );
                            Ok(idx)
                        },
                        Binding::Function { .. } => Err(
                            HotEvalError::Analysis {
                                err: AnalysisError::BadBindingKind {
                                    name: name.clone(),
                                    is_var: false,
                                },
                            },
                        ),
                    },
                }
            },
            Expression::UnaryOperation { operator, right } => {
                proof {
                    assert(decreases_to!(*ast_node => **right));
                }
                let right_idx = match self.ast_to_analysis_node(&**right, table) {
                    Ok(i) => i,
                    Err(e) => {
                        return Err(e);
                    },
                };
                let resolved_type = match operator {
                    UnaryOperator::Negate => None,
                    UnaryOperator::LogicalNot => Some(ValueType::Bool),
                };
                let mut children: Vec<usize> = Vec::new();
                children.push(right_idx);
                proof {
                    assert(children@.map_values(|c: usize| c as int) =~= seq![right_idx as int]);
                }
                let ghost mid = *self;
                let idx = self.attach_and_push(
                    PackedAnalysisNodeData::UnaryOperation {
                        operator: *operator,
                        right_idx,
                    },
                    resolved_type,
                    &children,
                );
                proof {
                    let entry = old(self).data@.len() as int;
                    assert forall|i: int|
                        entry <= i < idx as int implies self.parents@[i] is Some by {
                        if i == right_idx as int {
                            assert(children@[0] == right_idx);
                            assert(children@.contains(i as usize));
                        } else if !children@.contains(i as usize) {
                            assert(mid.parents@[i] is Some);
                        }
                    }
                    lemma_corresponds_agree(mid, *self, right_idx as int, **right, *table);
                    assert(spec_corresponds(*self, idx as int, *ast_node, *table));
                }
                Ok(idx)
            },
            Expression::BinaryOperation { operator, left, right } => {
                proof {
                    assert(decreases_to!(*ast_node => **left));
                    assert(decreases_to!(*ast_node => **right));
                }
                let left_idx = match self.ast_to_analysis_node(&**left, table) {
                    Ok(i) => i,
                    Err(e) => {
                        return Err(e);
                    },
                };
                let ghost t_l = *self;
                let right_idx = match self.ast_to_analysis_node(&**right, table) {
                    Ok(i) => i,
                    Err(e) => {
                        return Err(e);
                    },
                };
                let resolved_type = if operator.is_arithmetic() {
                    None
                } else {
                    Some(ValueType::Bool)
                };
                let mut children: Vec<usize> = Vec::new();
                children.push(left_idx);
                children.push(right_idx);
                proof {
                    assert(children@.map_values(|c: usize| c as int) =~= seq![
                        left_idx as int,
                        right_idx as int,
                    ]);
                }
                let ghost mid = *self;
                let idx = self.attach_and_push(
                    PackedAnalysisNodeData::BinaryOperation {
                        operator: *operator,
                        left_idx,
                        right_idx,
                    },
                    resolved_type,
                    &children,
                );
                proof {
                    let entry = old(self).data@.len() as int;
                    assert forall|i: int|
                        entry <= i < idx as int implies self.parents@[i] is Some by {
                        if i == left_idx as int {
                            assert(children@[0] == left_idx);
                            assert(children@.contains(i as usize));
                        } else if i == right_idx as int {
                            assert(children@[1] == right_idx);
                            assert(children@.contains(i as usize));
                        } else if !children@.contains(i as usize) {
                            assert(mid.parents@[i] is Some);
                        }
                    }
                    lemma_corresponds_agree(t_l, mid, left_idx as int, **left, *table);
                    lemma_corresponds_agree(mid, *self, left_idx as int, **left, *table);
                    lemma_corresponds_agree(mid, *self, right_idx as int, **right, *table);
                    assert(spec_corresponds(*self, idx as int, *ast_node, *table));
                }
                Ok(idx)
            },
            Expression::Ternary { cond, left, right } => {
                proof {
                    assert(decreases_to!(*ast_node => **cond));
                    assert(decreases_to!(*ast_node => **left));
                    assert(decreases_to!(*ast_node => **right));
                }
                let cond_idx = match self.ast_to_analysis_node(&**cond, table) {
                    Ok(i) => i,
                    Err(e) => {
                        return Err(e);
                    },
                };
                let ghost t_c = *self;
                let left_idx = match self.ast_to_analysis_node(&**left, table) {
                    Ok(i) => i,
                    Err(e) => {
                        return Err(e);
                    },
                };
                let ghost t_l = *self;
                let right_idx = match self.ast_to_analysis_node(&**right, table) {
                    Ok(i) => i,
                    Err(e) => {
                        return Err(e);
                    },
                };
                let mut children: Vec<usize> = Vec::new();
                children.push(cond_idx);
                children.push(left_idx);
                children.push(right_idx);
                proof {
                    assert(children@.map_values(|c: usize| c as int) =~= seq![
                        cond_idx as int,
                        left_idx as int,
                        right_idx as int,
                    ]);
                }
                let ghost mid = *self;
                let idx = self.attach_and_push(
                    PackedAnalysisNodeData::Ternary { cond_idx, left_idx, right_idx },
                    None,
                    &children,
                );
                proof {
                    let entry = old(self).data@.len() as int;
                    assert forall|i: int|
                        entry <= i < idx as int implies self.parents@[i] is Some by {
                        if i == cond_idx as int {
                            assert(children@[0] == cond_idx);
                            assert(children@.contains(i as usize));
                        } else if i == left_idx as int {
                            assert(children@[1] == left_idx);
                            assert(children@.contains(i as usize));
                        } else if i == right_idx as int {
                            assert(children@[2] == right_idx);
                            assert(children@.contains(i as usize));
                        } else if !children@.contains(i as usize) {
                            assert(mid.parents@[i] is Some);
                        }
                    }
                    lemma_corresponds_agree(t_c, t_l, cond_idx as int, **cond, *table);
                    lemma_corresponds_agree(t_l, mid, cond_idx as int, **cond, *table);
                    lemma_corresponds_agree(mid, *self, cond_idx as int, **cond, *table);
                    lemma_corresponds_agree(t_l, mid, left_idx as int, **left, *table);
                    lemma_corresponds_agree(mid, *self, left_idx as int, **left, *table);
                    lemma_corresponds_agree(mid, *self, right_idx as int, **right, *table);
                    assert(spec_corresponds(*self, idx as int, *ast_node, *table));
                }
                Ok(idx)
            },
            Expression::FunctionCall { name, arguments } => {
                let binding = match table.get_binding(name) {
                    Some(b) => b,
                    None => {
                        return Err(
                            HotEvalError::Analysis {
                                err: AnalysisError::UnknownBinding { name: name.clone() },
                            },
                        );
                    },
                };
                match binding {
                    Binding::Const { .. } | Binding::Variable { .. } => Err(
                        HotEvalError::Analysis {
                            err: AnalysisError::BadBindingKind { name: name.clone(), is_var: true },
                        },
                    ),
                    Binding::Function { ret_type, params, call_args, fn_ptr } => {
                        let expected_argc = params.len();
                        let actual_argc = arguments.len();
                        if expected_argc != actual_argc {
                            return Err(
                                HotEvalError::Analysis {
                                    err: AnalysisError::BadArguments {
                                        name: name.clone(),
                                        expected_argc,
                                        actual_argc,
                                    },
                                },
                            );
                        }
                        let mut args: Vec<FunctionArgument> = Vec::new();
                        let mut child_indices: Vec<usize> = Vec::new();
                        let mut a: usize = 0;
                        while a < call_args.len()
                            invariant
                                a <= call_args@.len(),
                                table.wf(),
                                self.inv(),
                                old(self).inv(),
                                expected_argc == actual_argc,
                                expected_argc as int == params@.len(),
                                actual_argc as int == arguments@.len(),
                                self.data@.len() >= old(self).data@.len(),
                                forall|i: int|
                                    0 <= i < old(self).data@.len() ==> self.data@[i] == old(self).data@[i] && self.resolved_types@[i] == old(self).resolved_types@[i] && self.parents@[i] == old(self).parents@[i],
                                forall|i: int|
                                    old(self).data@.len() <= i < self.data@.len()
                                        ==> self.parents@[i] is Some || child_indices@.contains(
                                        i as usize,
                                    ),
                                forall|k: int| #![trigger child_indices@[k]]
                                    0 <= k < child_indices@.len() ==> (old(self).data@.len()
                                        <= child_indices@[k] as int) && ((child_indices@[k] as int)
                                        < self.data@.len()) && (self.parents@[child_indices@[k] as int] is None),
                                spec_arg_children(args@) == child_indices@.map_values(
                                    |c: usize| c as int,
                                ),
                                args@.len() == a as int,
                                spec_args_correspond_upto(
                                    *self,
                                    self.spec_len(),
                                    args@,
                                    call_args@,
                                    params@,
                                    arguments@,
                                    *table,
                                    a as int,
                                ),
                                spec_args_flattenable(arguments@, call_args@, *table, a as int),
                                (spec_table_lookup(table.spec_bindings(), name@) matches Some(b)
                                    && b matches Binding::Function { params: p2, call_args: c2, .. }
                                    && p2@ == params@ && c2@ == call_args@),
                                (*ast_node) is FunctionCall,
                                (*ast_node)->FunctionCall_arguments == *arguments,
                                (*ast_node)->FunctionCall_name == *name,
                            decreases call_args@.len() - a,
                        {
                            let arg = call_args[a];
                            match arg {
                                crate::binding::FnSpecCallArg::MappedArgument { param_idx } => {
                                    if param_idx >= actual_argc {
                                        proof {
                                            if spec_flattenable(*ast_node, *table) {
                                                assert(spec_args_flattenable(
                                                    arguments@,
                                                    call_args@,
                                                    *table,
                                                    call_args@.len() as int,
                                                ));
                                                lemma_args_flattenable_prefix(
                                                    arguments@,
                                                    call_args@,
                                                    *table,
                                                    a as int + 1,
                                                    call_args@.len() as int,
                                                );
                                                assert(false);
                                            }
                                        }
                                        return Err(
                                            HotEvalError::Analysis {
                                                err: AnalysisError::BadAnalysis,
                                            },
                                        );
                                    }
                                    proof {
                                        assert(decreases_to!(
                                            *ast_node => (*ast_node)->FunctionCall_arguments));
                                        assert(decreases_to!(*arguments => arguments@));
                                        assert(decreases_to!(
                                            arguments@ => arguments@[param_idx as int]));
                                    }
                                    let ghost mid_tree = *self;
                                    let ghost old_ci = child_indices@;
                                    let child_idx = match self.ast_to_analysis_node(
                                        &arguments[param_idx],
                                        table,
                                    ) {
                                        Ok(i) => i,
                                        Err(e) => {
                                            proof {
                                                if spec_flattenable(*ast_node, *table) {
                                                    assert(spec_args_flattenable(
                                                        arguments@,
                                                        call_args@,
                                                        *table,
                                                        call_args@.len() as int,
                                                    ));
                                                    lemma_args_flattenable_prefix(
                                                        arguments@,
                                                        call_args@,
                                                        *table,
                                                        a as int + 1,
                                                        call_args@.len() as int,
                                                    );
                                                    assert(false);
                                                }
                                            }
                                            return Err(e);
                                        },
                                    };
                                    let ghost old_args = args@;
                                    args.push(
                                        FunctionArgument::Parameter {
                                            idx: child_idx,
                                            expected_type: params[param_idx],
                                        },
                                    );
                                    child_indices.push(child_idx);
                                    proof {
                                        assert(args@.drop_last() =~= old_args);
                                        assert(spec_arg_children(args@) =~= child_indices@
                                            .map_values(|c: usize| c as int));
                                        assert forall|i: int|
                                            old(self).data@.len() <= i < self.data@.len()
                                                implies self.parents@[i] is Some
                                            || child_indices@.contains(i as usize) by {
                                            if i < mid_tree.data@.len() {
                                                if old_ci.contains(i as usize) {
                                                    let w = choose|w: int|
                                                        0 <= w < old_ci.len() && old_ci[w]
                                                            == i as usize;
                                                    assert(child_indices@[w] == i as usize);
                                                }
                                            } else if i < child_idx as int {
                                            } else {
                                                assert(child_indices@[child_indices@.len() - 1]
                                                    == i as usize);
                                            }
                                        }
                                        assert forall|k: int| #![trigger child_indices@[k]]
                                            0 <= k < child_indices@.len() implies (old(
                                            self,
                                        ).data@.len() <= child_indices@[k] as int) && ((
                                        child_indices@[k] as int) < self.data@.len()) && (
                                        self.parents@[child_indices@[k] as int] is None) by {
                                            if k < old_ci.len() {
                                                assert(old_ci[k] == child_indices@[k]);
                                            }
                                        }
                                        lemma_args_corresponds_agree(
                                            mid_tree,
                                            *self,
                                            mid_tree.spec_len(),
                                            old_args,
                                            call_args@,
                                            params@,
                                            arguments@,
                                            *table,
                                            a as int,
                                        );
                                        lemma_args_upto_widen(
                                            *self,
                                            mid_tree.spec_len(),
                                            self.spec_len(),
                                            old_args,
                                            call_args@,
                                            params@,
                                            arguments@,
                                            *table,
                                            a as int,
                                        );
                                        lemma_args_upto_grow_args(
                                            *self,
                                            self.spec_len(),
                                            old_args,
                                            args@,
                                            call_args@,
                                            params@,
                                            arguments@,
                                            *table,
                                            a as int,
                                        );
                                        assert(spec_args_correspond_upto(
                                            *self,
                                            self.spec_len(),
                                            args@,
                                            call_args@,
                                            params@,
                                            arguments@,
                                            *table,
                                            a as int + 1,
                                        ));
                                        assert(spec_args_flattenable(
                                            arguments@,
                                            call_args@,
                                            *table,
                                            a as int + 1,
                                        ));
                                    }
                                },
                                crate::binding::FnSpecCallArg::ConstArgument { value } => {
                                    let ghost old_args = args@;
                                    args.push(FunctionArgument::ConstArgument { value });
                                    proof {
                                        assert(args@.drop_last() =~= old_args);
                                        assert(spec_arg_children(args@) =~= child_indices@
                                            .map_values(|c: usize| c as int));
                                        lemma_args_upto_grow_args(
                                            *self,
                                            self.spec_len(),
                                            old_args,
                                            args@,
                                            call_args@,
                                            params@,
                                            arguments@,
                                            *table,
                                            a as int,
                                        );
                                        assert(spec_args_correspond_upto(
                                            *self,
                                            self.spec_len(),
                                            args@,
                                            call_args@,
                                            params@,
                                            arguments@,
                                            *table,
                                            a as int + 1,
                                        ));
                                    }
                                },
                                crate::binding::FnSpecCallArg::HiddenStateArgument {
                                    hidden_state_idx,
                                    cast_to_type,
                                } => {
                                    let slab_value_type = match table.get_hidden_state(
                                        hidden_state_idx,
                                    ) {
                                        Some(t) => t,
                                        None => {
                                            proof {
                                                if spec_flattenable(*ast_node, *table) {
                                                    assert(spec_args_flattenable(
                                                        arguments@,
                                                        call_args@,
                                                        *table,
                                                        call_args@.len() as int,
                                                    ));
                                                    lemma_args_flattenable_prefix(
                                                        arguments@,
                                                        call_args@,
                                                        *table,
                                                        a as int + 1,
                                                        call_args@.len() as int,
                                                    );
                                                    assert(false);
                                                }
                                            }
                                            return Err(
                                                HotEvalError::Analysis {
                                                    err: AnalysisError::UnknownHiddenState {
                                                        idx: hidden_state_idx,
                                                    },
                                                },
                                            );
                                        },
                                    };
                                    let ghost old_args = args@;
                                    args.push(
                                        FunctionArgument::HiddenStateArgument {
                                            hidden_state_idx,
                                            slab_value_type,
                                            cast_to_type,
                                        },
                                    );
                                    proof {
                                        assert(args@.drop_last() =~= old_args);
                                        assert(spec_arg_children(args@) =~= child_indices@
                                            .map_values(|c: usize| c as int));
                                        lemma_args_upto_grow_args(
                                            *self,
                                            self.spec_len(),
                                            old_args,
                                            args@,
                                            call_args@,
                                            params@,
                                            arguments@,
                                            *table,
                                            a as int,
                                        );
                                        assert(spec_args_correspond_upto(
                                            *self,
                                            self.spec_len(),
                                            args@,
                                            call_args@,
                                            params@,
                                            arguments@,
                                            *table,
                                            a as int + 1,
                                        ));
                                    }
                                },
                            }
                            a = a + 1;
                        }
                        let ghost args_final = args@;
                        let ghost mid = *self;
                        let idx = self.attach_and_push(
                            PackedAnalysisNodeData::FunctionCall { args, fn_ptr: *fn_ptr },
                            Some(*ret_type),
                            &child_indices,
                        );
                        proof {
                            let entry = old(self).data@.len() as int;
                            assert forall|i: int| 0 <= i < entry implies self.parents@[i] == old(
                                self,
                            ).parents@[i] by {
                                if child_indices@.contains(i as usize) {
                                    let w = choose|w: int|
                                        0 <= w < child_indices@.len() && child_indices@[w]
                                            == i as usize;
                                    assert(child_indices@[w] as int >= entry);
                                    assert(false);
                                }
                            }
                            assert forall|i: int|
                                entry <= i < idx as int implies self.parents@[i] is Some by {
                                if !child_indices@.contains(i as usize) {
                                    assert(mid.parents@[i] is Some);
                                }
                            }
                            lemma_args_corresponds_agree(
                                mid,
                                *self,
                                mid.spec_len(),
                                args_final,
                                call_args@,
                                params@,
                                arguments@,
                                *table,
                                call_args@.len() as int,
                            );
                            assert(spec_corresponds(*self, idx as int, *ast_node, *table));
                        }
                        Ok(idx)
                    },
                }
            },
        }
    }

    /// Flatten the parser's tree and run semantic analysis. On success the
    /// tree is well formed, the root is the last node, every node has a
    /// resolved type with no untyped literal left, and the root is the image
    /// of the given expression: operators, calls and their children are
    /// mirrored, constants inlined, and each untyped literal replaced by its
    /// faithful resolution at the type inference chose for it.
    pub fn from_ast(ast_root_node: &Expression, table: &Table) -> (r: Result<
        PackedAnalysisTree,
        HotEvalError,
    >)
        requires
            table.wf(),
        ensures
            match r {
                Ok(tree) => tree.inv() && tree.rooted() && tree.fully_typed()
                    && spec_corresponds(tree, tree.spec_len() - 1, *ast_root_node, *table),
                Err(e) => spec_flatten_error(e) || spec_inference_error(e),
            },
            r is Ok ==> spec_flattenable(*ast_root_node, *table),
            !spec_flattenable(*ast_root_node, *table) ==> (r matches Err(e2)
                && spec_flatten_error(e2)),
            spec_flattenable(*ast_root_node, *table) ==> (r matches Err(e3)
                ==> spec_inference_error(e3)),
            r matches Err(e4) ==> (e4 matches HotEvalError::Analysis { .. } ==> (
            spec_flattenable(*ast_root_node, *table) ==> exists|t: PackedAnalysisTree|
                #![trigger t.rooted()]
                {
                    &&& t.inv()
                    &&& t.rooted()
                    &&& spec_corresponds(t, t.spec_len() - 1, *ast_root_node, *table)
                    &&& spec_inner_pass_stable(t)
                    &&& spec_outer_pass_stable(t)
                    &&& !t.fully_typed()
                })),
    {
        let mut tree = PackedAnalysisTree {
            data: Vec::new(),
            resolved_types: Vec::new(),
            parents: Vec::new(),
        };
        let root_idx = match tree.ast_to_analysis_node(ast_root_node, table) {
            Ok(i) => i,
            Err(e) => {
                return Err(e);
            },
        };
        let ghost t0 = tree;
        match tree.semantic_analysis() {
            Ok(()) => {
                proof {
                    lemma_corresponds_preserved(
                        t0,
                        tree,
                        root_idx as int,
                        *ast_root_node,
                        *table,
                    );
                }
                Ok(tree)
            },
            Err(e) => {
                proof {
                    match e {
                        HotEvalError::Analysis { .. } => {
                            lemma_corresponds_preserved(
                                t0,
                                tree,
                                root_idx as int,
                                *ast_root_node,
                                *table,
                            );
                            assert(tree.rooted());
                            assert(tree.inv() && tree.rooted() && spec_corresponds(
                                tree,
                                tree.spec_len() - 1,
                                *ast_root_node,
                                *table,
                            ) && spec_inner_pass_stable(tree) && spec_outer_pass_stable(tree)
                                && !tree.fully_typed());
                        },
                        _ => {},
                    }
                }
                Err(e)
            },
        }
    }
}

/// Flat tree ordering: in an analyzed tree every child index is strictly
/// below its parent's index and its parent pointer leads back to exactly
/// that parent, and the root is the last node.
pub proof fn lemma_flat_tree_ordering(t: PackedAnalysisTree)
    requires
        t.inv(),
        t.rooted(),
    ensures
        t.spec_len() > 0,
        forall|i: int, k: int|
            0 <= i < t.spec_len() && 0 <= k < spec_children(t.data@[i]).len()
                ==> 0 <= #[trigger] spec_children(t.data@[i])[k] < i,
        forall|i: int, k: int|
            0 <= i < t.spec_len() && 0 <= k < spec_children(t.data@[i]).len() ==> t.parents@[
                #[trigger] spec_children(t.data@[i])[k]
            ] == Some(i as usize),
        t.parents@[t.spec_len() - 1] is None,
{
    assert forall|i: int, k: int|
        0 <= i < t.spec_len() && 0 <= k < spec_children(t.data@[i]).len() implies (0 <= #[trigger]
    spec_children(t.data@[i])[k] < i) && t.parents@[spec_children(t.data@[i])[k]] == Some(
        i as usize,
    ) by {
        assert(t.node_wf(i));
    }
}


} // verus!
