//! The symbol table a host builds before compiling expressions against it:
//! uniquely named bindings in insertion order, plus anonymous hidden-state
//! slots addressed by index.

use vstd::prelude::*;
use crate::binding::{Binding, FnSpecCallArg, ToBFPValueType};
use crate::errors::CommonError;
use crate::value::Value;
use crate::value_type::ValueType;

verus! {

// ---------------------------------------------------------------------------
// Parameter map builder
// ---------------------------------------------------------------------------
/// The type recorded for parameter index `idx`, if any.
pub open spec fn spec_pb_lookup(pairs: Seq<(usize, ValueType)>, idx: usize) -> Option<ValueType>
    decreases pairs.len(),
{
    if pairs.len() == 0 {
        None
    } else if pairs.last().0 == idx {
        Some(pairs.last().1)
    } else {
        spec_pb_lookup(pairs.drop_last(), idx)
    }
}

/// Each parameter index is recorded at most once.
pub open spec fn spec_pb_wf(pairs: Seq<(usize, ValueType)>) -> bool {
    forall|i: int, j: int| 0 <= i < j < pairs.len() ==> pairs[i].0 != pairs[j].0
}

proof fn lemma_pb_lookup_at(pairs: Seq<(usize, ValueType)>, i: int)
    requires
        spec_pb_wf(pairs),
        0 <= i < pairs.len(),
    ensures
        spec_pb_lookup(pairs, pairs[i].0) == Some(pairs[i].1),
    decreases pairs.len(),
{
    if i == pairs.len() - 1 {
    } else {
        assert(pairs.drop_last()[i] == pairs[i]);
        lemma_pb_lookup_at(pairs.drop_last(), i);
    }
}

proof fn lemma_pb_lookup_absent(pairs: Seq<(usize, ValueType)>, idx: usize)
    requires
        forall|i: int| 0 <= i < pairs.len() ==> pairs[i].0 != idx,
    ensures
        spec_pb_lookup(pairs, idx) is None,
    decreases pairs.len(),
{
    if pairs.len() > 0 {
        assert(forall|i: int|
            0 <= i < pairs.drop_last().len() ==> pairs.drop_last()[i].0 != idx);
        lemma_pb_lookup_absent(pairs.drop_last(), idx);
    }
}

/// What recording one argument does to the parameter map: a mapped argument
/// claims its parameter index at the function pointer's type for that
/// position, and claiming one index at two different types is a conflict;
/// other argument kinds leave the map alone.
pub open spec fn spec_pb_insert(
    pairs: Seq<(usize, ValueType)>,
    arg: FnSpecCallArg,
    fn_ptr_arg_type: ValueType,
) -> Result<Seq<(usize, ValueType)>, CommonError> {
    match arg {
        FnSpecCallArg::MappedArgument { param_idx } => match spec_pb_lookup(pairs, param_idx) {
            Some(existing) => if existing == fn_ptr_arg_type {
                Ok(pairs)
            } else {
                Err(CommonError::FuncSpecArgParamIndexConflict {
                    idx: param_idx,
                    new_type: fn_ptr_arg_type,
                    existing_type: existing,
                })
            },
            None => Ok(pairs.push((param_idx, fn_ptr_arg_type))),
        },
        _ => Ok(pairs),
    }
}

/// First parameter index at or after `i` that the map does not cover.
pub open spec fn spec_pb_first_missing(pairs: Seq<(usize, ValueType)>, i: nat) -> nat
    decreases pairs.len() - i,
{
    if i >= pairs.len() {
        i
    } else if spec_pb_lookup(pairs, i as usize) is None {
        i
    } else {
        spec_pb_first_missing(pairs, i + 1)
    }
}

/// The finished parameter list: the map must cover exactly `0 .. len`, and
/// the list reads the type of each index in order; a gap is an error naming
/// the first missing index.
pub open spec fn spec_pb_finish(pairs: Seq<(usize, ValueType)>) -> Result<
    Seq<ValueType>,
    CommonError,
> {
    if forall|j: usize| j < pairs.len() ==> spec_pb_lookup(pairs, j) is Some {
        Ok(Seq::new(pairs.len(), |j: int| spec_pb_lookup(pairs, j as usize)->Some_0))
    } else {
        Err(CommonError::FuncSpecArgDiscontinuousParamMap {
            max_idx: (pairs.len() - 1) as usize,
            missing_idx: spec_pb_first_missing(pairs, 0) as usize,
        })
    }
}

/// Accumulates the mapping from expression-level parameter index to C-ABI
/// type while a specialized function binding is registered.
pub struct BindingFunctionParamBuilder {
    mapping: Vec<(usize, ValueType)>,
}

impl BindingFunctionParamBuilder {
    pub closed spec fn spec_mapping(&self) -> Seq<(usize, ValueType)> {
        self.mapping@
    }

    pub open spec fn wf(&self) -> bool {
        spec_pb_wf(self.spec_mapping())
    }

    pub fn new() -> (r: Self)
        ensures
            r.wf(),
            r.spec_mapping() == Seq::<(usize, ValueType)>::empty(),
    {
        Self { mapping: Vec::new() }
    }

    fn find(&self, idx: usize) -> (r: Option<ValueType>)
        requires
            self.wf(),
        ensures
            r == spec_pb_lookup(self.spec_mapping(), idx),
    {
        let mut i: usize = 0;
        while i < self.mapping.len()
            invariant
                self.wf(),
                i <= self.mapping@.len(),
                forall|j: int| 0 <= j < i ==> self.mapping@[j].0 != idx,
            decreases self.mapping@.len() - i,
        {
            if self.mapping[i].0 == idx {
                proof {
                    lemma_pb_lookup_at(self.mapping@, i as int);
                }
                return Some(self.mapping[i].1);
            }
            i = i + 1;
        }
        proof {
            lemma_pb_lookup_absent(self.mapping@, idx);
        }
        None
    }

    /// Record a mapped argument's parameter index at the given C-ABI type,
    /// rejecting a second registration at a different type.
    pub fn maybe_add_spec_call_arg(&mut self, arg: &FnSpecCallArg, fn_ptr_arg_type: ValueType) -> (r:
        Result<(), CommonError>)
        requires
            old(self).wf(),
        ensures
            final(self).wf(),
            match r {
                Ok(()) => spec_pb_insert(old(self).spec_mapping(), *arg, fn_ptr_arg_type)
                    == Ok::<_, CommonError>(final(self).spec_mapping()),
                Err(e) => spec_pb_insert(old(self).spec_mapping(), *arg, fn_ptr_arg_type) == Err::<
                    Seq<(usize, ValueType)>,
                    _,
                >(e) && final(self).spec_mapping() == old(self).spec_mapping(),
            },
    {
        if let FnSpecCallArg::MappedArgument { param_idx } = arg {
            let idx = *param_idx;
            match self.find(idx) {
                Some(existing_type) => {
                    if existing_type != fn_ptr_arg_type {
                        return Err(CommonError::FuncSpecArgParamIndexConflict {
                            idx,
                            new_type: fn_ptr_arg_type,
                            existing_type,
                        });
                    }
                },
                None => {
                    self.mapping.push((idx, fn_ptr_arg_type));
                    proof {
                        assert forall|i: int, j: int|
                            0 <= i < j < self.mapping@.len() implies self.mapping@[i].0
                            != self.mapping@[j].0 by {
                            if j == self.mapping@.len() - 1 {
                                if self.mapping@[i].0 == idx {
                                    lemma_pb_lookup_at(old(self).spec_mapping(), i);
                                }
                            }
                        }
                    }
                },
            }
        }
        Ok(())
    }

    /// Close the map into the ordered parameter list `0 .. len`.
    pub fn finish(self) -> (r: Result<Vec<ValueType>, CommonError>)
        requires
            self.wf(),
        ensures
            match r {
                Ok(params) => spec_pb_finish(self.spec_mapping()) == Ok::<_, CommonError>(params@),
                Err(e) => spec_pb_finish(self.spec_mapping()) == Err::<Seq<ValueType>, _>(e),
            },
    {
        let mut params: Vec<ValueType> = Vec::new();
        let len = self.mapping.len();
        let mut i: usize = 0;
        while i < len
            invariant
                self.wf(),
                len == self.spec_mapping().len(),
                i <= len,
                params@.len() == i as int,
                forall|j: usize| j < i ==> spec_pb_lookup(self.spec_mapping(), j) is Some,
                forall|j: int|
                    0 <= j < i ==> params@[j] == spec_pb_lookup(
                        self.spec_mapping(),
                        j as usize,
                    )->Some_0,
            decreases len - i,
        {
            match self.find(i) {
                Some(value_type) => params.push(value_type),
                None => {
                    proof {
                        lemma_pb_first_missing_is(self.spec_mapping(), i);
                    }
                    return Err(CommonError::FuncSpecArgDiscontinuousParamMap {
                        max_idx: len - 1,
                        missing_idx: i,
                    });
                },
            }
            i = i + 1;
        }
        proof {
            assert(params@ =~= Seq::new(
                self.spec_mapping().len(),
                |j: int| spec_pb_lookup(self.spec_mapping(), j as usize)->Some_0,
            ));
        }
        Ok(params)
    }
}

proof fn lemma_pb_first_missing_is(pairs: Seq<(usize, ValueType)>, m: usize)
    requires
        m < pairs.len(),
        spec_pb_lookup(pairs, m) is None,
        forall|j: usize| j < m ==> spec_pb_lookup(pairs, j) is Some,
    ensures
        spec_pb_first_missing(pairs, 0) == m as nat,
{
    lemma_pb_first_missing_from(pairs, 0, m);
}

proof fn lemma_pb_first_missing_from(pairs: Seq<(usize, ValueType)>, i: nat, m: usize)
    requires
        i <= m < pairs.len(),
        spec_pb_lookup(pairs, m) is None,
        forall|j: usize| j < m ==> spec_pb_lookup(pairs, j) is Some,
    ensures
        spec_pb_first_missing(pairs, i) == m as nat,
    decreases m - i,
{
    if i < m {
        lemma_pb_first_missing_from(pairs, i + 1, m);
    }
}

/// Folding `spec_pb_insert` over the arguments from position `i` on.
pub open spec fn spec_pb_insert_from(
    pairs: Seq<(usize, ValueType)>,
    args: Seq<FnSpecCallArg>,
    tys: Seq<ValueType>,
    i: int,
) -> Result<Seq<(usize, ValueType)>, CommonError>
    decreases args.len() - i,
{
    if i < 0 || i >= args.len() {
        Ok(pairs)
    } else {
        match spec_pb_insert(pairs, args[i], tys[i]) {
            Ok(p2) => spec_pb_insert_from(p2, args, tys, i + 1),
            Err(e) => Err(e),
        }
    }
}

/// Guarding every argument against the finished parameter list, from
/// position `i` on; the first failure wins.
pub open spec fn spec_guard_from(
    args: Seq<FnSpecCallArg>,
    tys: Seq<ValueType>,
    params: Seq<ValueType>,
    i: int,
) -> Result<(), CommonError>
    decreases args.len() - i,
{
    if i < 0 || i >= args.len() {
        Ok(())
    } else {
        match crate::binding::spec_guard(args[i], params, tys[i]) {
            Ok(()) => spec_guard_from(args, tys, params, i + 1),
            Err(e) => Err(e),
        }
    }
}

/// The parameter list a specialized registration derives from its argument
/// list, or the first error of the derivation: the mapped positions must form
/// the contiguous range `0 .. n` with consistent types, and every argument
/// must pass its guard against that list.
pub open spec fn spec_map_params(
    args: Seq<FnSpecCallArg>,
    tys: Seq<ValueType>,
) -> Result<Seq<ValueType>, CommonError> {
    match spec_pb_insert_from(Seq::empty(), args, tys, 0) {
        Err(e) => Err(e),
        Ok(pairs) => match spec_pb_finish(pairs) {
            Err(e) => Err(e),
            Ok(params) => match spec_guard_from(args, tys, params, 0) {
                Err(e) => Err(e),
                Ok(()) => Ok(params),
            },
        },
    }
}

// ---------------------------------------------------------------------------
// Table
// ---------------------------------------------------------------------------
/// The binding registered under `name`, latest registration first (names are
/// unique, so at most one exists).
pub open spec fn spec_table_lookup(bs: Seq<(String, Binding)>, name: Seq<char>) -> Option<Binding>
    decreases bs.len(),
{
    if bs.len() == 0 {
        None
    } else if bs.last().0@ == name {
        Some(bs.last().1)
    } else {
        spec_table_lookup(bs.drop_last(), name)
    }
}

pub open spec fn spec_table_contains(bs: Seq<(String, Binding)>, name: Seq<char>) -> bool {
    spec_table_lookup(bs, name) is Some
}

/// Binding names are unique.
pub open spec fn spec_table_wf(bs: Seq<(String, Binding)>) -> bool {
    forall|i: int, j: int| 0 <= i < j < bs.len() ==> bs[i].0@ != bs[j].0@
}

proof fn lemma_table_lookup_at(bs: Seq<(String, Binding)>, i: int)
    requires
        spec_table_wf(bs),
        0 <= i < bs.len(),
    ensures
        spec_table_lookup(bs, bs[i].0@) == Some(bs[i].1),
    decreases bs.len(),
{
    if i == bs.len() - 1 {
    } else {
        assert(bs.drop_last()[i] == bs[i]);
        lemma_table_lookup_at(bs.drop_last(), i);
    }
}

proof fn lemma_table_lookup_absent(bs: Seq<(String, Binding)>, name: Seq<char>)
    requires
        forall|i: int| 0 <= i < bs.len() ==> bs[i].0@ != name,
    ensures
        spec_table_lookup(bs, name) is None,
    decreases bs.len(),
{
    if bs.len() > 0 {
        assert(forall|i: int| 0 <= i < bs.drop_last().len() ==> bs.drop_last()[i].0@ != name);
        lemma_table_lookup_absent(bs.drop_last(), name);
    }
}

/// Symbol table: named bindings in insertion order plus anonymous typed
/// hidden-state slots.
pub struct Table {
    bindings: Vec<(String, Binding)>,
    hidden_states: Vec<ValueType>,
}

/// The expression-level call argument list of a plain (unspecialized)
/// function binding: one mapped argument per parameter, in order.
pub open spec fn spec_mapped_args(n: nat) -> Seq<FnSpecCallArg> {
    Seq::new(n, |i: int| FnSpecCallArg::MappedArgument { param_idx: i as usize })
}

/// `b` is a function binding with exactly these parts.
pub open spec fn spec_is_function_binding(
    b: Binding,
    ret_type: ValueType,
    params: Seq<ValueType>,
    call_args: Seq<FnSpecCallArg>,
    fn_ptr: usize,
) -> bool {
    match b {
        Binding::Function { ret_type: r, params: p, call_args: c, fn_ptr: f } => r == ret_type
            && p@ == params && c@ == call_args && f == fn_ptr,
        _ => false,
    }
}

/// The table after `add_binding(name, b)` succeeded: the pair is appended,
/// everything else is unchanged.
pub open spec fn spec_table_added(old_t: Table, new_t: Table, name: Seq<char>) -> bool {
    &&& new_t.spec_bindings().len() == old_t.spec_bindings().len() + 1
    &&& forall|i: int|
        0 <= i < old_t.spec_bindings().len() ==> new_t.spec_bindings()[i]
            == old_t.spec_bindings()[i]
    &&& new_t.spec_bindings().last().0@ == name
    &&& new_t.spec_hidden_states() == old_t.spec_hidden_states()
}

impl Table {
    pub closed spec fn spec_bindings(&self) -> Seq<(String, Binding)> {
        self.bindings@
    }

    pub closed spec fn spec_hidden_states(&self) -> Seq<ValueType> {
        self.hidden_states@
    }

    pub open spec fn wf(&self) -> bool {
        spec_table_wf(self.spec_bindings())
    }

    pub fn new() -> (r: Self)
        ensures
            r.wf(),
            r.spec_bindings() == Seq::<(String, Binding)>::empty(),
            r.spec_hidden_states() == Seq::<ValueType>::empty(),
    {
        Table { bindings: Vec::new(), hidden_states: Vec::new() }
    }

    fn find_binding_index(&self, name: &String) -> (r: Option<usize>)
        requires
            self.wf(),
        ensures
            match r {
                Some(i) => i < self.spec_bindings().len() && self.spec_bindings()[i as int].0@
                    == name@ && spec_table_lookup(self.spec_bindings(), name@) == Some(
                    self.spec_bindings()[i as int].1,
                ),
                None => !spec_table_contains(self.spec_bindings(), name@),
            },
    {
        let mut i: usize = 0;
        while i < self.bindings.len()
            invariant
                self.wf(),
                i <= self.bindings@.len(),
                forall|j: int| 0 <= j < i ==> self.bindings@[j].0@ != name@,
            decreases self.bindings@.len() - i,
        {
            if self.bindings[i].0.eq(name) {
                proof {
                    lemma_table_lookup_at(self.bindings@, i as int);
                }
                return Some(i);
            }
            i = i + 1;
        }
        proof {
            lemma_table_lookup_absent(self.bindings@, name@);
        }
        None
    }

    /// Register `binding` under `name`; a second binding under an existing
    /// name is rejected and the table is unchanged.
    pub fn add_binding(&mut self, name: String, binding: Binding) -> (r: Result<(), CommonError>)
        requires
            old(self).wf(),
        ensures
            final(self).wf(),
            match r {
                Ok(()) => !spec_table_contains(old(self).spec_bindings(), name@)
                    && spec_table_added(*old(self), *final(self), name@) && final(self).spec_bindings().last().1 == binding,
                Err(e) => spec_table_contains(old(self).spec_bindings(), name@) && *final(self)
                    == *old(self) && (e matches CommonError::BindingAlreadyExists {
                    name: n,
                } && n@ == name@),
            },
    {
        match self.find_binding_index(&name) {
            Some(_) => Err(CommonError::BindingAlreadyExists { name }),
            None => {
                self.bindings.push((name, binding));
                proof {
                    let bs = self.bindings@;
                    let obs = old(self).spec_bindings();
                    assert forall|i: int, j: int| 0 <= i < j < bs.len() implies bs[i].0@
                        != bs[j].0@ by {
                        if j == bs.len() - 1 {
                            assert(bs[i] == obs[i]);
                            if obs[i].0@ == bs[j].0@ {
                                lemma_table_lookup_at(obs, i);
                            }
                        } else {
                            assert(bs[i] == obs[i]);
                            assert(bs[j] == obs[j]);
                        }
                    }
                }
                Ok(())
            },
        }
    }

    /// The binding registered under `name`, if any.
    pub fn get_binding(&self, name: &String) -> (r: Option<&Binding>)
        requires
            self.wf(),
        ensures
            match r {
                Some(b) => spec_table_lookup(self.spec_bindings(), name@) == Some(*b),
                None => !spec_table_contains(self.spec_bindings(), name@),
            },
    {
        match self.find_binding_index(name) {
            Some(i) => Some(&self.bindings[i].1),
            None => None,
        }
    }

    /// All bindings, in insertion order.
    pub fn iter_bindings(&self) -> (r: &Vec<(String, Binding)>)
        ensures
            r@ == self.spec_bindings(),
    {
        &self.bindings
    }

    /// Append a hidden-state slot of the given type; its index is returned.
    pub fn add_hidden_state(&mut self, value_type: ValueType) -> (idx: usize)
        ensures
            final(self).spec_hidden_states() == old(self).spec_hidden_states().push(value_type),
            final(self).spec_bindings() == old(self).spec_bindings(),
            final(self).wf() == old(self).wf(),
            idx as int == old(self).spec_hidden_states().len(),
    {
        self.hidden_states.push(value_type);
        self.hidden_states.len() - 1
    }

    /// Append a pointer-width hidden-state slot.
    pub fn add_ptr_hidden_state(&mut self) -> (idx: usize)
        ensures
            final(self).spec_hidden_states() == old(self).spec_hidden_states().push(
                ValueType::USize,
            ),
            final(self).spec_bindings() == old(self).spec_bindings(),
            final(self).wf() == old(self).wf(),
            idx as int == old(self).spec_hidden_states().len(),
    {
        self.add_hidden_state(ValueType::USize)
    }

    pub fn get_hidden_state(&self, hidden_state_idx: usize) -> (r: Option<ValueType>)
        ensures
            match r {
                Some(t) => hidden_state_idx < self.spec_hidden_states().len() && t
                    == self.spec_hidden_states()[hidden_state_idx as int],
                None => hidden_state_idx >= self.spec_hidden_states().len(),
            },
    {
        if hidden_state_idx < self.hidden_states.len() {
            Some(self.hidden_states[hidden_state_idx])
        } else {
            None
        }
    }

    pub fn get_hidden_state_count(&self) -> (r: usize)
        ensures
            r as int == self.spec_hidden_states().len(),
    {
        self.hidden_states.len()
    }

    /// Register a constant.
    pub fn add_const(&mut self, name: String, value: Value) -> (r: Result<(), CommonError>)
        requires
            old(self).wf(),
        ensures
            final(self).wf(),
            match r {
                Ok(()) => !spec_table_contains(old(self).spec_bindings(), name@)
                    && spec_table_added(*old(self), *final(self), name@) && final(self).spec_bindings().last().1 == (Binding::Const { value }),
                Err(e) => spec_table_contains(old(self).spec_bindings(), name@) && *final(self)
                    == *old(self) && (e matches CommonError::BindingAlreadyExists {
                    name: n,
                } && n@ == name@),
            },
    {
        self.add_binding(name, Binding::Const { value })
    }

    /// Register a variable; its storage slot comes from the slab.
    pub fn add_variable(&mut self, name: String, value_type: ValueType) -> (r: Result<
        (),
        CommonError,
    >)
        requires
            old(self).wf(),
        ensures
            final(self).wf(),
            match r {
                Ok(()) => !spec_table_contains(old(self).spec_bindings(), name@)
                    && spec_table_added(*old(self), *final(self), name@) && final(self).spec_bindings().last().1 == (Binding::Variable { value_type }),
                Err(e) => spec_table_contains(old(self).spec_bindings(), name@) && *final(self)
                    == *old(self) && (e matches CommonError::BindingAlreadyExists {
                    name: n,
                } && n@ == name@),
            },
    {
        self.add_binding(name, Binding::Variable { value_type })
    }

    /// Register an unspecialized function binding: every physical parameter is
    /// an expression-level parameter, in declared order.
    fn add_function_direct(
        &mut self,
        name: String,
        ret_type: ValueType,
        fn_ptr: usize,
        arg_types: Vec<ValueType>,
    ) -> (r: Result<(), CommonError>)
        requires
            old(self).wf(),
        ensures
            final(self).wf(),
            match r {
                Ok(()) => !spec_table_contains(old(self).spec_bindings(), name@)
                    && spec_table_added(*old(self), *final(self), name@)
                    && spec_is_function_binding(
                    final(self).spec_bindings().last().1,
                    ret_type,
                    arg_types@,
                    spec_mapped_args(arg_types@.len()),
                    fn_ptr,
                ),
                Err(e) => spec_table_contains(old(self).spec_bindings(), name@) && *final(self)
                    == *old(self) && (e matches CommonError::BindingAlreadyExists {
                    name: n,
                } && n@ == name@),
            },
    {
        let n = arg_types.len();
        let mut call_args: Vec<FnSpecCallArg> = Vec::new();
        let mut i: usize = 0;
        while i < n
            invariant
                i <= n,
                call_args@.len() == i as int,
                forall|j: int|
                    0 <= j < i ==> call_args@[j] == (FnSpecCallArg::MappedArgument {
                        param_idx: j as usize,
                    }),
            decreases n - i,
        {
            call_args.push(FnSpecCallArg::MappedArgument { param_idx: i });
            i = i + 1;
        }
        proof {
            assert(call_args@ =~= spec_mapped_args(arg_types@.len()));
        }
        self.add_binding(
            name,
            Binding::Function { ret_type, params: arg_types, call_args, fn_ptr },
        )
    }

    pub fn add_function_0<R: ToBFPValueType>(&mut self, name: String, fn_ptr: usize) -> (r: Result<
        (),
        CommonError,
    >)
        requires
            old(self).wf(),
        ensures
            final(self).wf(),
            match r {
                Ok(()) => !spec_table_contains(old(self).spec_bindings(), name@)
                    && spec_table_added(*old(self), *final(self), name@)
                    && spec_is_function_binding(
                    final(self).spec_bindings().last().1,
                    R::spec_bfp_value_type(),
                    Seq::empty(),
                    Seq::empty(),
                    fn_ptr,
                ),
                Err(e) => spec_table_contains(old(self).spec_bindings(), name@) && *final(self)
                    == *old(self) && (e matches CommonError::BindingAlreadyExists {
                    name: n,
                } && n@ == name@),
            },
    {
        proof {
            assert(spec_mapped_args(0) =~= Seq::<FnSpecCallArg>::empty());
        }
        self.add_function_direct(name, R::to_bfp_value_type(), fn_ptr, Vec::new())
    }

    pub fn add_function_1<R: ToBFPValueType, P1: ToBFPValueType>(
        &mut self,
        name: String,
        fn_ptr: usize,
    ) -> (r: Result<(), CommonError>)
        requires
            old(self).wf(),
        ensures
            final(self).wf(),
            match r {
                Ok(()) => !spec_table_contains(old(self).spec_bindings(), name@)
                    && spec_table_added(*old(self), *final(self), name@)
                    && spec_is_function_binding(
                    final(self).spec_bindings().last().1,
                    R::spec_bfp_value_type(),
                    seq![P1::spec_bfp_value_type()],
                    spec_mapped_args(1),
                    fn_ptr,
                ),
                Err(e) => spec_table_contains(old(self).spec_bindings(), name@) && *final(self)
                    == *old(self) && (e matches CommonError::BindingAlreadyExists {
                    name: n,
                } && n@ == name@),
            },
    {
        let mut arg_types: Vec<ValueType> = Vec::new();
        arg_types.push(P1::to_bfp_value_type());
        proof {
            assert(arg_types@ =~= seq![P1::spec_bfp_value_type()]);
        }
        self.add_function_direct(name, R::to_bfp_value_type(), fn_ptr, arg_types)
    }

    pub fn add_function_2<R: ToBFPValueType, P1: ToBFPValueType, P2: ToBFPValueType>(
        &mut self,
        name: String,
        fn_ptr: usize,
    ) -> (r: Result<(), CommonError>)
        requires
            old(self).wf(),
        ensures
            final(self).wf(),
            match r {
                Ok(()) => !spec_table_contains(old(self).spec_bindings(), name@)
                    && spec_table_added(*old(self), *final(self), name@)
                    && spec_is_function_binding(
                    final(self).spec_bindings().last().1,
                    R::spec_bfp_value_type(),
                    seq![P1::spec_bfp_value_type(), P2::spec_bfp_value_type()],
                    spec_mapped_args(2),
                    fn_ptr,
                ),
                Err(e) => spec_table_contains(old(self).spec_bindings(), name@) && *final(self)
                    == *old(self) && (e matches CommonError::BindingAlreadyExists {
                    name: n,
                } && n@ == name@),
            },
    {
        let mut arg_types: Vec<ValueType> = Vec::new();
        arg_types.push(P1::to_bfp_value_type());
        arg_types.push(P2::to_bfp_value_type());
        proof {
            assert(arg_types@ =~= seq![P1::spec_bfp_value_type(), P2::spec_bfp_value_type()]);
        }
        self.add_function_direct(name, R::to_bfp_value_type(), fn_ptr, arg_types)
    }

    pub fn add_function_3<
        R: ToBFPValueType,
        P1: ToBFPValueType,
        P2: ToBFPValueType,
        P3: ToBFPValueType,
    >(&mut self, name: String, fn_ptr: usize) -> (r: Result<(), CommonError>)
        requires
            old(self).wf(),
        ensures
            final(self).wf(),
            match r {
                Ok(()) => !spec_table_contains(old(self).spec_bindings(), name@)
                    && spec_table_added(*old(self), *final(self), name@)
                    && spec_is_function_binding(
                    final(self).spec_bindings().last().1,
                    R::spec_bfp_value_type(),
                    seq![
                        P1::spec_bfp_value_type(),
                        P2::spec_bfp_value_type(),
                        P3::spec_bfp_value_type(),
                    ],
                    spec_mapped_args(3),
                    fn_ptr,
                ),
                Err(e) => spec_table_contains(old(self).spec_bindings(), name@) && *final(self)
                    == *old(self) && (e matches CommonError::BindingAlreadyExists {
                    name: n,
                } && n@ == name@),
            },
    {
        let mut arg_types: Vec<ValueType> = Vec::new();
        arg_types.push(P1::to_bfp_value_type());
        arg_types.push(P2::to_bfp_value_type());
        arg_types.push(P3::to_bfp_value_type());
        proof {
            assert(arg_types@ =~= seq![
                P1::spec_bfp_value_type(),
                P2::spec_bfp_value_type(),
                P3::spec_bfp_value_type(),
            ]);
        }
        self.add_function_direct(name, R::to_bfp_value_type(), fn_ptr, arg_types)
    }

    pub fn add_function_4<
        R: ToBFPValueType,
        P1: ToBFPValueType,
        P2: ToBFPValueType,
        P3: ToBFPValueType,
        P4: ToBFPValueType,
    >(&mut self, name: String, fn_ptr: usize) -> (r: Result<(), CommonError>)
        requires
            old(self).wf(),
        ensures
            final(self).wf(),
            match r {
                Ok(()) => !spec_table_contains(old(self).spec_bindings(), name@)
                    && spec_table_added(*old(self), *final(self), name@)
                    && spec_is_function_binding(
                    final(self).spec_bindings().last().1,
                    R::spec_bfp_value_type(),
                    seq![
                        P1::spec_bfp_value_type(),
                        P2::spec_bfp_value_type(),
                        P3::spec_bfp_value_type(),
                        P4::spec_bfp_value_type(),
                    ],
                    spec_mapped_args(4),
                    fn_ptr,
                ),
                Err(e) => spec_table_contains(old(self).spec_bindings(), name@) && *final(self)
                    == *old(self) && (e matches CommonError::BindingAlreadyExists {
                    name: n,
                } && n@ == name@),
            },
    {
        let mut arg_types: Vec<ValueType> = Vec::new();
        arg_types.push(P1::to_bfp_value_type());
        arg_types.push(P2::to_bfp_value_type());
        arg_types.push(P3::to_bfp_value_type());
        arg_types.push(P4::to_bfp_value_type());
        proof {
            assert(arg_types@ =~= seq![
                P1::spec_bfp_value_type(),
                P2::spec_bfp_value_type(),
                P3::spec_bfp_value_type(),
                P4::spec_bfp_value_type(),
            ]);
        }
        self.add_function_direct(name, R::to_bfp_value_type(), fn_ptr, arg_types)
    }

    pub fn add_function_5<
        R: ToBFPValueType,
        P1: ToBFPValueType,
        P2: ToBFPValueType,
        P3: ToBFPValueType,
        P4: ToBFPValueType,
        P5: ToBFPValueType,
    >(&mut self, name: String, fn_ptr: usize) -> (r: Result<(), CommonError>)
        requires
            old(self).wf(),
        ensures
            final(self).wf(),
            match r {
                Ok(()) => !spec_table_contains(old(self).spec_bindings(), name@)
                    && spec_table_added(*old(self), *final(self), name@)
                    && spec_is_function_binding(
                    final(self).spec_bindings().last().1,
                    R::spec_bfp_value_type(),
                    seq![
                        P1::spec_bfp_value_type(),
                        P2::spec_bfp_value_type(),
                        P3::spec_bfp_value_type(),
                        P4::spec_bfp_value_type(),
                        P5::spec_bfp_value_type(),
                    ],
                    spec_mapped_args(5),
                    fn_ptr,
                ),
                Err(e) => spec_table_contains(old(self).spec_bindings(), name@) && *final(self)
                    == *old(self) && (e matches CommonError::BindingAlreadyExists {
                    name: n,
                } && n@ == name@),
            },
    {
        let mut arg_types: Vec<ValueType> = Vec::new();
        arg_types.push(P1::to_bfp_value_type());
        arg_types.push(P2::to_bfp_value_type());
        arg_types.push(P3::to_bfp_value_type());
        arg_types.push(P4::to_bfp_value_type());
        arg_types.push(P5::to_bfp_value_type());
        proof {
            assert(arg_types@ =~= seq![
                P1::spec_bfp_value_type(),
                P2::spec_bfp_value_type(),
                P3::spec_bfp_value_type(),
                P4::spec_bfp_value_type(),
                P5::spec_bfp_value_type(),
            ]);
        }
        self.add_function_direct(name, R::to_bfp_value_type(), fn_ptr, arg_types)
    }

    /// Register a specialized function binding: each physical parameter is
    /// filled per `call_args`, and the mapped positions become the
    /// expression-level parameters `0 .. n`.
    fn add_function_map_common(
        &mut self,
        name: String,
        ret_type: ValueType,
        fn_ptr: usize,
        call_args: Vec<FnSpecCallArg>,
        arg_types: Vec<ValueType>,
    ) -> (r: Result<(), CommonError>)
        requires
            old(self).wf(),
            call_args@.len() == arg_types@.len(),
        ensures
            final(self).wf(),
            match r {
                Ok(()) => spec_map_params(call_args@, arg_types@) is Ok && !spec_table_contains(
                    old(self).spec_bindings(),
                    name@,
                ) && spec_table_added(*old(self), *final(self), name@) && spec_is_function_binding(
                    final(self).spec_bindings().last().1,
                    ret_type,
                    spec_map_params(call_args@, arg_types@)->Ok_0,
                    call_args@,
                    fn_ptr,
                ),
                Err(e) => *final(self) == *old(self) && (spec_map_params(call_args@, arg_types@)
                    == Err::<Seq<ValueType>, CommonError>(e) || (spec_map_params(
                    call_args@,
                    arg_types@,
                ) is Ok && spec_table_contains(old(self).spec_bindings(), name@) && (
                e matches CommonError::BindingAlreadyExists { name: n } && n@ == name@))),
            },
    {
        let ghost args_seq = call_args@;
        let ghost tys_seq = arg_types@;
        let n = call_args.len();
        let mut builder = BindingFunctionParamBuilder::new();
        let mut i: usize = 0;
        while i < n
            invariant
                i <= n,
                n == args_seq.len(),
                args_seq.len() == tys_seq.len(),
                call_args@ == args_seq,
                arg_types@ == tys_seq,
                *self == *old(self),
                old(self).wf(),
                builder.wf(),
                spec_pb_insert_from(Seq::empty(), args_seq, tys_seq, 0) == spec_pb_insert_from(
                    builder.spec_mapping(),
                    args_seq,
                    tys_seq,
                    i as int,
                ),
            decreases n - i,
        {
            let ghost before = builder.spec_mapping();
            match builder.maybe_add_spec_call_arg(&call_args[i], arg_types[i]) {
                Ok(()) => {
                    proof {
                        assert(spec_pb_insert_from(before, args_seq, tys_seq, i as int)
                            == spec_pb_insert_from(
                            builder.spec_mapping(),
                            args_seq,
                            tys_seq,
                            i as int + 1,
                        ));
                    }
                },
                Err(e) => {
                    proof {
                        assert(spec_pb_insert_from(before, args_seq, tys_seq, i as int)
                            == Err::<Seq<(usize, ValueType)>, CommonError>(e));
                    }
                    return Err(e);
                },
            }
            i = i + 1;
        }
        proof {
            assert(spec_pb_insert_from(builder.spec_mapping(), args_seq, tys_seq, n as int)
                == Ok::<_, CommonError>(builder.spec_mapping()));
        }
        let ghost pairs = builder.spec_mapping();
        let params = match builder.finish() {
            Ok(p) => p,
            Err(e) => {
                proof {
                    assert(spec_map_params(args_seq, tys_seq) == Err::<Seq<ValueType>, CommonError>(
                        e,
                    ));
                }
                return Err(e);
            },
        };
        let mut i: usize = 0;
        while i < n
            invariant
                i <= n,
                n == args_seq.len(),
                args_seq.len() == tys_seq.len(),
                call_args@ == args_seq,
                arg_types@ == tys_seq,
                *self == *old(self),
                old(self).wf(),
                spec_map_params(args_seq, tys_seq) == (match spec_guard_from(
                    args_seq,
                    tys_seq,
                    params@,
                    i as int,
                ) {
                    Ok(()) => Ok::<Seq<ValueType>, CommonError>(params@),
                    Err(e) => Err(e),
                }),
            decreases n - i,
        {
            match call_args[i].guard_with(&params, arg_types[i]) {
                Ok(()) => {
                    proof {
                        assert(spec_guard_from(args_seq, tys_seq, params@, i as int)
                            == spec_guard_from(args_seq, tys_seq, params@, i as int + 1));
                    }
                },
                Err(e) => {
                    proof {
                        assert(spec_guard_from(args_seq, tys_seq, params@, i as int) == Err::<
                            (),
                            CommonError,
                        >(e));
                    }
                    return Err(e);
                },
            }
            i = i + 1;
        }
        proof {
            assert(spec_guard_from(args_seq, tys_seq, params@, n as int) == Ok::<(), CommonError>(
                (),
            ));
            assert(spec_map_params(args_seq, tys_seq) == Ok::<_, CommonError>(params@));
        }
        self.add_binding(name, Binding::Function { ret_type, params, call_args, fn_ptr })
    }

    pub fn add_function_1_map<R: ToBFPValueType, P1: ToBFPValueType>(
        &mut self,
        name: String,
        fn_ptr: usize,
        p1: FnSpecCallArg,
    ) -> (r: Result<(), CommonError>)
        requires
            old(self).wf(),
        ensures
            final(self).wf(),
            match r {
                Ok(()) => spec_map_params(seq![p1], seq![P1::spec_bfp_value_type()]) is Ok
                    && !spec_table_contains(old(self).spec_bindings(), name@) && spec_table_added(
                    *old(self),
                    *final(self),
                    name@,
                ) && spec_is_function_binding(
                    final(self).spec_bindings().last().1,
                    R::spec_bfp_value_type(),
                    spec_map_params(seq![p1], seq![P1::spec_bfp_value_type()])->Ok_0,
                    seq![p1],
                    fn_ptr,
                ),
                Err(e) => *final(self) == *old(self) && (spec_map_params(
                    seq![p1],
                    seq![P1::spec_bfp_value_type()],
                ) == Err::<Seq<ValueType>, CommonError>(e) || (spec_map_params(
                    seq![p1],
                    seq![P1::spec_bfp_value_type()],
                ) is Ok && spec_table_contains(old(self).spec_bindings(), name@) && (
                e matches CommonError::BindingAlreadyExists { name: n } && n@ == name@))),
            },
    {
        let mut call_args: Vec<FnSpecCallArg> = Vec::new();
        call_args.push(p1);
        let mut arg_types: Vec<ValueType> = Vec::new();
        arg_types.push(P1::to_bfp_value_type());
        proof {
            assert(call_args@ =~= seq![p1]);
            assert(arg_types@ =~= seq![P1::spec_bfp_value_type()]);
        }
        self.add_function_map_common(name, R::to_bfp_value_type(), fn_ptr, call_args, arg_types)
    }

    pub fn add_function_2_map<R: ToBFPValueType, P1: ToBFPValueType, P2: ToBFPValueType>(
        &mut self,
        name: String,
        fn_ptr: usize,
        p1: FnSpecCallArg,
        p2: FnSpecCallArg,
    ) -> (r: Result<(), CommonError>)
        requires
            old(self).wf(),
        ensures
            final(self).wf(),
            match r {
                Ok(()) => spec_map_params(
                    seq![p1, p2],
                    seq![P1::spec_bfp_value_type(), P2::spec_bfp_value_type()],
                ) is Ok && !spec_table_contains(old(self).spec_bindings(), name@)
                    && spec_table_added(*old(self), *final(self), name@)
                    && spec_is_function_binding(
                    final(self).spec_bindings().last().1,
                    R::spec_bfp_value_type(),
                    spec_map_params(
                        seq![p1, p2],
                        seq![P1::spec_bfp_value_type(), P2::spec_bfp_value_type()],
                    )->Ok_0,
                    seq![p1, p2],
                    fn_ptr,
                ),
                Err(e) => *final(self) == *old(self) && (spec_map_params(
                    seq![p1, p2],
                    seq![P1::spec_bfp_value_type(), P2::spec_bfp_value_type()],
                ) == Err::<Seq<ValueType>, CommonError>(e) || (spec_map_params(
                    seq![p1, p2],
                    seq![P1::spec_bfp_value_type(), P2::spec_bfp_value_type()],
                ) is Ok && spec_table_contains(old(self).spec_bindings(), name@) && (
                e matches CommonError::BindingAlreadyExists { name: n } && n@ == name@))),
            },
    {
        let mut call_args: Vec<FnSpecCallArg> = Vec::new();
        call_args.push(p1);
        call_args.push(p2);
        let mut arg_types: Vec<ValueType> = Vec::new();
        arg_types.push(P1::to_bfp_value_type());
        arg_types.push(P2::to_bfp_value_type());
        proof {
            assert(call_args@ =~= seq![p1, p2]);
            assert(arg_types@ =~= seq![P1::spec_bfp_value_type(), P2::spec_bfp_value_type()]);
        }
        self.add_function_map_common(name, R::to_bfp_value_type(), fn_ptr, call_args, arg_types)
    }

    pub fn add_function_3_map<
        R: ToBFPValueType,
        P1: ToBFPValueType,
        P2: ToBFPValueType,
        P3: ToBFPValueType,
    >(
        &mut self,
        name: String,
        fn_ptr: usize,
        p1: FnSpecCallArg,
        p2: FnSpecCallArg,
        p3: FnSpecCallArg,
    ) -> (r: Result<(), CommonError>)
        requires
            old(self).wf(),
        ensures
            final(self).wf(),
            match r {
                Ok(()) => spec_map_params(
                    seq![p1, p2, p3],
                    seq![
                        P1::spec_bfp_value_type(),
                        P2::spec_bfp_value_type(),
                        P3::spec_bfp_value_type(),
                    ],
                ) is Ok && !spec_table_contains(old(self).spec_bindings(), name@)
                    && spec_table_added(*old(self), *final(self), name@)
                    && spec_is_function_binding(
                    final(self).spec_bindings().last().1,
                    R::spec_bfp_value_type(),
                    spec_map_params(
                        seq![p1, p2, p3],
                        seq![
                            P1::spec_bfp_value_type(),
                            P2::spec_bfp_value_type(),
                            P3::spec_bfp_value_type(),
                        ],
                    )->Ok_0,
                    seq![p1, p2, p3],
                    fn_ptr,
                ),
                Err(e) => *final(self) == *old(self) && (spec_map_params(
                    seq![p1, p2, p3],
                    seq![
                        P1::spec_bfp_value_type(),
                        P2::spec_bfp_value_type(),
                        P3::spec_bfp_value_type(),
                    ],
                ) == Err::<Seq<ValueType>, CommonError>(e) || (spec_map_params(
                    seq![p1, p2, p3],
                    seq![
                        P1::spec_bfp_value_type(),
                        P2::spec_bfp_value_type(),
                        P3::spec_bfp_value_type(),
                    ],
                ) is Ok && spec_table_contains(old(self).spec_bindings(), name@) && (
                e matches CommonError::BindingAlreadyExists { name: n } && n@ == name@))),
            },
    {
        let mut call_args: Vec<FnSpecCallArg> = Vec::new();
        call_args.push(p1);
        call_args.push(p2);
        call_args.push(p3);
        let mut arg_types: Vec<ValueType> = Vec::new();
        arg_types.push(P1::to_bfp_value_type());
        arg_types.push(P2::to_bfp_value_type());
        arg_types.push(P3::to_bfp_value_type());
        proof {
            assert(call_args@ =~= seq![p1, p2, p3]);
            assert(arg_types@ =~= seq![
                P1::spec_bfp_value_type(),
                P2::spec_bfp_value_type(),
                P3::spec_bfp_value_type(),
            ]);
        }
        self.add_function_map_common(name, R::to_bfp_value_type(), fn_ptr, call_args, arg_types)
    }

    pub fn add_function_4_map<
        R: ToBFPValueType,
        P1: ToBFPValueType,
        P2: ToBFPValueType,
        P3: ToBFPValueType,
        P4: ToBFPValueType,
    >(
        &mut self,
        name: String,
        fn_ptr: usize,
        p1: FnSpecCallArg,
        p2: FnSpecCallArg,
        p3: FnSpecCallArg,
        p4: FnSpecCallArg,
    ) -> (r: Result<(), CommonError>)
        requires
            old(self).wf(),
        ensures
            final(self).wf(),
            match r {
                Ok(()) => spec_map_params(
                    seq![p1, p2, p3, p4],
                    seq![
                        P1::spec_bfp_value_type(),
                        P2::spec_bfp_value_type(),
                        P3::spec_bfp_value_type(),
                        P4::spec_bfp_value_type(),
                    ],
                ) is Ok && !spec_table_contains(old(self).spec_bindings(), name@)
                    && spec_table_added(*old(self), *final(self), name@)
                    && spec_is_function_binding(
                    final(self).spec_bindings().last().1,
                    R::spec_bfp_value_type(),
                    spec_map_params(
                        seq![p1, p2, p3, p4],
                        seq![
                            P1::spec_bfp_value_type(),
                            P2::spec_bfp_value_type(),
                            P3::spec_bfp_value_type(),
                            P4::spec_bfp_value_type(),
                        ],
                    )->Ok_0,
                    seq![p1, p2, p3, p4],
                    fn_ptr,
                ),
                Err(e) => *final(self) == *old(self) && (spec_map_params(
                    seq![p1, p2, p3, p4],
                    seq![
                        P1::spec_bfp_value_type(),
                        P2::spec_bfp_value_type(),
                        P3::spec_bfp_value_type(),
                        P4::spec_bfp_value_type(),
                    ],
                ) == Err::<Seq<ValueType>, CommonError>(e) || (spec_map_params(
                    seq![p1, p2, p3, p4],
                    seq![
                        P1::spec_bfp_value_type(),
                        P2::spec_bfp_value_type(),
                        P3::spec_bfp_value_type(),
                        P4::spec_bfp_value_type(),
                    ],
                ) is Ok && spec_table_contains(old(self).spec_bindings(), name@) && (
                e matches CommonError::BindingAlreadyExists { name: n } && n@ == name@))),
            },
    {
        let mut call_args: Vec<FnSpecCallArg> = Vec::new();
        call_args.push(p1);
        call_args.push(p2);
        call_args.push(p3);
        call_args.push(p4);
        let mut arg_types: Vec<ValueType> = Vec::new();
        arg_types.push(P1::to_bfp_value_type());
        arg_types.push(P2::to_bfp_value_type());
        arg_types.push(P3::to_bfp_value_type());
        arg_types.push(P4::to_bfp_value_type());
        proof {
            assert(call_args@ =~= seq![p1, p2, p3, p4]);
            assert(arg_types@ =~= seq![
                P1::spec_bfp_value_type(),
                P2::spec_bfp_value_type(),
                P3::spec_bfp_value_type(),
                P4::spec_bfp_value_type(),
            ]);
        }
        self.add_function_map_common(name, R::to_bfp_value_type(), fn_ptr, call_args, arg_types)
    }

    pub fn add_function_5_map<
        R: ToBFPValueType,
        P1: ToBFPValueType,
        P2: ToBFPValueType,
        P3: ToBFPValueType,
        P4: ToBFPValueType,
        P5: ToBFPValueType,
    >(
        &mut self,
        name: String,
        fn_ptr: usize,
        p1: FnSpecCallArg,
        p2: FnSpecCallArg,
        p3: FnSpecCallArg,
        p4: FnSpecCallArg,
        p5: FnSpecCallArg,
    ) -> (r: Result<(), CommonError>)
        requires
            old(self).wf(),
        ensures
            final(self).wf(),
            match r {
                Ok(()) => spec_map_params(
                    seq![p1, p2, p3, p4, p5],
                    seq![
                        P1::spec_bfp_value_type(),
                        P2::spec_bfp_value_type(),
                        P3::spec_bfp_value_type(),
                        P4::spec_bfp_value_type(),
                        P5::spec_bfp_value_type(),
                    ],
                ) is Ok && !spec_table_contains(old(self).spec_bindings(), name@)
                    && spec_table_added(*old(self), *final(self), name@)
                    && spec_is_function_binding(
                    final(self).spec_bindings().last().1,
                    R::spec_bfp_value_type(),
                    spec_map_params(
                        seq![p1, p2, p3, p4, p5],
                        seq![
                            P1::spec_bfp_value_type(),
                            P2::spec_bfp_value_type(),
                            P3::spec_bfp_value_type(),
                            P4::spec_bfp_value_type(),
                            P5::spec_bfp_value_type(),
                        ],
                    )->Ok_0,
                    seq![p1, p2, p3, p4, p5],
                    fn_ptr,
                ),
                Err(e) => *final(self) == *old(self) && (spec_map_params(
                    seq![p1, p2, p3, p4, p5],
                    seq![
                        P1::spec_bfp_value_type(),
                        P2::spec_bfp_value_type(),
                        P3::spec_bfp_value_type(),
                        P4::spec_bfp_value_type(),
                        P5::spec_bfp_value_type(),
                    ],
                ) == Err::<Seq<ValueType>, CommonError>(e) || (spec_map_params(
                    seq![p1, p2, p3, p4, p5],
                    seq![
                        P1::spec_bfp_value_type(),
                        P2::spec_bfp_value_type(),
                        P3::spec_bfp_value_type(),
                        P4::spec_bfp_value_type(),
                        P5::spec_bfp_value_type(),
                    ],
                ) is Ok && spec_table_contains(old(self).spec_bindings(), name@) && (
                e matches CommonError::BindingAlreadyExists { name: n } && n@ == name@))),
            },
    {
        let mut call_args: Vec<FnSpecCallArg> = Vec::new();
        call_args.push(p1);
        call_args.push(p2);
        call_args.push(p3);
        call_args.push(p4);
        call_args.push(p5);
        let mut arg_types: Vec<ValueType> = Vec::new();
        arg_types.push(P1::to_bfp_value_type());
        arg_types.push(P2::to_bfp_value_type());
        arg_types.push(P3::to_bfp_value_type());
        arg_types.push(P4::to_bfp_value_type());
        arg_types.push(P5::to_bfp_value_type());
        proof {
            assert(call_args@ =~= seq![p1, p2, p3, p4, p5]);
            assert(arg_types@ =~= seq![
                P1::spec_bfp_value_type(),
                P2::spec_bfp_value_type(),
                P3::spec_bfp_value_type(),
                P4::spec_bfp_value_type(),
                P5::spec_bfp_value_type(),
            ]);
        }
        self.add_function_map_common(name, R::to_bfp_value_type(), fn_ptr, call_args, arg_types)
    }
}

} // verus!
