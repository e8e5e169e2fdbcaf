//! The flat runtime storage region compiled code reads: one pointer-sized
//! slot per hidden state and per variable binding, in a fixed, deterministic
//! layout derived from the table.

use vstd::prelude::*;
use crate::binding::Binding;
use crate::errors::CommonError;
use crate::table::Table;
use crate::value::Value;
use crate::value_type::ValueType;

verus! {

/// What a name resolves to inside the slab.
#[derive(Debug)]
pub enum SlabBindingInfo {
    Variable { idx: usize, value_type: ValueType },
    Function { idx: usize, ret_type: ValueType, arg_types: Vec<ValueType> },
}

/// The variable bindings of a table, in insertion order, with their types.
pub open spec fn spec_vars(bs: Seq<(String, Binding)>) -> Seq<(String, ValueType)>
    decreases bs.len(),
{
    if bs.len() == 0 {
        Seq::empty()
    } else {
        let rest = spec_vars(bs.drop_last());
        match bs.last().1 {
            Binding::Variable { value_type } => rest.push((bs.last().0, value_type)),
            _ => rest,
        }
    }
}

/// The slab's name map is exactly: the k-th variable binding of the table
/// (in insertion order) lives in slot `hidden_count + k` at its declared type.
pub open spec fn spec_slab_map_ok(
    bm: Seq<(String, SlabBindingInfo)>,
    bs: Seq<(String, Binding)>,
    hidden_count: nat,
) -> bool {
    &&& bm.len() == spec_vars(bs).len()
    &&& forall|k: int|
        0 <= k < bm.len() ==> bm[k].0@ == spec_vars(bs)[k].0@ && bm[k].1 == (
        SlabBindingInfo::Variable {
            idx: (hidden_count + k) as usize,
            value_type: spec_vars(bs)[k].1,
        })
}

/// Slot layout is deterministic: any two name maps derived from tables with
/// the same bindings and the same hidden-state count assign every variable
/// the same slot index and type.
pub proof fn lemma_slab_layout_deterministic(
    m1: Seq<(String, SlabBindingInfo)>,
    m2: Seq<(String, SlabBindingInfo)>,
    bs: Seq<(String, Binding)>,
    hidden_count: nat,
)
    requires
        spec_slab_map_ok(m1, bs, hidden_count),
        spec_slab_map_ok(m2, bs, hidden_count),
    ensures
        m1.len() == m2.len(),
        forall|k: int| 0 <= k < m1.len() ==> m1[k].0@ == m2[k].0@ && m1[k].1 == m2[k].1,
{
}

/// The slab info registered under `name`, if any.
pub open spec fn spec_slab_lookup(
    bm: Seq<(String, SlabBindingInfo)>,
    name: Seq<char>,
) -> Option<SlabBindingInfo>
    decreases bm.len(),
{
    if bm.len() == 0 {
        None
    } else if bm.last().0@ == name {
        Some(bm.last().1)
    } else {
        spec_slab_lookup(bm.drop_last(), name)
    }
}

pub open spec fn spec_slab_map_wf(bm: Seq<(String, SlabBindingInfo)>) -> bool {
    forall|i: int, j: int| 0 <= i < j < bm.len() ==> bm[i].0@ != bm[j].0@
}

proof fn lemma_slab_lookup_at(bm: Seq<(String, SlabBindingInfo)>, i: int)
    requires
        spec_slab_map_wf(bm),
        0 <= i < bm.len(),
    ensures
        spec_slab_lookup(bm, bm[i].0@) == Some(bm[i].1),
    decreases bm.len(),
{
    if i == bm.len() - 1 {
    } else {
        assert(bm.drop_last()[i] == bm[i]);
        lemma_slab_lookup_at(bm.drop_last(), i);
    }
}

proof fn lemma_slab_lookup_absent(bm: Seq<(String, SlabBindingInfo)>, name: Seq<char>)
    requires
        forall|i: int| 0 <= i < bm.len() ==> bm[i].0@ != name,
    ensures
        spec_slab_lookup(bm, name) is None,
    decreases bm.len(),
{
    if bm.len() > 0 {
        assert(forall|i: int| 0 <= i < bm.drop_last().len() ==> bm.drop_last()[i].0@ != name);
        lemma_slab_lookup_absent(bm.drop_last(), name);
    }
}

/// How many of a slot's bits a value of this type occupies.
pub open spec fn spec_width_bits(t: ValueType) -> nat {
    match t {
        ValueType::U8 | ValueType::I8 | ValueType::Bool => 8,
        ValueType::U16 | ValueType::I16 => 16,
        ValueType::U32 | ValueType::I32 | ValueType::F32 => 32,
        ValueType::U64 | ValueType::I64 | ValueType::F64 => 64,
        ValueType::USize => usize::BITS as nat,
    }
}

/// The unsigned bit pattern a value is stored as.
pub open spec fn spec_value_bits(v: Value) -> nat {
    match v {
        Value::U8 { inner } => inner as nat,
        Value::U16 { inner } => inner as nat,
        Value::U32 { inner } => inner as nat,
        Value::U64 { inner } => inner as nat,
        Value::USize { inner } => inner as nat,
        Value::I8 { inner } => inner as u8 as nat,
        Value::I16 { inner } => inner as u16 as nat,
        Value::I32 { inner } => inner as u32 as nat,
        Value::I64 { inner } => inner as u64 as nat,
        Value::F32 { bits } => bits as nat,
        Value::F64 { bits } => bits as nat,
        Value::Bool { inner } => if inner {
            1
        } else {
            0
        },
    }
}

/// The value of type `t` read back from a slot's bit pattern: the low bits at
/// the type's width. A Bool reads as true iff its byte is non-zero.
pub open spec fn spec_decode_value(t: ValueType, slot: u64) -> Value {
    match t {
        ValueType::U8 => Value::U8 { inner: (slot % 0x100) as u8 },
        ValueType::I8 => Value::I8 { inner: (slot % 0x100) as u8 as i8 },
        ValueType::U16 => Value::U16 { inner: (slot % 0x10000) as u16 },
        ValueType::I16 => Value::I16 { inner: (slot % 0x10000) as u16 as i16 },
        ValueType::U32 => Value::U32 { inner: (slot % 0x1_0000_0000) as u32 },
        ValueType::I32 => Value::I32 { inner: (slot % 0x1_0000_0000) as u32 as i32 },
        ValueType::F32 => Value::F32 { bits: (slot % 0x1_0000_0000) as u32 },
        ValueType::U64 => Value::U64 { inner: slot },
        ValueType::I64 => Value::I64 { inner: slot as i64 },
        ValueType::F64 => Value::F64 { bits: slot },
        ValueType::USize => Value::USize { inner: slot as usize },
        ValueType::Bool => Value::Bool { inner: slot % 0x100 != 0 },
    }
}


/// The slot index an info record points at.
pub open spec fn spec_info_idx(info: SlabBindingInfo) -> usize {
    match info {
        SlabBindingInfo::Variable { idx, .. } => idx,
        SlabBindingInfo::Function { idx, .. } => idx,
    }
}

/// A successful lookup returns one of the map's own entries.
pub proof fn lemma_slab_lookup_member(bm: Seq<(String, SlabBindingInfo)>, name: Seq<char>)
    requires
        spec_slab_lookup(bm, name) is Some,
    ensures
        exists|k: int|
            0 <= k < bm.len() && #[trigger] bm[k].1 == spec_slab_lookup(bm, name)->Some_0,
    decreases bm.len(),
{
    if bm.len() > 0 {
        if bm.last().0@ == name {
            assert(bm[bm.len() - 1].1 == spec_slab_lookup(bm, name)->Some_0);
        } else {
            lemma_slab_lookup_member(bm.drop_last(), name);
            let k = choose|k: int|
                0 <= k < bm.drop_last().len() && #[trigger] bm.drop_last()[k].1
                    == spec_slab_lookup(bm.drop_last(), name)->Some_0;
            assert(bm[k].1 == spec_slab_lookup(bm, name)->Some_0);
        }
    }
}

/// Runtime storage for one compiled expression: pointer-sized slots, the
/// hidden states first, then one slot per variable binding. Slot addresses
/// are baked into generated code, so a slab must not move or be dropped while
/// the code that was compiled against it can still run.
#[derive(Debug)]
pub struct Slab {
    data: Vec<usize>,
    hidden_state_count: usize,
    binding_map: Vec<(String, SlabBindingInfo)>,
    hidden_state_types: Vec<ValueType>,
}

impl Slab {
    pub closed spec fn spec_data(&self) -> Seq<usize> {
        self.data@
    }

    pub closed spec fn spec_hidden_count(&self) -> nat {
        self.hidden_state_count as nat
    }

    pub closed spec fn spec_binding_map(&self) -> Seq<(String, SlabBindingInfo)> {
        self.binding_map@
    }

    pub closed spec fn spec_hidden_types(&self) -> Seq<ValueType> {
        self.hidden_state_types@
    }

    pub open spec fn wf(&self) -> bool {
        &&& spec_slab_map_wf(self.spec_binding_map())
        &&& self.spec_hidden_count() <= self.spec_data().len()
        &&& forall|k: int|
            0 <= k < self.spec_binding_map().len() ==> spec_info_idx(
                #[trigger] self.spec_binding_map()[k].1,
            ) < self.spec_data().len()
    }

    /// Derive the slot layout from a table: slots `0 .. H` are the hidden
    /// states, then one slot per variable binding in insertion order. All
    /// slots start zeroed; the host must write them before evaluation.
    pub fn from_table(table: &Table) -> (r: Result<Slab, CommonError>)
        requires
            table.wf(),
            table.spec_hidden_states().len() + table.spec_bindings().len() <= usize::MAX,
        ensures
            match r {
                Ok(slab) => {
                    &&& slab.wf()
                    &&& slab.spec_hidden_count() == table.spec_hidden_states().len()
                    &&& slab.spec_hidden_types() == table.spec_hidden_states()
                    &&& spec_slab_map_ok(
                        slab.spec_binding_map(),
                        table.spec_bindings(),
                        slab.spec_hidden_count(),
                    )
                    &&& slab.spec_data().len() == slab.spec_hidden_count() + spec_vars(
                        table.spec_bindings(),
                    ).len()
                    &&& forall|k: int| 0 <= k < slab.spec_data().len() ==> slab.spec_data()[k] == 0
                },
                Err(_) => false,
            },
    {
        let bindings = table.iter_bindings();
        let hidden_state_count = table.get_hidden_state_count();
        let mut binding_map: Vec<(String, SlabBindingInfo)> = Vec::new();
        let mut idx: usize = hidden_state_count;
        let mut i: usize = 0;
        proof {
            assert(spec_vars(table.spec_bindings().subrange(0, 0)) =~= Seq::empty());
        }
        while i < bindings.len()
            invariant
                i <= bindings@.len(),
                bindings@ == table.spec_bindings(),
                table.wf(),
                table.spec_hidden_states().len() + table.spec_bindings().len() <= usize::MAX,
                hidden_state_count as int == table.spec_hidden_states().len(),
                binding_map@.len() == spec_vars(bindings@.subrange(0, i as int)).len(),
                idx as int == hidden_state_count + binding_map@.len(),
                binding_map@.len() <= i,
                forall|k: int|
                    0 <= k < binding_map@.len() ==> binding_map@[k].0@ == spec_vars(
                        bindings@.subrange(0, i as int),
                    )[k].0@ && binding_map@[k].1 == (SlabBindingInfo::Variable {
                        idx: (hidden_state_count + k) as usize,
                        value_type: spec_vars(bindings@.subrange(0, i as int))[k].1,
                    }),
            decreases bindings@.len() - i,
        {
            proof {
                assert(bindings@.subrange(0, i + 1).drop_last() =~= bindings@.subrange(
                    0,
                    i as int,
                ));
                assert(bindings@.subrange(0, i + 1).last() == bindings@[i as int]);
            }
            match &bindings[i].1 {
                Binding::Variable { value_type } => {
                    let name = bindings[i].0.clone();
                    binding_map.push(
                        (name, SlabBindingInfo::Variable { idx, value_type: *value_type }),
                    );
                    idx = idx + 1;
                },
                _ => {},
            }
            i = i + 1;
        }
        proof {
            assert(bindings@.subrange(0, bindings@.len() as int) =~= bindings@);
            lemma_spec_vars_unique(table.spec_bindings());
        }
        let mut hidden_state_types: Vec<ValueType> = Vec::new();
        let mut k: usize = 0;
        while k < hidden_state_count
            invariant
                k <= hidden_state_count,
                hidden_state_count as int == table.spec_hidden_states().len(),
                hidden_state_types@ == table.spec_hidden_states().subrange(0, k as int),
            decreases hidden_state_count - k,
        {
            match table.get_hidden_state(k) {
                Some(t) => {
                    hidden_state_types.push(t);
                    proof {
                        assert(hidden_state_types@ =~= table.spec_hidden_states().subrange(
                            0,
                            k + 1,
                        ));
                    }
                },
                None => {
                    proof {
                        assert(false);
                    }
                },
            }
            k = k + 1;
        }
        proof {
            assert(table.spec_hidden_states().subrange(
                0,
                table.spec_hidden_states().len() as int,
            ) =~= table.spec_hidden_states());
        }
        let mut data: Vec<usize> = Vec::new();
        let mut d: usize = 0;
        while d < idx
            invariant
                d <= idx,
                data@.len() == d as int,
                forall|j: int| 0 <= j < d ==> data@[j] == 0,
            decreases idx - d,
        {
            data.push(0);
            d = d + 1;
        }
        Ok(Slab { data, hidden_state_count, binding_map, hidden_state_types })
    }

    /// The slab info registered under `name`, if any.
    pub fn get_binding_info(&self, name: &String) -> (r: Option<&SlabBindingInfo>)
        requires
            self.wf(),
        ensures
            match r {
                Some(info) => spec_slab_lookup(self.spec_binding_map(), name@) == Some(*info),
                None => spec_slab_lookup(self.spec_binding_map(), name@) is None,
            },
    {
        let mut i: usize = 0;
        while i < self.binding_map.len()
            invariant
                self.wf(),
                i <= self.binding_map@.len(),
                forall|j: int| 0 <= j < i ==> self.binding_map@[j].0@ != name@,
            decreases self.binding_map@.len() - i,
        {
            if self.binding_map[i].0.eq(name) {
                proof {
                    lemma_slab_lookup_at(self.binding_map@, i as int);
                }
                return Some(&self.binding_map[i].1);
            }
            i = i + 1;
        }
        proof {
            lemma_slab_lookup_absent(self.binding_map@, name@);
        }
        None
    }

    /// The slot index registered under `name`, if any.
    pub fn get_binding_index(&self, name: &String) -> (r: Option<usize>)
        requires
            self.wf(),
        ensures
            match r {
                Some(idx) => match spec_slab_lookup(self.spec_binding_map(), name@) {
                    Some(info) => match info {
                        SlabBindingInfo::Variable { idx: i, .. } => idx == i,
                        SlabBindingInfo::Function { idx: i, .. } => idx == i,
                    },
                    None => false,
                },
                None => spec_slab_lookup(self.spec_binding_map(), name@) is None,
            },
    {
        match self.get_binding_info(name) {
            Some(info) => Some(
                match info {
                    SlabBindingInfo::Variable { idx, .. } => *idx,
                    SlabBindingInfo::Function { idx, .. } => *idx,
                },
            ),
            None => None,
        }
    }

    pub fn get_hidden_state_count(&self) -> (r: usize)
        ensures
            r as nat == self.spec_hidden_count(),
    {
        self.hidden_state_count
    }

    pub fn get_hidden_state_type(&self, idx: usize) -> (r: Option<ValueType>)
        ensures
            match r {
                Some(t) => idx < self.spec_hidden_types().len() && t == self.spec_hidden_types()[
                    idx as int
                ],
                None => idx >= self.spec_hidden_types().len(),
            },
    {
        if idx < self.hidden_state_types.len() {
            Some(self.hidden_state_types[idx])
        } else {
            None
        }
    }

    pub fn slot_count(&self) -> (r: usize)
        ensures
            r as int == self.spec_data().len(),
    {
        self.data.len()
    }

    /// Relies on core::ptr::from_ref: the numeric address of slot `idx`.
    /// Generated code bakes this address in, so it is stable exactly as long
    /// as the slab is neither moved nor dropped.
    #[verifier::external_body]
    pub fn get_address(&self, idx: usize) -> usize
        requires
            idx < self.spec_data().len(),
    {
        core::ptr::from_ref(&self.data[idx]).addr()
    }

    /// Store a raw pointer-sized bit pattern into slot `idx`. This is how a
    /// host writes a pointer (its address) for a hidden-state slot.
    pub fn set_raw(&mut self, idx: usize, bits: usize)
        requires
            idx < old(self).spec_data().len(),
        ensures
            final(self).spec_data() == old(self).spec_data().update(idx as int, bits),
            final(self).spec_hidden_count() == old(self).spec_hidden_count(),
            final(self).spec_binding_map() == old(self).spec_binding_map(),
            final(self).spec_hidden_types() == old(self).spec_hidden_types(),
            final(self).wf() == old(self).wf(),
    {
        self.data.set(idx, bits);
    }

    /// Read slot `idx` back as a raw bit pattern.
    pub fn get_raw(&self, idx: usize) -> (r: usize)
        requires
            idx < self.spec_data().len(),
        ensures
            r == self.spec_data()[idx as int],
    {
        self.data[idx]
    }

    /// Store `value` into slot `idx` as its unsigned bit pattern. The value
    /// must fit a pointer-sized slot.
    pub fn set_value(&mut self, idx: usize, value: Value)
        requires
            idx < old(self).spec_data().len(),
            spec_width_bits(crate::value::spec_value_type(value)) <= usize::BITS,
        ensures
            final(self).spec_data() == old(self).spec_data().update(
                idx as int,
                spec_value_bits(value) as usize,
            ),
            final(self).spec_data()[idx as int] as nat == spec_value_bits(value),
            final(self).spec_hidden_count() == old(self).spec_hidden_count(),
            final(self).spec_binding_map() == old(self).spec_binding_map(),
            final(self).spec_hidden_types() == old(self).spec_hidden_types(),
            final(self).wf() == old(self).wf(),
    {
        let bits: usize = match value {
            Value::U8 { inner } => inner as usize,
            Value::U16 { inner } => inner as usize,
            Value::U32 { inner } => inner as usize,
            Value::U64 { inner } => inner as usize,
            Value::USize { inner } => inner,
            Value::I8 { inner } => inner as u8 as usize,
            Value::I16 { inner } => inner as u16 as usize,
            Value::I32 { inner } => inner as u32 as usize,
            Value::I64 { inner } => inner as u64 as usize,
            Value::F32 { bits } => bits as usize,
            Value::F64 { bits } => bits as usize,
            Value::Bool { inner } => if inner {
                1
            } else {
                0
            },
        };
        self.data.set(idx, bits);
    }

    /// Read slot `idx` back as a value of type `value_type`: the slot's low
    /// bits at that type's width.
    pub fn get_value(&self, idx: usize, value_type: ValueType) -> (r: Value)
        requires
            idx < self.spec_data().len(),
            spec_width_bits(value_type) <= usize::BITS,
        ensures
            r == spec_decode_value(value_type, self.spec_data()[idx as int] as u64),
    {
        let slot: u64 = self.data[idx] as u64;
        match value_type {
            ValueType::U8 => Value::U8 { inner: (slot % 0x100) as u8 },
            ValueType::I8 => Value::I8 { inner: (slot % 0x100) as u8 as i8 },
            ValueType::U16 => Value::U16 { inner: (slot % 0x10000) as u16 },
            ValueType::I16 => Value::I16 { inner: (slot % 0x10000) as u16 as i16 },
            ValueType::U32 => Value::U32 { inner: (slot % 0x1_0000_0000) as u32 },
            ValueType::I32 => Value::I32 { inner: (slot % 0x1_0000_0000) as u32 as i32 },
            ValueType::F32 => Value::F32 { bits: (slot % 0x1_0000_0000) as u32 },
            ValueType::U64 => Value::U64 { inner: slot },
            ValueType::I64 => Value::I64 { inner: slot as i64 },
            ValueType::F64 => Value::F64 { bits: slot },
            ValueType::USize => Value::USize { inner: slot as usize },
            ValueType::Bool => Value::Bool { inner: slot % 0x100 != 0 },
        }
    }
}

/// The variable list inherits name uniqueness from the table.
proof fn lemma_spec_vars_unique(bs: Seq<(String, Binding)>)
    requires
        crate::table::spec_table_wf(bs),
    ensures
        forall|i: int, j: int|
            0 <= i < j < spec_vars(bs).len() ==> spec_vars(bs)[i].0@ != spec_vars(bs)[j].0@,
    decreases bs.len(),
{
    if bs.len() > 0 {
        let rest = bs.drop_last();
        assert(forall|i: int, j: int|
            0 <= i < j < rest.len() ==> rest[i].0@ != rest[j].0@) by {
            assert(forall|i: int| 0 <= i < rest.len() ==> rest[i] == bs[i]);
        }
        lemma_spec_vars_unique(rest);
        lemma_spec_vars_names(rest);
        assert(forall|i: int| 0 <= i < rest.len() ==> rest[i] == bs[i]);
        let vars = spec_vars(bs);
        let rvars = spec_vars(rest);
        assert forall|i: int, j: int|
            0 <= i < j < vars.len() implies vars[i].0@ != vars[j].0@ by {
            if j < rvars.len() {
                assert(vars[i] == rvars[i] && vars[j] == rvars[j]);
            } else {
                assert(vars[i] == rvars[i]);
                assert(vars[j].0@ == bs[bs.len() - 1].0@);
                let w = choose|w: int| 0 <= w < rest.len() && rest[w].0@ == rvars[i].0@;
                assert(bs[w].0@ != bs[bs.len() - 1].0@);
            }
        }
    }
}

/// Every name in the variable list occurs among the bindings.
proof fn lemma_spec_vars_names(bs: Seq<(String, Binding)>)
    ensures
        forall|k: int|
            0 <= k < spec_vars(bs).len() ==> exists|i: int|
                0 <= i < bs.len() && bs[i].0@ == #[trigger] spec_vars(bs)[k].0@,
    decreases bs.len(),
{
    if bs.len() > 0 {
        let rest = bs.drop_last();
        lemma_spec_vars_names(rest);
        assert forall|k: int| 0 <= k < spec_vars(bs).len() implies exists|i: int|
            0 <= i < bs.len() && bs[i].0@ == #[trigger] spec_vars(bs)[k].0@ by {
            if k < spec_vars(rest).len() {
                assert(spec_vars(bs)[k] == spec_vars(rest)[k]);
                let i = choose|i: int|
                    0 <= i < rest.len() && rest[i].0@ == spec_vars(rest)[k].0@;
                assert(bs[i].0@ == spec_vars(bs)[k].0@);
            } else {
                assert(bs[bs.len() - 1].0@ == spec_vars(bs)[k].0@);
            }
        }
    }
}

} // verus!
