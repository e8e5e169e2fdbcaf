//! The SSA-style instruction stream the code generator emits. A JIT backend
//! translates each instruction one-for-one into native IR: virtual registers
//! become values, blocks become basic blocks, and the baked `addr`/`fn_addr`
//! integers become pointer constants.

use vstd::prelude::*;
use crate::value_type::ValueType;

verus! {

/// Integer comparison predicates (unsigned and signed orderings).
#[derive(PartialEq, Eq, Structural, Clone, Copy, Debug)]
pub enum IntPredicate {
    Eq,
    Ne,
    Ult,
    Ule,
    Ugt,
    Uge,
    Slt,
    Sle,
    Sgt,
    Sge,
}

/// Float comparison predicates: the `O*` forms are ordered (false when
/// either operand is NaN); the `U*` forms are unordered (true when either
/// operand is NaN).
#[derive(PartialEq, Eq, Structural, Clone, Copy, Debug)]
pub enum FloatPredicate {
    Oeq,
    One,
    Olt,
    Ole,
    Ogt,
    Oge,
    Ueq,
    Une,
}

#[derive(PartialEq, Eq, Structural, Clone, Copy, Debug)]
pub enum IntBinOp {
    Add,
    Sub,
    Mul,
    DivSigned,
    DivUnsigned,
    RemSigned,
    RemUnsigned,
}

#[derive(PartialEq, Eq, Structural, Clone, Copy, Debug)]
pub enum FloatBinOp {
    Add,
    Sub,
    Mul,
    Div,
    Rem,
}

/// The IR-level shape of a scalar type: an integer of some bit width with a
/// signedness used to pick operation variants, or a float. Bool is a 1-bit
/// integer; USize is pointer width.
#[derive(PartialEq, Eq, Structural, Clone, Copy, Debug)]
pub enum IRValueType {
    Int { width: u32, is_signed: bool },
    Float { width: u32 },
}

pub open spec fn spec_ir_value_type(t: ValueType) -> IRValueType {
    match t {
        ValueType::U8 => IRValueType::Int { width: 8, is_signed: false },
        ValueType::U16 => IRValueType::Int { width: 16, is_signed: false },
        ValueType::U32 => IRValueType::Int { width: 32, is_signed: false },
        ValueType::U64 => IRValueType::Int { width: 64, is_signed: false },
        ValueType::USize => IRValueType::Int { width: usize::BITS, is_signed: false },
        ValueType::I8 => IRValueType::Int { width: 8, is_signed: true },
        ValueType::I16 => IRValueType::Int { width: 16, is_signed: true },
        ValueType::I32 => IRValueType::Int { width: 32, is_signed: true },
        ValueType::I64 => IRValueType::Int { width: 64, is_signed: true },
        ValueType::F32 => IRValueType::Float { width: 32 },
        ValueType::F64 => IRValueType::Float { width: 64 },
        ValueType::Bool => IRValueType::Int { width: 1, is_signed: false },
    }
}

impl IRValueType {
    pub fn from_value_type(value_type: &ValueType) -> (r: IRValueType)
        ensures
            r == spec_ir_value_type(*value_type),
    {
        match value_type {
            ValueType::U8 => IRValueType::Int { width: 8, is_signed: false },
            ValueType::U16 => IRValueType::Int { width: 16, is_signed: false },
            ValueType::U32 => IRValueType::Int { width: 32, is_signed: false },
            ValueType::U64 => IRValueType::Int { width: 64, is_signed: false },
            ValueType::USize => IRValueType::Int { width: usize::BITS, is_signed: false },
            ValueType::I8 => IRValueType::Int { width: 8, is_signed: true },
            ValueType::I16 => IRValueType::Int { width: 16, is_signed: true },
            ValueType::I32 => IRValueType::Int { width: 32, is_signed: true },
            ValueType::I64 => IRValueType::Int { width: 64, is_signed: true },
            ValueType::F32 => IRValueType::Float { width: 32 },
            ValueType::F64 => IRValueType::Float { width: 64 },
            ValueType::Bool => IRValueType::Int { width: 1, is_signed: false },
        }
    }
}

/// One instruction. `dst` is the virtual register the instruction defines.
/// Typed constants carry the bit pattern of their value (for `ConstFloat` of
/// an F32, the low 32 bits are the f32 pattern). `Load` reads one value of
/// `value_type` from the baked absolute address `addr`; `CallIndirect` calls
/// the C-ABI function whose code sits at `fn_addr`.
#[derive(Debug)]
pub enum Instruction {
    ConstInt { dst: usize, value_type: ValueType, bits: u64 },
    ConstFloat { dst: usize, value_type: ValueType, bits: u64 },
    IntCompare { dst: usize, pred: IntPredicate, lhs: usize, rhs: usize },
    FloatCompare { dst: usize, pred: FloatPredicate, lhs: usize, rhs: usize },
    IntCast { dst: usize, to: ValueType, is_signed: bool, src: usize },
    FloatToInt { dst: usize, to: ValueType, is_signed: bool, src: usize },
    IntToFloat { dst: usize, to: ValueType, src_signed: bool, src: usize },
    FloatCast { dst: usize, to: ValueType, src: usize },
    IntBinary { dst: usize, op: IntBinOp, lhs: usize, rhs: usize },
    FloatBinary { dst: usize, op: FloatBinOp, lhs: usize, rhs: usize },
    IntNeg { dst: usize, src: usize },
    FloatNeg { dst: usize, src: usize },
    Load { dst: usize, value_type: ValueType, addr: usize },
    CallIndirect {
        dst: usize,
        fn_addr: usize,
        ret_type: ValueType,
        arg_types: Vec<ValueType>,
        args: Vec<usize>,
    },
    Phi {
        dst: usize,
        value_type: ValueType,
        incoming_a: (usize, usize),
        incoming_b: (usize, usize),
    },
}

/// How a block ends.
#[derive(PartialEq, Eq, Structural, Clone, Copy, Debug)]
pub enum Terminator {
    Branch { target: usize },
    CondBranch { cond: usize, then_block: usize, else_block: usize },
    Return { value: usize },
}

/// A basic block: a straight-line instruction list and its terminator.
#[derive(Debug)]
pub struct BasicBlock {
    pub instructions: Vec<Instruction>,
    pub terminator: Option<Terminator>,
}

/// One compiled function: block 0 is the entry. The symbol name a backend
/// gives it is derived from `ctx_id` and `fn_id`.
#[derive(Debug)]
pub struct IRFunction {
    pub ctx_id: usize,
    pub fn_id: usize,
    pub return_type: ValueType,
    pub blocks: Vec<BasicBlock>,
    pub reg_count: usize,
}

/// Emits instructions into a growing list of blocks, always appending to the
/// current block, which never has a terminator yet.
pub struct FunctionBuilder {
    pub blocks: Vec<BasicBlock>,
    pub current: usize,
    pub regs: Vec<bool>,
}

/// `b` extends `a`: blocks are only appended; existing blocks only gain
/// instructions at the end, and a block whose terminator was already set is
/// never touched again.
pub open spec fn spec_builder_extends(a: FunctionBuilder, b: FunctionBuilder) -> bool {
    &&& b.blocks@.len() >= a.blocks@.len()
    &&& b.regs@.len() >= a.regs@.len()
    &&& forall|i: int|
        0 <= i < a.blocks@.len() ==> {
            &&& (#[trigger] b.blocks@[i]).instructions@.len() >= a.blocks@[i].instructions@.len()
            &&& forall|k: int|
                0 <= k < a.blocks@[i].instructions@.len()
                    ==> #[trigger] b.blocks@[i].instructions@[k] == a.blocks@[i].instructions@[k]
            &&& (a.blocks@[i].terminator is Some ==> b.blocks@[i] == a.blocks@[i])
        }
}

pub proof fn lemma_builder_extends_trans(a: FunctionBuilder, b: FunctionBuilder, c: FunctionBuilder)
    requires
        spec_builder_extends(a, b),
        spec_builder_extends(b, c),
    ensures
        spec_builder_extends(a, c),
{
    assert forall|i: int| 0 <= i < a.blocks@.len() implies {
        &&& (#[trigger] c.blocks@[i]).instructions@.len() >= a.blocks@[i].instructions@.len()
        &&& forall|k: int|
            0 <= k < a.blocks@[i].instructions@.len()
                ==> #[trigger] c.blocks@[i].instructions@[k] == a.blocks@[i].instructions@[k]
        &&& (a.blocks@[i].terminator is Some ==> c.blocks@[i] == a.blocks@[i])
    } by {
        assert(b.blocks@[i].instructions@.len() >= a.blocks@[i].instructions@.len());
        assert(c.blocks@[i].instructions@.len() >= b.blocks@[i].instructions@.len());
        assert forall|k: int|
            0 <= k < a.blocks@[i].instructions@.len() implies #[trigger] c.blocks@[i]
            .instructions@[k] == a.blocks@[i].instructions@[k] by {
            assert(b.blocks@[i].instructions@[k] == a.blocks@[i].instructions@[k]);
            assert(c.blocks@[i].instructions@[k] == b.blocks@[i].instructions@[k]);
        }
    }
}

/// What one lowering step may do to a builder: extend it, touch no existing
/// block other than the one that was current, and leave the cursor either
/// where it was or on a freshly created block.
pub open spec fn spec_emits_ok(a: FunctionBuilder, b: FunctionBuilder) -> bool {
    &&& spec_builder_extends(a, b)
    &&& forall|i: int|
        0 <= i < a.blocks@.len() && i != a.current as int ==> #[trigger] b.blocks@[i]
            == a.blocks@[i]
    &&& (b.current == a.current || b.current as int >= a.blocks@.len())
}

pub proof fn lemma_emits_ok_trans(a: FunctionBuilder, b: FunctionBuilder, c: FunctionBuilder)
    requires
        spec_emits_ok(a, b),
        spec_emits_ok(b, c),
    ensures
        spec_emits_ok(a, c),
{
    lemma_builder_extends_trans(a, b, c);
    assert forall|i: int|
        0 <= i < a.blocks@.len() && i != a.current as int implies #[trigger] c.blocks@[i]
        == a.blocks@[i] by {
        if i != b.current as int {
            assert(b.blocks@[i] == a.blocks@[i]);
            assert(c.blocks@[i] == b.blocks@[i]);
        }
    }
}

impl FunctionBuilder {
    /// The current block is valid and still open.
    pub open spec fn wf(&self) -> bool {
        &&& (self.current as int) < self.blocks@.len()
        &&& self.blocks@[self.current as int].terminator is None
    }

    /// The instruction list of the current block.
    pub open spec fn cur_instrs(&self) -> Seq<Instruction> {
        self.blocks@[self.current as int].instructions@
    }

    pub open spec fn reg_count(&self) -> int {
        self.regs@.len() as int
    }

    pub fn new() -> (r: FunctionBuilder)
        ensures
            r.wf(),
            r.blocks@.len() == 1,
            r.current == 0,
            r.cur_instrs() == Seq::<Instruction>::empty(),
            r.reg_count() == 0,
    {
        let mut blocks: Vec<BasicBlock> = Vec::new();
        blocks.push(BasicBlock { instructions: Vec::new(), terminator: None });
        FunctionBuilder { blocks, current: 0, regs: Vec::new() }
    }

    /// A fresh virtual register.
    pub fn fresh_reg(&mut self) -> (r: usize)
        ensures
            final(self).blocks@ == old(self).blocks@,
            final(self).current == old(self).current,
            final(self).regs@.len() == old(self).regs@.len() + 1,
            r as int == old(self).reg_count(),
            final(self).wf() == old(self).wf(),
            spec_builder_extends(*old(self), *final(self)),
    {
        let r = self.regs.len();
        self.regs.push(true);
        r
    }

    /// Append `instr` to the current block.
    pub fn emit(&mut self, instr: Instruction)
        requires
            old(self).wf(),
        ensures
            final(self).wf(),
            final(self).current == old(self).current,
            final(self).blocks@.len() == old(self).blocks@.len(),
            final(self).regs@ == old(self).regs@,
            final(self).cur_instrs() == old(self).cur_instrs().push(instr),
            forall|i: int|
                0 <= i < old(self).blocks@.len() && i != old(self).current as int ==> final(self).blocks@[i] == old(self).blocks@[i],
            spec_builder_extends(*old(self), *final(self)),
    {
        let cur = self.current;
        let mut block = BasicBlock { instructions: Vec::new(), terminator: None };
        self.blocks.set_and_swap(cur, &mut block);
        block.instructions.push(instr);
        self.blocks.set(cur, block);
    }

    /// Open a new, empty block; the current block stays current.
    pub fn append_block(&mut self) -> (b: usize)
        requires
            old(self).wf(),
        ensures
            final(self).wf(),
            b as int == old(self).blocks@.len(),
            final(self).blocks@.len() == old(self).blocks@.len() + 1,
            forall|i: int|
                0 <= i < old(self).blocks@.len() ==> final(self).blocks@[i] == old(self).blocks@[i],
            final(self).blocks@[b as int].instructions@ == Seq::<Instruction>::empty(),
            final(self).blocks@[b as int].terminator is None,
            final(self).current == old(self).current,
            final(self).regs@ == old(self).regs@,
            spec_builder_extends(*old(self), *final(self)),
    {
        let b = self.blocks.len();
        self.blocks.push(BasicBlock { instructions: Vec::new(), terminator: None });
        b
    }

    /// Seal the current block with `t`.
    pub fn terminate(&mut self, t: Terminator)
        requires
            old(self).wf(),
        ensures
            final(self).blocks@.len() == old(self).blocks@.len(),
            final(self).current == old(self).current,
            final(self).regs@ == old(self).regs@,
            final(self).blocks@[old(self).current as int].instructions@ == old(self).cur_instrs(),
            final(self).blocks@[old(self).current as int].terminator == Some(t),
            forall|i: int|
                0 <= i < old(self).blocks@.len() && i != old(self).current as int ==> final(self).blocks@[i] == old(self).blocks@[i],
            spec_builder_extends(*old(self), *final(self)),
    {
        let cur = self.current;
        let mut block = BasicBlock { instructions: Vec::new(), terminator: None };
        self.blocks.set_and_swap(cur, &mut block);
        block.terminator = Some(t);
        self.blocks.set(cur, block);
    }

    /// Continue emitting at the end of block `b`, which must still be open.
    pub fn position_at_end(&mut self, b: usize)
        requires
            b < old(self).blocks@.len(),
            old(self).blocks@[b as int].terminator is None,
        ensures
            final(self).wf(),
            final(self).blocks@ == old(self).blocks@,
            final(self).regs@ == old(self).regs@,
            final(self).current == b,
            spec_builder_extends(*old(self), *final(self)),
    {
        self.current = b;
    }
}

} // verus!
