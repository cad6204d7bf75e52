//! Building the instruction sequences that the passes synthesise.

use vstd::prelude::*;
use crate::ir::{
    BinaryOp, FunctionId, GlobalId, Instr, InstrSeqId, InstrSeqType, InstrView, LoadKind, LocalId,
    MemArg, MemoryId, StoreKind, UnaryOp, Value, DEFAULT_LOC,
};
use crate::module::{InstrSeq, InstrSeqView, Located, LocatedView};

verus! {

/// The instruction `i` at the default location.
pub open spec fn fresh(i: InstrView) -> LocatedView {
    LocatedView { instr: i, loc: DEFAULT_LOC }
}

/// The instructions `s`, each at the default location.
pub open spec fn code(s: Seq<InstrView>) -> Seq<LocatedView> {
    Seq::new(s.len(), |i: int| fresh(s[i]))
}

/// The sequence of type `ty` that holds the instructions `s`, each at the
/// default location.
pub open spec fn seq_of(ty: InstrSeqType, s: Seq<InstrView>) -> InstrSeqView {
    InstrSeqView { ty, instrs: code(s) }
}

/// The code of a list with one more instruction is the code of the list with that instruction behind it.
pub proof fn lemma_code_push(s: Seq<InstrView>, i: InstrView)
    ensures
        code(s.push(i)) == code(s).push(fresh(i)),
{
    assert(code(s.push(i)) =~= code(s).push(fresh(i)));
}

/// The body that consists of the one sequence `entry`.
pub fn body_of(entry: InstrSeq) -> (seqs: Vec<InstrSeq>)
    ensures
        seqs.deep_view() == seq![entry.deep_view()],
{
    let mut seqs: Vec<InstrSeq> = Vec::new();
    seqs.push(entry);
    assert(seqs.deep_view() =~= seq![entry.deep_view()]);
    seqs
}

/// The model of a body of three sequences is the list of their models.
pub proof fn lemma_deep_view3(seqs: Vec<InstrSeq>)
    requires
        seqs@.len() == 3,
    ensures
        seqs.deep_view() == seq![
            seqs@[0].deep_view(),
            seqs@[1].deep_view(),
            seqs@[2].deep_view(),
        ],
{
    assert(seqs.deep_view() =~= seq![
        seqs@[0].deep_view(),
        seqs@[1].deep_view(),
        seqs@[2].deep_view(),
    ]);
}

/// Collects the instructions of one synthesised sequence. Its view is the
/// list of instructions added so far.
pub struct InstrSeqBuilder {
    instrs: Vec<Instr>,
}

impl View for InstrSeqBuilder {
    type V = Seq<InstrView>;

    closed spec fn view(&self) -> Seq<InstrView> {
        self.instrs.deep_view()
    }
}

impl InstrSeqBuilder {

    /// An empty list of instructions.
    pub fn new() -> (b: InstrSeqBuilder)
        ensures
            b@ == Seq::<InstrView>::empty(),
    {
        let b = InstrSeqBuilder { instrs: Vec::new() };
        assert(b@ =~= Seq::<InstrView>::empty());
        b
    }

    /// Appends `i`.
    pub fn instr(&mut self, i: Instr)
        ensures
            final(self)@ == old(self)@.push(i@),
    {
        self.instrs.push(i);
        assert(self@ =~= old(self)@.push(i@));
    }

    /// Appends the constant `v` of 32 bits.
    pub fn i32_const(&mut self, v: i32)
        ensures
            final(self)@ == old(self)@.push(crate::ir::i32_const(v)),
    {
        self.instr(Instr::Const { value: Value::I32(v) })
    }

    /// Appends the constant `v` of 64 bits.
    pub fn i64_const(&mut self, v: i64)
        ensures
            final(self)@ == old(self)@.push(crate::ir::i64_const(v)),
    {
        self.instr(Instr::Const { value: Value::I64(v) })
    }

    /// Appends a call of `func`.
    pub fn call(&mut self, f: FunctionId)
        ensures
            final(self)@ == old(self)@.push(crate::ir::call(f)),
    {
        self.instr(Instr::Call { func: f })
    }

    /// Appends the reading of `local`.
    pub fn local_get(&mut self, l: LocalId)
        ensures
            final(self)@ == old(self)@.push(crate::ir::local_get(l)),
    {
        self.instr(Instr::LocalGet { local: l })
    }

    /// Appends the writing of `local`.
    pub fn local_set(&mut self, l: LocalId)
        ensures
            final(self)@ == old(self)@.push(crate::ir::local_set(l)),
    {
        self.instr(Instr::LocalSet { local: l })
    }

    /// Appends the writing of `local` that leaves the value on the stack.
    pub fn local_tee(&mut self, l: LocalId)
        ensures
            final(self)@ == old(self)@.push(crate::ir::local_tee(l)),
    {
        self.instr(Instr::LocalTee { local: l })
    }

    /// Appends the reading of `global`.
    pub fn global_get(&mut self, g: GlobalId)
        ensures
            final(self)@ == old(self)@.push(crate::ir::global_get(g)),
    {
        self.instr(Instr::GlobalGet { global: g })
    }

    /// Appends the writing of `global`.
    pub fn global_set(&mut self, g: GlobalId)
        ensures
            final(self)@ == old(self)@.push(crate::ir::global_set(g)),
    {
        self.instr(Instr::GlobalSet { global: g })
    }

    /// Appends the binary operator `op`.
    pub fn binop(&mut self, op: BinaryOp)
        ensures
            final(self)@ == old(self)@.push(crate::ir::binop(op)),
    {
        self.instr(Instr::Binop { op })
    }

    /// Appends the unary operator `op`.
    pub fn unop(&mut self, op: UnaryOp)
        ensures
            final(self)@ == old(self)@.push(crate::ir::unop(op)),
    {
        self.instr(Instr::Unop { op })
    }

    /// Appends a drop.
    pub fn drop(&mut self)
        ensures
            final(self)@ == old(self)@.push(InstrView::Drop),
    {
        self.instr(Instr::Drop)
    }

    /// Appends a return.
    pub fn return_(&mut self)
        ensures
            final(self)@ == old(self)@.push(InstrView::Return),
    {
        self.instr(Instr::Return)
    }

    /// A load from `memory` at constant offset 0.
    pub fn load(&mut self, memory: MemoryId, kind: LoadKind, align: u32)
        ensures
            final(self)@ == old(self)@.push(crate::ir::load(memory, kind, align)),
    {
        self.instr(Instr::Load { memory, kind, arg: MemArg { align, offset: 0 } })
    }

    /// A store to `memory` at constant offset 0.
    pub fn store(&mut self, memory: MemoryId, kind: StoreKind, align: u32)
        ensures
            final(self)@ == old(self)@.push(crate::ir::store(memory, kind, align)),
    {
        self.instr(Instr::Store { memory, kind, arg: MemArg { align, offset: 0 } })
    }

    /// Appends a branch out of `block`.
    pub fn br(&mut self, block: InstrSeqId)
        ensures
            final(self)@ == old(self)@.push(crate::ir::br(block)),
    {
        self.instr(Instr::Br { block })
    }

    /// Appends a conditional branch out of `block`.
    pub fn br_if(&mut self, block: InstrSeqId)
        ensures
            final(self)@ == old(self)@.push(crate::ir::br_if(block)),
    {
        self.instr(Instr::BrIf { block })
    }

    /// Appends a block that runs the sequence `seq`.
    pub fn block(&mut self, seq: InstrSeqId)
        ensures
            final(self)@ == old(self)@.push(crate::ir::block(seq)),
    {
        self.instr(Instr::Block { seq })
    }

    /// Appends a choice between the sequences `consequent` and `alternative`.
    pub fn if_else(&mut self, consequent: InstrSeqId, alternative: InstrSeqId)
        ensures
            final(self)@ == old(self)@.push(crate::ir::if_else(consequent, alternative)),
    {
        self.instr(Instr::IfElse { consequent, alternative })
    }

    /// Appends the instructions of `other`.
    pub fn extend(&mut self, other: InstrSeqBuilder)
        ensures
            final(self)@ == old(self)@ + other@,
    {
        let mut other = other;
        let ghost a = self.instrs.deep_view();
        let ghost b = other.instrs.deep_view();
        self.instrs.append(&mut other.instrs);
        assert(self.instrs.deep_view() =~= a + b);
    }

    /// The instructions collected.
    pub fn into_instrs(self) -> (r: Vec<Located>)
        ensures
            r.deep_view() == code(self@),
    {
        let mut r: Vec<Located> = Vec::new();
        let mut i: usize = 0;
        while i < self.instrs.len()
            invariant
                i <= self.instrs.len(),
                r.deep_view() == code(self@.subrange(0, i as int)),
            decreases self.instrs.len() - i,
        {
            let ghost before = r.deep_view();
            r.push(Located { instr: self.instrs[i].duplicate(), loc: DEFAULT_LOC });
            proof {
                assert(r.deep_view() =~= before.push(fresh(self@[i as int])));
                assert(self@.subrange(0, i + 1) =~= self@.subrange(0, i as int).push(
                    self@[i as int],
                ));
                lemma_code_push(self@.subrange(0, i as int), self@[i as int]);
            }
            i += 1;
        }
        assert(self@.subrange(0, i as int) =~= self@);
        r
    }

    /// The sequence of type `ty` with the instructions collected.
    pub fn finish(self, ty: InstrSeqType) -> (r: InstrSeq)
        ensures
            r.deep_view() == seq_of(ty, self@),
    {
        let ghost s = self@;
        let instrs = self.into_instrs();
        InstrSeq { ty, instrs }
    }
}

} // verus!
