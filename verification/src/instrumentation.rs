//! Instrumentation of a canister: every function charges its cost to a
//! counter and logs its entry and exit to stable memory, and endpoints give
//! out the counter and the log.

use vstd::prelude::*;
use crate::builder::{body_of, code, fresh, lemma_deep_view3, seq_of, InstrSeqBuilder};
use crate::ir::{
    binop, block, br, br_if, call, global_get, global_set, i32_const, i64_const, if_else, load,
    local_get, local_set, local_tee, store, unop, BinaryOp, FunctionId, GlobalId, Instr,
    InstrSeqId, InstrSeqType, InstrView, LoadKind, LocalId, MemoryId, StoreKind, TypeId, UnaryOp,
    ValType, Value, DEFAULT_LOC,
};
use crate::module::{
    no_types, FuncType, FuncTypeView, ConstExpr, CustomSection, CustomSectionView, ExportItem, Function, FunctionKind,
    FunctionKindView, FunctionView, Global, GlobalKind, InstrSeq, InstrSeqView, LocalFunction,
    LocalFunctionView, Located, LocatedView, Module, ModuleView,
};
use crate::search::{
    first_index, is_first, lemma_first_index_found, lemma_first_index_none, list1, list2, list3,
};
use crate::module::ExportView;
use crate::strings::{concat, starts_with, str_eq};
use crate::utils::{
    cost_of, cost_table, export_func, export_func_or_new, extends, get_ic_func_id, get_memory_id,
    get_or_create_export_func, export_is_local, keeps_locals, ic_import_id,
    can_import, get_ic_func_ids, ic_import_ids, texts, with_ic_imports,
    lemma_preserves_trans, lemma_same_funcs_keeps, preserves, same_funcs, imports_ic0, inject_bottom, inject_top, instr_cost,
    instruction_cost, is_local, with_bottom, with_export_func, with_ic_import, with_top,
    FunctionCost, InjectionKind,
};

verus! {

/// The bytes of stable memory that hold the instrumentation's own state.
pub const METADATA_SIZE: i32 = 24;

/// The pages that the log may take where no region is set aside for it.
pub const DEFAULT_PAGE_LIMIT: i32 = 4096;

/// The bytes of one entry of the log.
pub const LOG_ITEM_SIZE: i32 = 12;

/// The entries that one query gives out at most.
pub const MAX_ITEMS_PER_QUERY: i32 = 174758;

/// How to instrument. With names in `trace_only_funcs`, cost is counted and
/// logged only while one of these functions runs. `start_address` is where
/// a region set aside in stable memory begins, `page_limit` its size in
/// pages. `use_new_metering` chooses the current cost schedule over the
/// legacy one.
#[derive(Clone, Debug, PartialEq, Eq)]
pub struct Config {
    pub trace_only_funcs: Vec<String>,
    pub start_address: Option<i32>,
    pub page_limit: Option<i32>,
    pub use_new_metering: bool,
}

pub struct ConfigView {
    pub trace_only_funcs: Seq<Seq<char>>,
    pub start_address: Option<i32>,
    pub page_limit: Option<i32>,
    pub use_new_metering: bool,
}

impl View for Config {
    type V = ConfigView;

    open spec fn view(&self) -> ConfigView {
        ConfigView {
            trace_only_funcs: self.trace_only_funcs.deep_view(),
            start_address: self.start_address,
            page_limit: self.page_limit,
            use_new_metering: self.use_new_metering,
        }
    }
}

impl ConfigView {
    /// The addresses and sizes derived from the configuration fit in 32
    /// bits.
    pub open spec fn wf(self) -> bool {
        &&& self.start_address matches Some(a) ==> a <= i32::MAX - METADATA_SIZE
        &&& self.page_limit matches Some(p) ==> -32767 <= p <= 32768
    }

    /// Whether the region of the log is given, and does not grow by itself.
    pub open spec fn is_preallocated(self) -> bool {
        self.start_address is Some
    }

    /// Where the metadata begins in stable memory.
    pub open spec fn metadata_start_address(self) -> i32 {
        match self.start_address {
            Some(a) => a,
            None => 0,
        }
    }

    /// Where the log begins in stable memory, behind the metadata.
    pub open spec fn log_start_address(self) -> int {
        self.metadata_start_address() + METADATA_SIZE
    }

    /// The pages that the log may take.
    pub open spec fn page_limit(self) -> int {
        match self.page_limit {
            Some(p) => p - 1,
            None => DEFAULT_PAGE_LIMIT - 1,
        }
    }
}

impl Config {
    /// Whether a region of stable memory is set aside for the log.
    pub fn is_preallocated(&self) -> (r: bool)
        ensures
            r == self@.is_preallocated(),
    {
        self.start_address.is_some()
    }

    /// Where the log begins in stable memory: after the metadata.
    pub fn log_start_address(&self) -> (r: i32)
        requires
            self@.wf(),
        ensures
            r == self@.log_start_address(),
    {
        let start = match self.start_address {
            Some(a) => a,
            None => 0,
        };
        start + METADATA_SIZE
    }

    /// Where the metadata begins in stable memory.
    pub fn metadata_start_address(&self) -> (r: i32)
        ensures
            r == self@.metadata_start_address(),
    {
        match self.start_address {
            Some(a) => a,
            None => 0,
        }
    }

    /// The pages that the log may take: one page less than the region has,
    /// for the metadata.
    pub fn page_limit(&self) -> (r: i32)
        requires
            self@.wf(),
        ensures
            r == self@.page_limit(),
    {
        match self.page_limit {
            Some(p) => p - 1,
            None => DEFAULT_PAGE_LIMIT - 1,
        }
    }
}

/// The globals and helper functions that instrumentation adds.
#[derive(Clone, Copy)]
pub struct Variables {
    pub total_counter: GlobalId,
    pub log_size: GlobalId,
    pub page_size: GlobalId,
    pub is_init: GlobalId,
    pub is_entry: GlobalId,
    pub dynamic_counter_func: FunctionId,
    pub dynamic_counter64_func: FunctionId,
}

/// What makes a charge count only while tracing is on: the factor
/// `is_init xor 1`, as an `i32`.
pub open spec fn tracing_factor(is_init: GlobalId) -> Seq<InstrView> {
    seq![global_get(is_init), i32_const(1), binop(BinaryOp::I32Xor)]
}

/// The body of the function that charges the size on top of the stack, an
/// `i32`, and leaves it there: under partial tracing, `is_init` is given and
/// the size counts only while tracing is on.
pub open spec fn dynamic_counter_code(
    size: LocalId,
    total_counter: GlobalId,
    opt_init: Option<GlobalId>,
) -> Seq<InstrView> {
    seq![local_get(size)] + (match opt_init {
        Some(is_init) => tracing_factor(is_init).push(binop(BinaryOp::I32Mul)),
        None => Seq::empty(),
    }) + seq![
        unop(UnaryOp::I64ExtendUI32),
        global_get(total_counter),
        binop(BinaryOp::I64Add),
        global_set(total_counter),
        local_get(size),
    ]
}

/// The same for a size that is an `i64`.
pub open spec fn dynamic_counter64_code(
    size: LocalId,
    total_counter: GlobalId,
    opt_init: Option<GlobalId>,
) -> Seq<InstrView> {
    seq![local_get(size)] + (match opt_init {
        Some(is_init) => tracing_factor(is_init).push(unop(UnaryOp::I64ExtendUI32)).push(
            binop(BinaryOp::I64Mul),
        ),
        None => Seq::empty(),
    }) + seq![
        global_get(total_counter),
        binop(BinaryOp::I64Add),
        global_set(total_counter),
        local_get(size),
    ]
}

/// The module with one more function: `ty -> ty` with one local, the
/// argument, and the one sequence `body(local)`.
pub open spec fn with_unary_func(
    m: ModuleView,
    ty: ValType,
    body: spec_fn(LocalId) -> Seq<InstrView>,
) -> ModuleView {
    let m1 = m.with_signature(seq![ty], seq![ty]);
    let size = m1.locals.len() as usize;
    m1.with_local(ty).with_local_func(
        None,
        m.signature_ty(seq![ty], seq![ty]),
        seq![size],
        seq![
            seq_of(InstrSeqType::MultiValue(m.signature_entry_ty(seq![ty], seq![ty])), body(size)),
        ],
    )
}

/// The module with the function that charges an `i32` size.
pub open spec fn with_dynamic_counter(
    m: ModuleView,
    total_counter: GlobalId,
    opt_init: Option<GlobalId>,
) -> ModuleView {
    with_unary_func(
        m,
        ValType::I32,
        |size: LocalId| dynamic_counter_code(size, total_counter, opt_init),
    )
}

/// The module with the function that charges an `i64` size.
pub open spec fn with_dynamic_counter64(
    m: ModuleView,
    total_counter: GlobalId,
    opt_init: Option<GlobalId>,
) -> ModuleView {
    with_unary_func(
        m,
        ValType::I64,
        |size: LocalId| dynamic_counter64_code(size, total_counter, opt_init),
    )
}

/// Adds the function that charges the `i32` size on top of the stack and
/// leaves it there, and gives its id.
pub fn make_dynamic_counter(m: &mut Module, total_counter: GlobalId, opt_init: &Option<GlobalId>) -> (id:
    FunctionId)
    ensures
        preserves(old(m)@, final(m)@),
        same_funcs(old(m)@, final(m)@),
        final(m)@ == with_dynamic_counter(old(m)@, total_counter, *opt_init),
        id == old(m)@.funcs.len(),
{
    let (ty, entry_ty) = m.add_signature(
        list1(ValType::I32).as_slice(),
        list1(ValType::I32).as_slice(),
    );
    let size = m.add_local(ValType::I32);
    let mut seq = InstrSeqBuilder::new();
    seq.local_get(size);
    if let Some(is_init) = opt_init {
        seq.global_get(*is_init);
        seq.i32_const(1);
        seq.binop(BinaryOp::I32Xor);
        seq.binop(BinaryOp::I32Mul);
    }
    seq.unop(UnaryOp::I64ExtendUI32);
    seq.global_get(total_counter);
    seq.binop(BinaryOp::I64Add);
    seq.global_set(total_counter);
    seq.local_get(size);
    assert(seq@ =~= dynamic_counter_code(size, total_counter, *opt_init));
    let seqs = body_of(seq.finish(InstrSeqType::MultiValue(entry_ty)));
    m.add_local_func(None, ty, list1(size), seqs)
}

/// Adds the function that charges the `i64` size on top of the stack and
/// leaves it there, and gives its id.
pub fn make_dynamic_counter64(m: &mut Module, total_counter: GlobalId, opt_init: &Option<GlobalId>) -> (id:
    FunctionId)
    ensures
        preserves(old(m)@, final(m)@),
        same_funcs(old(m)@, final(m)@),
        final(m)@ == with_dynamic_counter64(old(m)@, total_counter, *opt_init),
        id == old(m)@.funcs.len(),
{
    let (ty, entry_ty) = m.add_signature(
        list1(ValType::I64).as_slice(),
        list1(ValType::I64).as_slice(),
    );
    let size = m.add_local(ValType::I64);
    let mut seq = InstrSeqBuilder::new();
    seq.local_get(size);
    if let Some(is_init) = opt_init {
        seq.global_get(*is_init);
        seq.i32_const(1);
        seq.binop(BinaryOp::I32Xor);
        seq.unop(UnaryOp::I64ExtendUI32);
        seq.binop(BinaryOp::I64Mul);
    }
    seq.global_get(total_counter);
    seq.binop(BinaryOp::I64Add);
    seq.global_set(total_counter);
    seq.local_get(size);
    assert(seq@ =~= dynamic_counter64_code(size, total_counter, *opt_init));
    let seqs = body_of(seq.finish(InstrSeqType::MultiValue(entry_ty)));
    m.add_local_func(None, ty, list1(size), seqs)
}

/// What metering goes by: the globals and helpers, the cost table, the
/// schedule, and whether the charge counts only while tracing is on.
pub struct Metering {
    pub vars: Variables,
    pub table: Map<FunctionId, (i64, InjectionKind)>,
    pub use_new_metering: bool,
    pub is_partial_tracing: bool,
}

/// Whether the instruction ends a window of metering: what follows it is
/// charged apart.
pub open spec fn closes_window(i: InstrView) -> bool {
    match i {
        InstrView::Block { .. }
        | InstrView::Loop { .. }
        | InstrView::IfElse { .. }
        | InstrView::Br { .. }
        | InstrView::BrIf { .. }
        | InstrView::BrTable { .. }
        | InstrView::Return
        | InstrView::Unreachable => true,
        _ => false,
    }
}

impl Metering {
    /// What the instruction adds to the cost of its window. A block or loop
    /// without a result costs nothing; a call costs the call and what the
    /// table says of the function called.
    pub open spec fn added_cost(self, f: LocalFunctionView, i: InstrView) -> int {
        match i {
            InstrView::Block { seq } | InstrView::Loop { seq } => match f.seqs[seq as int].ty {
                InstrSeqType::Simple(Some(_)) => instruction_cost(i, self.use_new_metering) as int,
                _ => 0,
            },
            InstrView::Call { func } => instruction_cost(i, self.use_new_metering) + cost_of(
                self.table,
                func,
            ).0,
            _ => instruction_cost(i, self.use_new_metering) as int,
        }
    }

    /// The counter that is called before the instruction, if its cost
    /// depends on a size: a system call with a size argument, or a bulk
    /// operation on memory or on a table.
    pub open spec fn counter_before(self, i: InstrView) -> Option<FunctionId> {
        match i {
            InstrView::Call { func } => match cost_of(self.table, func).1 {
                InjectionKind::Static => None,
                InjectionKind::Dynamic => Some(self.vars.dynamic_counter_func),
                InjectionKind::Dynamic64 => Some(self.vars.dynamic_counter64_func),
            },
            InstrView::MemoryFill { .. }
            | InstrView::MemoryCopy { .. }
            | InstrView::MemoryInit { .. }
            | InstrView::TableCopy { .. }
            | InstrView::TableInit { .. } => Some(self.vars.dynamic_counter_func),
            _ => None,
        }
    }

    /// The call of the counter before the instruction, if there is one.
    pub open spec fn dynamic_charge(self, i: InstrView) -> Seq<LocatedView> {
        match self.counter_before(i) {
            Some(counter) => seq![fresh(call(counter))],
            None => Seq::empty(),
        }
    }

    /// The instructions that add `cost` to the counter; nothing where there
    /// is no cost.
    pub open spec fn charge(self, cost: int) -> Seq<LocatedView> {
        if cost > 0 {
            code(
                seq![global_get(self.vars.total_counter), i64_const(cost as i64)] + (
                if self.is_partial_tracing {
                    tracing_factor(self.vars.is_init).push(unop(UnaryOp::I64ExtendUI32)).push(
                        binop(BinaryOp::I64Mul),
                    )
                } else {
                    Seq::empty()
                }) + seq![binop(BinaryOp::I64Add), global_set(self.vars.total_counter)],
            )
        } else {
            Seq::empty()
        }
    }

    /// The instructions of a sequence from position `i` on with their
    /// charges, where `cost` has been accumulated in the current window. The
    /// window's cost is charged right before the instruction that closes it,
    /// or before the last instruction of the sequence; an instruction whose
    /// cost depends on a size has the call of its counter before it.
    pub open spec fn metered_from(
        self,
        f: LocalFunctionView,
        instrs: Seq<LocatedView>,
        i: int,
        cost: int,
    ) -> Seq<LocatedView>
        decreases instrs.len() - i,
    {
        if i >= instrs.len() {
            self.charge(cost)
        } else {
            let instr = instrs[i].instr;
            let sum = cost + self.added_cost(f, instr);
            if closes_window(instr) || i == instrs.len() - 1 {
                self.dynamic_charge(instr) + self.charge(sum) + seq![instrs[i]]
                    + self.metered_from(f, instrs, i + 1, 0)
            } else {
                self.dynamic_charge(instr) + seq![instrs[i]] + self.metered_from(
                    f,
                    instrs,
                    i + 1,
                    sum,
                )
            }
        }
    }

    /// Sequence `s` of `f` with its charges: the entry sequence `start`
    /// begins with a cost of one.
    pub open spec fn metered_seq(self, f: LocalFunctionView, start: InstrSeqId, s: int) -> InstrSeqView {
        InstrSeqView {
            ty: f.seqs[s].ty,
            instrs: self.metered_from(
                f,
                f.seqs[s].instrs,
                0,
                if s == start {
                    1
                } else {
                    0
                },
            ),
        }
    }

    /// The function with every sequence metered.
    pub open spec fn metered(self, f: LocalFunctionView, start: InstrSeqId) -> LocalFunctionView {
        LocalFunctionView {
            seqs: Seq::new(f.seqs.len(), |s: int| self.metered_seq(f, start, s)),
            ..f
        }
    }
}

/// What metering asks of a function: its sequences are short enough for
/// their cost to fit in 64 bits, and every block and loop has an inner
/// sequence of the function with at most one result and no parameters.
pub open spec fn can_meter(f: LocalFunctionView) -> bool {
    forall|s: int, i: int|
        0 <= s < f.seqs.len() && 0 <= i < f.seqs[s].instrs.len() ==> {
            &&& f.seqs[s].instrs.len() <= u32::MAX
            &&& match (#[trigger] f.seqs[s].instrs[i]).instr {
                InstrView::Block { seq } | InstrView::Loop { seq } => seq < f.seqs.len()
                    && f.seqs[seq as int].ty is Simple,
                _ => true,
            }
        }
}

/// Whether a function can be metered.
pub fn check_metering(f: &LocalFunction) -> (ok: bool)
    ensures
        ok == can_meter(f.deep_view()),
{
    let mut s: usize = 0;
    while s < f.seqs.len()
        invariant
            s <= f.seqs.len(),
            forall|t: int, i: int|
                0 <= t < s && 0 <= i < f.deep_view().seqs[t].instrs.len() ==> {
                    &&& f.deep_view().seqs[t].instrs.len() <= u32::MAX
                    &&& match (#[trigger] f.deep_view().seqs[t].instrs[i]).instr {
                        InstrView::Block { seq } | InstrView::Loop { seq } => seq
                            < f.deep_view().seqs.len() && f.deep_view().seqs[seq as int].ty
                            is Simple,
                        _ => true,
                    }
                },
        decreases f.seqs.len() - s,
    {
        let instrs = &f.seqs[s].instrs;
        assert(f.deep_view().seqs[s as int].instrs == instrs.deep_view());
        if instrs.len() > 0 && instrs.len() > u32::MAX as usize {
            assert(f.deep_view().seqs[s as int].instrs.len() > u32::MAX);
            let ghost witness = f.deep_view().seqs[s as int].instrs[0];
            return false;
        }
        let mut i: usize = 0;
        while i < instrs.len()
            invariant
                i <= instrs.len(),
                s < f.seqs.len(),
                instrs.len() <= u32::MAX,
                f.deep_view().seqs[s as int].instrs == instrs.deep_view(),
                forall|k: int|
                    0 <= k < i ==> match (#[trigger] instrs.deep_view()[k]).instr {
                        InstrView::Block { seq } | InstrView::Loop { seq } => seq
                            < f.deep_view().seqs.len() && f.deep_view().seqs[seq as int].ty
                            is Simple,
                        _ => true,
                    },
            decreases instrs.len() - i,
        {
            let ok = match &instrs[i].instr {
                Instr::Block { seq } | Instr::Loop { seq } => {
                    if *seq < f.seqs.len() {
                        assert(f.deep_view().seqs[*seq as int].ty == f.seqs[*seq as int].ty);
                        match f.seqs[*seq].ty {
                            InstrSeqType::Simple(_) => true,
                            _ => false,
                        }
                    } else {
                        false
                    }
                },
                _ => true,
            };
            if !ok {
                let ghost witness = f.deep_view().seqs[s as int].instrs[i as int];
                assert(witness.instr == instrs[i as int].instr@);
                return false;
            }
            assert(instrs.deep_view()[i as int].instr == instrs[i as int].instr@);
            i += 1;
        }
        s += 1;
    }
    true
}

fn push_charge(
    out: &mut Vec<Located>,
    cost: i64,
    vars: &Variables,
    is_partial_tracing: bool,
    Ghost(c): Ghost<Metering>,
)
    requires
        c.vars == *vars,
        c.is_partial_tracing == is_partial_tracing,
    ensures
        final(out).deep_view() == old(out).deep_view() + c.charge(cost as int),
{
    if cost > 0 {
        let mut b = InstrSeqBuilder::new();
        b.global_get(vars.total_counter);
        b.i64_const(cost);
        if is_partial_tracing {
            b.global_get(vars.is_init);
            b.i32_const(1);
            b.binop(BinaryOp::I32Xor);
            b.unop(UnaryOp::I64ExtendUI32);
            b.binop(BinaryOp::I64Mul);
        }
        b.binop(BinaryOp::I64Add);
        b.global_set(vars.total_counter);
        assert(code(b@) =~= c.charge(cost as int));
        let mut added = b.into_instrs();
        let ghost before = out.deep_view();
        let ghost after = added.deep_view();
        out.append(&mut added);
        assert(out.deep_view() =~= before + after);
    } else {
        assert(out.deep_view() =~= old(out).deep_view() + c.charge(cost as int));
    }
}

/// The instructions `instrs` of a sequence of `func` with their charges.
fn meter_instrs(
    func: &LocalFunction,
    instrs: &Vec<Located>,
    first_cost: i64,
    vars: &Variables,
    func_cost: &FunctionCost,
    is_partial_tracing: bool,
    use_new_metering: bool,
    Ghost(c): Ghost<Metering>,
) -> (out: Vec<Located>)
    requires
        c.vars == *vars,
        c.table == func_cost@,
        c.is_partial_tracing == is_partial_tracing,
        c.use_new_metering == use_new_metering,
        0 <= first_cost <= 1,
        instrs.len() <= u32::MAX,
        forall|k: int|
            0 <= k < instrs.len() ==> match (#[trigger] instrs.deep_view()[k]).instr {
                InstrView::Block { seq } | InstrView::Loop { seq } => seq < func.deep_view().seqs.len()
                    && func.deep_view().seqs[seq as int].ty is Simple,
                _ => true,
            },
    ensures
        out.deep_view() == c.metered_from(
            func.deep_view(),
            instrs.deep_view(),
            0,
            first_cost as int,
        ),
{
    let ghost f = func.deep_view();
    let ghost all = instrs.deep_view();
    let n = instrs.len();
    let mut out: Vec<Located> = Vec::new();
    let mut cost: i64 = first_cost;
    let mut pos: usize = 0;
    assert(out.deep_view() =~= Seq::empty());
    while pos < n
        invariant
            pos <= n,
            n == instrs.len(),
            n <= u32::MAX,
            f == func.deep_view(),
            all == instrs.deep_view(),
            c.vars == *vars,
            c.table == func_cost@,
            c.is_partial_tracing == is_partial_tracing,
            c.use_new_metering == use_new_metering,
            0 <= cost <= 1 + pos * 5300,
            forall|k: int|
                0 <= k < instrs.len() ==> match (#[trigger] instrs.deep_view()[k]).instr {
                    InstrView::Block { seq } | InstrView::Loop { seq } => seq
                        < func.deep_view().seqs.len() && func.deep_view().seqs[seq as int].ty
                        is Simple,
                    _ => true,
                },
            out.deep_view() + c.metered_from(f, all, pos as int, cost as int) == c.metered_from(
                f,
                all,
                0,
                first_cost as int,
            ),
        decreases n - pos,
    {
        let located = &instrs[pos];
        let instr = &located.instr;
        let ghost iv = all[pos as int].instr;
        assert(iv == instr@);
        let ghost before = out.deep_view();
        let mut closes = pos == n - 1;
        let mut counter: Option<FunctionId> = None;
        let added: i64 = match instr {
            Instr::Block { seq } | Instr::Loop { seq } => {
                closes = true;
                assert(f.seqs[*seq as int].ty == func.seqs[*seq as int].ty);
                match func.seqs[*seq].ty {
                    InstrSeqType::Simple(Some(_)) => instr_cost(instr, use_new_metering),
                    _ => 0,
                }
            },
            Instr::IfElse { .. }
            | Instr::Br { .. }
            | Instr::BrIf { .. }
            | Instr::BrTable { .. }
            | Instr::Return
            | Instr::Unreachable => {
                closes = true;
                instr_cost(instr, use_new_metering)
            },
            Instr::Call { func: callee } => {
                let (call_cost, kind) = func_cost.get_cost(*callee);
                match kind {
                    InjectionKind::Static => {},
                    InjectionKind::Dynamic => {
                        counter = Some(vars.dynamic_counter_func);
                    },
                    InjectionKind::Dynamic64 => {
                        counter = Some(vars.dynamic_counter64_func);
                    },
                }
                instr_cost(instr, use_new_metering) + call_cost
            },
            Instr::MemoryFill { .. }
            | Instr::MemoryCopy { .. }
            | Instr::MemoryInit { .. }
            | Instr::TableCopy { .. }
            | Instr::TableInit { .. } => {
                counter = Some(vars.dynamic_counter_func);
                instr_cost(instr, use_new_metering)
            },
            _ => instr_cost(instr, use_new_metering),
        };
        assert(added == c.added_cost(f, iv));
        assert(counter == c.counter_before(iv));
        assert(closes == (closes_window(iv) || pos == n - 1));
        assert(pos * 5300 + 5300 == (pos + 1) * 5300) by (nonlinear_arith);
        let sum = cost + added;
        match counter {
            Some(counter_func) => {
                out.push(Located { instr: Instr::Call { func: counter_func }, loc: DEFAULT_LOC });
            },
            None => {},
        }
        assert(out.deep_view() =~= before + c.dynamic_charge(iv));
        if closes {
            push_charge(&mut out, sum, vars, is_partial_tracing, Ghost(c));
            cost = 0;
        } else {
            cost = sum;
        }
        let ghost charged = out.deep_view();
        out.push(Located { instr: instr.duplicate(), loc: located.loc });
        assert(out.deep_view() =~= charged + seq![all[pos as int]]);
        proof {
            let rest = c.metered_from(f, all, pos + 1, cost as int);
            if closes {
                assert(c.metered_from(f, all, pos as int, (sum - added) as int)
                    == c.dynamic_charge(iv) + c.charge(sum as int) + seq![all[pos as int]] + rest);
                assert(out.deep_view() + rest =~= before + (c.dynamic_charge(iv) + c.charge(
                    sum as int,
                ) + seq![all[pos as int]] + rest));
            } else {
                assert(c.metered_from(f, all, pos as int, (sum - added) as int)
                    == c.dynamic_charge(iv) + seq![all[pos as int]] + rest);
                assert(out.deep_view() + rest =~= before + (c.dynamic_charge(iv) + seq![
                    all[pos as int],
                ] + rest));
            }
        }
        pos += 1;
    }
    let ghost before = out.deep_view();
    push_charge(&mut out, cost, vars, is_partial_tracing, Ghost(c));
    out
}

/// Meters the function: every sequence charges the cost of its
/// instructions to the counter, window by window, and the sequence `start`
/// one more for the call of the function.
pub fn inject_metering(
    func: &LocalFunction,
    start: InstrSeqId,
    vars: &Variables,
    func_cost: &FunctionCost,
    is_partial_tracing: bool,
    use_new_metering: bool,
) -> (r: LocalFunction)
    requires
        can_meter(func.deep_view()),
    ensures
        r.deep_view() == (Metering {
            vars: *vars,
            table: func_cost@,
            use_new_metering,
            is_partial_tracing,
        }).metered(func.deep_view(), start),
{
    let ghost c = Metering {
        vars: *vars,
        table: func_cost@,
        use_new_metering,
        is_partial_tracing,
    };
    let ghost f = func.deep_view();
    let mut seqs: Vec<InstrSeq> = Vec::new();
    let mut s: usize = 0;
    assert(seqs.deep_view() =~= c.metered(f, start).seqs.subrange(0, 0));
    while s < func.seqs.len()
        invariant
            s <= func.seqs.len(),
            f == func.deep_view(),
            can_meter(f),
            c == (Metering { vars: *vars, table: func_cost@, use_new_metering, is_partial_tracing }),
            seqs.deep_view() == c.metered(f, start).seqs.subrange(0, s as int),
        decreases func.seqs.len() - s,
    {
        let seq = &func.seqs[s];
        let first_cost: i64 = if s == start {
            1
        } else {
            0
        };
        proof {
            assert(f.seqs[s as int] == seq.deep_view());
            assert forall|k: int| 0 <= k < seq.instrs.len() implies match (
            #[trigger] seq.instrs.deep_view()[k]).instr {
                InstrView::Block { seq } | InstrView::Loop { seq } => seq < f.seqs.len()
                    && f.seqs[seq as int].ty is Simple,
                _ => true,
            } by {
                assert(seq.instrs.deep_view()[k] == f.seqs[s as int].instrs[k]);
            }
            if seq.instrs.len() > 0 {
                let witness = f.seqs[s as int].instrs[0];
            }
        }
        let instrs = meter_instrs(
            func,
            &seq.instrs,
            first_cost,
            vars,
            func_cost,
            is_partial_tracing,
            use_new_metering,
            Ghost(c),
        );
        let ghost before = seqs.deep_view();
        seqs.push(InstrSeq { ty: seq.ty, instrs });
        proof {
            assert(seqs.deep_view() =~= before.push(c.metered_seq(f, start, s as int)));
            assert(seqs.deep_view() =~= c.metered(f, start).seqs.subrange(0, s + 1));
        }
        s += 1;
    }
    assert(seqs.deep_view() =~= c.metered(f, start).seqs);
    LocalFunction { ty: func.ty, args: crate::ir::copy_ids(&func.args), seqs, entry: func.entry }
}

/// The branch target `b` once the body of the function has moved from the
/// sequence `start` to the sequence `inner`.
pub open spec fn retarget(b: InstrSeqId, start: InstrSeqId, inner: InstrSeqId) -> InstrSeqId {
    if b == start {
        inner
    } else {
        b
    }
}

/// The instruction once the body of the function has moved from the sequence
/// `start` to the sequence `inner`: a return becomes a branch out of
/// `inner`, and a branch out of `start` one out of `inner`.
pub open spec fn redirect_instr(i: LocatedView, start: InstrSeqId, inner: InstrSeqId) -> LocatedView {
    LocatedView {
        instr: match i.instr {
            InstrView::Return => br(inner),
            InstrView::Br { block } => br(retarget(block, start, inner)),
            InstrView::BrIf { block } => br_if(retarget(block, start, inner)),
            InstrView::BrTable { blocks, default } => InstrView::BrTable {
                blocks: Seq::new(blocks.len(), |k: int| retarget(blocks[k], start, inner)),
                default: retarget(default, start, inner),
            },
            other => other,
        },
        loc: i.loc,
    }
}

/// The instructions, each redirected.
pub open spec fn redirect_instrs(instrs: Seq<LocatedView>, start: InstrSeqId, inner: InstrSeqId) -> Seq<
    LocatedView,
> {
    Seq::new(instrs.len(), |k: int| redirect_instr(instrs[k], start, inner))
}

/// The type of a block that holds the body of `f`: the one result of the
/// function, or none.
pub open spec fn body_type(types: Seq<FuncTypeView>, f: LocalFunctionView) -> InstrSeqType {
    match f.seqs[f.entry as int].ty {
        InstrSeqType::MultiValue(t) => InstrSeqType::Simple(
            if types[t as int].results.len() == 0 {
                None
            } else {
                Some(types[t as int].results[0])
            },
        ),
        simple => simple,
    }
}

/// What the entry sequence of a traced function holds: the entry is logged
/// with the function's number, the body runs in the block `inner`, and the
/// exit is logged with the negative of the number. Under partial tracing,
/// tracing is on from the entry to the exit.
pub open spec fn trace_code(
    id: FunctionId,
    printer: FunctionId,
    inner: InstrSeqId,
    is_partial_tracing: bool,
    is_init: GlobalId,
) -> Seq<InstrView> {
    (if is_partial_tracing {
        seq![i32_const(0), global_set(is_init)]
    } else {
        Seq::empty()
    }) + seq![
        i32_const(id as i32),
        call(printer),
        block(inner),
        i32_const((-(id as i32)) as i32),
        call(printer),
    ] + (if is_partial_tracing {
        seq![i32_const(1), global_set(is_init)]
    } else {
        Seq::empty()
    })
}

/// The function `id` with its entry and exit logged: its body moves to a
/// new sequence, the last one, and every return and every branch out of the
/// old entry sequence leaves that new sequence instead, so that the exit is
/// logged on every way out.
pub open spec fn traced(
    types: Seq<FuncTypeView>,
    printer: FunctionId,
    id: FunctionId,
    f: LocalFunctionView,
    is_partial_tracing: bool,
    is_init: GlobalId,
) -> LocalFunctionView {
    let start = f.entry;
    let inner = f.seqs.len() as usize;
    LocalFunctionView {
        seqs: Seq::new(
            f.seqs.len() + 1,
            |s: int|
                if s == start {
                    seq_of(
                        f.seqs[s].ty,
                        trace_code(id, printer, inner, is_partial_tracing, is_init),
                    )
                } else if s == inner {
                    InstrSeqView {
                        ty: body_type(types, f),
                        instrs: redirect_instrs(f.seqs[start as int].instrs, start, inner),
                    }
                } else {
                    InstrSeqView {
                        ty: f.seqs[s].ty,
                        instrs: redirect_instrs(f.seqs[s].instrs, start, inner),
                    }
                },
        ),
        ..f
    }
}

/// What tracing asks of function `id`: its number fits in an `i32`, and its
/// entry sequence has the type of a function entry, with at most one result.
pub open spec fn can_trace(types: Seq<FuncTypeView>, id: FunctionId, f: LocalFunctionView) -> bool {
    &&& id <= i32::MAX
    &&& f.entry < f.seqs.len() < usize::MAX
    &&& f.seqs[f.entry as int].ty matches InstrSeqType::MultiValue(t) && t < types.len()
        && types[t as int].results.len() <= 1
}

/// Whether function `id` can be traced.
pub fn check_tracing(types: &Vec<FuncType>, id: FunctionId, f: &LocalFunction) -> (ok: bool)
    ensures
        ok == can_trace(types.deep_view(), id, f.deep_view()),
{
    if id > i32::MAX as usize || f.entry >= f.seqs.len() || f.seqs.len() == usize::MAX {
        return false;
    }
    assert(f.deep_view().seqs[f.entry as int].ty == f.seqs[f.entry as int].ty);
    match f.seqs[f.entry].ty {
        InstrSeqType::MultiValue(t) => {
            if t < types.len() {
                assert(types.deep_view()[t as int].results == types[t as int].results@);
                types[t].results.len() <= 1
            } else {
                false
            }
        },
        _ => false,
    }
}

fn redirected_instrs(instrs: &Vec<Located>, start: InstrSeqId, inner: InstrSeqId) -> (out: Vec<
    Located,
>)
    ensures
        out.deep_view() == redirect_instrs(instrs.deep_view(), start, inner),
{
    let mut out: Vec<Located> = Vec::new();
    let mut k: usize = 0;
    assert(out.deep_view() =~= redirect_instrs(instrs.deep_view(), start, inner).subrange(0, 0));
    while k < instrs.len()
        invariant
            k <= instrs.len(),
            out.deep_view() == redirect_instrs(instrs.deep_view(), start, inner).subrange(
                0,
                k as int,
            ),
        decreases instrs.len() - k,
    {
        let located = &instrs[k];
        let instr = match &located.instr {
            Instr::Return => Instr::Br { block: inner },
            Instr::Br { block } => Instr::Br {
                block: if *block == start {
                    inner
                } else {
                    *block
                },
            },
            Instr::BrIf { block } => Instr::BrIf {
                block: if *block == start {
                    inner
                } else {
                    *block
                },
            },
            Instr::BrTable { blocks, default } => {
                let mut targets: Vec<InstrSeqId> = Vec::new();
                let mut j: usize = 0;
                while j < blocks.len()
                    invariant
                        j <= blocks.len(),
                        targets@ == Seq::new(j as nat, |t: int| retarget(blocks@[t], start, inner)),
                    decreases blocks.len() - j,
                {
                    targets.push(
                        if blocks[j] == start {
                            inner
                        } else {
                            blocks[j]
                        },
                    );
                    assert(targets@ =~= Seq::new(
                        (j + 1) as nat,
                        |t: int| retarget(blocks@[t], start, inner),
                    ));
                    j += 1;
                }
                Instr::BrTable {
                    blocks: targets,
                    default: if *default == start {
                        inner
                    } else {
                        *default
                    },
                }
            },
            other => other.duplicate(),
        };
        let ghost before = out.deep_view();
        let ghost added = redirect_instr(located.deep_view(), start, inner);
        assert(instr@ == added.instr);
        out.push(Located { instr, loc: located.loc });
        proof {
            assert(instrs.deep_view()[k as int] == located.deep_view());
            assert(out.deep_view() =~= before.push(added));
            assert(out.deep_view() =~= redirect_instrs(
                instrs.deep_view(),
                start,
                inner,
            ).subrange(0, k + 1));
        }
        k += 1;
    }
    assert(out.deep_view() =~= redirect_instrs(instrs.deep_view(), start, inner));
    out
}

/// Makes function `id` log its entry and its exit: the body goes into a
/// block of its own, so that a return or a branch out of the function still
/// passes the instructions that log the exit.
pub fn inject_profiling_prints(
    types: &Vec<FuncType>,
    printer: FunctionId,
    id: FunctionId,
    func: &LocalFunction,
    is_partial_tracing: bool,
    vars: &Variables,
) -> (r: LocalFunction)
    requires
        can_trace(types.deep_view(), id, func.deep_view()),
    ensures
        r.deep_view() == traced(
            types.deep_view(),
            printer,
            id,
            func.deep_view(),
            is_partial_tracing,
            vars.is_init,
        ),
{
    let ghost f = func.deep_view();
    let ghost want = traced(types.deep_view(), printer, id, f, is_partial_tracing, vars.is_init);
    let start_id = func.entry;
    let inner_start_id = func.seqs.len();
    assert(f.seqs[start_id as int].ty == func.seqs[start_id as int].ty);
    let start_ty = match func.seqs[start_id].ty {
        InstrSeqType::MultiValue(t) => {
            assert(types.deep_view()[t as int].results == types[t as int].results@);
            let results = &types[t].results;
            InstrSeqType::Simple(
                if results.len() == 0 {
                    None
                } else {
                    Some(results[0])
                },
            )
        },
        InstrSeqType::Simple(x) => InstrSeqType::Simple(x),
    };
    let mut start_builder = InstrSeqBuilder::new();
    if is_partial_tracing {
        start_builder.i32_const(0);
        start_builder.global_set(vars.is_init);
    }
    start_builder.i32_const(id as i32);
    start_builder.call(printer);
    start_builder.block(inner_start_id);
    start_builder.i32_const(-(id as i32));
    start_builder.call(printer);
    if is_partial_tracing {
        start_builder.i32_const(1);
        start_builder.global_set(vars.is_init);
    }
    assert(start_builder@ =~= trace_code(
        id,
        printer,
        inner_start_id,
        is_partial_tracing,
        vars.is_init,
    ));
    let mut outer: Option<InstrSeq> = Some(start_builder.finish(func.seqs[start_id].ty));
    let mut seqs: Vec<InstrSeq> = Vec::new();
    let mut s: usize = 0;
    assert(seqs.deep_view() =~= want.seqs.subrange(0, 0));
    while s < func.seqs.len()
        invariant
            s <= func.seqs.len(),
            f == func.deep_view(),
            start_id == func.entry,
            start_id < func.seqs.len(),
            inner_start_id == func.seqs.len(),
            want == traced(types.deep_view(), printer, id, f, is_partial_tracing, vars.is_init),
            s <= start_id ==> (outer matches Some(o) && o.deep_view()
                == want.seqs[start_id as int]),
            seqs.deep_view() == want.seqs.subrange(0, s as int),
        decreases func.seqs.len() - s,
    {
        let ghost before = seqs.deep_view();
        assert(f.seqs[s as int] == func.seqs[s as int].deep_view());
        if s == start_id {
            match outer.take() {
                Some(o) => {
                    seqs.push(o);
                },
                None => {},
            }
        } else {
            let seq = &func.seqs[s];
            seqs.push(
                InstrSeq {
                    ty: seq.ty,
                    instrs: redirected_instrs(&seq.instrs, start_id, inner_start_id),
                },
            );
        }
        assert(seqs.deep_view() =~= before.push(want.seqs[s as int]));
        assert(seqs.deep_view() =~= want.seqs.subrange(0, s + 1));
        s += 1;
    }
    let ghost before = seqs.deep_view();
    assert(f.seqs[start_id as int] == func.seqs[start_id as int].deep_view());
    seqs.push(
        InstrSeq {
            ty: start_ty,
            instrs: redirected_instrs(&func.seqs[start_id].instrs, start_id, inner_start_id),
        },
    );
    assert(seqs.deep_view() =~= before.push(want.seqs[inner_start_id as int]));
    assert(seqs.deep_view() =~= want.seqs);
    LocalFunction { ty: func.ty, args: crate::ir::copy_ids(&func.args), seqs, entry: func.entry }
}

/// The load of an `i32` from the address on the stack.
pub open spec fn load_i32(memory: MemoryId) -> InstrView {
    load(memory, LoadKind::I32 { atomic: false }, 4)
}

/// The load of an `i64` from the address on the stack.
pub open spec fn load_i64(memory: MemoryId) -> InstrView {
    load(memory, LoadKind::I64 { atomic: false }, 8)
}

/// The store of an `i32` to the address below it on the stack.
pub open spec fn store_i32(memory: MemoryId) -> InstrView {
    store(memory, StoreKind::I32 { atomic: false }, 4)
}

/// The store of an `i64` to the address below it on the stack.
pub open spec fn store_i64(memory: MemoryId) -> InstrView {
    store(memory, StoreKind::I64 { atomic: false }, 8)
}

fn push_load_i32(b: &mut InstrSeqBuilder, memory: MemoryId)
    ensures
        final(b)@ == old(b)@.push(load_i32(memory)),
{
    b.load(memory, LoadKind::I32 { atomic: false }, 4);
}

fn push_load_i64(b: &mut InstrSeqBuilder, memory: MemoryId)
    ensures
        final(b)@ == old(b)@.push(load_i64(memory)),
{
    b.load(memory, LoadKind::I64 { atomic: false }, 8);
}

fn push_store_i32(b: &mut InstrSeqBuilder, memory: MemoryId)
    ensures
        final(b)@ == old(b)@.push(store_i32(memory)),
{
    b.store(memory, StoreKind::I32 { atomic: false }, 4);
}

fn push_store_i64(b: &mut InstrSeqBuilder, memory: MemoryId)
    ensures
        final(b)@ == old(b)@.push(store_i64(memory)),
{
    b.store(memory, StoreKind::I64 { atomic: false }, 8);
}

/// What the function that writes to the log is built from: the system
/// functions, the locals of its three arguments, which follow one another
/// from `offset` on (the offset in the log, the address of the bytes in the
/// heap, their number), and the configuration.
pub struct Writer {
    pub stable_write: FunctionId,
    pub stable_grow: FunctionId,
    pub offset: LocalId,
    pub vars: Variables,
    pub config: ConfigView,
}

impl Writer {
    /// The local that holds where in the heap the bytes to write are.
    pub open spec fn src(self) -> LocalId {
        (self.offset + 1) as usize
    }

    /// The local that holds how many bytes are to be written.
    pub open spec fn size(self) -> LocalId {
        (self.offset + 2) as usize
    }

    /// The bytes that the log may take: the region set aside, or the pages
    /// taken so far without the metadata.
    pub open spec fn capacity_code(self) -> Seq<InstrView> {
        if self.config.is_preallocated() {
            seq![i32_const((self.config.page_limit() * 65536) as i32)]
        } else {
            seq![
                global_get(self.vars.page_size),
                i32_const(65536),
                binop(BinaryOp::I32Mul),
                i32_const(METADATA_SIZE),
                binop(BinaryOp::I32Sub),
            ]
        }
    }

    /// The entry sequence: where the bytes would go beyond the capacity,
    /// sequence 1 makes room or returns; then the bytes are written after
    /// the metadata and the entry is counted.
    pub open spec fn entry_code(self) -> Seq<InstrView> {
        seq![local_get(self.offset), local_get(self.size()), binop(BinaryOp::I32Add)]
            + self.capacity_code() + seq![
            binop(BinaryOp::I32GtS),
            if_else(1, 2),
            i32_const(self.config.log_start_address() as i32),
            local_get(self.offset),
            binop(BinaryOp::I32Add),
            local_get(self.src()),
            local_get(self.size()),
            call(self.stable_write),
            global_get(self.vars.log_size),
            i32_const(1),
            binop(BinaryOp::I32Add),
            global_set(self.vars.log_size),
        ]
    }

    /// Sequence 1, for a log that is full: a region set aside is not left,
    /// so the entry is dropped; otherwise sequence 3 drops it once the log
    /// has `DEFAULT_PAGE_LIMIT` pages or more, and sequence 4 grows stable
    /// memory by a page while it has fewer.
    pub open spec fn full_code(self) -> Seq<InstrView> {
        if self.config.is_preallocated() {
            seq![InstrView::Return]
        } else {
            seq![
                global_get(self.vars.page_size),
                i32_const(DEFAULT_PAGE_LIMIT),
                binop(BinaryOp::I32GeS),
                if_else(3, 4),
            ]
        }
    }

    /// Sequence 4: stable memory grows by a page, which is counted.
    pub open spec fn grow_code(self) -> Seq<InstrView> {
        seq![
            i32_const(1),
            call(self.stable_grow),
            InstrView::Drop,
            global_get(self.vars.page_size),
            i32_const(1),
            binop(BinaryOp::I32Add),
            global_set(self.vars.page_size),
        ]
    }

    /// The sequences of the writer.
    pub open spec fn body(self, entry_ty: TypeId) -> Seq<InstrSeqView> {
        let head = seq![
            seq_of(InstrSeqType::MultiValue(entry_ty), self.entry_code()),
            seq_of(InstrSeqType::Simple(None), self.full_code()),
            seq_of(InstrSeqType::Simple(None), Seq::empty()),
        ];
        if self.config.is_preallocated() {
            head
        } else {
            head + seq![
                seq_of(InstrSeqType::Simple(None), seq![InstrView::Return]),
                seq_of(InstrSeqType::Simple(None), self.grow_code()),
            ]
        }
    }
}

/// The module with the function that writes to the log.
pub open spec fn with_stable_writer(m: ModuleView, vars: Variables, config: ConfigView) -> ModuleView {
    let m1 = with_ic_import(m, "stable_write"@);
    let m2 = with_ic_import(m1, "stable_grow"@);
    let params = seq![ValType::I32, ValType::I32, ValType::I32];
    let m3 = m2.with_signature(params, Seq::empty());
    let offset = m3.locals.len() as usize;
    let w = Writer {
        stable_write: ic_import_id(m, "stable_write"@),
        stable_grow: ic_import_id(m1, "stable_grow"@),
        offset,
        vars,
        config,
    };
    m3.with_locals(ValType::I32, 3).with_local_func(
        None,
        m2.signature_ty(params, Seq::empty()),
        seq![offset, w.src(), w.size()],
        w.body(m2.signature_entry_ty(params, Seq::empty())),
    )
}

/// Adds the function that writes `size` bytes from the heap at `src` to the
/// log at `offset`, and gives its id. An entry that does not fit is dropped.
pub fn make_stable_writer(m: &mut Module, vars: &Variables, config: &Config) -> (id: FunctionId)
    requires
        config@.wf(),
        old(m)@.ic0_imports_are_functions(),
        old(m)@.locals.len() + 3 <= usize::MAX,
    ensures
        preserves(old(m)@, final(m)@),
        same_funcs(old(m)@, final(m)@),
        final(m)@ == with_stable_writer(old(m)@, *vars, config@),
        id == with_ic_import(with_ic_import(old(m)@, "stable_write"@), "stable_grow"@).funcs.len(),
        final(m)@.ic0_imports_are_functions(),
        extends(old(m)@, final(m)@),
        id + 1 == final(m)@.funcs.len(),
        forall|f: int| old(m)@.funcs.len() <= f < id ==> !((#[trigger] final(m)@.funcs[f]).kind is Local),
        final(m)@.exports == old(m)@.exports,
        final(m)@.locals.len() == old(m)@.locals.len() + 3,
        final(m)@.globals == old(m)@.globals,
{
    let writer = get_ic_func_id(m, "stable_write");
    let grow = get_ic_func_id(m, "stable_grow");
    let (ty, entry_ty) = m.add_signature(
        list3(ValType::I32, ValType::I32, ValType::I32).as_slice(),
        no_types().as_slice(),
    );
    let start_address = config.log_start_address();
    let size_limit = config.page_limit() * 65536;
    let is_preallocated = config.is_preallocated();
    let offset = m.add_locals(ValType::I32, 3);
    let src = offset + 1;
    let size = offset + 2;
    let ghost w = Writer {
        stable_write: writer,
        stable_grow: grow,
        offset,
        vars: *vars,
        config: config@,
    };
    let mut entry = InstrSeqBuilder::new();
    entry.local_get(offset);
    entry.local_get(size);
    entry.binop(BinaryOp::I32Add);
    if is_preallocated {
        entry.i32_const(size_limit);
    } else {
        entry.global_get(vars.page_size);
        entry.i32_const(65536);
        entry.binop(BinaryOp::I32Mul);
        entry.i32_const(METADATA_SIZE);
        entry.binop(BinaryOp::I32Sub);
    }
    entry.binop(BinaryOp::I32GtS);
    entry.if_else(1, 2);
    entry.i32_const(start_address);
    entry.local_get(offset);
    entry.binop(BinaryOp::I32Add);
    entry.local_get(src);
    entry.local_get(size);
    entry.call(writer);
    entry.global_get(vars.log_size);
    entry.i32_const(1);
    entry.binop(BinaryOp::I32Add);
    entry.global_set(vars.log_size);
    assert(entry@ =~= w.entry_code());
    let mut full = InstrSeqBuilder::new();
    let mut seqs: Vec<InstrSeq> = Vec::new();
    if is_preallocated {
        full.return_();
        assert(full@ =~= w.full_code());
        seqs.push(entry.finish(InstrSeqType::MultiValue(entry_ty)));
        seqs.push(full.finish(InstrSeqType::Simple(None)));
        seqs.push(InstrSeqBuilder::new().finish(InstrSeqType::Simple(None)));
    } else {
        full.global_get(vars.page_size);
        full.i32_const(DEFAULT_PAGE_LIMIT);
        full.binop(BinaryOp::I32GeS);
        full.if_else(3, 4);
        assert(full@ =~= w.full_code());
        let mut stop = InstrSeqBuilder::new();
        stop.return_();
        let mut grow_page = InstrSeqBuilder::new();
        grow_page.i32_const(1);
        grow_page.call(grow);
        grow_page.drop();
        grow_page.global_get(vars.page_size);
        grow_page.i32_const(1);
        grow_page.binop(BinaryOp::I32Add);
        grow_page.global_set(vars.page_size);
        assert(grow_page@ =~= w.grow_code());
        seqs.push(entry.finish(InstrSeqType::MultiValue(entry_ty)));
        seqs.push(full.finish(InstrSeqType::Simple(None)));
        seqs.push(InstrSeqBuilder::new().finish(InstrSeqType::Simple(None)));
        seqs.push(stop.finish(InstrSeqType::Simple(None)));
        seqs.push(grow_page.finish(InstrSeqType::Simple(None)));
    }
    assert(seqs.deep_view() =~= w.body(entry_ty));
    m.add_local_func(None, ty, list3(offset, src, size), seqs)
}

/// The body of the function that logs one event: with tracing off nothing
/// happens. Otherwise the first twelve bytes of the heap are saved in the
/// locals `a` and `b`, which follow the argument `func_id`; the event, that
/// is the function's number and the counter, is put there and handed to the
/// writer; and the twelve bytes are restored.
pub open spec fn printer_code(
    memory: MemoryId,
    vars: Variables,
    writer: FunctionId,
    func_id: LocalId,
) -> Seq<InstrView> {
    let a = (func_id + 1) as usize;
    let b = (func_id + 2) as usize;
    seq![
        i32_const(0),
        load_i32(memory),
        local_set(a),
        i32_const(4),
        load_i64(memory),
        local_set(b),
        i32_const(0),
        local_get(func_id),
        store_i32(memory),
        i32_const(4),
        global_get(vars.total_counter),
        store_i64(memory),
        global_get(vars.log_size),
        i32_const(LOG_ITEM_SIZE),
        binop(BinaryOp::I32Mul),
        i32_const(0),
        i32_const(LOG_ITEM_SIZE),
        call(writer),
        i32_const(0),
        local_get(a),
        store_i32(memory),
        i32_const(4),
        local_get(b),
        store_i64(memory),
    ]
}

/// The module with the function that logs one event.
pub open spec fn with_printer(m: ModuleView, vars: Variables, writer: FunctionId) -> ModuleView {
    let params = seq![ValType::I32];
    let m1 = m.with_signature(params, Seq::empty());
    let func_id = m1.locals.len() as usize;
    m1.with_local(ValType::I32).with_local(ValType::I32).with_local(ValType::I64).with_local_func(
        None,
        m.signature_ty(params, Seq::empty()),
        seq![func_id],
        seq![
            seq_of(
                InstrSeqType::MultiValue(m.signature_entry_ty(params, Seq::empty())),
                seq![global_get(vars.is_init), if_else(1, 2)],
            ),
            seq_of(InstrSeqType::Simple(None), seq![InstrView::Return]),
            seq_of(InstrSeqType::Simple(None), printer_code(0, vars, writer, func_id)),
        ],
    )
}

/// Adds the function that logs one event, the number of a function with the
/// counter, and gives its id.
pub fn make_printer(m: &mut Module, vars: &Variables, writer: FunctionId) -> (id: FunctionId)
    requires
        old(m)@.memories.len() >= 1,
        old(m)@.locals.len() + 3 <= usize::MAX,
    ensures
        preserves(old(m)@, final(m)@),
        same_funcs(old(m)@, final(m)@),
        final(m)@ == with_printer(old(m)@, *vars, writer),
        id == old(m)@.funcs.len(),
{
    let memory = get_memory_id(m);
    let (ty, entry_ty) = m.add_signature(list1(ValType::I32).as_slice(), no_types().as_slice());
    let func_id = m.add_local(ValType::I32);
    let a = m.add_local(ValType::I32);
    let b = m.add_local(ValType::I64);
    let mut entry = InstrSeqBuilder::new();
    entry.global_get(vars.is_init);
    entry.if_else(1, 2);
    assert(entry@ =~= seq![global_get(vars.is_init), if_else(1, 2)]);
    let mut then = InstrSeqBuilder::new();
    then.return_();
    let mut else_ = InstrSeqBuilder::new();
    else_.i32_const(0);
    push_load_i32(&mut else_, memory);
    else_.local_set(a);
    else_.i32_const(4);
    push_load_i64(&mut else_, memory);
    else_.local_set(b);
    else_.i32_const(0);
    else_.local_get(func_id);
    push_store_i32(&mut else_, memory);
    else_.i32_const(4);
    else_.global_get(vars.total_counter);
    push_store_i64(&mut else_, memory);
    else_.global_get(vars.log_size);
    else_.i32_const(LOG_ITEM_SIZE);
    else_.binop(BinaryOp::I32Mul);
    else_.i32_const(0);
    else_.i32_const(LOG_ITEM_SIZE);
    else_.call(writer);
    else_.i32_const(0);
    else_.local_get(a);
    push_store_i32(&mut else_, memory);
    else_.i32_const(4);
    else_.local_get(b);
    push_store_i64(&mut else_, memory);
    assert(else_@ =~= printer_code(memory, *vars, writer, func_id));
    let seqs = list3(
        entry.finish(InstrSeqType::MultiValue(entry_ty)),
        then.finish(InstrSeqType::Simple(None)),
        else_.finish(InstrSeqType::Simple(None)),
    );
    proof {
        lemma_deep_view3(seqs);
    }
    m.add_local_func(None, ty, list1(func_id), seqs)
}

/// Whether an export of this name is an entry point at which the log starts
/// anew: update, query and composite query methods, the heartbeat and the
/// hook before an upgrade, but not the helper of Motoko.
pub open spec fn is_entry_point(name: Seq<char>) -> bool {
    name != "canister_update __motoko_async_helper"@ && ("canister_update"@.is_prefix_of(name)
        || "canister_query"@.is_prefix_of(name) || "canister_composite_query"@.is_prefix_of(name)
        || "canister_heartbeat"@.is_prefix_of(name) || name == "canister_pre_upgrade"@)
}

/// The functions exported as entry points, in the order of the exports.
pub open spec fn entry_points(exports: Seq<ExportView>) -> Seq<FunctionId>
    decreases exports.len(),
{
    if exports.len() == 0 {
        Seq::empty()
    } else {
        let rest = entry_points(exports.drop_last());
        match exports.last().item {
            ExportItem::Function(id) => if is_entry_point(exports.last().name) {
                rest.push(id)
            } else {
                rest
            },
            _ => rest,
        }
    }
}

/// What an entry point begins with: the log is emptied unless `is_entry`
/// says to go on with it.
pub open spec fn reset_code(vars: Variables) -> Seq<InstrView> {
    seq![
        global_get(vars.is_entry),
        global_get(vars.log_size),
        binop(BinaryOp::I32Mul),
        global_set(vars.log_size),
    ]
}

/// The module with `reset_code` at the top of each of the functions `ids`,
/// once for each time a function is listed.
pub open spec fn with_resets(m: ModuleView, ids: Seq<FunctionId>, vars: Variables) -> ModuleView
    decreases ids.len(),
{
    if ids.len() == 0 {
        m
    } else {
        with_top(with_resets(m, ids.drop_last(), vars), ids.last(), reset_code(vars))
    }
}

/// Putting instructions at the top or at the end of a function leaves every
/// local function local, and the tables other than the functions as they
/// are.
pub proof fn lemma_with_top_keeps(m: ModuleView, id: FunctionId, instrs: Seq<InstrView>)
    requires
        is_local(m, id),
    ensures
        keeps_locals(m, with_top(m, id, instrs)),
        keeps_locals(m, with_bottom(m, id, instrs)),
        with_top(m, id, instrs).funcs.len() == m.funcs.len(),
        with_bottom(m, id, instrs).funcs.len() == m.funcs.len(),
{
}

/// Makes every entry point begin with emptying the log unless `is_entry`
/// says to go on with it.
pub fn inject_canister_methods(m: &mut Module, vars: &Variables)
    requires
        forall|k: int|
            0 <= k < entry_points(old(m)@.exports).len() ==> is_local(
                old(m)@,
                #[trigger] entry_points(old(m)@.exports)[k],
            ),
    ensures
        final(m)@.locals == old(m)@.locals,
        preserves(old(m)@, final(m)@),
        final(m)@ == with_resets(old(m)@, entry_points(old(m)@.exports), *vars),
{
    let mut methods: Vec<FunctionId> = Vec::new();
    let mut e: usize = 0;
    assert(m@.exports.subrange(0, 0) =~= Seq::empty());
    while e < m.exports.len()
        invariant
            e <= m.exports.len(),
            methods@ == entry_points(m@.exports.subrange(0, e as int)),
        decreases m.exports.len() - e,
    {
        let export = &m.exports[e];
        proof {
            assert(m@.exports.subrange(0, e + 1).drop_last() =~= m@.exports.subrange(0, e as int));
            assert(m@.exports.subrange(0, e + 1).last() == export.deep_view());
        }
        match export.item {
            ExportItem::Function(id) => {
                let name = export.name.as_str();
                if !str_eq(name, "canister_update __motoko_async_helper") && (starts_with(
                    name,
                    "canister_update",
                ) || starts_with(name, "canister_query") || starts_with(
                    name,
                    "canister_composite_query",
                ) || starts_with(name, "canister_heartbeat") || str_eq(
                    name,
                    "canister_pre_upgrade",
                )) {
                    methods.push(id);
                }
            },
            _ => {},
        }
        e += 1;
    }
    assert(m@.exports.subrange(0, e as int) =~= m@.exports);
    let mut k: usize = 0;
    assert(methods@.subrange(0, 0) =~= Seq::empty());
    while k < methods.len()
        invariant
            k <= methods.len(),
            methods@ == entry_points(old(m)@.exports),
            m@ == with_resets(old(m)@, methods@.subrange(0, k as int), *vars),
            keeps_locals(old(m)@, m@),
            preserves(old(m)@, m@),
            m@.locals == old(m)@.locals,
            forall|j: int| 0 <= j < methods@.len() ==> is_local(old(m)@, #[trigger] methods@[j]),
        decreases methods.len() - k,
    {
        let mut code = InstrSeqBuilder::new();
        code.global_get(vars.is_entry);
        code.global_get(vars.log_size);
        code.binop(BinaryOp::I32Mul);
        code.global_set(vars.log_size);
        assert(code@ =~= reset_code(*vars));
        proof {
            assert(is_local(old(m)@, methods@[k as int]));
            lemma_with_top_keeps(m@, methods@[k as int], reset_code(*vars));
            assert(methods@.subrange(0, k + 1).drop_last() =~= methods@.subrange(0, k as int));
        }
        let ghost before = m@;
        inject_top(m, methods[k], code);
        proof {
            lemma_preserves_trans(old(m)@, before, m@);
        }
        k += 1;
    }
    assert(methods@.subrange(0, k as int) =~= methods@);
}

/// What ends the initialisation of the canister: tracing is switched on.
pub open spec fn init_code(is_init: GlobalId) -> Seq<InstrView> {
    seq![i32_const(0), global_set(is_init)]
}

/// The module whose `canister_init` ends with switching tracing on.
pub open spec fn with_init(m: ModuleView, is_init: GlobalId) -> ModuleView {
    with_bottom(
        with_export_func(m, "canister_init"@),
        export_func_or_new(m, "canister_init"@),
        init_code(is_init),
    )
}

/// Makes `canister_init`, which is created if the module has none, end with
/// switching tracing on.
pub fn inject_init(m: &mut Module, is_init: GlobalId)
    requires
        export_is_local(old(m)@, "canister_init"@),
    ensures
        final(m)@.locals == old(m)@.locals,
        preserves(old(m)@, final(m)@),
        final(m)@ == with_init(old(m)@, is_init),
{
    let id = get_or_create_export_func(m, "canister_init");
    let mut code = InstrSeqBuilder::new();
    code.i32_const(0);
    code.global_set(is_init);
    assert(code@ =~= init_code(is_init));
    inject_bottom(m, id, code);
}

/// What `canister_pre_upgrade` ends with: the first 24 bytes of the heap are
/// saved in the locals `a` and the two after it, the globals are laid out
/// there and written to the metadata in stable memory, and the heap is
/// restored.
pub open spec fn pre_upgrade_code(
    memory: MemoryId,
    vars: Variables,
    writer: FunctionId,
    a: LocalId,
    metadata_start_address: i32,
) -> Seq<InstrView> {
    let b = (a + 1) as usize;
    let c = (a + 2) as usize;
    seq![
        i32_const(0),
        load_i64(memory),
        local_set(a),
        i32_const(8),
        load_i64(memory),
        local_set(b),
        i32_const(16),
        load_i64(memory),
        local_set(c),
        i32_const(0),
        global_get(vars.total_counter),
        store_i64(memory),
        i32_const(8),
        global_get(vars.log_size),
        store_i32(memory),
        i32_const(12),
        global_get(vars.page_size),
        store_i32(memory),
        i32_const(16),
        global_get(vars.is_init),
        store_i32(memory),
        i32_const(20),
        global_get(vars.is_entry),
        store_i32(memory),
        i32_const(metadata_start_address),
        i32_const(0),
        i32_const(METADATA_SIZE),
        call(writer),
        i32_const(0),
        local_get(a),
        store_i64(memory),
        i32_const(8),
        local_get(b),
        store_i64(memory),
        i32_const(16),
        local_get(c),
        store_i64(memory),
    ]
}

/// The module whose `canister_pre_upgrade` ends with saving the globals to
/// stable memory.
pub open spec fn with_pre_upgrade(m: ModuleView, vars: Variables, config: ConfigView) -> ModuleView {
    let m1 = with_ic_import(m, "stable_write"@);
    let a = m1.locals.len() as usize;
    let m2 = m1.with_locals(ValType::I64, 3);
    with_bottom(
        with_export_func(m2, "canister_pre_upgrade"@),
        export_func_or_new(m2, "canister_pre_upgrade"@),
        pre_upgrade_code(
            0,
            vars,
            ic_import_id(m, "stable_write"@),
            a,
            config.metadata_start_address(),
        ),
    )
}

fn pre_upgrade_instrs(memory: MemoryId, vars: &Variables, writer: FunctionId, a: LocalId, metadata_start_address: i32) -> (code: InstrSeqBuilder)
    requires
        a + 2 <= usize::MAX,
    ensures
        code@ == pre_upgrade_code(memory, *vars, writer, a, metadata_start_address),
{
    let b = a + 1;
    let c = a + 2;
    let mut code = InstrSeqBuilder::new();
    code.i32_const(0);
    push_load_i64(&mut code, memory);
    code.local_set(a);
    code.i32_const(8);
    push_load_i64(&mut code, memory);
    code.local_set(b);
    code.i32_const(16);
    push_load_i64(&mut code, memory);
    code.local_set(c);
    code.i32_const(0);
    code.global_get(vars.total_counter);
    push_store_i64(&mut code, memory);
    code.i32_const(8);
    code.global_get(vars.log_size);
    push_store_i32(&mut code, memory);
    code.i32_const(12);
    code.global_get(vars.page_size);
    push_store_i32(&mut code, memory);
    code.i32_const(16);
    code.global_get(vars.is_init);
    push_store_i32(&mut code, memory);
    code.i32_const(20);
    code.global_get(vars.is_entry);
    push_store_i32(&mut code, memory);
    code.i32_const(metadata_start_address);
    code.i32_const(0);
    code.i32_const(METADATA_SIZE);
    code.call(writer);
    code.i32_const(0);
    code.local_get(a);
    push_store_i64(&mut code, memory);
    code.i32_const(8);
    code.local_get(b);
    push_store_i64(&mut code, memory);
    code.i32_const(16);
    code.local_get(c);
    push_store_i64(&mut code, memory);
    assert(code@ =~= pre_upgrade_code(
        memory,
        *vars,
        writer,
        a,
        metadata_start_address,
    ));
    code
}

/// Makes `canister_pre_upgrade`, which is created if the module has none,
/// end with saving the globals to stable memory.
pub fn inject_pre_upgrade(m: &mut Module, vars: &Variables, config: &Config)
    requires
        old(m)@.ic0_imports_are_functions(),
        old(m)@.memories.len() >= 1,
        old(m)@.locals.len() + 3 <= usize::MAX,
        export_is_local(old(m)@, "canister_pre_upgrade"@),
    ensures
        final(m)@.locals.len() == old(m)@.locals.len() + 3,
        preserves(old(m)@, final(m)@),
        final(m)@ == with_pre_upgrade(old(m)@, *vars, config@),
        final(m)@.ic0_imports_are_functions(),
{
    let writer = get_ic_func_id(m, "stable_write");
    let memory = get_memory_id(m);
    let a = m.add_locals(ValType::I64, 3);
    let id = get_or_create_export_func(m, "canister_pre_upgrade");
    let code = pre_upgrade_instrs(memory, vars, writer, a, config.metadata_start_address());

    inject_bottom(m, id, code);
}

/// What `canister_post_upgrade` begins with: the first 24 bytes of the heap
/// are saved in the locals `a` and the two after it, the metadata is read
/// from stable memory and the globals are set from it, and the heap is
/// restored.
pub open spec fn post_upgrade_code(
    memory: MemoryId,
    vars: Variables,
    reader: FunctionId,
    a: LocalId,
    metadata_start_address: i32,
) -> Seq<InstrView> {
    let b = (a + 1) as usize;
    let c = (a + 2) as usize;
    seq![
        i32_const(0),
        load_i64(memory),
        local_set(a),
        i32_const(8),
        load_i64(memory),
        local_set(b),
        i32_const(16),
        load_i64(memory),
        local_set(c),
        i32_const(0),
        i32_const(metadata_start_address),
        i32_const(METADATA_SIZE),
        call(reader),
        i32_const(0),
        load_i64(memory),
        global_set(vars.total_counter),
        i32_const(8),
        load_i32(memory),
        global_set(vars.log_size),
        i32_const(12),
        load_i32(memory),
        global_set(vars.page_size),
        i32_const(16),
        load_i32(memory),
        global_set(vars.is_init),
        i32_const(20),
        load_i32(memory),
        global_set(vars.is_entry),
        i32_const(0),
        local_get(a),
        store_i64(memory),
        i32_const(8),
        local_get(b),
        store_i64(memory),
        i32_const(16),
        local_get(c),
        store_i64(memory),
    ]
}

/// The module whose `canister_post_upgrade` begins with restoring the
/// globals from stable memory.
pub open spec fn with_post_upgrade(m: ModuleView, vars: Variables, config: ConfigView) -> ModuleView {
    let m1 = with_ic_import(m, "stable_read"@);
    let a = m1.locals.len() as usize;
    let m2 = m1.with_locals(ValType::I64, 3);
    with_top(
        with_export_func(m2, "canister_post_upgrade"@),
        export_func_or_new(m2, "canister_post_upgrade"@),
        post_upgrade_code(
            0,
            vars,
            ic_import_id(m, "stable_read"@),
            a,
            config.metadata_start_address(),
        ),
    )
}

fn post_upgrade_instrs(memory: MemoryId, vars: &Variables, reader: FunctionId, a: LocalId, metadata_start_address: i32) -> (code: InstrSeqBuilder)
    requires
        a + 2 <= usize::MAX,
    ensures
        code@ == post_upgrade_code(memory, *vars, reader, a, metadata_start_address),
{
    let b = a + 1;
    let c = a + 2;
    let mut code = InstrSeqBuilder::new();
    code.i32_const(0);
    push_load_i64(&mut code, memory);
    code.local_set(a);
    code.i32_const(8);
    push_load_i64(&mut code, memory);
    code.local_set(b);
    code.i32_const(16);
    push_load_i64(&mut code, memory);
    code.local_set(c);
    code.i32_const(0);
    code.i32_const(metadata_start_address);
    code.i32_const(METADATA_SIZE);
    code.call(reader);
    code.i32_const(0);
    push_load_i64(&mut code, memory);
    code.global_set(vars.total_counter);
    code.i32_const(8);
    push_load_i32(&mut code, memory);
    code.global_set(vars.log_size);
    code.i32_const(12);
    push_load_i32(&mut code, memory);
    code.global_set(vars.page_size);
    code.i32_const(16);
    push_load_i32(&mut code, memory);
    code.global_set(vars.is_init);
    code.i32_const(20);
    push_load_i32(&mut code, memory);
    code.global_set(vars.is_entry);
    code.i32_const(0);
    code.local_get(a);
    push_store_i64(&mut code, memory);
    code.i32_const(8);
    code.local_get(b);
    push_store_i64(&mut code, memory);
    code.i32_const(16);
    code.local_get(c);
    push_store_i64(&mut code, memory);
    assert(code@ =~= post_upgrade_code(
        memory,
        *vars,
        reader,
        a,
        metadata_start_address,
    ));
    code
}

/// Makes `canister_post_upgrade`, which is created if the module has none,
/// begin with restoring the globals from stable memory.
pub fn inject_post_upgrade(m: &mut Module, vars: &Variables, config: &Config)
    requires
        old(m)@.ic0_imports_are_functions(),
        old(m)@.memories.len() >= 1,
        old(m)@.locals.len() + 3 <= usize::MAX,
        export_is_local(old(m)@, "canister_post_upgrade"@),
    ensures
        final(m)@.locals.len() == old(m)@.locals.len() + 3,
        preserves(old(m)@, final(m)@),
        final(m)@ == with_post_upgrade(old(m)@, *vars, config@),
        final(m)@.ic0_imports_are_functions(),
{
    let reader = get_ic_func_id(m, "stable_read");
    let memory = get_memory_id(m);
    let a = m.add_locals(ValType::I64, 3);
    let id = get_or_create_export_func(m, "canister_post_upgrade");
    let code = post_upgrade_instrs(memory, vars, reader, a, config.metadata_start_address());

    inject_top(m, id, code);
}

/// The store of the low byte of an `i32`.
pub open spec fn store_i32_8(memory: MemoryId) -> InstrView {
    store(memory, StoreKind::I32_8 { atomic: false }, 1)
}

/// What writes the low seven bits of the local `value` to the heap at
/// address `i`, with the bit that says that more bytes follow unless this is
/// the last of the five bytes, and shifts `value` right by seven bits.
pub open spec fn leb128_byte_code(memory: MemoryId, value: LocalId, i: int) -> Seq<InstrView> {
    seq![i32_const(i as i32), local_get(value), i32_const(0x7f), binop(BinaryOp::I32And)] + (
    if i < 4 {
        seq![i32_const(0x80), binop(BinaryOp::I32Or)]
    } else {
        Seq::empty()
    }) + seq![
        store_i32_8(memory),
        local_get(value),
        i32_const(7),
        binop(BinaryOp::I32ShrU),
        local_set(value),
    ]
}

/// What writes the first `n` bytes of the encoding.
pub open spec fn leb128_code(memory: MemoryId, value: LocalId, n: nat) -> Seq<InstrView>
    decreases n,
{
    if n == 0 {
        Seq::empty()
    } else {
        leb128_code(memory, value, (n - 1) as nat) + leb128_byte_code(memory, value, n - 1)
    }
}

/// The module with the function that writes its argument to the start of
/// the heap in LEB128, in five bytes whatever the number.
pub open spec fn with_leb128_encoder(m: ModuleView) -> ModuleView {
    let params = seq![ValType::I32];
    let m1 = m.with_signature(params, Seq::empty());
    let value = m1.locals.len() as usize;
    m1.with_local(ValType::I32).with_local_func(
        None,
        m.signature_ty(params, Seq::empty()),
        seq![value],
        seq![
            seq_of(
                InstrSeqType::MultiValue(m.signature_entry_ty(params, Seq::empty())),
                leb128_code(0, value, 5),
            ),
        ],
    )
}

/// Adds the function that writes an `i32` to the heap at addresses 0 to 4
/// in LEB128, and gives its id.
pub fn make_leb128_encoder(m: &mut Module) -> (id: FunctionId)
    requires
        old(m)@.memories.len() >= 1,
    ensures
        preserves(old(m)@, final(m)@),
        same_funcs(old(m)@, final(m)@),
        final(m)@ == with_leb128_encoder(old(m)@),
        id == old(m)@.funcs.len(),
{
    let memory = get_memory_id(m);
    let (ty, entry_ty) = m.add_signature(list1(ValType::I32).as_slice(), no_types().as_slice());
    let value = m.add_local(ValType::I32);
    let mut instrs = InstrSeqBuilder::new();
    let mut i: i32 = 0;
    while i < 5
        invariant
            0 <= i <= 5,
            instrs@ == leb128_code(memory, value, i as nat),
        decreases 5 - i,
    {
        let ghost before = instrs@;
        instrs.i32_const(i);
        instrs.local_get(value);
        instrs.i32_const(0x7f);
        instrs.binop(BinaryOp::I32And);
        if i < 4 {
            instrs.i32_const(0x80);
            instrs.binop(BinaryOp::I32Or);
        }
        instrs.store(memory, StoreKind::I32_8 { atomic: false }, 1);
        instrs.local_get(value);
        instrs.i32_const(7);
        instrs.binop(BinaryOp::I32ShrU);
        instrs.local_set(value);
        assert(instrs@ =~= before + leb128_byte_code(memory, value, i as int));
        i += 1;
    }
    let seqs = body_of(instrs.finish(InstrSeqType::MultiValue(entry_ty)));
    m.add_local_func(None, ty, list1(value), seqs)
}

/// What the endpoint that gives out the log is built from: the system
/// functions, the function that encodes a length, and the locals `idx` and
/// the two after it.
pub struct Getter {
    pub memory: MemoryId,
    pub arg_size: FunctionId,
    pub arg_copy: FunctionId,
    pub reply_data: FunctionId,
    pub reply: FunctionId,
    pub trap: FunctionId,
    pub reader: FunctionId,
    pub leb: FunctionId,
    pub idx: LocalId,
    pub log_size: GlobalId,
    pub log_start_address: i32,
}

impl Getter {
    /// The local that holds how many entries are replied.
    pub open spec fn len(self) -> LocalId {
        (self.idx + 1) as usize
    }

    /// The local that holds the index behind the last entry that is replied.
    pub open spec fn next_idx(self) -> LocalId {
        (self.idx + 2) as usize
    }

    /// The entry sequence. The heap is grown to 32 pages if it is smaller
    /// (sequence 1). The argument must take 11 bytes, else sequence 3 traps;
    /// its last four bytes are the index to start from. The header of the
    /// reply is sent: `DIDL`, the types of a vector of records of `int32`
    /// and `int64` and of an optional `nat32`, and the two argument types.
    /// The number of entries from the index on is capped (sequences 5 and
    /// 6), sent in five bytes, and the entries follow from stable memory.
    /// Last comes the index to go on from, if entries are left (sequences 7
    /// and 8).
    pub open spec fn entry_code(self) -> Seq<InstrView> {
        self.argument_code() + self.header_code() + self.count_code() + self.entries_code()
    }

    /// The heap is grown if it is small, and the index is taken from the
    /// argument.
    pub open spec fn argument_code(self) -> Seq<InstrView> {
        seq![
            InstrView::MemorySize { memory: self.memory },
            i32_const(32),
            binop(BinaryOp::I32LtU),
            if_else(1, 2),
            call(self.arg_size),
            i32_const(11),
            binop(BinaryOp::I32Ne),
            if_else(3, 4),
            i32_const(0),
            i32_const(7),
            i32_const(4),
            call(self.arg_copy),
            i32_const(0),
            load_i32(self.memory),
            local_set(self.idx),
        ]
    }

    /// The header of the reply is written and sent.
    pub open spec fn header_code(self) -> Seq<InstrView> {
        seq![
            i32_const(0),
            i64_const(0x6c016d034c444944),
            store_i64(self.memory),
            i32_const(8),
            i64_const(0x02756e7401750002),
            store_i64(self.memory),
            i32_const(16),
            i32_const(0x0200),
            store_i32(self.memory),
            i32_const(0),
            i32_const(18),
            call(self.reply_data),
        ]
    }

    /// The number of entries is capped and sent.
    pub open spec fn count_code(self) -> Seq<InstrView> {
        seq![
            global_get(self.log_size),
            local_get(self.idx),
            binop(BinaryOp::I32Sub),
            local_tee(self.len()),
            i32_const(MAX_ITEMS_PER_QUERY),
            binop(BinaryOp::I32GtU),
            if_else(5, 6),
            local_get(self.len()),
            call(self.leb),
            i32_const(0),
            i32_const(5),
            call(self.reply_data),
        ]
    }

    /// The entries are read from stable memory and sent, then the index to
    /// go on from, and the reply ends.
    pub open spec fn entries_code(self) -> Seq<InstrView> {
        seq![
            i32_const(0),
            i32_const(self.log_start_address),
            local_get(self.idx),
            i32_const(LOG_ITEM_SIZE),
            binop(BinaryOp::I32Mul),
            binop(BinaryOp::I32Add),
            local_get(self.len()),
            i32_const(LOG_ITEM_SIZE),
            binop(BinaryOp::I32Mul),
            call(self.reader),
            i32_const(0),
            local_get(self.len()),
            i32_const(LOG_ITEM_SIZE),
            binop(BinaryOp::I32Mul),
            call(self.reply_data),
            local_get(self.next_idx()),
            unop(UnaryOp::I32Eqz),
            if_else(7, 8),
            call(self.reply),
        ]
    }

    /// Sequence 1: the heap grows by 32 pages.
    pub open spec fn grow_code(self) -> Seq<InstrView> {
        seq![i32_const(32), InstrView::MemoryGrow { memory: self.memory }, InstrView::Drop]
    }

    /// Sequence 3: the call traps.
    pub open spec fn trap_code(self) -> Seq<InstrView> {
        seq![i32_const(0), i32_const(0), call(self.trap)]
    }

    /// Sequence 5: more entries are left than one reply takes.
    pub open spec fn capped_code(self) -> Seq<InstrView> {
        seq![
            i32_const(MAX_ITEMS_PER_QUERY),
            local_set(self.len()),
            local_get(self.idx),
            i32_const(MAX_ITEMS_PER_QUERY),
            binop(BinaryOp::I32Add),
            local_set(self.next_idx()),
        ]
    }

    /// Sequence 6: the reply takes all that is left.
    pub open spec fn all_code(self) -> Seq<InstrView> {
        seq![i32_const(0), local_set(self.next_idx())]
    }

    /// Sequence 7: no index to go on from.
    pub open spec fn none_code(self) -> Seq<InstrView> {
        seq![
            i32_const(0),
            i32_const(0),
            store_i32(self.memory),
            i32_const(0),
            i32_const(1),
            call(self.reply_data),
        ]
    }

    /// Sequence 8: the index to go on from.
    pub open spec fn some_code(self) -> Seq<InstrView> {
        seq![
            i32_const(0),
            i32_const(1),
            store(self.memory, StoreKind::I32 { atomic: false }, 1),
            i32_const(1),
            local_get(self.next_idx()),
            store_i32(self.memory),
            i32_const(0),
            i32_const(5),
            call(self.reply_data),
        ]
    }

    /// The sequences of the endpoint.
    pub open spec fn body(self, entry_ty: TypeId) -> Seq<InstrSeqView> {
        seq![
            seq_of(InstrSeqType::MultiValue(entry_ty), self.entry_code()),
            seq_of(InstrSeqType::Simple(None), self.grow_code()),
            seq_of(InstrSeqType::Simple(None), Seq::empty()),
            seq_of(InstrSeqType::Simple(None), self.trap_code()),
            seq_of(InstrSeqType::Simple(None), Seq::empty()),
            seq_of(InstrSeqType::Simple(None), self.capped_code()),
            seq_of(InstrSeqType::Simple(None), self.all_code()),
            seq_of(InstrSeqType::Simple(None), self.none_code()),
            seq_of(InstrSeqType::Simple(None), self.some_code()),
        ]
    }
}

/// The system functions that the endpoint for the log calls.
pub open spec fn getter_imports() -> Seq<Seq<char>> {
    seq![
        "msg_arg_data_size"@,
        "msg_arg_data_copy"@,
        "msg_reply_data_append"@,
        "msg_reply"@,
        "trap"@,
        "stable_read"@,
    ]
}

/// The module with the endpoint `__get_profiling`, which gives out the log
/// from an index on.
pub open spec fn with_stable_getter(
    m: ModuleView,
    vars: Variables,
    leb: FunctionId,
    config: ConfigView,
) -> ModuleView {
    let ids = ic_import_ids(m, getter_imports());
    let m1 = with_ic_imports(m, getter_imports());
    let idx = m1.locals.len() as usize;
    let m2 = m1.with_locals(ValType::I32, 3);
    let m3 = m2.with_signature(Seq::empty(), Seq::empty());
    let g = Getter {
        memory: 0,
        arg_size: ids[0],
        arg_copy: ids[1],
        reply_data: ids[2],
        reply: ids[3],
        trap: ids[4],
        reader: ids[5],
        leb,
        idx,
        log_size: vars.log_size,
        log_start_address: config.log_start_address() as i32,
    };
    m3.with_local_func(
        Some("__get_profiling"@),
        m2.signature_ty(Seq::empty(), Seq::empty()),
        Seq::empty(),
        g.body(m2.signature_entry_ty(Seq::empty(), Seq::empty())),
    ).with_export("canister_query __get_profiling"@, ExportItem::Function(m3.funcs.len() as usize))
}

fn getter_argument(memory: MemoryId, arg_size: FunctionId, arg_copy: FunctionId, idx: LocalId, Ghost(g): Ghost<Getter>) -> (b:
    InstrSeqBuilder)
    requires
        g.memory == memory && g.arg_size == arg_size && g.arg_copy == arg_copy && g.idx == idx,
    ensures
        b@ == g.argument_code(),
{
    let mut b = InstrSeqBuilder::new();
    b.instr(Instr::MemorySize { memory });
    b.i32_const(32);
    b.binop(BinaryOp::I32LtU);
    b.if_else(1, 2);
    b.call(arg_size);
    b.i32_const(11);
    b.binop(BinaryOp::I32Ne);
    b.if_else(3, 4);
    b.i32_const(0);
    b.i32_const(7);
    b.i32_const(4);
    b.call(arg_copy);
    b.i32_const(0);
    push_load_i32(&mut b, memory);
    b.local_set(idx);
    assert(b@ =~= g.argument_code());
    b
}

fn getter_header(memory: MemoryId, reply_data: FunctionId, Ghost(g): Ghost<Getter>) -> (b:
    InstrSeqBuilder)
    requires
        g.memory == memory && g.reply_data == reply_data,
    ensures
        b@ == g.header_code(),
{
    let mut b = InstrSeqBuilder::new();
    b.i32_const(0);
    b.i64_const(0x6c016d034c444944);
    push_store_i64(&mut b, memory);
    b.i32_const(8);
    b.i64_const(0x02756e7401750002);
    push_store_i64(&mut b, memory);
    b.i32_const(16);
    b.i32_const(0x0200);
    push_store_i32(&mut b, memory);
    b.i32_const(0);
    b.i32_const(18);
    b.call(reply_data);
    assert(b@ =~= g.header_code());
    b
}

fn getter_count(log_size: GlobalId, idx: LocalId, leb: FunctionId, reply_data: FunctionId, Ghost(g): Ghost<Getter>) -> (b:
    InstrSeqBuilder)
    requires
        idx + 2 <= usize::MAX,
        g.log_size == log_size && g.idx == idx && g.leb == leb && g.reply_data == reply_data,
    ensures
        b@ == g.count_code(),
{
    let len = idx + 1;
    let mut b = InstrSeqBuilder::new();
    b.global_get(log_size);
    b.local_get(idx);
    b.binop(BinaryOp::I32Sub);
    b.local_tee(len);
    b.i32_const(MAX_ITEMS_PER_QUERY);
    b.binop(BinaryOp::I32GtU);
    b.if_else(5, 6);
    b.local_get(len);
    b.call(leb);
    b.i32_const(0);
    b.i32_const(5);
    b.call(reply_data);
    assert(b@ =~= g.count_code());
    b
}

fn getter_entries(log_start_address: i32, idx: LocalId, reader: FunctionId, reply_data: FunctionId, reply: FunctionId, Ghost(g): Ghost<Getter>) -> (b:
    InstrSeqBuilder)
    requires
        idx + 2 <= usize::MAX,
        g.log_start_address == log_start_address && g.idx == idx && g.reader == reader
            && g.reply_data == reply_data && g.reply == reply,
    ensures
        b@ == g.entries_code(),
{
    let len = idx + 1;
    let next_idx = idx + 2;
    let mut b = InstrSeqBuilder::new();
    b.i32_const(0);
    b.i32_const(log_start_address);
    b.local_get(idx);
    b.i32_const(LOG_ITEM_SIZE);
    b.binop(BinaryOp::I32Mul);
    b.binop(BinaryOp::I32Add);
    b.local_get(len);
    b.i32_const(LOG_ITEM_SIZE);
    b.binop(BinaryOp::I32Mul);
    b.call(reader);
    b.i32_const(0);
    b.local_get(len);
    b.i32_const(LOG_ITEM_SIZE);
    b.binop(BinaryOp::I32Mul);
    b.call(reply_data);
    b.local_get(next_idx);
    b.unop(UnaryOp::I32Eqz);
    b.if_else(7, 8);
    b.call(reply);
    assert(b@ =~= g.entries_code());
    b
}

fn stable_getter_entry(
    memory: MemoryId,
    ids: &Vec<FunctionId>,
    leb: FunctionId,
    idx: LocalId,
    log_size: GlobalId,
    log_start_address: i32,
) -> (b: InstrSeqBuilder)
    requires
        ids@.len() == 6,
        idx + 2 <= usize::MAX,
    ensures
        b@ == (Getter {
            memory,
            arg_size: ids@[0],
            arg_copy: ids@[1],
            reply_data: ids@[2],
            reply: ids@[3],
            trap: ids@[4],
            reader: ids@[5],
            leb,
            idx,
            log_size,
            log_start_address,
        }).entry_code(),
{
    let ghost g = Getter {
        memory,
        arg_size: ids@[0],
        arg_copy: ids@[1],
        reply_data: ids@[2],
        reply: ids@[3],
        trap: ids@[4],
        reader: ids@[5],
        leb,
        idx,
        log_size,
        log_start_address,
    };
    let mut b = getter_argument(memory, ids[0], ids[1], idx, Ghost(g));
    b.extend(getter_header(memory, ids[2], Ghost(g)));
    b.extend(getter_count(log_size, idx, leb, ids[2], Ghost(g)));
    b.extend(getter_entries(log_start_address, idx, ids[5], ids[2], ids[3], Ghost(g)));
    b
}

fn stable_getter_body(
    memory: MemoryId,
    ids: &Vec<FunctionId>,
    leb: FunctionId,
    idx: LocalId,
    log_size: GlobalId,
    log_start_address: i32,
    entry_ty: TypeId,
) -> (seqs: Vec<InstrSeq>)
    requires
        ids@.len() == 6,
        idx + 2 <= usize::MAX,
    ensures
        seqs.deep_view() == (Getter {
            memory,
            arg_size: ids@[0],
            arg_copy: ids@[1],
            reply_data: ids@[2],
            reply: ids@[3],
            trap: ids@[4],
            reader: ids@[5],
            leb,
            idx,
            log_size,
            log_start_address,
        }).body(entry_ty),
{
    let ghost g = Getter {
        memory,
        arg_size: ids@[0],
        arg_copy: ids@[1],
        reply_data: ids@[2],
        reply: ids@[3],
        trap: ids@[4],
        reader: ids@[5],
        leb,
        idx,
        log_size,
        log_start_address,
    };
    let reply_data = ids[2];
    let trap = ids[4];
    let len = idx + 1;
    let next_idx = idx + 2;
    let entry = stable_getter_entry(memory, ids, leb, idx, log_size, log_start_address);
    let mut grow = InstrSeqBuilder::new();
    grow.i32_const(32);
    grow.instr(Instr::MemoryGrow { memory });
    grow.drop();
    assert(grow@ =~= g.grow_code());
    let mut bad = InstrSeqBuilder::new();
    bad.i32_const(0);
    bad.i32_const(0);
    bad.call(trap);
    assert(bad@ =~= g.trap_code());
    let mut capped = InstrSeqBuilder::new();
    capped.i32_const(MAX_ITEMS_PER_QUERY);
    capped.local_set(len);
    capped.local_get(idx);
    capped.i32_const(MAX_ITEMS_PER_QUERY);
    capped.binop(BinaryOp::I32Add);
    capped.local_set(next_idx);
    assert(capped@ =~= g.capped_code());
    let mut all = InstrSeqBuilder::new();
    all.i32_const(0);
    all.local_set(next_idx);
    assert(all@ =~= g.all_code());
    let mut none = InstrSeqBuilder::new();
    none.i32_const(0);
    none.i32_const(0);
    push_store_i32(&mut none, memory);
    none.i32_const(0);
    none.i32_const(1);
    none.call(reply_data);
    assert(none@ =~= g.none_code());
    let mut some = InstrSeqBuilder::new();
    some.i32_const(0);
    some.i32_const(1);
    some.store(memory, StoreKind::I32 { atomic: false }, 1);
    some.i32_const(1);
    some.local_get(next_idx);
    push_store_i32(&mut some, memory);
    some.i32_const(0);
    some.i32_const(5);
    some.call(reply_data);
    assert(some@ =~= g.some_code());
    let mut seqs: Vec<InstrSeq> = Vec::new();
    seqs.push(entry.finish(InstrSeqType::MultiValue(entry_ty)));
    seqs.push(grow.finish(InstrSeqType::Simple(None)));
    seqs.push(InstrSeqBuilder::new().finish(InstrSeqType::Simple(None)));
    seqs.push(bad.finish(InstrSeqType::Simple(None)));
    seqs.push(InstrSeqBuilder::new().finish(InstrSeqType::Simple(None)));
    seqs.push(capped.finish(InstrSeqType::Simple(None)));
    seqs.push(all.finish(InstrSeqType::Simple(None)));
    seqs.push(none.finish(InstrSeqType::Simple(None)));
    seqs.push(some.finish(InstrSeqType::Simple(None)));
    assert(seqs.deep_view() =~= g.body(entry_ty));
    seqs
}

/// Adds the endpoint `__get_profiling`, a query that takes an index and
/// replies with the entries of the log from there on and with the index to
/// go on from, if entries are left.
pub fn make_stable_getter(m: &mut Module, vars: &Variables, leb: FunctionId, config: &Config)
    requires
        config@.wf(),
        old(m)@.ic0_imports_are_functions(),
        old(m)@.memories.len() >= 1,
        old(m)@.locals.len() + 3 <= usize::MAX,
        can_import(old(m)@, getter_imports()),
    ensures
        preserves(old(m)@, final(m)@),
        same_funcs(old(m)@, final(m)@),
        final(m)@ == with_stable_getter(old(m)@, *vars, leb, config@),
        final(m)@.ic0_imports_are_functions(),
{
    let memory = get_memory_id(m);
    let names = [
        "msg_arg_data_size",
        "msg_arg_data_copy",
        "msg_reply_data_append",
        "msg_reply",
        "trap",
        "stable_read",
    ];
    assert(texts(&names) =~= getter_imports());
    let ids = get_ic_func_ids(m, &names);
    proof {
        lemma_import_ids_len(old(m)@, getter_imports());
    }
    let idx = m.add_locals(ValType::I32, 3);
    let (ty, entry_ty) = m.add_signature(no_types().as_slice(), no_types().as_slice());
    let seqs = stable_getter_body(
        memory,
        &ids,
        leb,
        idx,
        vars.log_size,
        config.log_start_address(),
        entry_ty,
    );
    let args: Vec<LocalId> = Vec::new();
    assert(args@ =~= Seq::<LocalId>::empty());
    let getter = m.add_local_func(Some("__get_profiling".to_owned()), ty, args, seqs);
    m.add_export("canister_query __get_profiling", ExportItem::Function(getter));
}

/// There are as many ids as names.
pub proof fn lemma_import_ids_len(m: ModuleView, names: Seq<Seq<char>>)
    ensures
        ic_import_ids(m, names).len() == names.len(),
    decreases names.len(),
{
    if names.len() > 0 {
        lemma_import_ids_len(m, names.drop_last());
    }
}

/// The body of the endpoint that gives out the counter: `DIDL`, one
/// argument of type `nat64`, and the counter's eight bytes, fifteen bytes
/// in all.
pub open spec fn getter_code(
    memory: MemoryId,
    total_counter: GlobalId,
    reply_data: FunctionId,
    reply: FunctionId,
) -> Seq<InstrView> {
    seq![
        i32_const(0),
        i64_const(0x007401004c444944),
        store_i64(memory),
        i32_const(7),
        global_get(total_counter),
        store_i64(memory),
        i32_const(0),
        i32_const(15),
        call(reply_data),
        call(reply),
    ]
}

/// The system functions that send a reply.
pub open spec fn reply_imports() -> Seq<Seq<char>> {
    seq!["msg_reply_data_append"@, "msg_reply"@]
}

/// The one sequence of the endpoint `__get_cycles`.
pub open spec fn getter_body(
    entry_ty: TypeId,
    total_counter: GlobalId,
    reply_data: FunctionId,
    reply: FunctionId,
) -> Seq<InstrSeqView> {
    seq![
        seq_of(
            InstrSeqType::MultiValue(entry_ty),
            getter_code(0, total_counter, reply_data, reply),
        ),
    ]
}

/// The module with the endpoint `__get_cycles`.
pub open spec fn with_getter(m: ModuleView, vars: Variables) -> ModuleView {
    let ids = ic_import_ids(m, reply_imports());
    let m1 = with_ic_imports(m, reply_imports());
    let m2 = m1.with_signature(Seq::empty(), Seq::empty());
    m2.with_local_func(
        Some("__get_cycles"@),
        m1.signature_ty(Seq::empty(), Seq::empty()),
        Seq::empty(),
        getter_body(
            m1.signature_entry_ty(Seq::empty(), Seq::empty()),
            vars.total_counter,
            ids[0],
            ids[1],
        ),
    ).with_export("canister_query __get_cycles"@, ExportItem::Function(m2.funcs.len() as usize))
}

/// Adds the endpoint `__get_cycles`, a query that replies with the counter.
pub fn make_getter(m: &mut Module, vars: &Variables)
    requires
        old(m)@.ic0_imports_are_functions(),
        old(m)@.memories.len() >= 1,
    ensures
        preserves(old(m)@, final(m)@),
        same_funcs(old(m)@, final(m)@),
        final(m)@ == with_getter(old(m)@, *vars),
        final(m)@.ic0_imports_are_functions(),
{
    let memory = get_memory_id(m);
    let names = ["msg_reply_data_append", "msg_reply"];
    assert(texts(&names) =~= reply_imports());
    proof {
        lemma_reply_catalogued(old(m)@);
    }
    let ids = get_ic_func_ids(m, &names);
    proof {
        lemma_import_ids_len(old(m)@, reply_imports());
    }
    let reply_data = ids[0];
    let reply = ids[1];
    let (ty, entry_ty) = m.add_signature(no_types().as_slice(), no_types().as_slice());
    let mut getter = InstrSeqBuilder::new();
    getter.i32_const(0);
    getter.i64_const(0x007401004c444944);
    push_store_i64(&mut getter, memory);
    getter.i32_const(7);
    getter.global_get(vars.total_counter);
    push_store_i64(&mut getter, memory);
    getter.i32_const(0);
    getter.i32_const(15);
    getter.call(reply_data);
    getter.call(reply);
    assert(getter@ =~= getter_code(memory, vars.total_counter, reply_data, reply));
    let seqs = body_of(getter.finish(InstrSeqType::MultiValue(entry_ty)));
    let args: Vec<LocalId> = Vec::new();
    assert(args@ =~= Seq::<LocalId>::empty());
    let id = m.add_local_func(Some("__get_cycles".to_owned()), ty, args, seqs);
    m.add_export("canister_query __get_cycles", ExportItem::Function(id));
}

/// The system functions that send a reply are in the catalogue.
pub proof fn lemma_reply_catalogued(m: ModuleView)
    ensures
        can_import(m, reply_imports()),
{
    assert(crate::utils::catalogue("msg_reply_data_append"@) is Some);
    assert(crate::utils::catalogue("msg_reply"@) is Some);
}

/// The body of an endpoint that toggles the global `var`: the flag is
/// flipped, and the empty reply `DIDL 00 00` is sent from the start of the
/// heap, whose first eight bytes are kept in the local `tmp` meanwhile.
pub open spec fn toggle_code(
    memory: MemoryId,
    var: GlobalId,
    tmp: LocalId,
    reply_data: FunctionId,
    reply: FunctionId,
) -> Seq<InstrView> {
    seq![
        global_get(var),
        i32_const(1),
        binop(BinaryOp::I32Xor),
        global_set(var),
        i32_const(0),
        load_i64(memory),
        local_set(tmp),
        i32_const(0),
        i64_const(0x4c444944),
        store_i64(memory),
        i32_const(0),
        i32_const(6),
        call(reply_data),
        i32_const(0),
        local_get(tmp),
        store_i64(memory),
        call(reply),
    ]
}

/// The module with an update endpoint `name` that toggles the global `var`.
pub open spec fn with_toggle_func(m: ModuleView, name: Seq<char>, var: GlobalId) -> ModuleView {
    let ids = ic_import_ids(m, reply_imports());
    let m1 = with_ic_imports(m, reply_imports());
    let tmp = m1.locals.len() as usize;
    let m2 = m1.with_local(ValType::I64);
    let m3 = m2.with_signature(Seq::empty(), Seq::empty());
    m3.with_local_func(
        Some(name),
        m2.signature_ty(Seq::empty(), Seq::empty()),
        Seq::empty(),
        seq![
            seq_of(
                InstrSeqType::MultiValue(m2.signature_entry_ty(Seq::empty(), Seq::empty())),
                toggle_code(0, var, tmp, ids[0], ids[1]),
            ),
        ],
    ).with_export("canister_update "@ + name, ExportItem::Function(m3.funcs.len() as usize))
}

/// Adds an update endpoint `name` that toggles the global `var`.
pub fn make_toggle_func(m: &mut Module, name: &str, var: GlobalId)
    requires
        old(m)@.ic0_imports_are_functions(),
        old(m)@.memories.len() >= 1,
    ensures
        preserves(old(m)@, final(m)@),
        same_funcs(old(m)@, final(m)@),
        final(m)@ == with_toggle_func(old(m)@, name@, var),
        final(m)@.ic0_imports_are_functions(),
{
    let memory = get_memory_id(m);
    let names = ["msg_reply_data_append", "msg_reply"];
    assert(texts(&names) =~= reply_imports());
    proof {
        lemma_reply_catalogued(old(m)@);
    }
    let ids = get_ic_func_ids(m, &names);
    proof {
        lemma_import_ids_len(old(m)@, reply_imports());
    }
    let reply_data = ids[0];
    let reply = ids[1];
    let tmp = m.add_local(ValType::I64);
    let (ty, entry_ty) = m.add_signature(no_types().as_slice(), no_types().as_slice());
    let mut builder = InstrSeqBuilder::new();
    builder.global_get(var);
    builder.i32_const(1);
    builder.binop(BinaryOp::I32Xor);
    builder.global_set(var);
    builder.i32_const(0);
    push_load_i64(&mut builder, memory);
    builder.local_set(tmp);
    builder.i32_const(0);
    builder.i64_const(0x4c444944);
    push_store_i64(&mut builder, memory);
    builder.i32_const(0);
    builder.i32_const(6);
    builder.call(reply_data);
    builder.i32_const(0);
    builder.local_get(tmp);
    push_store_i64(&mut builder, memory);
    builder.call(reply);
    assert(builder@ =~= toggle_code(memory, var, tmp, reply_data, reply));
    let seqs = body_of(builder.finish(InstrSeqType::MultiValue(entry_ty)));
    let args: Vec<LocalId> = Vec::new();
    assert(args@ =~= Seq::<LocalId>::empty());
    let id = m.add_local_func(Some(name.to_owned()), ty, args, seqs);
    let export_name = concat("canister_update ", name);
    m.add_export(export_name.as_str(), ExportItem::Function(id));
}

/// The readable form of the symbol `name`: what the Rust compiler mangled
/// is demangled, without the hash at the end, and any other name is itself.
pub uninterp spec fn demangled(name: Seq<char>) -> Seq<char>;

/// `demangle` of rustc-demangle, printed in the alternate form: the
/// demangled symbol without its hash, or the name itself where it is not a
/// mangled symbol.
#[verifier::external_body]
fn demangle(name: &str) -> (r: String)
    ensures
        r@ == demangled(name@),
{
    format!("{:#}", rustc_demangle::demangle(name))
}

/// The Candid encoding of `names` as one argument of type
/// `vec record { nat16; text }`; empty where the encoder fails.
pub uninterp spec fn candid_names(names: Seq<(u16, Seq<char>)>) -> Seq<u8>;

/// `encode_one` of candid on a list of pairs of a number and a text: the
/// bytes of the message that holds the list as its one argument, or no bytes
/// where the encoder reports an error.
#[verifier::external_body]
fn encode_names(names: &Vec<(u16, String)>) -> (r: Vec<u8>)
    ensures
        r@ == candid_names(names.deep_view()),
{
    match candid::encode_one(names) {
        Ok(bytes) => bytes,
        Err(_) => Vec::new(),
    }
}

/// The numbers and readable names of the local functions that have a name,
/// in the order of the functions.
pub open spec fn local_names(funcs: Seq<FunctionView>) -> Seq<(u16, Seq<char>)>
    decreases funcs.len(),
{
    if funcs.len() == 0 {
        Seq::empty()
    } else {
        let rest = local_names(funcs.drop_last());
        match funcs.last().name {
            Some(name) => if funcs.last().kind is Local {
                rest.push(((funcs.len() - 1) as u16, demangled(name)))
            } else {
                rest
            },
            None => rest,
        }
    }
}

/// The custom section `icp:public name`, which holds the names of the local
/// functions by their numbers, so that a reader of the log can resolve them.
pub open spec fn name_section(m: ModuleView) -> CustomSectionView {
    CustomSectionView { name: "icp:public name"@, data: candid_names(local_names(m.funcs)) }
}

/// The custom section that gives the names of the local functions.
pub fn make_name_section(m: &Module) -> (section: CustomSection)
    ensures
        section.deep_view() == name_section(m@),
{
    let mut names: Vec<(u16, String)> = Vec::new();
    let mut id: usize = 0;
    assert(m@.funcs.subrange(0, 0) =~= Seq::empty());
    assert(names.deep_view() =~= Seq::empty());
    while id < m.funcs.len()
        invariant
            id <= m.funcs.len(),
            names.deep_view() == local_names(m@.funcs.subrange(0, id as int)),
        decreases m.funcs.len() - id,
    {
        let f = &m.funcs[id];
        proof {
            assert(m@.funcs.subrange(0, id + 1).drop_last() =~= m@.funcs.subrange(0, id as int));
            assert(m@.funcs.subrange(0, id + 1).last() == f.deep_view());
        }
        match &f.kind {
            FunctionKind::Local(_) => {
                match &f.name {
                    Some(name) => {
                        let ghost before = names.deep_view();
                        let readable = demangle(name.as_str());
                        let number = #[verifier::truncate] (id as u16);
                        names.push((number, readable));
                        assert(names.deep_view() =~= before.push((number, demangled(name@))));
                    },
                    None => {},
                }
            },
            _ => {},
        }
        id += 1;
    }
    assert(m@.funcs.subrange(0, id as int) =~= m@.funcs);
    let data = encode_names(&names);
    CustomSection { name: "icp:public name".to_owned(), data }
}

/// The module with every local function metered but the two that charge a
/// size.
pub open spec fn metered_module(m: ModuleView, c: Metering) -> ModuleView {
    ModuleView {
        funcs: Seq::new(
            m.funcs.len(),
            |id: int|
                if m.funcs[id].kind is Local && id != c.vars.dynamic_counter_func && id
                    != c.vars.dynamic_counter64_func {
                    FunctionView {
                        name: m.funcs[id].name,
                        kind: FunctionKindView::Local(
                            c.metered(m.local(id), m.local(id).entry),
                        ),
                    }
                } else {
                    m.funcs[id]
                },
        ),
        ..m
    }
}

/// Every local function of `m` but the two that charge a size can be
/// metered.
pub open spec fn can_meter_all(m: ModuleView, vars: Variables) -> bool {
    forall|id: int|
        0 <= id < m.funcs.len() && (#[trigger] m.funcs[id]).kind is Local && id
            != vars.dynamic_counter_func && id != vars.dynamic_counter64_func ==> can_meter(
            m.local(id),
        )
}

/// Every local function of `m` from `from` to before `to` can be traced.
pub open spec fn can_trace_all(m: ModuleView, from: int, to: int) -> bool {
    forall|id: int|
        0 <= id && from <= id < to && id < m.funcs.len() && (#[trigger] m.funcs[id]).kind
            is Local ==> can_trace(m.types, id as usize, m.local(id))
}

/// Meters every local function but the two that charge a size.
pub fn meter_all(
    m: &mut Module,
    vars: &Variables,
    func_cost: &FunctionCost,
    is_partial_tracing: bool,
    use_new_metering: bool,
)
    requires
        can_meter_all(old(m)@, *vars),
    ensures
        final(m)@ == metered_module(
            old(m)@,
            Metering { vars: *vars, table: func_cost@, use_new_metering, is_partial_tracing },
        ),
        preserves(old(m)@, final(m)@),
        final(m)@.exports == old(m)@.exports,
        final(m)@.funcs.len() == old(m)@.funcs.len(),
        forall|from: int, to: int|
            can_trace_all(old(m)@, from, to) ==> can_trace_all(final(m)@, from, to),
{
    let ghost c = Metering { vars: *vars, table: func_cost@, use_new_metering, is_partial_tracing };
    let ghost want = metered_module(old(m)@, c);
    let mut id: usize = 0;
    assert(m@.funcs =~= Seq::new(
        old(m)@.funcs.len(),
        |k: int|
            if k < 0 {
                want.funcs[k]
            } else {
                old(m)@.funcs[k]
            },
    ));
    while id < m.funcs.len()
        invariant
            id <= m.funcs.len(),
            m@.funcs.len() == old(m)@.funcs.len(),
            can_meter_all(old(m)@, *vars),
            c == (Metering { vars: *vars, table: func_cost@, use_new_metering, is_partial_tracing }),
            want == metered_module(old(m)@, c),
            m@ == (ModuleView {
                funcs: Seq::new(
                    old(m)@.funcs.len(),
                    |k: int|
                        if k < id {
                            want.funcs[k]
                        } else {
                            old(m)@.funcs[k]
                        },
                ),
                ..old(m)@
            }),
        decreases m.funcs.len() - id,
    {
        let ghost before = m@;
        assert(before.funcs[id as int] == old(m)@.funcs[id as int]);
        if id != vars.dynamic_counter_func && id != vars.dynamic_counter64_func {
            let metered: Option<LocalFunction> = match &m.funcs[id].kind {
                FunctionKind::Local(func) => {
                    assert(func.deep_view() == old(m)@.local(id as int));
                    Some(
                        inject_metering(
                            func,
                            func.entry,
                            vars,
                            func_cost,
                            is_partial_tracing,
                            use_new_metering,
                        ),
                    )
                },
                _ => None,
            };
            match metered {
                Some(f) => {
                    m.set_body(id, f);
                },
                None => {},
            }
        }
        assert(m@.funcs =~= Seq::new(
            old(m)@.funcs.len(),
            |k: int|
                if k < id + 1 {
                    want.funcs[k]
                } else {
                    old(m)@.funcs[k]
                },
        ));
        id += 1;
    }
    assert(m@.funcs =~= want.funcs);
    proof {
        assert forall|f: FunctionId| is_local(old(m)@, f) implies is_local(m@, f) by {
            assert(m@.funcs[f as int] == want.funcs[f as int]);
        }
        assert forall|from: int, to: int| can_trace_all(old(m)@, from, to) implies can_trace_all(
            m@,
            from,
            to,
        ) by {
            assert forall|f: int|
                0 <= f && from <= f < to && f < m@.funcs.len() && (#[trigger] m@.funcs[f]).kind
                    is Local implies can_trace(m@.types, f as usize, m@.local(f)) by {
                assert(m@.funcs[f] == want.funcs[f]);
                assert(old(m)@.funcs[f].kind is Local);
                assert(can_trace(old(m)@.types, f as usize, old(m)@.local(f)));
            }
        }
    }
}

/// The helper functions that are not traced.
pub struct Helpers {
    pub printer: FunctionId,
    pub writer: FunctionId,
    pub vars: Variables,
}

impl Helpers {
    /// Whether `id` is one of the helper functions.
    pub open spec fn has(self, id: int) -> bool {
        id == self.printer || id == self.writer || id == self.vars.dynamic_counter_func || id
            == self.vars.dynamic_counter64_func
    }
}

/// The module with the entry and the exit of every local function logged
/// but for the helper functions; for the functions `trace_only`, tracing is
/// switched on at the entry and off at the exit.
pub open spec fn traced_module(m: ModuleView, h: Helpers, trace_only: Seq<FunctionId>) -> ModuleView {
    ModuleView {
        funcs: Seq::new(
            m.funcs.len(),
            |id: int|
                if m.funcs[id].kind is Local && !h.has(id) {
                    FunctionView {
                        name: m.funcs[id].name,
                        kind: FunctionKindView::Local(
                            traced(
                                m.types,
                                h.printer,
                                id as usize,
                                m.local(id),
                                trace_only.contains(id as usize),
                                h.vars.is_init,
                            ),
                        ),
                    }
                } else {
                    m.funcs[id]
                },
        ),
        ..m
    }
}

/// Every local function of `m` but the helpers can be traced.
pub open spec fn can_trace_others(m: ModuleView, h: Helpers) -> bool {
    forall|id: int|
        0 <= id < m.funcs.len() && (#[trigger] m.funcs[id]).kind is Local && !h.has(id)
            ==> can_trace(m.types, id as usize, m.local(id))
}

fn contains_id(ids: &Vec<FunctionId>, id: FunctionId) -> (r: bool)
    ensures
        r == ids@.contains(id),
{
    let mut k: usize = 0;
    while k < ids.len()
        invariant
            k <= ids.len(),
            forall|j: int| 0 <= j < k ==> ids@[j] != id,
        decreases ids.len() - k,
    {
        if ids[k] == id {
            return true;
        }
        k += 1;
    }
    false
}

/// Makes every local function but the helpers log its entry and its exit.
pub fn trace_all(
    m: &mut Module,
    printer: FunctionId,
    writer: FunctionId,
    vars: &Variables,
    trace_only_ids: &Vec<FunctionId>,
)
    requires
        can_trace_others(old(m)@, Helpers { printer, writer, vars: *vars }),
    ensures
        final(m)@ == traced_module(
            old(m)@,
            Helpers { printer, writer, vars: *vars },
            trace_only_ids@,
        ),
        preserves(old(m)@, final(m)@),
        final(m)@.exports == old(m)@.exports,
        final(m)@.funcs.len() == old(m)@.funcs.len(),
{
    let ghost h = Helpers { printer, writer, vars: *vars };
    let ghost want = traced_module(old(m)@, h, trace_only_ids@);
    let mut id: usize = 0;
    assert(m@.funcs =~= Seq::new(
        old(m)@.funcs.len(),
        |k: int|
            if k < 0 {
                want.funcs[k]
            } else {
                old(m)@.funcs[k]
            },
    ));
    while id < m.funcs.len()
        invariant
            id <= m.funcs.len(),
            m@.funcs.len() == old(m)@.funcs.len(),
            can_trace_others(old(m)@, h),
            h == (Helpers { printer, writer, vars: *vars }),
            want == traced_module(old(m)@, h, trace_only_ids@),
            m@ == (ModuleView {
                funcs: Seq::new(
                    old(m)@.funcs.len(),
                    |k: int|
                        if k < id {
                            want.funcs[k]
                        } else {
                            old(m)@.funcs[k]
                        },
                ),
                ..old(m)@
            }),
        decreases m.funcs.len() - id,
    {
        let ghost before = m@;
        assert(before.funcs[id as int] == old(m)@.funcs[id as int]);
        if id != printer && id != writer && id != vars.dynamic_counter_func && id
            != vars.dynamic_counter64_func {
            let is_partial_tracing = contains_id(trace_only_ids, id);
            let traced_func: Option<LocalFunction> = match &m.funcs[id].kind {
                FunctionKind::Local(func) => {
                    assert(func.deep_view() == old(m)@.local(id as int));
                    assert(m.types.deep_view() == old(m)@.types);
                    Some(
                        inject_profiling_prints(
                            &m.types,
                            printer,
                            id,
                            func,
                            is_partial_tracing,
                            vars,
                        ),
                    )
                },
                _ => None,
            };
            match traced_func {
                Some(f) => {
                    m.set_body(id, f);
                },
                None => {},
            }
        }
        assert(m@.funcs =~= Seq::new(
            old(m)@.funcs.len(),
            |k: int|
                if k < id + 1 {
                    want.funcs[k]
                } else {
                    old(m)@.funcs[k]
                },
        ));
        id += 1;
    }
    assert(m@.funcs =~= want.funcs);
    proof {
        assert forall|f: FunctionId| is_local(old(m)@, f) implies is_local(m@, f) by {
            assert(m@.funcs[f as int] == want.funcs[f as int]);
            if old(m)@.funcs[f as int].kind is Local && !h.has(f as int) {
                assert(can_trace(old(m)@.types, f, old(m)@.local(f as int)));
            }
        }
    }
}

/// A mutable global of the module's own, not shared, that begins as `init`.
pub open spec fn counter_global(ty: ValType, init: Value) -> Global {
    Global { ty, mutable: true, shared: false, kind: GlobalKind::Local(ConstExpr::Value(init)) }
}

/// The globals and helper ids of a module about to be instrumented: the
/// five globals and the two functions that charge a size are the next to be
/// added.
pub open spec fn variables_of(m: ModuleView) -> Variables {
    Variables {
        total_counter: m.globals.len() as usize,
        log_size: (m.globals.len() + 1) as usize,
        page_size: (m.globals.len() + 2) as usize,
        is_init: (m.globals.len() + 3) as usize,
        is_entry: (m.globals.len() + 4) as usize,
        dynamic_counter_func: m.funcs.len() as usize,
        dynamic_counter64_func: (m.funcs.len() + 1) as usize,
    }
}

/// The module with the state of instrumentation: the counter, the size of
/// the log in entries and in pages, and the two flags, of which `is_init`
/// begins as 1, so that nothing is traced before initialisation ends; and
/// the two functions that charge a size.
pub open spec fn with_state(m: ModuleView, is_partial_tracing: bool) -> ModuleView {
    let vars = variables_of(m);
    let m1 = m.with_global(counter_global(ValType::I64, Value::I64(0))).with_global(
        counter_global(ValType::I32, Value::I32(0)),
    ).with_global(counter_global(ValType::I32, Value::I32(0))).with_global(
        counter_global(ValType::I32, Value::I32(1)),
    ).with_global(counter_global(ValType::I32, Value::I32(0)));
    let opt_init = if is_partial_tracing {
        Some(vars.is_init)
    } else {
        None
    };
    with_dynamic_counter64(
        with_dynamic_counter(m1, vars.total_counter, opt_init),
        vars.total_counter,
        opt_init,
    )
}

fn new_global(ty: ValType, init: Value) -> (g: Global)
    ensures
        g == counter_global(ty, init),
{
    Global { ty, mutable: true, shared: false, kind: GlobalKind::Local(ConstExpr::Value(init)) }
}

/// Adds the globals of instrumentation and the two functions that charge a
/// size.
pub fn add_state(m: &mut Module, is_partial_tracing: bool) -> (vars: Variables)
    requires
        old(m)@.globals.len() + 5 <= usize::MAX,
        old(m)@.funcs.len() + 2 <= usize::MAX,
    ensures
        vars == variables_of(old(m)@),
        final(m)@ == with_state(old(m)@, is_partial_tracing),
        preserves(old(m)@, final(m)@),
        same_funcs(old(m)@, final(m)@),
        final(m)@.exports == old(m)@.exports,
        final(m)@.imports == old(m)@.imports,
        final(m)@.funcs.len() == old(m)@.funcs.len() + 2,
        final(m)@.locals.len() == old(m)@.locals.len() + 2,
{
    let total_counter = m.add_global(new_global(ValType::I64, Value::I64(0)));
    let log_size = m.add_global(new_global(ValType::I32, Value::I32(0)));
    let page_size = m.add_global(new_global(ValType::I32, Value::I32(0)));
    let is_init = m.add_global(new_global(ValType::I32, Value::I32(1)));
    let is_entry = m.add_global(new_global(ValType::I32, Value::I32(0)));
    let opt_init = if is_partial_tracing {
        Some(is_init)
    } else {
        None
    };
    let ghost m1 = m@;
    proof {
        assert(same_funcs(old(m)@, m1));
        lemma_same_funcs_keeps(old(m)@, m1);
        assert(preserves(old(m)@, m1));
    }
    let dynamic_counter_func = make_dynamic_counter(m, total_counter, &opt_init);
    let ghost m2 = m@;
    let dynamic_counter64_func = make_dynamic_counter64(m, total_counter, &opt_init);
    proof {
        lemma_preserves_trans(old(m)@, m1, m2);
        lemma_preserves_trans(old(m)@, m2, m@);
    }
    Variables {
        total_counter,
        log_size,
        is_init,
        is_entry,
        dynamic_counter_func,
        dynamic_counter64_func,
        page_size,
    }
}

/// The module with tracing: the function that writes to the log, the one
/// that logs an event, and every other local function logging its entry
/// and exit.
pub open spec fn with_tracing(
    m: ModuleView,
    vars: Variables,
    config: ConfigView,
    trace_only: Seq<FunctionId>,
) -> ModuleView {
    let m1 = with_stable_writer(m, vars, config);
    let writer = (m1.funcs.len() - 1) as usize;
    let m2 = with_printer(m1, vars, writer);
    let printer = m1.funcs.len() as usize;
    traced_module(m2, Helpers { printer, writer, vars }, trace_only)
}

/// A function that can be traced can be traced with more types in the
/// module.
pub proof fn lemma_can_trace_extends(a: ModuleView, b: ModuleView, from: int, to: int)
    requires
        can_trace_all(a, from, to),
        same_funcs(a, b),
        a.types.is_prefix_of(b.types),
        to <= a.funcs.len(),
    ensures
        can_trace_all(b, from, to),
{
    assert forall|id: int|
        0 <= id && from <= id < to && id < b.funcs.len() && (#[trigger] b.funcs[id]).kind
            is Local implies can_trace(b.types, id as usize, b.local(id)) by {
        assert(b.funcs[id] == a.funcs[id]);
        assert(can_trace(a.types, id as usize, a.local(id)));
        let t = a.local(id).seqs[a.local(id).entry as int].ty->MultiValue_0;
        assert(b.types[t as int] == a.types[t as int]);
    }
}

/// Adds the function that writes to the log and the one that logs an
/// event, and makes every function that was there before the state of
/// instrumentation log its entry and exit.
pub fn add_tracing(
    m: &mut Module,
    vars: &Variables,
    config: &Config,
    trace_only_ids: &Vec<FunctionId>,
)
    requires
        config@.wf(),
        old(m)@.ic0_imports_are_functions(),
        old(m)@.memories.len() >= 1,
        old(m)@.locals.len() + 6 <= usize::MAX,
        vars.dynamic_counter_func + 1 == vars.dynamic_counter64_func,
        vars.dynamic_counter_func + 2 == old(m)@.funcs.len(),
        can_trace_all(old(m)@, 0, vars.dynamic_counter_func as int),
    ensures
        final(m)@ == with_tracing(old(m)@, *vars, config@, trace_only_ids@),
        preserves(old(m)@, final(m)@),
        final(m)@.exports == old(m)@.exports,
        final(m)@.locals.len() == old(m)@.locals.len() + 6,
        final(m)@.globals == old(m)@.globals,
{
    let ghost given = vars.dynamic_counter_func as int;
    let writer = make_stable_writer(m, vars, config);
    let ghost m1 = m@;
    let printer = make_printer(m, vars, writer);
    let ghost m2 = m@;
    proof {
        lemma_preserves_trans(old(m)@, m1, m2);
        lemma_can_trace_extends(old(m)@, m1, 0, given);
        lemma_can_trace_extends(m1, m2, 0, given);
        let h = Helpers { printer, writer, vars: *vars };
        assert forall|id: int|
            0 <= id < m2.funcs.len() && (#[trigger] m2.funcs[id]).kind is Local && !h.has(
                id,
            ) implies can_trace(m2.types, id as usize, m2.local(id)) by {
            if id >= given {
                assert(m2.funcs[id] == m1.funcs[id]);
            }
        }
    }
    trace_all(m, printer, writer, vars, trace_only_ids);
    proof {
        lemma_preserves_trans(old(m)@, m2, m@);
    }
}

/// Whether a function exported under this name gets instructions added by
/// instrumentation.
pub open spec fn is_hook(name: Seq<char>) -> bool {
    is_entry_point(name) || name == "canister_init"@ || name == "canister_post_upgrade"@
}

/// Every function that the module exports as an entry point or as a hook
/// of the system is a local function.
pub open spec fn hooks_are_local(m: ModuleView) -> bool {
    forall|k: int|
        0 <= k < m.exports.len() && (#[trigger] m.exports[k]).item is Function && is_hook(
            m.exports[k].name,
        ) ==> is_local(m, m.exports[k].item->Function_0)
}

/// Hooks stay local functions in a module that preserves the functions.
pub proof fn lemma_hooks_preserved(a: ModuleView, b: ModuleView)
    requires
        hooks_are_local(a),
        preserves(a, b),
    ensures
        hooks_are_local(b),
{
    assert forall|k: int|
        0 <= k < b.exports.len() && (#[trigger] b.exports[k]).item is Function && is_hook(
            b.exports[k].name,
        ) implies is_local(b, b.exports[k].item->Function_0) by {
        if k < a.exports.len() {
            assert(b.exports[k] == a.exports[k]);
            assert(is_local(a, a.exports[k].item->Function_0));
        }
    }
}

/// The names of the hooks differ from the name of Motoko's helper.
pub proof fn lemma_hook_names()
    ensures
        is_hook("canister_init"@),
        is_hook("canister_pre_upgrade"@),
        is_hook("canister_post_upgrade"@),
{
    reveal_strlit("canister_pre_upgrade");
    reveal_strlit("canister_update __motoko_async_helper");
    assert("canister_pre_upgrade"@.len() != "canister_update __motoko_async_helper"@.len());
}

/// Where the hooks are local, so is what is exported under the name of a
/// hook.
pub proof fn lemma_hook_is_local(m: ModuleView, name: Seq<char>)
    requires
        hooks_are_local(m),
        is_hook(name),
    ensures
        export_is_local(m, name),
{
    crate::search::lemma_first_index(m.exports, crate::module::is_export(name));
}

/// Where the hooks are local, every entry point is a local function.
pub proof fn lemma_entry_points_local(m: ModuleView, exports: Seq<ExportView>)
    requires
        forall|k: int|
            0 <= k < exports.len() && (#[trigger] exports[k]).item is Function && is_hook(
                exports[k].name,
            ) ==> is_local(m, exports[k].item->Function_0),
    ensures
        forall|j: int|
            0 <= j < entry_points(exports).len() ==> is_local(m, #[trigger] entry_points(exports)[j]),
    decreases exports.len(),
{
    if exports.len() > 0 {
        let rest = exports.drop_last();
        assert forall|k: int|
            0 <= k < rest.len() && (#[trigger] rest[k]).item is Function && is_hook(
                rest[k].name,
            ) implies is_local(m, rest[k].item->Function_0) by {
            assert(rest[k] == exports[k]);
        }
        lemma_entry_points_local(m, rest);
        let last = exports[exports.len() - 1];
        assert(last == exports.last());
        assert forall|j: int| 0 <= j < entry_points(exports).len() implies is_local(
            m,
            #[trigger] entry_points(exports)[j],
        ) by {
            if j < entry_points(rest).len() {
                assert(entry_points(exports)[j] == entry_points(rest)[j]);
            } else {
                assert(entry_points(exports)[j] == last.item->Function_0);
                assert(is_hook(last.name));
            }
        }
    }
}

/// The module with its hooks: unless tracing is partial, `canister_init`
/// switches tracing on at its end; the globals are saved before an upgrade
/// and restored after it; and every entry point begins with emptying the
/// log.
pub open spec fn with_hooks(
    m: ModuleView,
    vars: Variables,
    config: ConfigView,
    is_partial_tracing: bool,
) -> ModuleView {
    let m1 = if is_partial_tracing {
        m
    } else {
        with_init(m, vars.is_init)
    };
    let m2 = with_pre_upgrade(m1, vars, config);
    let m3 = with_post_upgrade(m2, vars, config);
    with_resets(m3, entry_points(m3.exports), vars)
}

/// Adds the instructions that switch tracing on after initialisation, that
/// keep the globals over an upgrade, and that empty the log at an entry
/// point.
pub fn add_hooks(m: &mut Module, vars: &Variables, config: &Config, is_partial_tracing: bool)
    requires
        old(m)@.ic0_imports_are_functions(),
        old(m)@.memories.len() >= 1,
        old(m)@.locals.len() + 6 <= usize::MAX,
        hooks_are_local(old(m)@),
    ensures
        final(m)@ == with_hooks(old(m)@, *vars, config@, is_partial_tracing),
        preserves(old(m)@, final(m)@),
        final(m)@.locals.len() == old(m)@.locals.len() + 6,
        hooks_are_local(final(m)@),
{
    proof {
        lemma_hook_names();
        lemma_hook_is_local(m@, "canister_init"@);
        assert(preserves(m@, m@));
    }
    if !is_partial_tracing {
        inject_init(m, vars.is_init);
    }
    let ghost m1 = m@;
    proof {
        lemma_hooks_preserved(old(m)@, m1);
        lemma_hook_is_local(m1, "canister_pre_upgrade"@);
    }
    inject_pre_upgrade(m, vars, config);
    let ghost m2 = m@;
    proof {
        lemma_preserves_trans(old(m)@, m1, m2);
        lemma_hooks_preserved(old(m)@, m2);
        lemma_hook_is_local(m2, "canister_post_upgrade"@);
    }
    inject_post_upgrade(m, vars, config);
    let ghost m3 = m@;
    proof {
        lemma_preserves_trans(old(m)@, m2, m3);
        lemma_hooks_preserved(old(m)@, m3);
        lemma_entry_points_local(m3, m3.exports);
    }
    inject_canister_methods(m, vars);
    proof {
        lemma_preserves_trans(old(m)@, m3, m@);
        lemma_hooks_preserved(old(m)@, m@);
    }
}

/// The module with the endpoints and the names: the function that encodes a
/// length, the queries for the log and for the counter, the two endpoints
/// that toggle a flag, and the section with the names of the functions.
pub open spec fn with_endpoints(m: ModuleView, vars: Variables, config: ConfigView) -> ModuleView {
    let m1 = with_leb128_encoder(m);
    let m2 = with_stable_getter(m1, vars, m.funcs.len() as usize, config);
    let m3 = with_getter(m2, vars);
    let m4 = with_toggle_func(m3, "__toggle_tracing"@, vars.is_init);
    let m5 = with_toggle_func(m4, "__toggle_entry"@, vars.is_entry);
    m5.with_custom(name_section(m5))
}

/// The module before the section with the names is added.
pub open spec fn with_endpoint_funcs(m: ModuleView, vars: Variables, config: ConfigView) -> ModuleView {
    let m1 = with_leb128_encoder(m);
    let m2 = with_stable_getter(m1, vars, m.funcs.len() as usize, config);
    let m3 = with_getter(m2, vars);
    let m4 = with_toggle_func(m3, "__toggle_tracing"@, vars.is_init);
    with_toggle_func(m4, "__toggle_entry"@, vars.is_entry)
}

/// Adds the endpoints and the section with the names of the functions.
pub fn add_endpoints(m: &mut Module, vars: &Variables, config: &Config)
    requires
        config@.wf(),
        old(m)@.ic0_imports_are_functions(),
        old(m)@.memories.len() >= 1,
        old(m)@.locals.len() + 6 <= usize::MAX,
        imports_ic0(old(m)@, "msg_arg_data_size"@),
        imports_ic0(old(m)@, "msg_arg_data_copy"@),
    ensures
        final(m)@ == with_endpoints(old(m)@, *vars, config@),
        final(m)@.customs == old(m)@.customs.push(
            name_section(with_endpoint_funcs(old(m)@, *vars, config@)),
        ),
{
    let leb = make_leb128_encoder(m);
    let ghost m1 = m@;
    proof {
        crate::utils::lemma_extends_import(old(m)@, m1, "msg_arg_data_size"@);
        crate::utils::lemma_extends_import(old(m)@, m1, "msg_arg_data_copy"@);
        assert(crate::utils::catalogue("msg_reply_data_append"@) is Some);
        assert(crate::utils::catalogue("msg_reply"@) is Some);
        assert(crate::utils::catalogue("trap"@) is Some);
        assert(crate::utils::catalogue("stable_read"@) is Some);
    }
    make_stable_getter(m, vars, leb, config);
    make_getter(m, vars);
    make_toggle_func(m, "__toggle_tracing", vars.is_init);
    make_toggle_func(m, "__toggle_entry", vars.is_entry);
    let name = make_name_section(m);
    m.add_custom(name);
}

/// The condition on a name of belonging to no function of `m`.
pub open spec fn is_missing(m: ModuleView) -> spec_fn(Seq<char>) -> bool {
    |name: Seq<char>| m.func_by_name(name) is None
}

/// The position of the first of `names` that belongs to no function.
pub open spec fn first_missing(m: ModuleView, names: Seq<Seq<char>>) -> Option<int> {
    first_index(names, is_missing(m))
}

/// The functions that `names` name.
pub open spec fn trace_only_ids(m: ModuleView, names: Seq<Seq<char>>) -> Seq<FunctionId> {
    Seq::new(names.len(), |k: int| m.func_by_name(names[k])->0 as usize)
}

/// The message that a function called `name` was not found.
pub open spec fn not_found(name: Seq<char>) -> Seq<char> {
    "func \""@ + name + "\" not found"@
}

/// The module instrumented, where tracing is partial and switched on by
/// the functions `trace_only` if `partial` says so. The state is added, the
/// functions that were there are metered by the cost table of the imports,
/// tracing is added, then the hooks, then the endpoints and the names.
pub open spec fn instrumented_with(
    m: ModuleView,
    c: ConfigView,
    partial: bool,
    trace_only: Seq<FunctionId>,
) -> ModuleView {
    let vars = variables_of(m);
    let m1 = with_state(m, partial);
    let m2 = metered_module(
        m1,
        Metering {
            vars,
            table: cost_table(m.imports, c.use_new_metering),
            use_new_metering: c.use_new_metering,
            is_partial_tracing: partial,
        },
    );
    let m3 = with_tracing(m2, vars, c, trace_only);
    let m4 = with_hooks(m3, vars, c, partial);
    with_endpoints(m4, vars, c)
}

/// The instrumented module: tracing is partial if functions to trace are
/// named.
pub open spec fn instrumented(m: ModuleView, c: ConfigView) -> ModuleView {
    instrumented_with(
        m,
        c,
        c.trace_only_funcs.len() > 0,
        trace_only_ids(m, c.trace_only_funcs),
    )
}

/// What instrumentation asks of a module and a configuration: the
/// configuration's addresses fit; the module has a memory, imports from
/// `ic0` nothing but functions, among them the two that give the argument
/// of a call, and leaves room in its tables; every local function can be
/// metered and traced; and what is exported as an entry point or a hook is a
/// local function.
pub open spec fn can_instrument(m: ModuleView, c: ConfigView) -> bool {
    &&& c.wf()
    &&& m.ic0_imports_are_functions()
    &&& m.memories.len() >= 1
    &&& m.locals.len() + 32 <= usize::MAX
    &&& m.globals.len() + 5 <= usize::MAX
    &&& m.funcs.len() + 2 <= usize::MAX
    &&& imports_ic0(m, "msg_arg_data_size"@)
    &&& imports_ic0(m, "msg_arg_data_copy"@)
    &&& hooks_are_local(m)
    &&& forall|id: int|
        0 <= id < m.funcs.len() && (#[trigger] m.funcs[id]).kind is Local ==> can_meter(
            m.local(id),
        ) && can_trace(m.types, id as usize, m.local(id))
}

/// Instruments the module with the functions to trace given by their ids.
pub fn instrument_with(
    m: &mut Module,
    config: &Config,
    is_partial_tracing: bool,
    trace_only: &Vec<FunctionId>,
)
    requires
        can_instrument(old(m)@, config@),
    ensures
        final(m)@ == instrumented_with(old(m)@, config@, is_partial_tracing, trace_only@),
        old(m)@.customs.is_prefix_of(final(m)@.customs),
        final(m)@.customs.len() == old(m)@.customs.len() + 1,
{
    let func_cost = FunctionCost::new(m, config.use_new_metering);
    let vars = add_state(m, is_partial_tracing);
    let ghost m1 = m@;
    proof {
        assert forall|id: int|
            0 <= id < m1.funcs.len() && (#[trigger] m1.funcs[id]).kind is Local && id
                != vars.dynamic_counter_func && id != vars.dynamic_counter64_func implies can_meter(
            m1.local(id),
        ) by {
            assert(m1.funcs[id] == old(m)@.funcs[id]);
        }
        assert(can_trace_all(old(m)@, 0, old(m)@.funcs.len() as int));
        lemma_can_trace_extends(old(m)@, m1, 0, old(m)@.funcs.len() as int);
        lemma_hooks_preserved(old(m)@, m1);
    }
    meter_all(m, &vars, &func_cost, is_partial_tracing, config.use_new_metering);
    let ghost m2 = m@;
    proof {
        lemma_preserves_trans(old(m)@, m1, m2);
        lemma_hooks_preserved(old(m)@, m2);
    }
    add_tracing(m, &vars, config, trace_only);
    let ghost m3 = m@;
    proof {
        lemma_preserves_trans(old(m)@, m2, m3);
        lemma_hooks_preserved(old(m)@, m3);
    }
    add_hooks(m, &vars, config, is_partial_tracing);
    let ghost m4 = m@;
    proof {
        lemma_preserves_trans(old(m)@, m3, m4);
        crate::utils::lemma_extends_import(old(m)@, m4, "msg_arg_data_size"@);
        crate::utils::lemma_extends_import(old(m)@, m4, "msg_arg_data_copy"@);
    }
    add_endpoints(m, &vars, config);
}

/// Instruments the module. Where a name in `trace_only_funcs` belongs to no
/// function, the module stays as it is and the error says which name.
pub fn instrument(m: &mut Module, config: Config) -> (r: Result<(), String>)
    requires
        first_missing(old(m)@, config@.trace_only_funcs) is None ==> can_instrument(
            old(m)@,
            config@,
        ),
    ensures
        match first_missing(old(m)@, config@.trace_only_funcs) {
            Some(k) => r matches Err(msg) && msg@ == not_found(config@.trace_only_funcs[k])
                && final(m)@ == old(m)@,
            None => r is Ok && final(m)@ == instrumented(old(m)@, config@)
                && old(m)@.customs.is_prefix_of(final(m)@.customs) && final(m)@.customs.len()
                == old(m)@.customs.len() + 1,
        },
{
    let ghost names = config@.trace_only_funcs;
    let ghost missing = is_missing(m@);
    let mut trace_only: Vec<FunctionId> = Vec::new();
    let mut k: usize = 0;
    while k < config.trace_only_funcs.len()
        invariant
            k <= config.trace_only_funcs.len(),
            *m == *old(m),
            names == config@.trace_only_funcs,
            missing == is_missing(m@),
            forall|j: int| 0 <= j < k ==> !missing(#[trigger] names[j]),
            trace_only@ == Seq::new(k as nat, |j: int| m@.func_by_name(names[j])->0 as usize),
        decreases config.trace_only_funcs.len() - k,
    {
        let name = config.trace_only_funcs[k].as_str();
        assert(names[k as int] == name@);
        match m.func_by_name(name) {
            Some(id) => {
                trace_only.push(id);
                assert(trace_only@ =~= Seq::new(
                    (k + 1) as nat,
                    |j: int| m@.func_by_name(names[j])->0 as usize,
                ));
            },
            None => {
                proof {
                    assert(missing(names[k as int]));
                    assert(is_first(names, missing, k as int));
                    lemma_first_index_found(names, missing, k as int);
                }
                let message = concat(concat("func \"", name).as_str(), "\" not found");
                return Err(message);
            },
        }
        k += 1;
    }
    proof {
        lemma_first_index_none(names, missing);
        assert(trace_only@ =~= trace_only_ids(m@, names));
    }
    let is_partial_tracing = config.trace_only_funcs.len() > 0;
    instrument_with(m, &config, is_partial_tracing, &trace_only);
    Ok(())
}

fn is_hook_name(name: &str) -> (r: bool)
    ensures
        r == is_hook(name@),
{
    (!str_eq(name, "canister_update __motoko_async_helper") && (starts_with(
        name,
        "canister_update",
    ) || starts_with(name, "canister_query") || starts_with(name, "canister_composite_query")
        || starts_with(name, "canister_heartbeat") || str_eq(name, "canister_pre_upgrade")))
        || str_eq(name, "canister_init") || str_eq(name, "canister_post_upgrade")
}

fn is_local_func(m: &Module, id: FunctionId) -> (r: bool)
    ensures
        r == is_local(m@, id),
{
    if id >= m.funcs.len() {
        return false;
    }
    match &m.funcs[id].kind {
        FunctionKind::Local(f) => {
            assert(m@.local(id as int) == f.deep_view());
            f.entry < f.seqs.len()
        },
        _ => false,
    }
}

fn check_hooks(m: &Module) -> (ok: bool)
    ensures
        ok == hooks_are_local(m@),
{
    let mut k: usize = 0;
    while k < m.exports.len()
        invariant
            k <= m.exports.len(),
            forall|j: int|
                0 <= j < k && (#[trigger] m@.exports[j]).item is Function && is_hook(
                    m@.exports[j].name,
                ) ==> is_local(m@, m@.exports[j].item->Function_0),
        decreases m.exports.len() - k,
    {
        let export = &m.exports[k];
        assert(m@.exports[k as int] == export.deep_view());
        match export.item {
            ExportItem::Function(id) => {
                if is_hook_name(export.name.as_str()) && !is_local_func(m, id) {
                    return false;
                }
            },
            _ => {},
        }
        k += 1;
    }
    true
}

fn check_functions(m: &Module) -> (ok: bool)
    ensures
        ok == (forall|id: int|
            0 <= id < m@.funcs.len() && (#[trigger] m@.funcs[id]).kind is Local ==> can_meter(
                m@.local(id),
            ) && can_trace(m@.types, id as usize, m@.local(id))),
{
    let mut id: usize = 0;
    while id < m.funcs.len()
        invariant
            id <= m.funcs.len(),
            forall|f: int|
                0 <= f < id && (#[trigger] m@.funcs[f]).kind is Local ==> can_meter(m@.local(f))
                    && can_trace(m@.types, f as usize, m@.local(f)),
        decreases m.funcs.len() - id,
    {
        match &m.funcs[id].kind {
            FunctionKind::Local(f) => {
                assert(m@.funcs[id as int].kind is Local);
                assert(m@.local(id as int) == f.deep_view());
                if !check_metering(f) || !check_tracing(&m.types, id, f) {
                    return false;
                }
            },
            _ => {},
        }
        id += 1;
    }
    true
}

/// Whether the module can be instrumented with `config`.
pub fn check(m: &Module, config: &Config) -> (ok: bool)
    ensures
        ok == can_instrument(m@, config@),
{
    let fits = match config.start_address {
        Some(a) => a <= i32::MAX - METADATA_SIZE,
        None => true,
    } && match config.page_limit {
        Some(p) => -32767 <= p && p <= 32768,
        None => true,
    };
    fits && m.ic0_imports_are_functions() && m.memories.len() >= 1 && m.locals.len()
        <= usize::MAX - 32 && m.globals.len() <= usize::MAX - 5 && m.funcs.len() <= usize::MAX - 2
        && m.find_import("ic0", "msg_arg_data_size").is_some() && m.find_import(
        "ic0",
        "msg_arg_data_copy",
    ).is_some() && check_hooks(m) && check_functions(m)
}

} // verus!
