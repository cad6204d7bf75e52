//! Bounding what a canister may use: calls that transfer cycles are
//! neutralised, growth of stable memory and of the heap is capped, and calls
//! to management methods are sent to a backend canister.

use vstd::prelude::*;
use crate::builder::{body_of, lemma_deep_view3, seq_of, InstrSeqBuilder};
use crate::search::{list1, list2, list3};
use crate::ir::{
    binop, block, br, br_if, call, i32_const, i64_const, if_else, local_get, local_set, store,
    BinaryOp, ExtendedLoad, FunctionId, Instr, InstrSeqId, InstrSeqType, InstrView, LoadKind,
    LocalId, MemArg, MemoryId, StoreKind, TypeId, ValType, Value,
};
use crate::module::{
    ConstExpr, DataKind, Function, FunctionKind, FunctionKindView, FunctionView, ImportKind,
    InstrSeq, InstrSeqView, LocalFunction, LocalFunctionView, Located, LocatedView, Memory, Module,
    no_types, ModuleView,
};

verus! {

/// What to limit. `playground_canister_id` holds the bytes of the principal
/// that management calls are sent to.
#[derive(Clone, Debug, PartialEq, Eq)]
pub struct Config {
    pub remove_cycles_add: bool,
    pub limit_stable_memory_page: Option<u32>,
    pub limit_heap_memory_page: Option<u32>,
    pub playground_canister_id: Option<Vec<u8>>,
}

pub struct ConfigView {
    pub remove_cycles_add: bool,
    pub limit_stable_memory_page: Option<u32>,
    pub limit_heap_memory_page: Option<u32>,
    pub playground_canister_id: Option<Seq<u8>>,
}

impl View for Config {
    type V = ConfigView;

    open spec fn view(&self) -> ConfigView {
        ConfigView {
            remove_cycles_add: self.remove_cycles_add,
            limit_stable_memory_page: self.limit_stable_memory_page,
            limit_heap_memory_page: self.limit_heap_memory_page,
            playground_canister_id: match self.playground_canister_id {
                Some(p) => Some(p@),
                None => None,
            },
        }
    }
}

/// What the list of replacements `s` says of `k`: a later pair for the same
/// function takes the place of an earlier one.
pub open spec fn lookup(s: Seq<(FunctionId, FunctionId)>, k: FunctionId) -> Option<FunctionId>
    decreases s.len(),
{
    if s.len() == 0 {
        None
    } else if s.last().0 == k {
        Some(s.last().1)
    } else {
        lookup(s.drop_last(), k)
    }
}

/// `id` is what some function is replaced by.
pub open spec fn is_target(r: Map<FunctionId, FunctionId>, id: FunctionId) -> bool {
    exists|k: FunctionId| r.dom().contains(k) && #[trigger] r[k] == id
}

proof fn lemma_lookup_some(s: Seq<(FunctionId, FunctionId)>, k: FunctionId)
    requires
        lookup(s, k) is Some,
    ensures
        exists|i: int| 0 <= i < s.len() && (#[trigger] s[i]).0 == k,
    decreases s.len(),
{
    if s.last().0 == k {
        assert(s[s.len() - 1].0 == k);
    } else {
        lemma_lookup_some(s.drop_last(), k);
        let i = choose|i: int| 0 <= i < s.drop_last().len() && (#[trigger] s.drop_last()[i]).0 == k;
        assert(s[i].0 == k);
    }
}

/// Which functions calls are redirected to: a map from the function called
/// to the function to call in its place.
pub struct Replacer {
    pairs: Vec<(FunctionId, FunctionId)>,
}

impl View for Replacer {
    type V = Map<FunctionId, FunctionId>;

    closed spec fn view(&self) -> Map<FunctionId, FunctionId> {
        Map::new(
            |k: FunctionId| lookup(self.pairs@, k) is Some,
            |k: FunctionId| lookup(self.pairs@, k)->0,
        )
    }
}

impl Replacer {
    /// No replacements.
    pub fn new() -> (r: Replacer)
        ensures
            r@ == Map::<FunctionId, FunctionId>::empty(),
    {
        let r = Replacer { pairs: Vec::new() };
        assert(r@ =~= Map::<FunctionId, FunctionId>::empty());
        r
    }

    /// From now on calls of `from` are to go to `to`.
    pub fn add(&mut self, from: FunctionId, to: FunctionId)
        ensures
            final(self)@ == old(self)@.insert(from, to),
    {
        self.pairs.push((from, to));
        assert(self.pairs@.drop_last() =~= old(self).pairs@);
        assert(self@ =~= old(self)@.insert(from, to));
    }

    /// The function that calls of `f` are to go to, if `f` is replaced.
    pub fn get(&self, f: FunctionId) -> (r: Option<FunctionId>)
        ensures
            r == (if self@.dom().contains(f) {
                Some(self@[f])
            } else {
                None
            }),
    {
        let mut i: usize = self.pairs.len();
        assert(self.pairs@.subrange(0, i as int) =~= self.pairs@);
        while i > 0
            invariant
                i <= self.pairs.len(),
                lookup(self.pairs@, f) == lookup(self.pairs@.subrange(0, i as int), f),
            decreases i,
        {
            i -= 1;
            assert(self.pairs@.subrange(0, i + 1).drop_last() =~= self.pairs@.subrange(
                0,
                i as int,
            ));
            if self.pairs[i].0 == f {
                return Some(self.pairs[i].1);
            }
        }
        None
    }

    /// Whether `id` is what some function is replaced by.
    pub fn is_target(&self, id: FunctionId) -> (r: bool)
        ensures
            r == is_target(self@, id),
    {
        let mut i: usize = 0;
        while i < self.pairs.len()
            invariant
                i <= self.pairs.len(),
                forall|j: int|
                    0 <= j < i ==> lookup(self.pairs@, (#[trigger] self.pairs@[j]).0) != Some(id),
            decreases self.pairs.len() - i,
        {
            let k = self.pairs[i].0;
            match self.get(k) {
                Some(v) => {
                    if v == id {
                        assert(self@.dom().contains(k) && self@[k] == id);
                        return true;
                    }
                },
                None => {},
            }
            i += 1;
        }
        proof {
            if is_target(self@, id) {
                let k = choose|k: FunctionId| self@.dom().contains(k) && #[trigger] self@[k] == id;
                lemma_lookup_some(self.pairs@, k);
                let j = choose|j: int|
                    0 <= j < self.pairs@.len() && (#[trigger] self.pairs@[j]).0 == k;
                assert(lookup(self.pairs@, self.pairs@[j].0) != Some(id));
            }
        }
        false
    }
}

/// The function that `ic0.method` is in `m`. The two functions that give the
/// size of stable memory are there for the asking: where one is not
/// imported, it is the function that `with_ic_func` adds.
pub open spec fn ic_func(m: ModuleView, method: Seq<char>) -> Option<FunctionId> {
    match m.find_import("ic0"@, method) {
        Some(i) => match m.imports[i].kind {
            ImportKind::Function(f) => Some(f),
            _ => None,
        },
        None => if method == "stable_size"@ || method == "stable64_size"@ {
            Some(m.funcs.len() as usize)
        } else {
            None
        },
    }
}

/// The module after `ic0.method` was asked for: `stable_size` and
/// `stable64_size` are imported if they were not, with their types.
pub open spec fn with_ic_func(m: ModuleView, method: Seq<char>) -> ModuleView {
    if m.find_import("ic0"@, method) is Some {
        m
    } else if method == "stable_size"@ {
        m.with_type(Seq::empty(), seq![ValType::I32], false).with_import_func(
            "ic0"@,
            method,
            m.type_id(Seq::empty(), seq![ValType::I32], false),
        )
    } else if method == "stable64_size"@ {
        m.with_type(Seq::empty(), seq![ValType::I64], false).with_import_func(
            "ic0"@,
            method,
            m.type_id(Seq::empty(), seq![ValType::I64], false),
        )
    } else {
        m
    }
}

/// The id of the system function `ic0.method`, if the module imports it.
/// `stable_size` and `stable64_size` are imported on demand.
pub fn get_ic_func_id(m: &mut Module, method: &str) -> (r: Option<FunctionId>)
    requires
        old(m)@.ic0_imports_are_functions(),
    ensures
        r == ic_func(old(m)@, method@),
        final(m)@ == with_ic_func(old(m)@, method@),
        final(m)@.ic0_imports_are_functions(),
        grown(old(m)@, final(m)@),
        final(m)@.locals == old(m)@.locals,
{
    match m.find_import("ic0", method) {
        Some(id) => {
            proof {
                crate::search::lemma_first_index(m@.imports, crate::module::is_import("ic0"@, method@));
            }
            match m.imports[id].kind {
                ImportKind::Function(func_id) => Some(func_id),
                _ => None,
            }
        },
        None => {
            if crate::strings::str_eq(method, "stable_size") {
                let ty = m.add_type(no_types().as_slice(), list1(ValType::I32).as_slice(), false);
                let id = m.add_import_func("ic0", method, ty);
                Some(id)
            } else if crate::strings::str_eq(method, "stable64_size") {
                let ty = m.add_type(no_types().as_slice(), list1(ValType::I64).as_slice(), false);
                let id = m.add_import_func("ic0", method, ty);
                Some(id)
            } else {
                None
            }
        },
    }
}

/// `b` is `a` with types, locals and functions added at the end of their
/// tables, and with nothing else changed but for imports of
/// `ic0.stable_size` and `ic0.stable64_size`, which may have been added too.
pub open spec fn grown(a: ModuleView, b: ModuleView) -> bool {
    &&& b.globals == a.globals
    &&& b.memories == a.memories
    &&& b.data == a.data
    &&& b.exports == a.exports
    &&& b.customs == a.customs
    &&& b.tables == a.tables
    &&& b.elements == a.elements
    &&& b.start == a.start
    &&& a.types.is_prefix_of(b.types)
    &&& a.locals.is_prefix_of(b.locals)
    &&& a.funcs.is_prefix_of(b.funcs)
    &&& a.imports.is_prefix_of(b.imports)
    &&& forall|i: int|
        a.imports.len() <= i < b.imports.len() ==> {
            &&& (#[trigger] b.imports[i]).module == "ic0"@
            &&& (b.imports[i].name == "stable_size"@ || b.imports[i].name == "stable64_size"@)
            &&& b.imports[i].kind is Function
        }
}

/// What has grown from what has grown has grown.
pub proof fn lemma_grown_trans(a: ModuleView, b: ModuleView, c: ModuleView)
    requires
        grown(a, b),
        grown(b, c),
    ensures
        grown(a, c),
{
    assert forall|i: int| a.imports.len() <= i < c.imports.len() implies {
        &&& (#[trigger] c.imports[i]).module == "ic0"@
        &&& (c.imports[i].name == "stable_size"@ || c.imports[i].name == "stable64_size"@)
        &&& c.imports[i].kind is Function
    } by {
        if i < b.imports.len() {
            assert(c.imports[i] == b.imports[i]);
        }
    }
}

/// In a module that has grown, a system function other than the two that
/// give the size of stable memory is the function that it was.
pub proof fn lemma_grown_ic_func(a: ModuleView, b: ModuleView, method: Seq<char>)
    requires
        grown(a, b),
        method != "stable_size"@,
        method != "stable64_size"@,
    ensures
        ic_func(b, method) == ic_func(a, method),
        imports_ic0(b, method) == imports_ic0(a, method),
        b.ic0_imports_are_functions() == a.ic0_imports_are_functions(),
{
    let p = crate::module::is_import("ic0"@, method);
    crate::search::lemma_first_index(a.imports, p);
    crate::search::lemma_first_index(b.imports, p);
    match a.find_import("ic0"@, method) {
        Some(i) => {
            assert(b.imports[i] == a.imports[i]);
            assert forall|j: int| 0 <= j < i implies !p(#[trigger] b.imports[j]) by {
                assert(b.imports[j] == a.imports[j]);
            }
            assert(crate::search::is_first(b.imports, p, i));
            crate::search::lemma_first_index_found(b.imports, p, i);
        },
        None => {
            assert forall|j: int| 0 <= j < b.imports.len() implies !p(#[trigger] b.imports[j]) by {
                if j < a.imports.len() {
                    assert(b.imports[j] == a.imports[j]);
                }
            }
            crate::search::lemma_first_index_none(b.imports, p);
        },
    }
    if a.ic0_imports_are_functions() {
        assert forall|i: int|
            0 <= i < b.imports.len() && (#[trigger] b.imports[i]).module
                == "ic0"@ implies b.imports[i].kind is Function by {
            if i < a.imports.len() {
                assert(b.imports[i] == a.imports[i]);
            }
        }
    }
    if b.ic0_imports_are_functions() {
        assert forall|i: int|
            0 <= i < a.imports.len() && (#[trigger] a.imports[i]).module
                == "ic0"@ implies a.imports[i].kind is Function by {
            assert(b.imports[i] == a.imports[i]);
        }
    }
}

/// None of the system functions that get a wrapper is one of the two that
/// are imported on demand.
pub proof fn lemma_wrapped_names()
    ensures
        "call_cycles_add"@ != "stable_size"@ && "call_cycles_add"@ != "stable64_size"@,
        "call_cycles_add128"@ != "stable_size"@ && "call_cycles_add128"@ != "stable64_size"@,
        "cycles_burn128"@ != "stable_size"@ && "cycles_burn128"@ != "stable64_size"@,
        "stable_grow"@ != "stable_size"@ && "stable_grow"@ != "stable64_size"@,
        "stable64_grow"@ != "stable_size"@ && "stable64_grow"@ != "stable64_size"@,
        "call_new"@ != "stable_size"@ && "call_new"@ != "stable64_size"@,
        "stable_size"@ != "stable64_size"@,
{
    reveal_strlit("call_cycles_add");
    reveal_strlit("call_cycles_add128");
    reveal_strlit("cycles_burn128");
    reveal_strlit("stable_grow");
    reveal_strlit("stable64_grow");
    reveal_strlit("call_new");
    reveal_strlit("stable_size");
    reveal_strlit("stable64_size");
    assert("call_new"@.len() == 8);
    assert("stable_size"@.len() == 11);
    assert("stable64_size"@.len() == 13);
    assert("stable_grow"@[7] != "stable_size"@[7]);
    assert("stable64_grow"@[9] != "stable64_size"@[9]);
}

/// The body of the stand-in for `ic0.call_cycles_add`.
pub open spec fn cycles_add_code(amount: LocalId) -> Seq<InstrView> {
    seq![local_get(amount), InstrView::Drop]
}

/// The body of the stand-in for `ic0.call_cycles_add128`.
pub open spec fn cycles_add128_code(high: LocalId, low: LocalId) -> Seq<InstrView> {
    seq![local_get(high), local_get(low), InstrView::Drop, InstrView::Drop]
}

/// The body of the stand-in for `ic0.cycles_burn128`.
pub open spec fn cycles_burn128_code(high: LocalId, low: LocalId, dst: LocalId) -> Seq<InstrView> {
    seq![
        local_get(high),
        local_get(low),
        local_get(dst),
        InstrView::Drop,
        InstrView::Drop,
        InstrView::Drop,
    ]
}

/// The module and the replacements once `ic0.call_cycles_add`, if imported,
/// has a stand-in that drops its argument.
pub open spec fn cycles_add_stub(m: ModuleView, r: Map<FunctionId, FunctionId>) -> (
    ModuleView,
    Map<FunctionId, FunctionId>,
) {
    match ic_func(m, "call_cycles_add"@) {
        None => (m, r),
        Some(from) => {
            let params = seq![ValType::I64];
            let m1 = m.with_signature(params, Seq::empty());
            let amount = m1.locals.len() as usize;
            let m2 = m1.with_local(ValType::I64);
            let body = seq![
                seq_of(
                    InstrSeqType::MultiValue(m.signature_entry_ty(params, Seq::empty())),
                    cycles_add_code(amount),
                ),
            ];
            (
                m2.with_local_func(None, m.signature_ty(params, Seq::empty()), seq![amount], body),
                r.insert(from, m2.funcs.len() as usize),
            )
        },
    }
}

/// Gives `ic0.call_cycles_add`, if imported, a stand-in that drops its
/// argument.
pub fn make_cycles_add(m: &mut Module, replacer: &mut Replacer, wasm64: bool)
    requires
        old(m)@.ic0_imports_are_functions(),
        !(wasm64 && ic_func(old(m)@, "call_cycles_add"@) is Some),
    ensures
        (final(m)@, final(replacer)@) == cycles_add_stub(old(m)@, old(replacer)@),
        final(m)@.ic0_imports_are_functions(),
        grown(old(m)@, final(m)@),
        final(m)@.locals.len() <= old(m)@.locals.len() + 1,
{
    proof {
        lemma_wrapped_names();
    }
    if let Some(old_cycles_add) = get_ic_func_id(m, "call_cycles_add") {
        let (ty, entry_ty) = m.add_signature(list1(ValType::I64).as_slice(), no_types().as_slice());
        let amount = m.add_local(ValType::I64);
        let mut body = InstrSeqBuilder::new();
        body.local_get(amount);
        body.drop();
        assert(body@ == cycles_add_code(amount));
        let seqs = body_of(body.finish(InstrSeqType::MultiValue(entry_ty)));
        let new_cycles_add = m.add_local_func(None, ty, list1(amount), seqs);
        replacer.add(old_cycles_add, new_cycles_add);
    }
}

/// The module and the replacements once `ic0.call_cycles_add128`, if
/// imported, has a stand-in that drops its arguments.
pub open spec fn cycles_add128_stub(m: ModuleView, r: Map<FunctionId, FunctionId>) -> (
    ModuleView,
    Map<FunctionId, FunctionId>,
) {
    match ic_func(m, "call_cycles_add128"@) {
        None => (m, r),
        Some(from) => {
            let params = seq![ValType::I64, ValType::I64];
            let m1 = m.with_signature(params, Seq::empty());
            let high = m1.locals.len() as usize;
            let low = (m1.locals.len() + 1) as usize;
            let m2 = m1.with_local(ValType::I64).with_local(ValType::I64);
            let body = seq![
                seq_of(
                    InstrSeqType::MultiValue(m.signature_entry_ty(params, Seq::empty())),
                    cycles_add128_code(high, low),
                ),
            ];
            (
                m2.with_local_func(
                    None,
                    m.signature_ty(params, Seq::empty()),
                    seq![high, low],
                    body,
                ),
                r.insert(from, m2.funcs.len() as usize),
            )
        },
    }
}

/// Gives `ic0.call_cycles_add128`, if imported, a stand-in that drops its
/// arguments.
pub fn make_cycles_add128(m: &mut Module, replacer: &mut Replacer)
    requires
        old(m)@.ic0_imports_are_functions(),
        old(m)@.locals.len() + 2 <= usize::MAX,
    ensures
        (final(m)@, final(replacer)@) == cycles_add128_stub(old(m)@, old(replacer)@),
        final(m)@.ic0_imports_are_functions(),
        grown(old(m)@, final(m)@),
        final(m)@.locals.len() <= old(m)@.locals.len() + 2,
{
    proof {
        lemma_wrapped_names();
    }
    if let Some(old_cycles_add128) = get_ic_func_id(m, "call_cycles_add128") {
        let (ty, entry_ty) = m.add_signature(
            list2(ValType::I64, ValType::I64).as_slice(),
            no_types().as_slice(),
        );
        let high = m.add_local(ValType::I64);
        let low = m.add_local(ValType::I64);
        let mut body = InstrSeqBuilder::new();
        body.local_get(high);
        body.local_get(low);
        body.drop();
        body.drop();
        assert(body@ == cycles_add128_code(high, low));
        let seqs = body_of(body.finish(InstrSeqType::MultiValue(entry_ty)));
        let new_cycles_add128 = m.add_local_func(None, ty, list2(high, low), seqs);
        replacer.add(old_cycles_add128, new_cycles_add128);
    }
}

/// The value type of an address: `i64` with 64-bit memory, else `i32`.
pub open spec fn pointer_type(wasm64: bool) -> ValType {
    if wasm64 {
        ValType::I64
    } else {
        ValType::I32
    }
}

/// The module and the replacements once `ic0.cycles_burn128`, if imported,
/// has a stand-in that drops its arguments.
pub open spec fn cycles_burn128_stub(
    m: ModuleView,
    r: Map<FunctionId, FunctionId>,
    wasm64: bool,
) -> (ModuleView, Map<FunctionId, FunctionId>) {
    match ic_func(m, "cycles_burn128"@) {
        None => (m, r),
        Some(from) => {
            let params = seq![ValType::I64, ValType::I64, pointer_type(wasm64)];
            let m1 = m.with_signature(params, Seq::empty());
            let high = m1.locals.len() as usize;
            let low = (m1.locals.len() + 1) as usize;
            let dst = (m1.locals.len() + 2) as usize;
            let m2 = m1.with_local(ValType::I64).with_local(ValType::I64).with_local(
                pointer_type(wasm64),
            );
            let body = seq![
                seq_of(
                    InstrSeqType::MultiValue(m.signature_entry_ty(params, Seq::empty())),
                    cycles_burn128_code(high, low, dst),
                ),
            ];
            (
                m2.with_local_func(
                    None,
                    m.signature_ty(params, Seq::empty()),
                    seq![high, low, dst],
                    body,
                ),
                r.insert(from, m2.funcs.len() as usize),
            )
        },
    }
}

/// Gives `ic0.cycles_burn128`, if imported, a stand-in that drops its
/// arguments.
pub fn make_cycles_burn128(m: &mut Module, replacer: &mut Replacer, wasm64: bool)
    requires
        old(m)@.ic0_imports_are_functions(),
        old(m)@.locals.len() + 3 <= usize::MAX,
    ensures
        (final(m)@, final(replacer)@) == cycles_burn128_stub(old(m)@, old(replacer)@, wasm64),
        final(m)@.ic0_imports_are_functions(),
        grown(old(m)@, final(m)@),
        final(m)@.locals.len() <= old(m)@.locals.len() + 3,
{
    proof {
        lemma_wrapped_names();
    }
    if let Some(old_cycles_burn128) = get_ic_func_id(m, "cycles_burn128") {
        let dst_type = if wasm64 {
            ValType::I64
        } else {
            ValType::I32
        };
        let (ty, entry_ty) = m.add_signature(
            list3(ValType::I64, ValType::I64, dst_type).as_slice(),
            no_types().as_slice(),
        );
        let high = m.add_local(ValType::I64);
        let low = m.add_local(ValType::I64);
        let dst = m.add_local(dst_type);
        let mut body = InstrSeqBuilder::new();
        body.local_get(high);
        body.local_get(low);
        body.local_get(dst);
        body.drop();
        body.drop();
        body.drop();
        assert(body@ == cycles_burn128_code(high, low, dst));
        let seqs = body_of(body.finish(InstrSeqType::MultiValue(entry_ty)));
        let new_cycles_burn128 = m.add_local_func(None, ty, list3(high, low, dst), seqs);
        replacer.add(old_cycles_burn128, new_cycles_burn128);
    }
}

/// The entry sequence of the wrapper for `ic0.stable_grow`: whether the size
/// after growing would exceed `limit`, then sequence 1 or sequence 2.
pub open spec fn stable_grow_code(stable_size: FunctionId, requested: LocalId, limit: i32) -> Seq<
    InstrView,
> {
    seq![
        call(stable_size),
        local_get(requested),
        binop(BinaryOp::I32Add),
        i32_const(limit),
        binop(BinaryOp::I32GtU),
        if_else(1, 2),
    ]
}

/// The entry sequence of the wrapper for `ic0.stable64_grow`.
pub open spec fn stable64_grow_code(stable_size: FunctionId, requested: LocalId, limit: i64) -> Seq<
    InstrView,
> {
    seq![
        call(stable_size),
        local_get(requested),
        binop(BinaryOp::I64Add),
        i64_const(limit),
        binop(BinaryOp::I64GtU),
        if_else(1, 2),
    ]
}

/// What a wrapper for growing does within the limit: it hands the request to
/// the system function.
pub open spec fn grow_code(requested: LocalId, grow: FunctionId) -> Seq<InstrView> {
    seq![local_get(requested), call(grow)]
}

/// The sequences of the wrapper for `ic0.stable_grow`: the check, the
/// refusal, and the call of the system function.
pub open spec fn stable_grow_body(
    entry_ty: TypeId,
    stable_size: FunctionId,
    requested: LocalId,
    grow: FunctionId,
    limit: i32,
) -> Seq<InstrSeqView> {
    seq![
        seq_of(
            InstrSeqType::MultiValue(entry_ty),
            stable_grow_code(stable_size, requested, limit),
        ),
        seq_of(InstrSeqType::Simple(Some(ValType::I32)), seq![i32_const(-1i32)]),
        seq_of(InstrSeqType::Simple(Some(ValType::I32)), grow_code(requested, grow)),
    ]
}

/// The sequences of the wrapper for `ic0.stable64_grow`.
pub open spec fn stable64_grow_body(
    entry_ty: TypeId,
    stable_size: FunctionId,
    requested: LocalId,
    grow: FunctionId,
    limit: i64,
) -> Seq<InstrSeqView> {
    seq![
        seq_of(
            InstrSeqType::MultiValue(entry_ty),
            stable64_grow_code(stable_size, requested, limit),
        ),
        seq_of(InstrSeqType::Simple(Some(ValType::I64)), seq![i64_const(-1i64)]),
        seq_of(InstrSeqType::Simple(Some(ValType::I64)), grow_code(requested, grow)),
    ]
}

/// The module and the replacements once `ic0.stable_grow`, if imported, has a
/// wrapper that answers -1 where stable memory would grow beyond `limit`
/// pages, and calls the system function otherwise. `ic0.stable_size` is
/// imported for it.
pub open spec fn stable_grow_guard(m: ModuleView, r: Map<FunctionId, FunctionId>, limit: i32) -> (
    ModuleView,
    Map<FunctionId, FunctionId>,
) {
    match ic_func(m, "stable_grow"@) {
        None => (m, r),
        Some(from) => {
            let stable_size = ic_func(m, "stable_size"@)->0;
            let m0 = with_ic_func(m, "stable_size"@);
            let sig = seq![ValType::I32];
            let m1 = m0.with_signature(sig, sig);
            let requested = m1.locals.len() as usize;
            let m2 = m1.with_local(ValType::I32);
            let body = stable_grow_body(
                m0.signature_entry_ty(sig, sig),
                stable_size,
                requested,
                from,
                limit,
            );
            (
                m2.with_local_func(None, m0.signature_ty(sig, sig), seq![requested], body),
                r.insert(from, m2.funcs.len() as usize),
            )
        },
    }
}

/// Gives `ic0.stable_grow`, if imported, a wrapper that refuses to grow
/// stable memory beyond `limit` pages.
pub fn make_stable_grow(m: &mut Module, replacer: &mut Replacer, wasm64: bool, limit: i32)
    requires
        old(m)@.ic0_imports_are_functions(),
        !(wasm64 && ic_func(old(m)@, "stable_grow"@) is Some),
    ensures
        (final(m)@, final(replacer)@) == stable_grow_guard(old(m)@, old(replacer)@, limit),
        final(m)@.ic0_imports_are_functions(),
        grown(old(m)@, final(m)@),
        final(m)@.locals.len() <= old(m)@.locals.len() + 1,
{
    proof {
        lemma_wrapped_names();
    }
    if let Some(old_stable_grow) = get_ic_func_id(m, "stable_grow") {
        let stable_size = match get_ic_func_id(m, "stable_size") {
            Some(id) => id,
            None => 0,
        };
        let (ty, entry_ty) = m.add_signature(
            list1(ValType::I32).as_slice(),
            list1(ValType::I32).as_slice(),
        );
        let requested = m.add_local(ValType::I32);
        let mut body = InstrSeqBuilder::new();
        body.call(stable_size);
        body.local_get(requested);
        body.binop(BinaryOp::I32Add);
        body.i32_const(limit);
        body.binop(BinaryOp::I32GtU);
        body.if_else(1, 2);
        assert(body@ == stable_grow_code(stable_size, requested, limit));
        let mut then = InstrSeqBuilder::new();
        then.i32_const(-1);
        let mut else_ = InstrSeqBuilder::new();
        else_.local_get(requested);
        else_.call(old_stable_grow);
        assert(else_@ == grow_code(requested, old_stable_grow));
        let seqs = list3(
            body.finish(InstrSeqType::MultiValue(entry_ty)),
            then.finish(InstrSeqType::Simple(Some(ValType::I32))),
            else_.finish(InstrSeqType::Simple(Some(ValType::I32))),
        );
        proof {
            lemma_deep_view3(seqs);
        }
        let new_stable_grow = m.add_local_func(None, ty, list1(requested), seqs);
        replacer.add(old_stable_grow, new_stable_grow);
    }
}

/// The module and the replacements once `ic0.stable64_grow`, if imported, has
/// a wrapper that answers -1 where stable memory would grow beyond `limit`
/// pages, and calls the system function otherwise. `ic0.stable64_size` is
/// imported for it.
pub open spec fn stable64_grow_guard(m: ModuleView, r: Map<FunctionId, FunctionId>, limit: i64) -> (
    ModuleView,
    Map<FunctionId, FunctionId>,
) {
    match ic_func(m, "stable64_grow"@) {
        None => (m, r),
        Some(from) => {
            let stable_size = ic_func(m, "stable64_size"@)->0;
            let m0 = with_ic_func(m, "stable64_size"@);
            let sig = seq![ValType::I64];
            let m1 = m0.with_signature(sig, sig);
            let requested = m1.locals.len() as usize;
            let m2 = m1.with_local(ValType::I64);
            let body = stable64_grow_body(
                m0.signature_entry_ty(sig, sig),
                stable_size,
                requested,
                from,
                limit,
            );
            (
                m2.with_local_func(None, m0.signature_ty(sig, sig), seq![requested], body),
                r.insert(from, m2.funcs.len() as usize),
            )
        },
    }
}

/// Gives `ic0.stable64_grow`, if imported, a wrapper that refuses to grow
/// stable memory beyond `limit` pages.
pub fn make_stable64_grow(m: &mut Module, replacer: &mut Replacer, limit: i64)
    requires
        old(m)@.ic0_imports_are_functions(),
    ensures
        (final(m)@, final(replacer)@) == stable64_grow_guard(old(m)@, old(replacer)@, limit),
        final(m)@.ic0_imports_are_functions(),
        grown(old(m)@, final(m)@),
        final(m)@.locals.len() <= old(m)@.locals.len() + 1,
{
    proof {
        lemma_wrapped_names();
    }
    if let Some(old_stable64_grow) = get_ic_func_id(m, "stable64_grow") {
        let stable64_size = match get_ic_func_id(m, "stable64_size") {
            Some(id) => id,
            None => 0,
        };
        let (ty, entry_ty) = m.add_signature(
            list1(ValType::I64).as_slice(),
            list1(ValType::I64).as_slice(),
        );
        let requested = m.add_local(ValType::I64);
        let mut body = InstrSeqBuilder::new();
        body.call(stable64_size);
        body.local_get(requested);
        body.binop(BinaryOp::I64Add);
        body.i64_const(limit);
        body.binop(BinaryOp::I64GtU);
        body.if_else(1, 2);
        assert(body@ == stable64_grow_code(stable64_size, requested, limit));
        let mut then = InstrSeqBuilder::new();
        then.i64_const(-1);
        let mut else_ = InstrSeqBuilder::new();
        else_.local_get(requested);
        else_.call(old_stable64_grow);
        assert(else_@ == grow_code(requested, old_stable64_grow));
        let seqs = list3(
            body.finish(InstrSeqType::MultiValue(entry_ty)),
            then.finish(InstrSeqType::Simple(Some(ValType::I64))),
            else_.finish(InstrSeqType::Simple(Some(ValType::I64))),
        );
        proof {
            lemma_deep_view3(seqs);
        }
        let new_stable64_grow = m.add_local_func(None, ty, list1(requested), seqs);
        replacer.add(old_stable64_grow, new_stable64_grow);
    }
}

/// What a list of byte strings is compared with, and where the outcome goes:
/// the string in memory starts at the address in local `src` and has the
/// length in local `size`; `no_redirect` is cleared on a match, and
/// `is_rename`, where there is one, says whether the string matched is
/// `http_request`. `checks_id` is the sequence that a match leaves.
#[derive(Clone, Copy)]
pub struct ListCheck {
    pub memory: MemoryId,
    pub wasm64: bool,
    pub no_redirect: LocalId,
    pub size: LocalId,
    pub src: LocalId,
    pub is_rename: Option<LocalId>,
    pub checks_id: InstrSeqId,
}

/// The constant `v` at the width of an address.
pub open spec fn width_const(wasm64: bool, v: usize) -> InstrView {
    if wasm64 {
        i64_const(v as i64)
    } else {
        i32_const(v as i32)
    }
}

/// Inequality at the width of an address.
pub open spec fn width_ne(wasm64: bool) -> InstrView {
    if wasm64 {
        binop(BinaryOp::I64Ne)
    } else {
        binop(BinaryOp::I32Ne)
    }
}

/// The load of one byte, zero-extended to the width of an address, at the
/// constant offset `offset`.
pub open spec fn load_byte(memory: MemoryId, wasm64: bool, offset: u64) -> InstrView {
    InstrView::Load {
        memory,
        kind: if wasm64 {
            LoadKind::I64_8 { kind: ExtendedLoad::ZeroExtend }
        } else {
            LoadKind::I32_8 { kind: ExtendedLoad::ZeroExtend }
        },
        arg: MemArg { align: 1, offset },
    }
}

/// The store of the low byte of a value of the width of an address.
pub open spec fn store_byte(memory: MemoryId, wasm64: bool) -> InstrView {
    store(
        memory,
        if wasm64 {
            StoreKind::I64_8 { atomic: false }
        } else {
            StoreKind::I32_8 { atomic: false }
        },
        1,
    )
}

/// The loads that put the first `n` bytes of the string in memory on the
/// stack, the first byte lowest.
pub open spec fn loads(c: ListCheck, n: nat) -> Seq<InstrView>
    decreases n,
{
    if n == 0 {
        Seq::empty()
    } else {
        loads(c, (n - 1) as nat) + seq![
            local_get(c.src),
            load_byte(c.memory, c.wasm64, (n - 1) as u64),
        ]
    }
}

/// The comparisons of the last `done` bytes of `bytes` with the bytes on the
/// stack, the last byte first; a difference leaves the sequence `this`.
pub open spec fn compares(c: ListCheck, bytes: Seq<u8>, this: InstrSeqId, done: nat) -> Seq<
    InstrView,
>
    decreases done,
{
    if done == 0 {
        Seq::empty()
    } else {
        compares(c, bytes, this, (done - 1) as nat) + seq![
            width_const(c.wasm64, bytes[bytes.len() - done] as usize),
            width_ne(c.wasm64),
            br_if(this),
        ]
    }
}

/// The bytes of the text `s`.
pub open spec fn utf8(s: Seq<char>) -> Seq<u8> {
    vstd::utf8::encode_utf8(s)
}

/// What records which string matched, where that is asked for.
pub open spec fn rename_code(c: ListCheck, bytes: Seq<u8>) -> Seq<InstrView> {
    match c.is_rename {
        Some(l) => seq![
            i32_const(
                if bytes == utf8("http_request"@) {
                    1i32
                } else {
                    0i32
                },
            ),
            local_set(l),
        ],
        None => Seq::empty(),
    }
}

/// The sequence `this`, which compares the string in memory with `bytes`:
/// first the length, then byte by byte; on a match it records the outcome
/// and leaves the enclosing sequence of checks, otherwise it ends.
pub open spec fn match_code(c: ListCheck, bytes: Seq<u8>, this: InstrSeqId) -> Seq<InstrView> {
    seq![
        local_get(c.size),
        width_const(c.wasm64, bytes.len() as usize),
        width_ne(c.wasm64),
        br_if(this),
    ] + loads(c, bytes.len()) + compares(c, bytes, this, bytes.len()) + rename_code(c, bytes)
        + seq![i32_const(0), local_set(c.no_redirect), br(c.checks_id)]
}

/// The sequences that check the strings of `list`, one each, with the ids
/// from `first` on.
pub open spec fn check_list_seqs(c: ListCheck, list: Seq<Seq<u8>>, first: InstrSeqId) -> Seq<
    InstrSeqView,
> {
    Seq::new(
        list.len(),
        |k: int| seq_of(InstrSeqType::Simple(None), match_code(c, list[k], (first + k) as usize)),
    )
}

/// What the sequence of checks holds for a list of `n` strings: one block
/// for each, then the outcome that none matched.
pub open spec fn check_list_code(c: ListCheck, first: InstrSeqId, n: nat) -> Seq<InstrView> {
    Seq::new(n, |k: int| block((first + k) as usize)) + seq![
        i32_const(1),
        local_set(c.no_redirect),
    ]
}

/// The byte strings of a list.
pub open spec fn byte_strings(list: Vec<Vec<u8>>) -> Seq<Seq<u8>> {
    Seq::new(list.len() as nat, |k: int| list[k]@)
}

fn push_width_const(b: &mut InstrSeqBuilder, wasm64: bool, v: usize)
    ensures
        final(b)@ == old(b)@.push(width_const(wasm64, v)),
{
    if wasm64 {
        b.i64_const(#[verifier::truncate] (v as i64));
    } else {
        b.i32_const(#[verifier::truncate] (v as i32));
    }
}

fn push_width_ne(b: &mut InstrSeqBuilder, wasm64: bool)
    ensures
        final(b)@ == old(b)@.push(width_ne(wasm64)),
{
    if wasm64 {
        b.binop(BinaryOp::I64Ne);
    } else {
        b.binop(BinaryOp::I32Ne);
    }
}

fn push_load_byte(b: &mut InstrSeqBuilder, memory: MemoryId, wasm64: bool, offset: u64)
    ensures
        final(b)@ == old(b)@.push(load_byte(memory, wasm64, offset)),
{
    let kind = if wasm64 {
        LoadKind::I64_8 { kind: ExtendedLoad::ZeroExtend }
    } else {
        LoadKind::I32_8 { kind: ExtendedLoad::ZeroExtend }
    };
    b.instr(Instr::Load { memory, kind, arg: MemArg { align: 1, offset } });
}

fn push_store_byte(b: &mut InstrSeqBuilder, memory: MemoryId, wasm64: bool)
    ensures
        final(b)@ == old(b)@.push(store_byte(memory, wasm64)),
{
    let kind = if wasm64 {
        StoreKind::I64_8 { atomic: false }
    } else {
        StoreKind::I32_8 { atomic: false }
    };
    b.store(memory, kind, 1);
}

/// The sequence that compares the string in memory with `bytes`.
fn match_block(c: ListCheck, bytes: &Vec<u8>, this: InstrSeqId) -> (r: InstrSeq)
    ensures
        r.deep_view() == seq_of(InstrSeqType::Simple(None), match_code(c, bytes@, this)),
{
    let n = bytes.len();
    let mut b = InstrSeqBuilder::new();
    b.local_get(c.size);
    push_width_const(&mut b, c.wasm64, n);
    push_width_ne(&mut b, c.wasm64);
    b.br_if(this);
    let ghost head = b@;
    assert(head == seq![
        local_get(c.size),
        width_const(c.wasm64, bytes@.len() as usize),
        width_ne(c.wasm64),
        br_if(this),
    ]);
    let mut i: usize = 0;
    while i < n
        invariant
            i <= n,
            n == bytes@.len(),
            b@ == head + loads(c, i as nat),
        decreases n - i,
    {
        b.local_get(c.src);
        push_load_byte(&mut b, c.memory, c.wasm64, i as u64);
        assert(b@ =~= head + loads(c, (i + 1) as nat));
        i += 1;
    }
    let ghost loaded = b@;
    let mut done: usize = 0;
    while done < n
        invariant
            done <= n,
            n == bytes@.len(),
            b@ == loaded + compares(c, bytes@, this, done as nat),
        decreases n - done,
    {
        let byte = bytes[n - 1 - done];
        push_width_const(&mut b, c.wasm64, byte as usize);
        push_width_ne(&mut b, c.wasm64);
        b.br_if(this);
        assert(b@ =~= loaded + compares(c, bytes@, this, (done + 1) as nat));
        done += 1;
    }
    let ghost compared = b@;
    match c.is_rename {
        Some(is_rename) => {
            if crate::strings::bytes_eq(bytes.as_slice(), "http_request".as_bytes()) {
                b.i32_const(1);
            } else {
                b.i32_const(0);
            }
            b.local_set(is_rename);
        },
        None => {},
    }
    assert(b@ =~= compared + rename_code(c, bytes@));
    b.i32_const(0);
    b.local_set(c.no_redirect);
    b.br(c.checks_id);
    assert(b@ =~= match_code(c, bytes@, this));
    b.finish(InstrSeqType::Simple(None))
}

/// Checks the string in memory against each string of `list`: gives the
/// sequences that do so, which get the ids from `first` on, and adds to
/// `checks` the blocks that run them and the case that none matched.
pub fn check_list(checks: &mut InstrSeqBuilder, c: ListCheck, list: &Vec<Vec<u8>>, first: InstrSeqId) -> (seqs:
    Vec<InstrSeq>)
    requires
        first + list@.len() <= usize::MAX,
    ensures
        seqs.deep_view() == check_list_seqs(c, byte_strings(*list), first),
        final(checks)@ == old(checks)@ + check_list_code(c, first, list@.len()),
{
    let mut seqs: Vec<InstrSeq> = Vec::new();
    let mut k: usize = 0;
    while k < list.len()
        invariant
            k <= list.len(),
            first + list@.len() <= usize::MAX,
            seqs.deep_view() == check_list_seqs(c, byte_strings(*list), first).subrange(0, k as int),
            checks@ == old(checks)@ + Seq::new(k as nat, |j: int| block((first + j) as usize)),
        decreases list.len() - k,
    {
        let seq = match_block(c, &list[k], first + k);
        let ghost before = seqs.deep_view();
        let ghost added = seq.deep_view();
        seqs.push(seq);
        checks.block(first + k);
        proof {
            assert(seqs.deep_view() =~= before.push(added));
            assert(byte_strings(*list)[k as int] == list@[k as int]@);
            assert(added == check_list_seqs(c, byte_strings(*list), first)[k as int]);
            assert(seqs.deep_view() =~= check_list_seqs(c, byte_strings(*list), first).subrange(
                0,
                k + 1,
            ));
            assert(checks@ =~= old(checks)@ + Seq::new(
                (k + 1) as nat,
                |j: int| block((first + j) as usize),
            ));
        }
        k += 1;
    }
    checks.i32_const(1);
    checks.local_set(c.no_redirect);
    proof {
        assert(checks@ =~= old(checks)@ + check_list_code(c, first, list@.len()));
        assert(seqs.deep_view() =~= check_list_seqs(c, byte_strings(*list), first));
    }
    seqs
}

/// What the wrapper for `ic0.call_new` is built from. Its locals follow one
/// another from `first_local` on: the eight arguments, `no_redirect`,
/// `is_rename`, and one local for each byte of `target`. `target` is the
/// principal that calls are sent to, `callees` are the principals and
/// `methods` the method names that are watched for.
pub struct Redirect {
    pub memory: MemoryId,
    pub wasm64: bool,
    pub call_new: FunctionId,
    pub entry_ty: TypeId,
    pub first_local: LocalId,
    pub target: Seq<u8>,
    pub callees: Seq<Seq<u8>>,
    pub methods: Seq<Seq<u8>>,
}

impl Redirect {
    /// The local of argument `k`: 0 the callee's address, 1 its length, 2 the
    /// method name's address, 3 its length, 4 to 7 the callbacks.
    pub open spec fn arg(self, k: int) -> LocalId {
        (self.first_local + k) as usize
    }

    /// The local that is not 0 while the call is to pass as it came.
    pub open spec fn no_redirect(self) -> LocalId {
        (self.first_local + 8) as usize
    }

    /// The local that is not 0 where the method is to be renamed.
    pub open spec fn is_rename(self) -> LocalId {
        (self.first_local + 9) as usize
    }

    /// The local that keeps byte `k` of the heap while `target` is there.
    pub open spec fn backup(self, k: int) -> LocalId {
        (self.first_local + 10 + k) as usize
    }

    /// The sequence that checks callee `k`.
    pub open spec fn callee_seq(self, k: int) -> InstrSeqId {
        (3 + k) as usize
    }

    /// The sequence that checks method `k`.
    pub open spec fn method_seq(self, k: int) -> InstrSeqId {
        (3 + self.callees.len() + k) as usize
    }

    /// The sequence that forwards the call as it is.
    pub open spec fn forward_seq(self) -> InstrSeqId {
        (3 + self.callees.len() + self.methods.len()) as usize
    }

    /// The sequence that sends the call to `target`.
    pub open spec fn redirect_seq(self) -> InstrSeqId {
        (4 + self.callees.len() + self.methods.len()) as usize
    }

    /// The sequence that renames the method.
    pub open spec fn rename_seq(self) -> InstrSeqId {
        (5 + self.callees.len() + self.methods.len()) as usize
    }

    /// The empty alternative to renaming.
    pub open spec fn keep_seq(self) -> InstrSeqId {
        (6 + self.callees.len() + self.methods.len()) as usize
    }

    /// How the callee is checked: sequence 2 holds the checks.
    pub open spec fn callee_check(self) -> ListCheck {
        ListCheck {
            memory: self.memory,
            wasm64: self.wasm64,
            no_redirect: self.no_redirect(),
            size: self.arg(1),
            src: self.arg(0),
            is_rename: None,
            checks_id: 2,
        }
    }

    /// How the method name is checked: sequence 1 holds the checks.
    pub open spec fn method_check(self) -> ListCheck {
        ListCheck {
            memory: self.memory,
            wasm64: self.wasm64,
            no_redirect: self.no_redirect(),
            size: self.arg(3),
            src: self.arg(2),
            is_rename: Some(self.is_rename()),
            checks_id: 1,
        }
    }

    /// The entry sequence: the checks, then one of the two ways to call.
    pub open spec fn entry_code(self) -> Seq<InstrView> {
        seq![
            block(1),
            local_get(self.no_redirect()),
            if_else(self.forward_seq(), self.redirect_seq()),
        ]
    }

    /// Sequence 1: the check of the callee, which ends the checks where no
    /// callee matched, then the checks of the method name.
    pub open spec fn checks_code(self) -> Seq<InstrView> {
        seq![block(2), local_get(self.no_redirect()), br_if(1)] + check_list_code(
            self.method_check(),
            self.method_seq(0),
            self.methods.len(),
        )
    }

    /// The call with the arguments from `from` on as they came.
    pub open spec fn call_code(self, from: int) -> Seq<InstrView> {
        Seq::new((8 - from) as nat, |k: int| local_get(self.arg(from + k))).push(
            call(self.call_new),
        )
    }

    /// Saves the first `n` bytes of the heap in the backup locals.
    pub open spec fn backups(self, n: nat) -> Seq<InstrView>
        decreases n,
    {
        if n == 0 {
            Seq::empty()
        } else {
            self.backups((n - 1) as nat) + seq![
                width_const(self.wasm64, (n - 1) as usize),
                load_byte(self.memory, self.wasm64, 0),
                local_set(self.backup(n - 1)),
            ]
        }
    }

    /// Writes the first `n` bytes of `target` to the start of the heap.
    pub open spec fn writes(self, n: nat) -> Seq<InstrView>
        decreases n,
    {
        if n == 0 {
            Seq::empty()
        } else {
            self.writes((n - 1) as nat) + seq![
                width_const(self.wasm64, (n - 1) as usize),
                width_const(self.wasm64, self.target[n - 1] as usize),
                store_byte(self.memory, self.wasm64),
            ]
        }
    }

    /// Puts the first `n` bytes of the heap back from the backup locals.
    pub open spec fn restores(self, n: nat) -> Seq<InstrView>
        decreases n,
    {
        if n == 0 {
            Seq::empty()
        } else {
            self.restores((n - 1) as nat) + seq![
                width_const(self.wasm64, (n - 1) as usize),
                local_get(self.backup(n - 1)),
                store_byte(self.memory, self.wasm64),
            ]
        }
    }

    /// The sequence that sends the call to `target`: it saves the start of
    /// the heap, writes `target` there, renames the method where asked to,
    /// calls with `target` as the callee, and restores the heap.
    pub open spec fn redirect_code(self) -> Seq<InstrView> {
        self.backups(self.target.len()) + self.writes(self.target.len()) + seq![
            local_get(self.is_rename()),
            if_else(self.rename_seq(), self.keep_seq()),
            width_const(self.wasm64, 0),
            width_const(self.wasm64, self.target.len() as usize),
        ] + self.call_code(2) + self.restores(self.target.len())
    }

    /// The sequence that renames the method in place: an underscore over the
    /// first byte of its name.
    pub open spec fn rename_code(self) -> Seq<InstrView> {
        seq![
            local_get(self.arg(2)),
            width_const(self.wasm64, 95),
            store_byte(self.memory, self.wasm64),
        ]
    }

    /// The sequences of the wrapper.
    pub open spec fn body(self) -> Seq<InstrSeqView> {
        seq![
            seq_of(InstrSeqType::MultiValue(self.entry_ty), self.entry_code()),
            seq_of(InstrSeqType::Simple(None), self.checks_code()),
            seq_of(
                InstrSeqType::Simple(None),
                check_list_code(self.callee_check(), self.callee_seq(0), self.callees.len()),
            ),
        ] + check_list_seqs(self.callee_check(), self.callees, self.callee_seq(0))
            + check_list_seqs(self.method_check(), self.methods, self.method_seq(0)) + seq![
            seq_of(InstrSeqType::Simple(None), self.call_code(0)),
            seq_of(InstrSeqType::Simple(None), self.redirect_code()),
            seq_of(InstrSeqType::Simple(None), self.rename_code()),
            seq_of(InstrSeqType::Simple(None), Seq::empty()),
        ]
    }
}

/// Adds the call of `call_new` with the arguments from `from` on.
fn push_call(b: &mut InstrSeqBuilder, Ghost(p): Ghost<Redirect>, first_local: LocalId, call_new: FunctionId, from: usize)
    requires
        from <= 8,
        first_local + 8 <= usize::MAX,
        p.first_local == first_local,
        p.call_new == call_new,
    ensures
        final(b)@ == old(b)@ + p.call_code(from as int),
{
    let mut k: usize = from;
    while k < 8
        invariant
            from <= k <= 8,
            first_local + 8 <= usize::MAX,
            p.first_local == first_local,
            b@ == old(b)@ + Seq::new((k - from) as nat, |j: int| local_get(p.arg(from + j))),
        decreases 8 - k,
    {
        b.local_get(first_local + k);
        assert(b@ =~= old(b)@ + Seq::new(
            (k + 1 - from) as nat,
            |j: int| local_get(p.arg(from + j)),
        ));
        k += 1;
    }
    b.call(call_new);
    assert(b@ =~= old(b)@ + p.call_code(from as int));
}

/// The sequences of the wrapper for `ic0.call_new`.
pub fn redirect_body(
    memory: MemoryId,
    wasm64: bool,
    call_new: FunctionId,
    entry_ty: TypeId,
    first_local: LocalId,
    target: &Vec<u8>,
    callees: &Vec<Vec<u8>>,
    methods: &Vec<Vec<u8>>,
) -> (seqs: Vec<InstrSeq>)
    requires
        first_local + 10 + target@.len() <= usize::MAX,
        7 + callees@.len() + methods@.len() <= usize::MAX,
    ensures
        seqs.deep_view() == (Redirect {
            memory,
            wasm64,
            call_new,
            entry_ty,
            first_local,
            target: target@,
            callees: byte_strings(*callees),
            methods: byte_strings(*methods),
        }).body(),
{
    let ghost p = Redirect {
        memory,
        wasm64,
        call_new,
        entry_ty,
        first_local,
        target: target@,
        callees: byte_strings(*callees),
        methods: byte_strings(*methods),
    };
    let no_redirect = first_local + 8;
    let is_rename = first_local + 9;
    let n = target.len();
    let c = callees.len();
    let forward_seq = 3 + c + methods.len();

    let mut entry = InstrSeqBuilder::new();
    entry.block(1);
    entry.local_get(no_redirect);
    entry.if_else(forward_seq, forward_seq + 1);
    assert(entry@ == p.entry_code());

    let mut id_check = InstrSeqBuilder::new();
    let callee_check = ListCheck {
        memory,
        wasm64,
        no_redirect,
        size: first_local + 1,
        src: first_local,
        is_rename: None,
        checks_id: 2,
    };
    let mut callee_seqs = check_list(&mut id_check, callee_check, callees, 3);
    assert(id_check@ =~= check_list_code(p.callee_check(), p.callee_seq(0), p.callees.len()));

    let mut checks = InstrSeqBuilder::new();
    checks.block(2);
    checks.local_get(no_redirect);
    checks.br_if(1);
    assert(checks@ == seq![block(2), local_get(p.no_redirect()), br_if(1)]);
    let method_check = ListCheck {
        memory,
        wasm64,
        no_redirect,
        size: first_local + 3,
        src: first_local + 2,
        is_rename: Some(is_rename),
        checks_id: 1,
    };
    let mut method_seqs = check_list(&mut checks, method_check, methods, 3 + c);
    assert(checks@ == p.checks_code());

    let mut forward = InstrSeqBuilder::new();
    push_call(&mut forward, Ghost(p), first_local, call_new, 0);
    assert(forward@ =~= p.call_code(0));

    let mut redirect = InstrSeqBuilder::new();
    let mut k: usize = 0;
    while k < n
        invariant
            k <= n,
            n == target@.len(),
            first_local + 10 + n <= usize::MAX,
            p.first_local == first_local,
            p.wasm64 == wasm64,
            p.memory == memory,
            redirect@ == p.backups(k as nat),
        decreases n - k,
    {
        push_width_const(&mut redirect, wasm64, k);
        push_load_byte(&mut redirect, memory, wasm64, 0);
        redirect.local_set(first_local + 10 + k);
        assert(redirect@ =~= p.backups((k + 1) as nat));
        k += 1;
    }
    k = 0;
    while k < n
        invariant
            k <= n,
            n == target@.len(),
            p.target == target@,
            p.wasm64 == wasm64,
            p.memory == memory,
            redirect@ == p.backups(n as nat) + p.writes(k as nat),
        decreases n - k,
    {
        push_width_const(&mut redirect, wasm64, k);
        push_width_const(&mut redirect, wasm64, target[k] as usize);
        push_store_byte(&mut redirect, memory, wasm64);
        assert(redirect@ =~= p.backups(n as nat) + p.writes((k + 1) as nat));
        k += 1;
    }
    redirect.local_get(is_rename);
    redirect.if_else(forward_seq + 2, forward_seq + 3);
    push_width_const(&mut redirect, wasm64, 0);
    push_width_const(&mut redirect, wasm64, n);
    push_call(&mut redirect, Ghost(p), first_local, call_new, 2);
    let ghost called = redirect@;
    assert(called =~= p.backups(n as nat) + p.writes(n as nat) + seq![
        local_get(p.is_rename()),
        if_else(p.rename_seq(), p.keep_seq()),
        width_const(p.wasm64, 0),
        width_const(p.wasm64, p.target.len() as usize),
    ] + p.call_code(2));
    k = 0;
    while k < n
        invariant
            k <= n,
            n == target@.len(),
            first_local + 10 + n <= usize::MAX,
            p.first_local == first_local,
            p.wasm64 == wasm64,
            p.memory == memory,
            redirect@ == called + p.restores(k as nat),
        decreases n - k,
    {
        push_width_const(&mut redirect, wasm64, k);
        redirect.local_get(first_local + 10 + k);
        push_store_byte(&mut redirect, memory, wasm64);
        assert(redirect@ =~= called + p.restores((k + 1) as nat));
        k += 1;
    }
    assert(redirect@ == p.redirect_code());

    let mut rename = InstrSeqBuilder::new();
    rename.local_get(first_local + 2);
    push_width_const(&mut rename, wasm64, 95);
    push_store_byte(&mut rename, memory, wasm64);
    assert(rename@ == p.rename_code());

    let mut seqs: Vec<InstrSeq> = Vec::new();
    seqs.push(entry.finish(InstrSeqType::MultiValue(entry_ty)));
    seqs.push(checks.finish(InstrSeqType::Simple(None)));
    seqs.push(id_check.finish(InstrSeqType::Simple(None)));
    let ghost head = seqs.deep_view();
    let ghost callee_part = callee_seqs.deep_view();
    let ghost method_part = method_seqs.deep_view();
    seqs.append(&mut callee_seqs);
    assert(seqs.deep_view() =~= head + callee_part);
    seqs.append(&mut method_seqs);
    assert(seqs.deep_view() =~= head + callee_part + method_part);
    seqs.push(forward.finish(InstrSeqType::Simple(None)));
    seqs.push(redirect.finish(InstrSeqType::Simple(None)));
    seqs.push(rename.finish(InstrSeqType::Simple(None)));
    seqs.push(InstrSeqBuilder::new().finish(InstrSeqType::Simple(None)));
    assert(seqs.deep_view() =~= p.body());
    seqs
}

/// The method names that are watched for: the methods of the management
/// canister that need a controller or cycles, and those of the EVM RPC
/// canister. `http_request` is renamed when a call is sent on, so the new
/// name is watched for too.
pub open spec fn controller_methods() -> Seq<Seq<u8>> {
    seq![
        utf8("create_canister"@),
        utf8("update_settings"@),
        utf8("install_code"@),
        utf8("uninstall_code"@),
        utf8("canister_status"@),
        utf8("stop_canister"@),
        utf8("start_canister"@),
        utf8("delete_canister"@),
        utf8("list_canister_snapshots"@),
        utf8("take_canister_snapshot"@),
        utf8("load_canister_snapshot"@),
        utf8("delete_canister_snapshot"@),
        utf8("sign_with_ecdsa"@),
        utf8("sign_with_schnorr"@),
        utf8("http_request"@),
        utf8("_ttp_request"@),
        utf8("eth_call"@),
        utf8("eth_feeHistory"@),
        utf8("eth_getBlockByNumber"@),
        utf8("eth_getLogs"@),
        utf8("eth_getTransactionCount"@),
        utf8("eth_getTransactionReceipt"@),
        utf8("eth_sendRawTransaction"@),
        utf8("request"@),
    ]
}

/// The bytes of the text `s`.
pub fn name_bytes(s: &str) -> (v: Vec<u8>)
    ensures
        v@ == utf8(s@),
{
    crate::strings::str_bytes(s)
}

/// The method names that are watched for.
pub fn controller_function_names() -> (v: Vec<Vec<u8>>)
    ensures
        byte_strings(v) == controller_methods(),
        v@.len() == 24,
{
    let mut v: Vec<Vec<u8>> = Vec::new();
    v.push(name_bytes("create_canister"));
    v.push(name_bytes("update_settings"));
    v.push(name_bytes("install_code"));
    v.push(name_bytes("uninstall_code"));
    v.push(name_bytes("canister_status"));
    v.push(name_bytes("stop_canister"));
    v.push(name_bytes("start_canister"));
    v.push(name_bytes("delete_canister"));
    v.push(name_bytes("list_canister_snapshots"));
    v.push(name_bytes("take_canister_snapshot"));
    v.push(name_bytes("load_canister_snapshot"));
    v.push(name_bytes("delete_canister_snapshot"));
    v.push(name_bytes("sign_with_ecdsa"));
    v.push(name_bytes("sign_with_schnorr"));
    v.push(name_bytes("http_request"));
    v.push(name_bytes("_ttp_request"));
    v.push(name_bytes("eth_call"));
    v.push(name_bytes("eth_feeHistory"));
    v.push(name_bytes("eth_getBlockByNumber"));
    v.push(name_bytes("eth_getLogs"));
    v.push(name_bytes("eth_getTransactionCount"));
    v.push(name_bytes("eth_getTransactionReceipt"));
    v.push(name_bytes("eth_sendRawTransaction"));
    v.push(name_bytes("request"));
    assert(byte_strings(v) =~= controller_methods());
    v
}

/// The bytes of the principal that the text `text` stands for, if it stands
/// for one.
pub uninterp spec fn principal_of_text(text: Seq<char>) -> Option<Seq<u8>>;

/// `Principal::from_text` of candid, with `as_slice` on what it gives: the
/// bytes of the principal written as `text`, or nothing where the text is
/// not that of a principal. A principal has at most 29 bytes.
#[verifier::external_body]
fn principal_from_text(text: &str) -> (r: Option<Vec<u8>>)
    ensures
        r is Some == principal_of_text(text@) is Some,
        r matches Some(b) ==> principal_of_text(text@) == Some(b@) && b@.len() <= 29,
{
    match candid::Principal::from_text(text) {
        Ok(p) => Some(p.as_slice().to_vec()),
        Err(_) => None,
    }
}

/// The principals that are watched for: the management canister, which is
/// the empty principal, and `backend`.
pub open spec fn redirect_canisters(backend: Seq<u8>) -> Seq<Seq<u8>> {
    seq![Seq::empty(), backend]
}

/// The module and the replacements once `ic0.call_new`, if imported, has a
/// wrapper that sends calls of the watched methods on the watched canisters
/// to the principal `target`, and forwards every other call as it is.
pub open spec fn redirected(
    m: ModuleView,
    r: Map<FunctionId, FunctionId>,
    wasm64: bool,
    target: Seq<u8>,
    backend: Seq<u8>,
) -> (ModuleView, Map<FunctionId, FunctionId>) {
    match ic_func(m, "call_new"@) {
        None => (m, r),
        Some(from) => {
            let pt = pointer_type(wasm64);
            let m1 = m.with_locals(pt, 8).with_locals(ValType::I32, 2).with_locals(
                pt,
                target.len(),
            );
            let params = Seq::new(8, |i: int| pt);
            let m2 = m1.with_signature(params, Seq::empty());
            let plan = Redirect {
                memory: 0,
                wasm64,
                call_new: from,
                entry_ty: m1.signature_entry_ty(params, Seq::empty()),
                first_local: m.locals.len() as usize,
                target,
                callees: redirect_canisters(backend),
                methods: controller_methods(),
            };
            (
                m2.with_local_func(
                    None,
                    m1.signature_ty(params, Seq::empty()),
                    Seq::new(8, |i: int| (m.locals.len() + i) as usize),
                    plan.body(),
                ),
                r.insert(from, m2.funcs.len() as usize),
            )
        },
    }
}

/// Gives `ic0.call_new`, if imported, a wrapper that sends calls of the
/// watched methods on the management canister or on `backend` to the
/// principal `redirect_id`.
pub fn redirect_call_new(
    m: &mut Module,
    replacer: &mut Replacer,
    wasm64: bool,
    redirect_id: &Vec<u8>,
    backend: Vec<u8>,
)
    requires
        old(m)@.ic0_imports_are_functions(),
        old(m)@.locals.len() + 10 + redirect_id@.len() <= usize::MAX,
        ic_func(old(m)@, "call_new"@) is Some ==> old(m)@.memories.len() == 1,
    ensures
        (final(m)@, final(replacer)@) == redirected(
            old(m)@,
            old(replacer)@,
            wasm64,
            redirect_id@,
            backend@,
        ),
        final(m)@.ic0_imports_are_functions(),
        grown(old(m)@, final(m)@),
        final(m)@.locals.len() <= old(m)@.locals.len() + 10 + redirect_id@.len(),
{
    proof {
        lemma_wrapped_names();
    }
    if let Some(old_call_new) = get_ic_func_id(m, "call_new") {
        let pointer = if wasm64 {
            ValType::I64
        } else {
            ValType::I32
        };
        let first = m.add_locals(pointer, 8);
        let _flags = m.add_locals(ValType::I32, 2);
        let _backup = m.add_locals(pointer, redirect_id.len());
        let mut params: Vec<ValType> = Vec::new();
        let mut args: Vec<LocalId> = Vec::new();
        let mut k: usize = 0;
        while k < 8
            invariant
                k <= 8,
                first + 10 <= usize::MAX,
                params@ == Seq::new(k as nat, |i: int| pointer),
                args@ == Seq::new(k as nat, |i: int| (first + i) as usize),
            decreases 8 - k,
        {
            params.push(pointer);
            args.push(first + k);
            assert(params@ =~= Seq::new((k + 1) as nat, |i: int| pointer));
            assert(args@ =~= Seq::new((k + 1) as nat, |i: int| (first + i) as usize));
            k += 1;
        }
        let (ty, entry_ty) = m.add_signature(params.as_slice(), no_types().as_slice());
        let mut callees: Vec<Vec<u8>> = Vec::new();
        callees.push(Vec::new());
        callees.push(backend);
        assert(byte_strings(callees) =~= redirect_canisters(backend@));
        let methods = controller_function_names();
        let seqs = redirect_body(
            0,
            wasm64,
            old_call_new,
            entry_ty,
            first,
            redirect_id,
            &callees,
            &methods,
        );
        let new_call_new = m.add_local_func(None, ty, args, seqs);
        replacer.add(old_call_new, new_call_new);
    }
}

/// The module and the replacements after `make_redirect_call_new`, given
/// what the text of the backend principal stands for. Without a backend
/// principal nothing is done.
pub open spec fn redirected_to_backend(
    m: ModuleView,
    r: Map<FunctionId, FunctionId>,
    wasm64: bool,
    target: Seq<u8>,
    backend: Option<Seq<u8>>,
) -> (ModuleView, Map<FunctionId, FunctionId>) {
    match backend {
        Some(b) => redirected(m, r, wasm64, target, b),
        None => (m, r),
    }
}

/// Gives `ic0.call_new`, if imported, a wrapper that sends calls of the
/// watched methods on the management canister or on the canister
/// `7hfb6-caaaa-aaaar-qadga-cai` to the principal `redirect_id`.
pub fn make_redirect_call_new(
    m: &mut Module,
    replacer: &mut Replacer,
    wasm64: bool,
    redirect_id: &Vec<u8>,
)
    requires
        old(m)@.ic0_imports_are_functions(),
        old(m)@.locals.len() + 10 + redirect_id@.len() <= usize::MAX,
        ic_func(old(m)@, "call_new"@) is Some ==> old(m)@.memories.len() == 1,
    ensures
        (final(m)@, final(replacer)@) == redirected_to_backend(
            old(m)@,
            old(replacer)@,
            wasm64,
            redirect_id@,
            principal_of_text("7hfb6-caaaa-aaaar-qadga-cai"@),
        ),
        final(m)@.ic0_imports_are_functions(),
        grown(old(m)@, final(m)@),
        final(m)@.locals.len() <= old(m)@.locals.len() + 10 + redirect_id@.len(),
{
    match principal_from_text("7hfb6-caaaa-aaaar-qadga-cai") {
        Some(backend) => redirect_call_new(m, replacer, wasm64, redirect_id, backend),
        None => {},
    }
}

/// The constant address that an initialiser gives, if it is a plain integer:
/// a 32-bit value is sign-extended.
pub open spec fn const_offset(e: ConstExpr) -> Option<u64> {
    match e {
        ConstExpr::Value(Value::I32(o)) => Some(o as u64),
        ConstExpr::Value(Value::I64(o)) => Some(o as u64),
        _ => None,
    }
}

/// Every active data segment of `memory` with a constant address starts
/// below `bound`.
pub open spec fn segments_start_below(m: ModuleView, memory: MemoryId, bound: int) -> bool {
    forall|d: int|
        0 <= d < m.data.len() ==> match (#[trigger] m.data[d]).kind {
            DataKind::Active { memory: data_memory, offset } => data_memory == memory ==> (
            match const_offset(offset) {
                Some(o) => o < bound,
                None => true,
            }),
            DataKind::Passive => true,
        }
}

/// The heap of `m` can be limited to `limit` pages: unless the module has
/// exactly one memory there is nothing to limit, and a memory that starts
/// with more pages can lose them only if no data segment starts in what is
/// cut off.
pub open spec fn heap_limit_applies(m: ModuleView, limit: u32) -> bool {
    m.memories.len() == 1 && m.memories[0].initial > limit ==> segments_start_below(
        m,
        0,
        limit * 65536,
    )
}

/// The module with its heap limited to `limit` pages, where that applies:
/// the memory starts with at most `limit` pages and never has more.
pub open spec fn heap_limited(m: ModuleView, limit: u32) -> ModuleView {
    if m.memories.len() == 1 && heap_limit_applies(m, limit) {
        let memory = m.memories[0];
        ModuleView {
            memories: seq![
                Memory {
                    initial: if memory.initial > limit {
                        limit as u64
                    } else {
                        memory.initial
                    },
                    maximum: Some(limit as u64),
                    ..memory
                },
            ],
            ..m
        }
    } else {
        m
    }
}

/// Whether the heap of `m` can be limited to `limit` pages.
pub fn can_limit_heap_memory(m: &Module, limit: u32) -> (ok: bool)
    ensures
        ok == heap_limit_applies(m@, limit),
{
    if m.memories.len() != 1 {
        return true;
    }
    let limit64 = limit as u64;
    if m.memories[0].initial > limit64 {
        let bound: u64 = limit64 * 65536;
        let mut d: usize = 0;
        while d < m.data.len()
            invariant
                d <= m.data.len(),
                bound == limit * 65536,
                m@.memories.len() == 1,
                m@.memories[0].initial > limit,
                forall|k: int|
                    0 <= k < d ==> match (#[trigger] m@.data[k]).kind {
                        DataKind::Active { memory: data_memory, offset } => data_memory == 0 ==> (
                        match const_offset(offset) {
                            Some(o) => o < bound,
                            None => true,
                        }),
                        DataKind::Passive => true,
                    },
            decreases m.data.len() - d,
        {
            match m.data[d].kind {
                DataKind::Active { memory: data_memory, offset } => {
                    if data_memory == 0 {
                        let start: Option<u64> = match offset {
                            ConstExpr::Value(Value::I32(o)) => Some(#[verifier::truncate] (o as u64)),
                            ConstExpr::Value(Value::I64(o)) => Some(#[verifier::truncate] (o as u64)),
                            _ => None,
                        };
                        match start {
                            Some(o) => {
                                if o >= bound {
                                    proof {
                                        let segment = m@.data[d as int];
                                        assert(segment.kind == m.data[d as int].kind);
                                        assert(const_offset(offset) == Some(o));
                                        assert(!segments_start_below(m@, 0, limit * 65536));
                                    }
                                    return false;
                                }
                            },
                            None => {},
                        }
                    }
                },
                DataKind::Passive => {},
            }
            d += 1;
        }
    }
    true
}

/// Limits the heap to `limit` pages: the memory, if the module has one,
/// starts with at most `limit` pages and never has more. No data segment
/// may start in what is cut off, which `can_limit_heap_memory` tells.
pub fn limit_heap_memory(m: &mut Module, limit: u32)
    requires
        heap_limit_applies(old(m)@, limit),
    ensures
        final(m)@ == heap_limited(old(m)@, limit),
{
    if m.memories.len() != 1 {
        return ;
    }
    let memory = m.memories[0];
    let limit64 = limit as u64;
    let initial = if memory.initial > limit64 {
        limit64
    } else {
        memory.initial
    };
    m.memories.set(
        0,
        Memory {
            shared: memory.shared,
            memory64: memory.memory64,
            initial,
            maximum: Some(limit64),
            import: memory.import,
        },
    );
    assert(m@.memories =~= heap_limited(old(m)@, limit).memories);
}

/// Every active data segment of `memory` with a constant address ends at or
/// below `bound`.
pub open spec fn segments_end_below(m: ModuleView, memory: MemoryId, bound: int) -> bool {
    forall|d: int|
        0 <= d < m.data.len() ==> match (#[trigger] m.data[d]).kind {
            DataKind::Active { memory: data_memory, offset } => data_memory == memory ==> (
            match const_offset(offset) {
                Some(o) => o + m.data[d].value.len() <= bound,
                None => true,
            }),
            DataKind::Passive => true,
        }
}

/// Limiting the heap is safe: in a module with one memory whose data
/// segments start within the pages that the memory begins with, the limit
/// either leaves the module as it is, or gives a memory that begins with at
/// most `limit` pages, never has more, and has every data segment start
/// within them.
pub proof fn lemma_heap_limit_safe(m: ModuleView, limit: u32)
    requires
        m.memories.len() == 1,
        segments_start_below(m, 0, m.memories[0].initial * 65536),
    ensures
        ({
            let r = heap_limited(m, limit);
            r == m || (r.memories.len() == 1 && r.memories[0].initial <= limit
                && r.memories[0].maximum == Some(limit as u64) && segments_start_below(
                r,
                0,
                limit * 65536,
            ))
        }),
{
    let r = heap_limited(m, limit);
    if heap_limit_applies(m, limit) {
        assert forall|d: int| 0 <= d < r.data.len() implies match (#[trigger] r.data[d]).kind {
            DataKind::Active { memory: data_memory, offset } => data_memory == 0 ==> (
            match const_offset(offset) {
                Some(o) => o < limit * 65536,
                None => true,
            }),
            DataKind::Passive => true,
        } by {
            assert(r.data[d] == m.data[d]);
        }
    }
}

/// Where moreover the data segments lie within the pages that the memory
/// begins with, and none that starts below the limit reaches beyond it, the
/// limited module has every data segment within the limit.
pub proof fn lemma_heap_limit_keeps_segments(m: ModuleView, limit: u32)
    requires
        m.memories.len() == 1,
        segments_end_below(m, 0, m.memories[0].initial * 65536),
        segments_start_below(m, 0, limit * 65536) ==> segments_end_below(m, 0, limit * 65536),
    ensures
        ({
            let r = heap_limited(m, limit);
            r == m || (r.memories.len() == 1 && r.memories[0].initial <= limit
                && r.memories[0].maximum == Some(limit as u64) && segments_end_below(
                r,
                0,
                limit * 65536,
            ))
        }),
{
    let r = heap_limited(m, limit);
    if heap_limit_applies(m, limit) {
        if m.memories[0].initial <= limit {
            assert forall|d: int| 0 <= d < r.data.len() implies match (#[trigger] r.data[d]).kind {
                DataKind::Active { memory: data_memory, offset } => data_memory == 0 ==> (
                match const_offset(offset) {
                    Some(o) => o + r.data[d].value.len() <= limit * 65536,
                    None => true,
                }),
                DataKind::Passive => true,
            } by {
                assert(r.data[d] == m.data[d]);
            }
        } else {
            assert(r.data == m.data);
        }
    }
}

/// The instruction with a call of a replaced function going to its
/// replacement.
pub open spec fn replace_instr(r: Map<FunctionId, FunctionId>, i: LocatedView) -> LocatedView {
    match i.instr {
        InstrView::Call { func } => if r.dom().contains(func) {
            LocatedView { instr: InstrView::Call { func: r[func] }, loc: i.loc }
        } else {
            i
        },
        _ => i,
    }
}

/// The sequence with the calls in it replaced.
pub open spec fn replace_seq(r: Map<FunctionId, FunctionId>, s: InstrSeqView) -> InstrSeqView {
    InstrSeqView {
        ty: s.ty,
        instrs: Seq::new(s.instrs.len(), |k: int| replace_instr(r, s.instrs[k])),
    }
}

/// The local function with the calls in it replaced.
pub open spec fn replace_local(r: Map<FunctionId, FunctionId>, f: LocalFunctionView) -> LocalFunctionView {
    LocalFunctionView { seqs: Seq::new(f.seqs.len(), |k: int| replace_seq(r, f.seqs[k])), ..f }
}

/// The function with the calls in it replaced.
pub open spec fn replace_func(r: Map<FunctionId, FunctionId>, f: FunctionView) -> FunctionView {
    match f.kind {
        FunctionKindView::Local(l) => FunctionView {
            name: f.name,
            kind: FunctionKindView::Local(replace_local(r, l)),
        },
        _ => f,
    }
}

/// The module with the calls replaced in every function but the
/// replacements themselves.
pub open spec fn replace_calls(m: ModuleView, r: Map<FunctionId, FunctionId>) -> ModuleView {
    ModuleView {
        funcs: Seq::new(
            m.funcs.len(),
            |id: int|
                if is_target(r, id as usize) {
                    m.funcs[id]
                } else {
                    replace_func(r, m.funcs[id])
                },
        ),
        ..m
    }
}

fn replaced_seq(replacer: &Replacer, seq: &InstrSeq) -> (r: InstrSeq)
    ensures
        r.deep_view() == replace_seq(replacer@, seq.deep_view()),
{
    let mut instrs: Vec<Located> = Vec::new();
    let mut k: usize = 0;
    while k < seq.instrs.len()
        invariant
            k <= seq.instrs.len(),
            instrs.deep_view() == replace_seq(replacer@, seq.deep_view()).instrs.subrange(
                0,
                k as int,
            ),
        decreases seq.instrs.len() - k,
    {
        let located = &seq.instrs[k];
        let instr = match &located.instr {
            Instr::Call { func } => match replacer.get(*func) {
                Some(new_id) => Instr::Call { func: new_id },
                None => located.instr.duplicate(),
            },
            _ => located.instr.duplicate(),
        };
        let ghost before = instrs.deep_view();
        instrs.push(Located { instr, loc: located.loc });
        proof {
            assert(seq.deep_view().instrs[k as int] == located.deep_view());
            assert(instrs.deep_view() =~= before.push(
                replace_instr(replacer@, located.deep_view()),
            ));
            assert(instrs.deep_view() =~= replace_seq(
                replacer@,
                seq.deep_view(),
            ).instrs.subrange(0, k + 1));
        }
        k += 1;
    }
    assert(instrs.deep_view() =~= replace_seq(replacer@, seq.deep_view()).instrs);
    InstrSeq { ty: seq.ty, instrs }
}

fn replaced_local(replacer: &Replacer, f: &LocalFunction) -> (r: LocalFunction)
    ensures
        r.deep_view() == replace_local(replacer@, f.deep_view()),
{
    let mut seqs: Vec<InstrSeq> = Vec::new();
    let mut k: usize = 0;
    while k < f.seqs.len()
        invariant
            k <= f.seqs.len(),
            seqs.deep_view() == replace_local(replacer@, f.deep_view()).seqs.subrange(0, k as int),
        decreases f.seqs.len() - k,
    {
        let seq = replaced_seq(replacer, &f.seqs[k]);
        let ghost before = seqs.deep_view();
        let ghost added = seq.deep_view();
        seqs.push(seq);
        proof {
            assert(f.deep_view().seqs[k as int] == f.seqs[k as int].deep_view());
            assert(seqs.deep_view() =~= before.push(added));
            assert(seqs.deep_view() =~= replace_local(replacer@, f.deep_view()).seqs.subrange(
                0,
                k + 1,
            ));
        }
        k += 1;
    }
    assert(seqs.deep_view() =~= replace_local(replacer@, f.deep_view()).seqs);
    LocalFunction { ty: f.ty, args: crate::ir::copy_ids(&f.args), seqs, entry: f.entry }
}

/// Sends the calls of replaced functions to their replacements, in every
/// function but the replacements themselves.
pub fn replace_all_calls(m: &mut Module, replacer: &Replacer)
    ensures
        final(m)@ == replace_calls(old(m)@, replacer@),
{
    let mut id: usize = 0;
    assert(m@.funcs =~= Seq::new(
        old(m)@.funcs.len(),
        |k: int|
            if k < 0 {
                replace_calls(old(m)@, replacer@).funcs[k]
            } else {
                old(m)@.funcs[k]
            },
    ));
    while id < m.funcs.len()
        invariant
            id <= m.funcs.len(),
            m@.funcs.len() == old(m)@.funcs.len(),
            m@ == (ModuleView {
                funcs: Seq::new(
                    old(m)@.funcs.len(),
                    |k: int|
                        if k < id {
                            replace_calls(old(m)@, replacer@).funcs[k]
                        } else {
                            old(m)@.funcs[k]
                        },
                ),
                ..old(m)@
            }),
        decreases m.funcs.len() - id,
    {
        let ghost before = m@;
        if !replacer.is_target(id) {
            let replaced: Option<Function> = match &m.funcs[id].kind {
                FunctionKind::Local(f) => Some(
                    Function {
                        name: match &m.funcs[id].name {
                            Some(n) => Some(n.clone()),
                            None => None,
                        },
                        kind: FunctionKind::Local(replaced_local(replacer, f)),
                    },
                ),
                _ => None,
            };
            match replaced {
                Some(f) => {
                    assert(f.deep_view() == replace_func(replacer@, before.funcs[id as int]));
                    m.set_func(id, f);
                },
                None => {},
            }
        }
        proof {
            assert(before.funcs[id as int] == old(m)@.funcs[id as int]);
            assert(m@.funcs =~= Seq::new(
                old(m)@.funcs.len(),
                |k: int|
                    if k < id + 1 {
                        replace_calls(old(m)@, replacer@).funcs[k]
                    } else {
                        old(m)@.funcs[k]
                    },
            ));
        }
        id += 1;
    }
    assert(m@.funcs =~= replace_calls(old(m)@, replacer@).funcs);
}

/// Whether the module addresses its memory with 64 bits; a module without
/// memory counts as one with 32.
pub open spec fn is_wasm64(m: ModuleView) -> bool {
    m.memories.len() == 1 && m.memories[0].memory64
}

/// Whether `m` imports `ic0.method`.
pub open spec fn imports_ic0(m: ModuleView, method: Seq<char>) -> bool {
    m.find_import("ic0"@, method) is Some
}

/// The module with its wrappers and the replacements, before any call is
/// replaced: the heap is limited first, then the transfers of cycles, the
/// growth of stable memory and the calls are dealt with, in this order, each
/// as far as `c` asks for it. `backend` is what the text of the fixed backend
/// principal stands for.
pub open spec fn wrapped(m: ModuleView, c: ConfigView, backend: Option<Seq<u8>>) -> (
    ModuleView,
    Map<FunctionId, FunctionId>,
) {
    let wasm64 = is_wasm64(m);
    let m0 = match c.limit_heap_memory_page {
        Some(limit) => heap_limited(m, limit),
        None => m,
    };
    let s0 = (m0, Map::<FunctionId, FunctionId>::empty());
    let s1 = if c.remove_cycles_add {
        let a = cycles_add_stub(s0.0, s0.1);
        let b = cycles_add128_stub(a.0, a.1);
        cycles_burn128_stub(b.0, b.1, wasm64)
    } else {
        s0
    };
    let s2 = match c.limit_stable_memory_page {
        Some(limit) => {
            let a = stable_grow_guard(s1.0, s1.1, limit as i32);
            stable64_grow_guard(a.0, a.1, limit as i64)
        },
        None => s1,
    };
    match c.playground_canister_id {
        Some(target) => redirected_to_backend(s2.0, s2.1, wasm64, target, backend),
        None => s2,
    }
}

/// The first part of `wrapped`: the heap limited and the transfers of cycles
/// dealt with.
pub open spec fn wrapped_cycles(m0: ModuleView, c: ConfigView, wasm64: bool) -> (
    ModuleView,
    Map<FunctionId, FunctionId>,
) {
    let s0 = (m0, Map::<FunctionId, FunctionId>::empty());
    if c.remove_cycles_add {
        let a = cycles_add_stub(s0.0, s0.1);
        let b = cycles_add128_stub(a.0, a.1);
        cycles_burn128_stub(b.0, b.1, wasm64)
    } else {
        s0
    }
}

/// In a module whose imports from `ic0` are functions, a system function
/// other than the two that give the size of stable memory is there exactly
/// if it is imported.
pub proof fn lemma_ic_func_imported(m: ModuleView, method: Seq<char>)
    requires
        m.ic0_imports_are_functions(),
        method != "stable_size"@,
        method != "stable64_size"@,
    ensures
        ic_func(m, method) is Some == imports_ic0(m, method),
{
    crate::search::lemma_first_index(m.imports, crate::module::is_import("ic0"@, method));
}

/// The module with its resources limited as `c` says.
pub open spec fn limited(m: ModuleView, c: ConfigView, backend: Option<Seq<u8>>) -> ModuleView {
    let s = wrapped(m, c, backend);
    replace_calls(s.0, s.1)
}

/// What `limit_resource` asks of a module and a configuration: the module
/// has at most one memory, imports from `ic0` nothing but functions and
/// leaves room for the locals of the wrappers; the heap can be limited as
/// asked; a module with 64-bit memory does not import the 32-bit functions
/// that would get a wrapper; and calls are redirected only in a module with
/// a memory, to a principal of at most 29 bytes.
pub open spec fn accepts(m: ModuleView, c: ConfigView) -> bool {
    &&& m.memories.len() <= 1
    &&& m.ic0_imports_are_functions()
    &&& m.locals.len() + 64 <= usize::MAX
    &&& c.limit_heap_memory_page matches Some(limit) ==> heap_limit_applies(m, limit)
    &&& c.remove_cycles_add && is_wasm64(m) ==> !imports_ic0(m, "call_cycles_add"@)
    &&& c.limit_stable_memory_page is Some && is_wasm64(m) ==> !imports_ic0(m, "stable_grow"@)
    &&& c.playground_canister_id matches Some(target) ==> target.len() <= 29 && (imports_ic0(
        m,
        "call_new"@,
    ) ==> m.memories.len() == 1)
}

/// Whether `limit_resource` can be applied to `m` with `config`.
pub fn check(m: &Module, config: &Config) -> (ok: bool)
    ensures
        ok == accepts(m@, config@),
{
    if m.memories.len() > 1 {
        return false;
    }
    let wasm64 = m.memories.len() == 1 && m.memories[0].memory64;
    if !m.ic0_imports_are_functions() {
        return false;
    }
    if m.locals.len() > usize::MAX - 64 {
        return false;
    }
    match config.limit_heap_memory_page {
        Some(limit) => {
            if !can_limit_heap_memory(m, limit) {
                return false;
            }
        },
        None => {},
    }
    if config.remove_cycles_add && wasm64 && m.find_import("ic0", "call_cycles_add").is_some() {
        return false;
    }
    if config.limit_stable_memory_page.is_some() && wasm64 && m.find_import(
        "ic0",
        "stable_grow",
    ).is_some() {
        return false;
    }
    match &config.playground_canister_id {
        Some(target) => {
            if target.len() > 29 {
                return false;
            }
            if m.find_import("ic0", "call_new").is_some() && m.memories.len() != 1 {
                return false;
            }
        },
        None => {},
    }
    true
}

/// Limits what the canister may use, as `config` says.
pub fn limit_resource(m: &mut Module, config: &Config)
    requires
        accepts(old(m)@, config@),
    ensures
        final(m)@ == limited(
            old(m)@,
            config@,
            principal_of_text("7hfb6-caaaa-aaaar-qadga-cai"@),
        ),
        final(m)@.customs == old(m)@.customs,
{
    let wasm64 = m.memories.len() == 1 && m.memories[0].memory64;
    if let Some(limit) = config.limit_heap_memory_page {
        limit_heap_memory(m, limit);
    }
    let ghost m0 = m@;
    proof {
        lemma_wrapped_names();
        assert(grown(m0, m0));
        assert(m0.imports == old(m)@.imports);
    }
    let mut replacer = Replacer::new();
    if config.remove_cycles_add {
        proof {
            lemma_ic_func_imported(m0, "call_cycles_add"@);
        }
        make_cycles_add(m, &mut replacer, wasm64);
        make_cycles_add128(m, &mut replacer);
        make_cycles_burn128(m, &mut replacer, wasm64);
    }
    let ghost m1 = m@;
    proof {
        if config.remove_cycles_add {
            let a = cycles_add_stub(m0, Map::empty());
            let b = cycles_add128_stub(a.0, a.1);
            lemma_grown_trans(m0, a.0, b.0);
            lemma_grown_trans(m0, b.0, m1);
        }
        lemma_grown_ic_func(m0, m1, "stable_grow"@);
        lemma_ic_func_imported(m1, "stable_grow"@);
    }
    if let Some(limit) = config.limit_stable_memory_page {
        make_stable_grow(m, &mut replacer, wasm64, #[verifier::truncate] (limit as i32));
        make_stable64_grow(m, &mut replacer, limit as i64);
    }
    let ghost m2 = m@;
    proof {
        if let Some(limit) = config.limit_stable_memory_page {
            let a = stable_grow_guard(m1, wrapped_cycles(m0, config@, wasm64).1, limit as i32);
            lemma_grown_trans(m1, a.0, m2);
        }
        lemma_grown_trans(m0, m1, m2);
        lemma_grown_ic_func(m0, m2, "call_new"@);
        lemma_ic_func_imported(m2, "call_new"@);
    }
    if let Some(redirect_id) = &config.playground_canister_id {
        make_redirect_call_new(m, &mut replacer, wasm64, redirect_id);
    }
    assert(m@.customs == old(m)@.customs);
    replace_all_calls(m, &replacer);
}

} // verus!
