//! What limiting the resources guarantees of the calls in a module.

use vstd::prelude::*;
use crate::builder::{code, seq_of};
use crate::ir::{call, FunctionId, InstrSeqId, InstrSeqType, InstrView, ValType};
use crate::limit_resource::{
    controller_methods, cycles_add128_code, cycles_add_code, cycles_burn128_code, grow_code,
    pointer_type, redirect_canisters, stable64_grow_code, stable_grow_code,
    accepts, check_list_code, check_list_seqs, compares, cycles_add128_stub, cycles_add_stub,
    cycles_burn128_stub, grown, heap_limited, ic_func, imports_ic0, is_target, is_wasm64,
    lemma_grown_ic_func, lemma_grown_trans, lemma_ic_func_imported, lemma_wrapped_names, limited,
    loads, match_code, redirected, redirected_to_backend, replace_calls, replace_instr,
    stable64_grow_guard, stable_grow_guard, with_ic_func, wrapped, wrapped_cycles, ConfigView,
    ListCheck, Redirect,
};
use crate::module::{
    is_import, FunctionKindView, FunctionView, InstrSeqView, LocalFunctionView, ModuleView,
};
use crate::search::{lemma_first_index, lemma_first_index_found};

verus! {

/// Every call among the instructions `code` is a call of one of `allowed`.
pub open spec fn calls_within(code: Seq<InstrView>, allowed: Set<FunctionId>) -> bool {
    forall|k: int|
        0 <= k < code.len() ==> ((#[trigger] code[k]) matches InstrView::Call { func }
            ==> allowed.contains(func))
}

/// Every call in the sequences `seqs` is a call of one of `allowed`.
pub open spec fn body_calls_within(seqs: Seq<InstrSeqView>, allowed: Set<FunctionId>) -> bool {
    forall|s: int, k: int|
        0 <= s < seqs.len() && 0 <= k < seqs[s].instrs.len() ==> ((
        #[trigger] seqs[s].instrs[k]).instr matches InstrView::Call { func } ==> allowed.contains(
            func,
        ))
}

proof fn lemma_calls_within_add(a: Seq<InstrView>, b: Seq<InstrView>, allowed: Set<FunctionId>)
    requires
        calls_within(a, allowed),
        calls_within(b, allowed),
    ensures
        calls_within(a + b, allowed),
{
    assert forall|k: int| 0 <= k < (a + b).len() implies ((
    #[trigger] (a + b)[k]) matches InstrView::Call { func } ==> allowed.contains(func)) by {
        if k < a.len() {
            assert((a + b)[k] == a[k]);
        } else {
            assert((a + b)[k] == b[k - a.len()]);
        }
    }
}

proof fn lemma_loads(c: ListCheck, n: nat, allowed: Set<FunctionId>)
    ensures
        calls_within(loads(c, n), allowed),
    decreases n,
{
    if n > 0 {
        lemma_loads(c, (n - 1) as nat, allowed);
        let step = loads(c, n).subrange(loads(c, (n - 1) as nat).len() as int, loads(c, n).len() as int);
        assert forall|k: int| 0 <= k < loads(c, n).len() implies ((
        #[trigger] loads(c, n)[k]) matches InstrView::Call { func } ==> allowed.contains(func)) by {
            let before = loads(c, (n - 1) as nat);
            if k < before.len() {
                assert(loads(c, n)[k] == before[k]);
            }
        }
    }
}

proof fn lemma_compares(c: ListCheck, bytes: Seq<u8>, this: InstrSeqId, done: nat, allowed: Set<
    FunctionId,
>)
    ensures
        calls_within(compares(c, bytes, this, done), allowed),
    decreases done,
{
    if done > 0 {
        lemma_compares(c, bytes, this, (done - 1) as nat, allowed);
        assert forall|k: int| 0 <= k < compares(c, bytes, this, done).len() implies ((
        #[trigger] compares(c, bytes, this, done)[k]) matches InstrView::Call { func }
            ==> allowed.contains(func)) by {
            let before = compares(c, bytes, this, (done - 1) as nat);
            if k < before.len() {
                assert(compares(c, bytes, this, done)[k] == before[k]);
            }
        }
    }
}

proof fn lemma_match_code(c: ListCheck, bytes: Seq<u8>, this: InstrSeqId, allowed: Set<FunctionId>)
    ensures
        calls_within(match_code(c, bytes, this), allowed),
{
    lemma_loads(c, bytes.len(), allowed);
    lemma_compares(c, bytes, this, bytes.len(), allowed);
    let a = seq![
        crate::ir::local_get(c.size),
        crate::limit_resource::width_const(c.wasm64, bytes.len() as usize),
        crate::limit_resource::width_ne(c.wasm64),
        crate::ir::br_if(this),
    ];
    let r = crate::limit_resource::rename_code(c, bytes);
    let z = seq![
        crate::ir::i32_const(0),
        crate::ir::local_set(c.no_redirect),
        crate::ir::br(c.checks_id),
    ];
    assert(calls_within(a, allowed));
    assert(calls_within(r, allowed));
    assert(calls_within(z, allowed));
    lemma_calls_within_add(a, loads(c, bytes.len()), allowed);
    lemma_calls_within_add(a + loads(c, bytes.len()), compares(c, bytes, this, bytes.len()), allowed);
    lemma_calls_within_add(
        a + loads(c, bytes.len()) + compares(c, bytes, this, bytes.len()),
        r,
        allowed,
    );
    lemma_calls_within_add(
        a + loads(c, bytes.len()) + compares(c, bytes, this, bytes.len()) + r,
        z,
        allowed,
    );
}

proof fn lemma_backups(p: Redirect, n: nat, allowed: Set<FunctionId>)
    ensures
        calls_within(p.backups(n), allowed),
        calls_within(p.writes(n), allowed),
        calls_within(p.restores(n), allowed),
    decreases n,
{
    if n > 0 {
        lemma_backups(p, (n - 1) as nat, allowed);
        assert forall|k: int| 0 <= k < p.backups(n).len() implies ((
        #[trigger] p.backups(n)[k]) matches InstrView::Call { func } ==> allowed.contains(func)) by {
            let before = p.backups((n - 1) as nat);
            if k < before.len() {
                assert(p.backups(n)[k] == before[k]);
            }
        }
        assert forall|k: int| 0 <= k < p.writes(n).len() implies ((
        #[trigger] p.writes(n)[k]) matches InstrView::Call { func } ==> allowed.contains(func)) by {
            let before = p.writes((n - 1) as nat);
            if k < before.len() {
                assert(p.writes(n)[k] == before[k]);
            }
        }
        assert forall|k: int| 0 <= k < p.restores(n).len() implies ((
        #[trigger] p.restores(n)[k]) matches InstrView::Call { func } ==> allowed.contains(func)) by {
            let before = p.restores((n - 1) as nat);
            if k < before.len() {
                assert(p.restores(n)[k] == before[k]);
            }
        }
    }
}

/// The wrapper for `ic0.call_new` calls nothing but `ic0.call_new`.
pub proof fn lemma_redirect_body(p: Redirect)
    ensures
        body_calls_within(p.body(), set![p.call_new]),
{
    let allowed = set![p.call_new];
    let n = p.target.len();
    lemma_backups(p, n, allowed);
    assert(calls_within(p.entry_code(), allowed));
    assert(calls_within(p.call_code(0), allowed));
    assert(calls_within(p.call_code(2), allowed));
    assert(calls_within(p.rename_code(), allowed));
    let mid = seq![
        crate::ir::local_get(p.is_rename()),
        crate::ir::if_else(p.rename_seq(), p.keep_seq()),
        crate::limit_resource::width_const(p.wasm64, 0),
        crate::limit_resource::width_const(p.wasm64, p.target.len() as usize),
    ];
    assert(calls_within(mid, allowed));
    lemma_calls_within_add(p.backups(n), p.writes(n), allowed);
    lemma_calls_within_add(p.backups(n) + p.writes(n), mid, allowed);
    lemma_calls_within_add(p.backups(n) + p.writes(n) + mid, p.call_code(2), allowed);
    lemma_calls_within_add(
        p.backups(n) + p.writes(n) + mid + p.call_code(2),
        p.restores(n),
        allowed,
    );
    assert(calls_within(p.redirect_code(), allowed));
    let cm = check_list_code(p.method_check(), p.method_seq(0), p.methods.len());
    assert(calls_within(cm, allowed));
    let head = seq![crate::ir::block(2), crate::ir::local_get(p.no_redirect()), crate::ir::br_if(1)];
    assert(calls_within(head, allowed));
    lemma_calls_within_add(head, cm, allowed);
    assert(calls_within(p.checks_code(), allowed));
    let cc = check_list_code(p.callee_check(), p.callee_seq(0), p.callees.len());
    assert(calls_within(cc, allowed));
    let body = p.body();
    let c = p.callees.len() as int;
    let m = p.methods.len() as int;
    assert(body.len() == 7 + c + m);
    assert forall|s: int, k: int|
        0 <= s < body.len() && 0 <= k < body[s].instrs.len() implies ((
    #[trigger] body[s].instrs[k]).instr matches InstrView::Call { func } ==> allowed.contains(
        func,
    )) by {
        if s == 0 {
            assert(body[s] == seq_of(InstrSeqType::MultiValue(p.entry_ty), p.entry_code()));
            assert(body[s].instrs[k].instr == p.entry_code()[k]);
        } else if s == 1 {
            assert(body[s] == seq_of(InstrSeqType::Simple(None), p.checks_code()));
            assert(body[s].instrs[k].instr == p.checks_code()[k]);
        } else if s == 2 {
            assert(body[s] == seq_of(InstrSeqType::Simple(None), cc));
            assert(body[s].instrs[k].instr == cc[k]);
        } else if s < 3 + c {
            let list = check_list_seqs(p.callee_check(), p.callees, p.callee_seq(0));
            assert(body[s] == list[s - 3]);
            let mc = match_code(p.callee_check(), p.callees[s - 3], (p.callee_seq(0) + (s - 3)) as usize);
            lemma_match_code(p.callee_check(), p.callees[s - 3], (p.callee_seq(0) + (s - 3)) as usize, allowed);
            assert(body[s].instrs[k].instr == mc[k]);
        } else if s < 3 + c + m {
            let list = check_list_seqs(p.method_check(), p.methods, p.method_seq(0));
            assert(body[s] == list[s - 3 - c]);
            let mc = match_code(
                p.method_check(),
                p.methods[s - 3 - c],
                (p.method_seq(0) + (s - 3 - c)) as usize,
            );
            lemma_match_code(
                p.method_check(),
                p.methods[s - 3 - c],
                (p.method_seq(0) + (s - 3 - c)) as usize,
                allowed,
            );
            assert(body[s].instrs[k].instr == mc[k]);
        } else if s == 3 + c + m {
            assert(body[s] == seq_of(InstrSeqType::Simple(None), p.call_code(0)));
            assert(body[s].instrs[k].instr == p.call_code(0)[k]);
        } else if s == 4 + c + m {
            assert(body[s] == seq_of(InstrSeqType::Simple(None), p.redirect_code()));
            assert(body[s].instrs[k].instr == p.redirect_code()[k]);
        } else if s == 5 + c + m {
            assert(body[s] == seq_of(InstrSeqType::Simple(None), p.rename_code()));
            assert(body[s].instrs[k].instr == p.rename_code()[k]);
        } else {
            assert(body[s] == seq_of(InstrSeqType::Simple(None), Seq::empty()));
        }
    }
}

/// Position `k` of sequence `s` of function `id` is an instruction of a
/// local function of `m`.
pub open spec fn in_func(m: ModuleView, id: int, s: int, k: int) -> bool {
    &&& 0 <= id < m.funcs.len()
    &&& m.funcs[id].kind is Local
    &&& 0 <= s < m.local(id).seqs.len()
    &&& 0 <= k < m.local(id).seqs[s].instrs.len()
}

/// The instruction at position `k` of sequence `s` of function `id`.
pub open spec fn instr_at(m: ModuleView, id: int, s: int, k: int) -> InstrView {
    m.local(id).seqs[s].instrs[k].instr
}

/// No function of `m` calls `g`.
pub open spec fn free_of(m: ModuleView, g: FunctionId) -> bool {
    forall|id: int, s: int, k: int| #[trigger]
        in_func(m, id, s, k) ==> instr_at(m, id, s, k) != call(g)
}

/// The state of wrapping is sound for the function `banned` of the module
/// `m` that wrapping began with: the module `cur` has grown from `m`, every
/// replacement and every function imported since is a function added since,
/// and no function added since calls `banned`.
pub open spec fn sound(
    m: ModuleView,
    cur: ModuleView,
    r: Map<FunctionId, FunctionId>,
    banned: FunctionId,
) -> bool {
    &&& grown(m, cur)
    &&& banned < m.funcs.len()
    &&& cur.funcs.len() < usize::MAX
    &&& forall|k: FunctionId|
        r.dom().contains(k) ==> m.funcs.len() <= #[trigger] r[k] < cur.funcs.len()
    &&& forall|i: int|
        m.imports.len() <= i < cur.imports.len() ==> (#[trigger] cur.imports[i]).kind->Function_0
            >= m.funcs.len()
    &&& forall|id: int, s: int, k: int|
        m.funcs.len() <= id && #[trigger] in_func(cur, id, s, k) ==> instr_at(cur, id, s, k)
            != call(banned)
}

/// Soundness is kept where types and locals are added.
proof fn lemma_sound_tables(
    m: ModuleView,
    a: ModuleView,
    b: ModuleView,
    r: Map<FunctionId, FunctionId>,
    banned: FunctionId,
)
    requires
        sound(m, a, r, banned),
        grown(a, b),
        b.funcs == a.funcs,
        b.imports == a.imports,
    ensures
        sound(m, b, r, banned),
{
    lemma_grown_trans(m, a, b);
    assert forall|id: int, s: int, k: int|
        m.funcs.len() <= id && #[trigger] in_func(b, id, s, k) implies instr_at(b, id, s, k)
        != call(banned) by {
        assert(in_func(a, id, s, k));
    }
}

/// Soundness is kept where one of the functions that give the size of
/// stable memory is imported.
proof fn lemma_sound_import(
    m: ModuleView,
    a: ModuleView,
    r: Map<FunctionId, FunctionId>,
    banned: FunctionId,
    method: Seq<char>,
)
    requires
        sound(m, a, r, banned),
        a.funcs.len() + 1 < usize::MAX,
        method == "stable_size"@ || method == "stable64_size"@,
    ensures
        sound(m, with_ic_func(a, method), r, banned),
        grown(a, with_ic_func(a, method)),
        with_ic_func(a, method).funcs.len() <= a.funcs.len() + 1,
{
    let b = with_ic_func(a, method);
    lemma_wrapped_names();
    if a.find_import("ic0"@, method) is None {
        assert(a.funcs.is_prefix_of(b.funcs));
        assert(a.imports.is_prefix_of(b.imports));
        assert(a.types.is_prefix_of(b.types));
        assert(grown(a, b));
        lemma_grown_trans(m, a, b);
        assert forall|i: int| m.imports.len() <= i < b.imports.len() implies (
        #[trigger] b.imports[i]).kind->Function_0 >= m.funcs.len() by {
            if i < a.imports.len() {
                assert(b.imports[i] == a.imports[i]);
            }
        }
        assert forall|id: int, s: int, k: int|
            m.funcs.len() <= id && #[trigger] in_func(b, id, s, k) implies instr_at(b, id, s, k)
            != call(banned) by {
            if id < a.funcs.len() {
                assert(b.funcs[id] == a.funcs[id]);
                assert(in_func(a, id, s, k));
            }
        }
    } else {
        assert(grown(a, b));
    }
}

/// Soundness is kept where a function is added that does not call
/// `banned`, and a replacement by it.
proof fn lemma_sound_wrapper(
    m: ModuleView,
    a: ModuleView,
    r: Map<FunctionId, FunctionId>,
    banned: FunctionId,
    name: Option<Seq<char>>,
    ty: usize,
    args: Seq<usize>,
    body: Seq<InstrSeqView>,
    from: FunctionId,
    allowed: Set<FunctionId>,
)
    requires
        sound(m, a, r, banned),
        body_calls_within(body, allowed),
        !allowed.contains(banned),
        a.funcs.len() + 1 < usize::MAX,
    ensures
        sound(
            m,
            a.with_local_func(name, ty, args, body),
            r.insert(from, a.funcs.len() as usize),
            banned,
        ),
{
    let b = a.with_local_func(name, ty, args, body);
    let r2 = r.insert(from, a.funcs.len() as usize);
    assert(a.funcs.is_prefix_of(b.funcs));
    assert(grown(a, b));
    lemma_grown_trans(m, a, b);
    assert forall|k: FunctionId| r2.dom().contains(k) implies m.funcs.len() <= #[trigger] r2[k]
        < b.funcs.len() by {
        if k != from {
            assert(r.dom().contains(k));
        }
    }
    assert forall|id: int, s: int, k: int|
        m.funcs.len() <= id && #[trigger] in_func(b, id, s, k) implies instr_at(b, id, s, k)
        != call(banned) by {
        if id < a.funcs.len() {
            assert(b.funcs[id] == a.funcs[id]);
            assert(in_func(a, id, s, k));
        } else {
            assert(b.local(id).seqs == body);
            assert(body[s].instrs[k].instr matches InstrView::Call { func } ==> allowed.contains(
                func,
            ));
        }
    }
}

/// A system function other than the one that `banned` is, is another
/// function.
proof fn lemma_other_import(
    m: ModuleView,
    cur: ModuleView,
    r: Map<FunctionId, FunctionId>,
    banned: FunctionId,
    banned_method: Seq<char>,
    other: Seq<char>,
)
    requires
        sound(m, cur, r, banned),
        m.imports_are_bound(),
        m.ic0_imports_are_functions(),
        ic_func(m, banned_method) == Some(banned),
        imports_ic0(m, banned_method),
        other != banned_method,
    ensures
        ic_func(cur, other) matches Some(g) ==> g != banned,
{
    let p = is_import("ic0"@, other);
    let q = is_import("ic0"@, banned_method);
    lemma_first_index(cur.imports, p);
    lemma_first_index(m.imports, q);
    match cur.find_import("ic0"@, other) {
        Some(i) => {
            if i < m.imports.len() {
                assert(cur.imports[i] == m.imports[i]);
                let ib = m.find_import("ic0"@, banned_method)->0;
                assert(m.imports[ib].name == banned_method);
                assert(m.imports[i].name == other);
                assert(i != ib);
                assert(m.imports[i].kind is Function);
                assert(m.imports[ib].kind is Function);
                let g = m.imports[i].kind->Function_0;
                assert(m.funcs[g as int].kind->import == i);
                assert(m.funcs[banned as int].kind->import == ib);
            } else {
                assert(cur.imports[i].kind->Function_0 >= m.funcs.len());
                assert(cur.imports[i].kind is Function);
            }
        },
        None => {},
    }
}

/// The names of the system functions that transfer cycles differ from
/// those of the other system functions that get a wrapper.
pub proof fn lemma_cycle_names()
    ensures
        "call_cycles_add"@ != "call_cycles_add128"@,
        "call_cycles_add"@ != "cycles_burn128"@,
        "call_cycles_add128"@ != "cycles_burn128"@,
        "call_cycles_add"@ != "stable_grow"@ && "call_cycles_add"@ != "stable64_grow"@
            && "call_cycles_add"@ != "call_new"@,
        "call_cycles_add128"@ != "stable_grow"@ && "call_cycles_add128"@ != "stable64_grow"@
            && "call_cycles_add128"@ != "call_new"@,
        "cycles_burn128"@ != "stable_grow"@ && "cycles_burn128"@ != "stable64_grow"@
            && "cycles_burn128"@ != "call_new"@,
{
    reveal_strlit("call_cycles_add");
    reveal_strlit("call_cycles_add128");
    reveal_strlit("cycles_burn128");
    reveal_strlit("stable_grow");
    reveal_strlit("stable64_grow");
    reveal_strlit("call_new");
    assert("call_cycles_add"@.len() == 15);
    assert("call_cycles_add128"@.len() == 18);
    assert("cycles_burn128"@.len() == 14);
    assert("stable_grow"@.len() == 11);
    assert("stable64_grow"@.len() == 13);
    assert("call_new"@.len() == 8);
}

/// The method is one of the three that transfer cycles.
pub open spec fn transfers_cycles(method: Seq<char>) -> bool {
    method == "call_cycles_add"@ || method == "call_cycles_add128"@ || method
        == "cycles_burn128"@
}

/// What the steps of wrapping are proved under: the module that wrapping
/// began with binds its imports, and `banned` is the function that the
/// system function `method`, which transfers cycles, is in it.
pub open spec fn banned_in(m: ModuleView, banned: FunctionId, method: Seq<char>) -> bool {
    &&& m.imports_are_bound()
    &&& m.ic0_imports_are_functions()
    &&& transfers_cycles(method)
    &&& imports_ic0(m, method)
    &&& ic_func(m, method) == Some(banned)
}

/// The step keeps what is replaced replaced.
pub open spec fn keeps_dom(r: Map<FunctionId, FunctionId>, t: Map<FunctionId, FunctionId>) -> bool {
    forall|k: FunctionId| r.dom().contains(k) ==> t.dom().contains(k)
}

proof fn lemma_seq_of_calls(ty: InstrSeqType, c: Seq<InstrView>, allowed: Set<FunctionId>)
    requires
        calls_within(c, allowed),
    ensures
        calls_within(Seq::new(c.len(), |k: int| seq_of(ty, c).instrs[k].instr), allowed),
        forall|k: int|
            0 <= k < seq_of(ty, c).instrs.len() ==> ((
            #[trigger] seq_of(ty, c).instrs[k]).instr matches InstrView::Call { func }
                ==> allowed.contains(func)),
{
    assert forall|k: int| 0 <= k < seq_of(ty, c).instrs.len() implies ((
    #[trigger] seq_of(ty, c).instrs[k]).instr matches InstrView::Call { func }
        ==> allowed.contains(func)) by {
        assert(seq_of(ty, c).instrs[k].instr == c[k]);
    }
}

proof fn lemma_cycles_add_sound(
    m: ModuleView,
    cur: ModuleView,
    r: Map<FunctionId, FunctionId>,
    banned: FunctionId,
    method: Seq<char>,
)
    requires
        sound(m, cur, r, banned),
        banned_in(m, banned, method),
        cur.funcs.len() + 2 < usize::MAX,
    ensures
        ({
            let t = cycles_add_stub(cur, r);
            &&& sound(m, t.0, t.1, banned)
            &&& keeps_dom(r, t.1)
            &&& t.0.funcs.len() <= cur.funcs.len() + 1
            &&& method == "call_cycles_add"@ ==> t.1.dom().contains(banned)
        }),
{
    lemma_wrapped_names();
    lemma_grown_ic_func(m, cur, "call_cycles_add"@);
    match ic_func(cur, "call_cycles_add"@) {
        None => {
            lemma_ic_func_imported(m, "call_cycles_add"@);
        },
        Some(from) => {
            let params = seq![ValType::I64];
            let m1 = cur.with_signature(params, Seq::empty());
            let amount = m1.locals.len() as usize;
            let m2 = m1.with_local(ValType::I64);
            assert(cur.types.is_prefix_of(m2.types));
            assert(cur.locals.is_prefix_of(m2.locals));
            assert(grown(cur, m2));
            lemma_sound_tables(m, cur, m2, r, banned);
            let ty = InstrSeqType::MultiValue(cur.signature_entry_ty(params, Seq::empty()));
            let body = seq![seq_of(ty, cycles_add_code(amount))];
            let allowed = Set::<FunctionId>::empty();
            assert(calls_within(cycles_add_code(amount), allowed));
            lemma_seq_of_calls(ty, cycles_add_code(amount), allowed);
            assert(body_calls_within(body, allowed));
            lemma_sound_wrapper(
                m,
                m2,
                r,
                banned,
                None,
                cur.signature_ty(params, Seq::empty()),
                seq![amount],
                body,
                from,
                allowed,
            );
        },
    }
}

proof fn lemma_cycles_add128_sound(
    m: ModuleView,
    cur: ModuleView,
    r: Map<FunctionId, FunctionId>,
    banned: FunctionId,
    method: Seq<char>,
)
    requires
        sound(m, cur, r, banned),
        banned_in(m, banned, method),
        cur.funcs.len() + 2 < usize::MAX,
    ensures
        ({
            let t = cycles_add128_stub(cur, r);
            &&& sound(m, t.0, t.1, banned)
            &&& keeps_dom(r, t.1)
            &&& t.0.funcs.len() <= cur.funcs.len() + 1
            &&& method == "call_cycles_add128"@ ==> t.1.dom().contains(banned)
        }),
{
    lemma_wrapped_names();
    lemma_grown_ic_func(m, cur, "call_cycles_add128"@);
    match ic_func(cur, "call_cycles_add128"@) {
        None => {
            lemma_ic_func_imported(m, "call_cycles_add128"@);
        },
        Some(from) => {
            let params = seq![ValType::I64, ValType::I64];
            let m1 = cur.with_signature(params, Seq::empty());
            let high = m1.locals.len() as usize;
            let low = (m1.locals.len() + 1) as usize;
            let m2 = m1.with_local(ValType::I64).with_local(ValType::I64);
            assert(cur.types.is_prefix_of(m2.types));
            assert(cur.locals.is_prefix_of(m2.locals));
            assert(grown(cur, m2));
            lemma_sound_tables(m, cur, m2, r, banned);
            let ty = InstrSeqType::MultiValue(cur.signature_entry_ty(params, Seq::empty()));
            let body = seq![seq_of(ty, cycles_add128_code(high, low))];
            let allowed = Set::<FunctionId>::empty();
            assert(calls_within(cycles_add128_code(high, low), allowed));
            lemma_seq_of_calls(ty, cycles_add128_code(high, low), allowed);
            assert(body_calls_within(body, allowed));
            lemma_sound_wrapper(
                m,
                m2,
                r,
                banned,
                None,
                cur.signature_ty(params, Seq::empty()),
                seq![high, low],
                body,
                from,
                allowed,
            );
        },
    }
}

proof fn lemma_cycles_burn128_sound(
    m: ModuleView,
    cur: ModuleView,
    r: Map<FunctionId, FunctionId>,
    banned: FunctionId,
    method: Seq<char>,
    wasm64: bool,
)
    requires
        sound(m, cur, r, banned),
        banned_in(m, banned, method),
        cur.funcs.len() + 2 < usize::MAX,
    ensures
        ({
            let t = cycles_burn128_stub(cur, r, wasm64);
            &&& sound(m, t.0, t.1, banned)
            &&& keeps_dom(r, t.1)
            &&& t.0.funcs.len() <= cur.funcs.len() + 1
            &&& method == "cycles_burn128"@ ==> t.1.dom().contains(banned)
        }),
{
    lemma_wrapped_names();
    lemma_grown_ic_func(m, cur, "cycles_burn128"@);
    match ic_func(cur, "cycles_burn128"@) {
        None => {
            lemma_ic_func_imported(m, "cycles_burn128"@);
        },
        Some(from) => {
            let params = seq![ValType::I64, ValType::I64, pointer_type(wasm64)];
            let m1 = cur.with_signature(params, Seq::empty());
            let high = m1.locals.len() as usize;
            let low = (m1.locals.len() + 1) as usize;
            let dst = (m1.locals.len() + 2) as usize;
            let m2 = m1.with_local(ValType::I64).with_local(ValType::I64).with_local(
                pointer_type(wasm64),
            );
            assert(cur.types.is_prefix_of(m2.types));
            assert(cur.locals.is_prefix_of(m2.locals));
            assert(grown(cur, m2));
            lemma_sound_tables(m, cur, m2, r, banned);
            let ty = InstrSeqType::MultiValue(cur.signature_entry_ty(params, Seq::empty()));
            let body = seq![seq_of(ty, cycles_burn128_code(high, low, dst))];
            let allowed = Set::<FunctionId>::empty();
            assert(calls_within(cycles_burn128_code(high, low, dst), allowed));
            lemma_seq_of_calls(ty, cycles_burn128_code(high, low, dst), allowed);
            assert(body_calls_within(body, allowed));
            lemma_sound_wrapper(
                m,
                m2,
                r,
                banned,
                None,
                cur.signature_ty(params, Seq::empty()),
                seq![high, low, dst],
                body,
                from,
                allowed,
            );
        },
    }
}

proof fn lemma_grow_guard_sound(
    m: ModuleView,
    cur: ModuleView,
    r: Map<FunctionId, FunctionId>,
    banned: FunctionId,
    method: Seq<char>,
    wide: bool,
    limit32: i32,
    limit64: i64,
)
    requires
        sound(m, cur, r, banned),
        banned_in(m, banned, method),
        cur.funcs.len() + 3 < usize::MAX,
    ensures
        ({
            let t = if wide {
                stable64_grow_guard(cur, r, limit64)
            } else {
                stable_grow_guard(cur, r, limit32)
            };
            &&& sound(m, t.0, t.1, banned)
            &&& keeps_dom(r, t.1)
            &&& t.0.funcs.len() <= cur.funcs.len() + 2
        }),
{
    lemma_wrapped_names();
    lemma_cycle_names();
    let grow = if wide {
        "stable64_grow"@
    } else {
        "stable_grow"@
    };
    let size = if wide {
        "stable64_size"@
    } else {
        "stable_size"@
    };
    let vt = if wide {
        ValType::I64
    } else {
        ValType::I32
    };
    match ic_func(cur, grow) {
        None => {},
        Some(from) => {
            let stable_size = ic_func(cur, size)->0;
            let m0 = with_ic_func(cur, size);
            lemma_sound_import(m, cur, r, banned, size);
            lemma_other_import(m, cur, r, banned, method, size);
            lemma_other_import(m, cur, r, banned, method, grow);
            let sig = seq![vt];
            let m1 = m0.with_signature(sig, sig);
            let requested = m1.locals.len() as usize;
            let m2 = m1.with_local(vt);
            assert(m0.types.is_prefix_of(m2.types));
            assert(m0.locals.is_prefix_of(m2.locals));
            assert(grown(m0, m2));
            lemma_sound_tables(m, m0, m2, r, banned);
            let allowed = set![stable_size, from];
            let ety = InstrSeqType::MultiValue(m0.signature_entry_ty(sig, sig));
            let sty = InstrSeqType::Simple(Some(vt));
            let entry = if wide {
                stable64_grow_code(stable_size, requested, limit64)
            } else {
                stable_grow_code(stable_size, requested, limit32)
            };
            let refuse = if wide {
                seq![crate::ir::i64_const(-1i64)]
            } else {
                seq![crate::ir::i32_const(-1i32)]
            };
            let body = seq![
                seq_of(ety, entry),
                seq_of(sty, refuse),
                seq_of(sty, grow_code(requested, from)),
            ];
            assert(calls_within(entry, allowed));
            assert(calls_within(refuse, allowed));
            assert(calls_within(grow_code(requested, from), allowed));
            lemma_seq_of_calls(ety, entry, allowed);
            lemma_seq_of_calls(sty, refuse, allowed);
            lemma_seq_of_calls(sty, grow_code(requested, from), allowed);
            assert(body_calls_within(body, allowed));
            lemma_sound_wrapper(
                m,
                m2,
                r,
                banned,
                None,
                m0.signature_ty(sig, sig),
                seq![requested],
                body,
                from,
                allowed,
            );
        },
    }
}

proof fn lemma_redirect_sound(
    m: ModuleView,
    cur: ModuleView,
    r: Map<FunctionId, FunctionId>,
    banned: FunctionId,
    method: Seq<char>,
    wasm64: bool,
    target: Seq<u8>,
    backend: Option<Seq<u8>>,
)
    requires
        sound(m, cur, r, banned),
        banned_in(m, banned, method),
        cur.funcs.len() + 2 < usize::MAX,
    ensures
        ({
            let t = redirected_to_backend(cur, r, wasm64, target, backend);
            &&& sound(m, t.0, t.1, banned)
            &&& keeps_dom(r, t.1)
        }),
{
    lemma_wrapped_names();
    lemma_cycle_names();
    match backend {
        None => {},
        Some(b) => {
            match ic_func(cur, "call_new"@) {
                None => {},
                Some(from) => {
                    lemma_other_import(m, cur, r, banned, method, "call_new"@);
                    let pt = pointer_type(wasm64);
                    let m1 = cur.with_locals(pt, 8).with_locals(ValType::I32, 2).with_locals(
                        pt,
                        target.len(),
                    );
                    let params = Seq::new(8, |i: int| pt);
                    let m2 = m1.with_signature(params, Seq::empty());
                    assert(cur.types.is_prefix_of(m2.types));
                    assert(cur.locals.is_prefix_of(m2.locals));
                    assert(grown(cur, m2));
                    lemma_sound_tables(m, cur, m2, r, banned);
                    let plan = Redirect {
                        memory: 0,
                        wasm64,
                        call_new: from,
                        entry_ty: m1.signature_entry_ty(params, Seq::empty()),
                        first_local: cur.locals.len() as usize,
                        target,
                        callees: redirect_canisters(b),
                        methods: controller_methods(),
                    };
                    lemma_redirect_body(plan);
                    lemma_sound_wrapper(
                        m,
                        m2,
                        r,
                        banned,
                        None,
                        m1.signature_ty(params, Seq::empty()),
                        Seq::new(8, |i: int| (cur.locals.len() + i) as usize),
                        plan.body(),
                        from,
                        set![from],
                    );
                },
            }
        },
    }
}

/// Replacing the calls in a module whose state of wrapping is sound, and
/// in which `banned` is replaced, leaves no call of `banned`: provided that
/// no function that the module began with has an instruction out of reach.
proof fn lemma_replaced_free(
    m: ModuleView,
    cur: ModuleView,
    r: Map<FunctionId, FunctionId>,
    banned: FunctionId,
)
    requires
        sound(m, cur, r, banned),
        r.dom().contains(banned),
    ensures
        free_of(replace_calls(cur, r), banned),
{
    let out = replace_calls(cur, r);
    assert forall|id: int, s: int, k: int| #[trigger] in_func(out, id, s, k) implies instr_at(
        out,
        id,
        s,
        k,
    ) != call(banned) by {
        if is_target(r, id as usize) {
            let key = choose|key: FunctionId| r.dom().contains(key) && #[trigger] r[key] == id as usize;
            assert(m.funcs.len() <= r[key]);
            assert(out.funcs[id] == cur.funcs[id]);
            assert(in_func(cur, id, s, k));
        } else {
            assert(out.funcs[id] == crate::limit_resource::replace_func(r, cur.funcs[id]));
            assert(cur.funcs[id].kind is Local);
            let f = cur.local(id);
            assert(in_func(cur, id, s, k));
            let x = f.seqs[s].instrs[k];
            assert(out.local(id).seqs[s].instrs[k] == replace_instr(r, x));
            match x.instr {
                InstrView::Call { func } => {
                    if r.dom().contains(func) {
                        assert(m.funcs.len() <= r[func]);
                    }
                },
                _ => {},
            }
        }
    }
}

/// Cycle transfers are neutralised: once a module that binds its imports is
/// limited with `remove_cycles_add`, no local function calls any of the
/// system functions that transfer cycles.
pub proof fn lemma_no_cycles_transfer(
    m: ModuleView,
    c: ConfigView,
    backend: Option<Seq<u8>>,
    method: Seq<char>,
)
    requires
        accepts(m, c),
        c.remove_cycles_add,
        m.imports_are_bound(),
        m.funcs.len() + 16 < usize::MAX,
        transfers_cycles(method),
        imports_ic0(m, method),
    ensures
        free_of(limited(m, c, backend), ic_func(m, method)->0),
{
    lemma_wrapped_names();
    lemma_ic_func_imported(m, method);
    let banned = ic_func(m, method)->0;
    lemma_first_index(m.imports, is_import("ic0"@, method));
    let wasm64 = is_wasm64(m);
    let m0 = match c.limit_heap_memory_page {
        Some(limit) => heap_limited(m, limit),
        None => m,
    };
    assert(m0.imports == m.imports);
    assert(m0.funcs == m.funcs);
    assert(banned_in(m0, banned, method));
    let r0 = Map::<FunctionId, FunctionId>::empty();
    assert(grown(m0, m0));
    assert(sound(m0, m0, r0, banned));
    let a = cycles_add_stub(m0, r0);
    lemma_cycles_add_sound(m0, m0, r0, banned, method);
    let b = cycles_add128_stub(a.0, a.1);
    lemma_cycles_add128_sound(m0, a.0, a.1, banned, method);
    let s1 = cycles_burn128_stub(b.0, b.1, wasm64);
    lemma_cycles_burn128_sound(m0, b.0, b.1, banned, method, wasm64);
    assert(s1.1.dom().contains(banned));
    let s2 = match c.limit_stable_memory_page {
        Some(limit) => {
            let g = stable_grow_guard(s1.0, s1.1, limit as i32);
            lemma_grow_guard_sound(m0, s1.0, s1.1, banned, method, false, limit as i32, 0);
            lemma_grow_guard_sound(m0, g.0, g.1, banned, method, true, 0, limit as i64);
            stable64_grow_guard(g.0, g.1, limit as i64)
        },
        None => s1,
    };
    assert(s2.1.dom().contains(banned));
    let s3 = match c.playground_canister_id {
        Some(target) => {
            lemma_redirect_sound(m0, s2.0, s2.1, banned, method, wasm64, target, backend);
            redirected_to_backend(s2.0, s2.1, wasm64, target, backend)
        },
        None => s2,
    };
    assert(s3 == wrapped(m, c, backend));
    lemma_replaced_free(m0, s3.0, s3.1, banned);
}

} // verus!
