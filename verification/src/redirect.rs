//! What the wrapper for `ic0.call_new` does when it runs, for a memory of
//! 32 bits and for one of 64.

use vstd::prelude::*;
use crate::ir::{
    br, br_if, i32_const, local_get, local_set, FunctionId, InstrSeqId, InstrSeqType, InstrView,
    LocalId,
};
use crate::limit_resource::{
    check_list_code, check_list_seqs, compares, load_byte, loads, match_code, rename_code,
    store_byte, utf8, width_const, width_ne, ListCheck, Redirect,
};
use crate::machine::{
    below, holds, is_word, lemma_holds_prefix, lemma_plain, number, reach, run, step, system_call,
    top, truth, word, CallNew, Machine, Outcome, System, Val,
};
use crate::builder::seq_of;
use crate::module::InstrSeqView;

verus! {

/// The bytes as values on the stack, each of the width of an address.
pub open spec fn vals(wide: bool, bytes: Seq<u8>) -> Seq<Val> {
    Seq::new(bytes.len(), |i: int| word(wide, bytes[i] as int))
}

/// Loading `n` bytes takes two instructions for each.
pub proof fn lemma_loads_len(c: ListCheck, n: nat)
    ensures
        loads(c, n).len() == 2 * n,
    decreases n,
{
    if n > 0 {
        lemma_loads_len(c, (n - 1) as nat);
    }
}

/// The loads put the bytes of the string in the heap on the stack.
pub proof fn lemma_loads(
    body: Seq<InstrSeqView>,
    sys: System,
    s: int,
    pc: int,
    c: ListCheck,
    n: nat,
    m: Machine,
    fuel: nat,
    p: int,
)
    requires
        holds(body, s, pc, loads(c, n)),
        m.locals.dom().contains(c.src),
        m.locals[c.src] == word(c.wasm64, p),
        0 <= p,
        p + n <= m.memory.len() <= reach(c.wasm64),
        fuel >= 2 * n,
    ensures
        run(body, sys, s, pc, m, fuel) == run(
            body,
            sys,
            s,
            pc + 2 * n,
            Machine { stack: m.stack + vals(c.wasm64, m.memory.subrange(p as int, p + n)), ..m },
            (fuel - 2 * n) as nat,
        ),
    decreases n,
{
    if n == 0 {
        assert(m.stack + vals(c.wasm64, m.memory.subrange(p as int, p + n)) =~= m.stack);
    } else {
        let k = (n - 1) as nat;
        let last = seq![local_get(c.src), load_byte(c.memory, c.wasm64, k as u64)];
        lemma_loads_len(c, k);
        lemma_holds_prefix(body, s, pc, loads(c, k), last);
        lemma_loads(body, sys, s, pc, c, k, m, fuel, p);
        let m1 = Machine {
            stack: m.stack + vals(c.wasm64, m.memory.subrange(p as int, p + k)),
            ..m
        };
        let m2 = Machine { stack: m1.stack.push(word(c.wasm64, p)), ..m };
        let m3 = Machine { stack: m1.stack.push(word(c.wasm64, m.memory[p + k] as int)), ..m };
        let at = pc + 2 * k;
        assert(body[s].instrs[at + 0].instr == last[0]);
        assert(body[s].instrs[at + 1].instr == last[1]);
        assert(below(m2.stack, 1) =~= m1.stack);
        lemma_plain(body, sys, s, at, m1, (fuel - 2 * k) as nat, m2);
        lemma_plain(body, sys, s, at + 1, m2, (fuel - 2 * k - 1) as nat, m3);
        assert(m3.stack =~= m.stack + vals(c.wasm64, m.memory.subrange(p as int, p + n)));
    }
}

/// The two machines differ in their stacks at most.
pub open spec fn same_but_stack(a: Machine, b: Machine) -> bool {
    Machine { stack: b.stack, ..a } == b
}

/// The outcome is a branch out of the sequence `this`, with nothing but the
/// stack changed since `m`.
pub open spec fn leaves(o: Outcome, this: InstrSeqId, m: Machine) -> bool {
    o matches Outcome::Branch(target, x) && target == this && same_but_stack(x, m)
}

/// Comparing `done` bytes takes three instructions for each.
pub proof fn lemma_compares_len(c: ListCheck, bytes: Seq<u8>, this: InstrSeqId, done: nat)
    ensures
        compares(c, bytes, this, done).len() == 3 * done,
    decreases done,
{
    if done > 0 {
        lemma_compares_len(c, bytes, this, (done - 1) as nat);
    }
}

/// One comparison: the byte on top of the stack is taken off, and where it
/// is not `b` the sequence `this` is left.
#[verifier::rlimit(60)]
pub proof fn lemma_compare_one(
    body: Seq<InstrSeqView>,
    sys: System,
    s: int,
    at: int,
    this: InstrSeqId,
    wide: bool,
    b: u8,
    x: u8,
    rest: Seq<Val>,
    m: Machine,
    fuel: nat,
)
    requires
        holds(body, s, at, seq![width_const(wide, b as usize), width_ne(wide), br_if(this)]),
        m.stack == rest.push(word(wide, x as int)),
        fuel >= 3,
    ensures
        x != b ==> run(body, sys, s, at, m, fuel) == Outcome::Branch(
            this,
            Machine { stack: rest, ..m },
        ),
        x == b ==> run(body, sys, s, at, m, fuel) == run(
            body,
            sys,
            s,
            at + 3,
            Machine { stack: rest, ..m },
            (fuel - 3) as nat,
        ),
{
    let last = seq![width_const(wide, b as usize), width_ne(wide), br_if(this)];
    assert(body[s].instrs[at + 0].instr == last[0]);
    assert(body[s].instrs[at + 1].instr == last[1]);
    assert(body[s].instrs[at + 2].instr == last[2]);
    let m2 = Machine { stack: m.stack.push(word(wide, b as int)), ..m };
    let m3 = Machine { stack: rest.push(truth(x != b)), ..m };
    let m4 = Machine { stack: rest, ..m };
    assert(below(m2.stack, 2) =~= rest);
    assert(below(m3.stack, 1) =~= rest);
    lemma_plain(body, sys, s, at, m, fuel, m2);
    lemma_plain(body, sys, s, at + 1, m2, (fuel - 1) as nat, m3);
    reveal_with_fuel(run, 2);
}

/// The comparisons take the loaded bytes off the stack where they are the
/// bytes compared with, and leave the sequence at the first difference.
pub proof fn lemma_compares(
    body: Seq<InstrSeqView>,
    sys: System,
    s: int,
    pc: int,
    c: ListCheck,
    bytes: Seq<u8>,
    this: InstrSeqId,
    done: nat,
    base: Seq<Val>,
    loaded: Seq<u8>,
    m: Machine,
    fuel: nat,
)
    requires
        holds(body, s, pc, compares(c, bytes, this, done)),
        done <= bytes.len(),
        bytes.len() == loaded.len(),
        m.stack == base + vals(c.wasm64, loaded),
        fuel >= 3 * done,
    ensures
        loaded.subrange(loaded.len() - done, loaded.len() as int) == bytes.subrange(
            bytes.len() - done,
            bytes.len() as int,
        ) ==> run(body, sys, s, pc, m, fuel) == run(
            body,
            sys,
            s,
            pc + 3 * done,
            Machine { stack: base + vals(c.wasm64, loaded.subrange(0, loaded.len() - done)), ..m },
            (fuel - 3 * done) as nat,
        ),
        loaded.subrange(loaded.len() - done, loaded.len() as int) != bytes.subrange(
            bytes.len() - done,
            bytes.len() as int,
        ) ==> leaves(run(body, sys, s, pc, m, fuel), this, m),
    decreases done,
{
    let n = bytes.len() as int;
    if done == 0 {
        assert(loaded.subrange(0, n) =~= loaded);
        assert(loaded.subrange(n, n) =~= bytes.subrange(n, n));
    } else {
        let k = (done - 1) as nat;
        let b = bytes[n - done];
        let last = seq![width_const(c.wasm64, b as usize), width_ne(c.wasm64), br_if(this)];
        lemma_compares_len(c, bytes, this, k);
        lemma_holds_prefix(body, s, pc, compares(c, bytes, this, k), last);
        lemma_compares(body, sys, s, pc, c, bytes, this, k, base, loaded, m, fuel);
        let tail_l = loaded.subrange(n - k, n);
        let tail_b = bytes.subrange(n - k, n);
        let now_l = loaded.subrange(n - done, n);
        let now_b = bytes.subrange(n - done, n);
        lemma_suffixes(loaded, bytes, done);
        if tail_l == tail_b {
            let m1 = Machine { stack: base + vals(c.wasm64, loaded.subrange(0, n - k)), ..m };
            let x = loaded[n - done];
            let rest = base + vals(c.wasm64, loaded.subrange(0, n - done));
            assert(m1.stack =~= rest.push(word(c.wasm64, x as int)));
            lemma_compare_one(
                body,
                sys,
                s,
                pc + 3 * k,
                this,
                c.wasm64,
                b,
                x,
                rest,
                m1,
                (fuel - 3 * k) as nat,
            );
        }
    }
}

/// Two strings end alike in their last `done` bytes if and only if they end
/// alike in the last `done - 1` and the byte before is the same.
pub proof fn lemma_suffixes(a: Seq<u8>, b: Seq<u8>, done: nat)
    requires
        a.len() == b.len(),
        0 < done <= a.len(),
    ensures
        (a.subrange(a.len() - done, a.len() as int) == b.subrange(
            b.len() - done,
            b.len() as int,
        )) <==> (a.subrange(a.len() - done + 1, a.len() as int) == b.subrange(
            b.len() - done + 1,
            b.len() as int,
        ) && a[a.len() - done] == b[b.len() - done]),
{
    let n = a.len() as int;
    let now_a = a.subrange(n - done, n);
    let now_b = b.subrange(n - done, n);
    let tail_a = a.subrange(n - done + 1, n);
    let tail_b = b.subrange(n - done + 1, n);
    if now_a == now_b {
        assert(now_a[0] == now_b[0]);
        assert(tail_a =~= tail_b) by {
            assert forall|i: int| 0 <= i < done - 1 implies tail_a[i] == tail_b[i] by {
                assert(now_a[i + 1] == now_b[i + 1]);
            }
        }
    }
    if tail_a == tail_b && a[n - done] == b[n - done] {
        assert(now_a =~= now_b) by {
            assert forall|i: int| 0 <= i < done implies now_a[i] == now_b[i] by {
                if i > 0 {
                    assert(tail_a[i - 1] == tail_b[i - 1]);
                }
            }
        }
    }
}

/// The string that a check is about: the bytes in the heap at the address
/// in the local `src`, as many as the local `size` says.
pub open spec fn text_at(m: Machine, c: ListCheck) -> Seq<u8> {
    m.memory.subrange(number(m.locals[c.src]), number(m.locals[c.src]) + number(m.locals[c.size]))
}

/// The machine is ready for a check: its locals hold an address and a size
/// of the width of the check, and the string lies in a heap that is no
/// longer than addresses of that width reach.
pub open spec fn ready(m: Machine, c: ListCheck) -> bool {
    &&& m.locals.dom().contains(c.src) && is_word(c.wasm64, m.locals[c.src])
    &&& m.locals.dom().contains(c.size) && is_word(c.wasm64, m.locals[c.size])
    &&& number(m.locals[c.src]) + number(m.locals[c.size]) <= m.memory.len() <= reach(c.wasm64)
}

/// The locals after a match with `bytes`: `no_redirect` is cleared, and
/// `is_rename`, where the check has it, says whether `bytes` is
/// `http_request`.
pub open spec fn flagged(locals: Map<LocalId, Val>, c: ListCheck, bytes: Seq<u8>) -> Map<
    LocalId,
    Val,
> {
    (match c.is_rename {
        Some(l) => locals.insert(
            l,
            Val::I32(
                if bytes == utf8("http_request"@) {
                    1
                } else {
                    0
                },
            ),
        ),
        None => locals,
    }).insert(c.no_redirect, Val::I32(0))
}

/// The beginning of a match: a string of another length leaves the
/// sequence.
#[verifier::rlimit(60)]
proof fn lemma_match_head(
    body: Seq<InstrSeqView>,
    sys: System,
    c: ListCheck,
    len: nat,
    this: InstrSeqId,
    m: Machine,
    fuel: nat,
)
    requires
        holds(
            body,
            this as int,
            0,
            seq![local_get(c.size), width_const(c.wasm64, len as usize), width_ne(c.wasm64), br_if(
                this,
            )],
        ),
        ready(m, c),
        len < 0x8000_0000,
        fuel >= 4,
    ensures
        number(m.locals[c.size]) != len ==> run(body, sys, this as int, 0, m, fuel)
            == Outcome::Branch(this, m),
        number(m.locals[c.size]) == len ==> run(body, sys, this as int, 0, m, fuel) == run(
            body,
            sys,
            this as int,
            4,
            m,
            (fuel - 4) as nat,
        ),
{
    let s = this as int;
    let head = seq![
        local_get(c.size),
        width_const(c.wasm64, len as usize),
        width_ne(c.wasm64),
        br_if(this),
    ];
    assert(body[s].instrs[0int + 0].instr == head[0]);
    assert(body[s].instrs[0int + 1].instr == head[1]);
    assert(body[s].instrs[0int + 2].instr == head[2]);
    assert(body[s].instrs[0int + 3].instr == head[3]);
    let size = number(m.locals[c.size]);
    assert(m.locals[c.size] == word(c.wasm64, size));
    let m1 = Machine { stack: m.stack.push(word(c.wasm64, size)), ..m };
    let m2 = Machine { stack: m1.stack.push(word(c.wasm64, len as int)), ..m };
    let m3 = Machine { stack: m.stack.push(truth(size != len)), ..m };
    assert(below(m2.stack, 2) =~= m.stack);
    assert(below(m3.stack, 1) =~= m.stack);
    lemma_plain(body, sys, s, 0, m, fuel, m1);
    lemma_plain(body, sys, s, 1, m1, (fuel - 1) as nat, m2);
    lemma_plain(body, sys, s, 2, m2, (fuel - 2) as nat, m3);
    reveal_with_fuel(run, 2);
    assert(Machine { stack: m.stack, ..m } == m);
}

/// The end of a match: the outcome is recorded and the checks are left.
#[verifier::rlimit(60)]
proof fn lemma_match_tail(
    body: Seq<InstrSeqView>,
    sys: System,
    c: ListCheck,
    bytes: Seq<u8>,
    s: int,
    pc: int,
    m: Machine,
    fuel: nat,
)
    requires
        holds(
            body,
            s,
            pc,
            rename_code(c, bytes) + seq![
                i32_const(0),
                local_set(c.no_redirect),
                br(c.checks_id),
            ],
        ),
        fuel >= 5,
    ensures
        run(body, sys, s, pc, m, fuel) == Outcome::Branch(
            c.checks_id,
            Machine { locals: flagged(m.locals, c, bytes), ..m },
        ),
{
    let tail = seq![i32_const(0), local_set(c.no_redirect), br(c.checks_id)];
    let r = rename_code(c, bytes);
    lemma_holds_prefix(body, s, pc, r, tail);
    let at = pc + r.len();
    assert(body[s].instrs[at + 0].instr == tail[0]);
    assert(body[s].instrs[at + 1].instr == tail[1]);
    assert(body[s].instrs[at + 2].instr == tail[2]);
    let renamed = match c.is_rename {
        Some(l) => m.locals.insert(
            l,
            Val::I32(
                if bytes == utf8("http_request"@) {
                    1
                } else {
                    0
                },
            ),
        ),
        None => m.locals,
    };
    let m1 = Machine { locals: renamed, ..m };
    match c.is_rename {
        Some(l) => {
            let flag: u32 = if bytes == utf8("http_request"@) {
                1
            } else {
                0
            };
            assert(body[s].instrs[pc + 0].instr == r[0]);
            assert(body[s].instrs[pc + 1].instr == r[1]);
            let m0 = Machine { stack: m.stack.push(Val::I32(flag)), ..m };
            assert(below(m0.stack, 1) =~= m.stack);
            lemma_plain(body, sys, s, pc, m, fuel, m0);
            lemma_plain(body, sys, s, pc + 1, m0, (fuel - 1) as nat, m1);
        },
        None => {},
    }
    let left = (fuel - r.len()) as nat;
    let m2 = Machine { stack: m1.stack.push(Val::I32(0)), ..m1 };
    let m3 = Machine { locals: flagged(m.locals, c, bytes), ..m };
    assert(below(m2.stack, 1) =~= m.stack);
    lemma_plain(body, sys, s, at, m1, left, m2);
    lemma_plain(body, sys, s, at + 1, m2, (left - 1) as nat, m3);
    reveal_with_fuel(run, 2);
}

/// A match: a string that is `bytes` has the outcome recorded and leaves
/// the checks; any other string leaves the sequence of the match with
/// nothing changed.
pub proof fn lemma_match(
    body: Seq<InstrSeqView>,
    sys: System,
    c: ListCheck,
    bytes: Seq<u8>,
    this: InstrSeqId,
    m: Machine,
    fuel: nat,
)
    requires
        holds(body, this as int, 0, match_code(c, bytes, this)),
        ready(m, c),
        bytes.len() < 0x8000_0000,
        fuel >= 5 * bytes.len() + 12,
    ensures
        text_at(m, c) == bytes ==> run(body, sys, this as int, 0, m, fuel) == Outcome::Branch(
            c.checks_id,
            Machine { locals: flagged(m.locals, c, bytes), ..m },
        ),
        text_at(m, c) != bytes ==> leaves(run(body, sys, this as int, 0, m, fuel), this, m),
{
    let s = this as int;
    let n = bytes.len() as int;
    let head = seq![
        local_get(c.size),
        width_const(c.wasm64, bytes.len() as usize),
        width_ne(c.wasm64),
        br_if(this),
    ];
    let tail = rename_code(c, bytes) + seq![
        i32_const(0),
        local_set(c.no_redirect),
        br(c.checks_id),
    ];
    let l = loads(c, bytes.len());
    let checks = compares(c, bytes, this, bytes.len());
    assert(match_code(c, bytes, this) =~= head + (l + (checks + tail)));
    lemma_holds_prefix(body, s, 0, head, l + (checks + tail));
    lemma_holds_prefix(body, s, 4, l, checks + tail);
    lemma_loads_len(c, bytes.len());
    lemma_compares_len(c, bytes, this, bytes.len());
    lemma_holds_prefix(body, s, 4 + 2 * n, checks, tail);
    lemma_match_head(body, sys, c, bytes.len(), this, m, fuel);
    let size = number(m.locals[c.size]);
    let p = number(m.locals[c.src]);
    let text = text_at(m, c);
    if size == n {
        assert(m.locals[c.src] == word(c.wasm64, p));
        lemma_loads(body, sys, s, 4, c, bytes.len(), m, (fuel - 4) as nat, p);
        let loaded = Machine { stack: m.stack + vals(c.wasm64, text), ..m };
        lemma_compares(
            body,
            sys,
            s,
            4 + 2 * n,
            c,
            bytes,
            this,
            bytes.len(),
            m.stack,
            text,
            loaded,
            (fuel - 4 - 2 * n) as nat,
        );
        assert(text.subrange(0, n) =~= text);
        assert(bytes.subrange(0, n) =~= bytes);
        if text == bytes {
            assert(m.stack + vals(c.wasm64, text.subrange(0, 0)) =~= m.stack);
            assert(Machine { stack: m.stack, ..loaded } == m);
            lemma_match_tail(body, sys, c, bytes, s, 4 + 5 * n, m, (fuel - 4 - 5 * n) as nat);
        }
    } else {
        assert(text.len() != bytes.len());
    }
}

/// The first string of `list` from position `k` on that is `text`.
pub open spec fn match_from(list: Seq<Seq<u8>>, text: Seq<u8>, k: int) -> Option<int>
    decreases list.len() - k,
{
    if k < 0 || k >= list.len() {
        None
    } else if list[k] == text {
        Some(k)
    } else {
        match_from(list, text, k + 1)
    }
}

/// What a list of checks needs to run: the checks stand at the end of the
/// sequence `c.checks_id` from position `pc0` on, the sequences from
/// `first` on are the matches, the strings are short enough to be compared,
/// and `longest` bounds the steps that a match takes.
pub open spec fn list_stands(
    body: Seq<InstrSeqView>,
    pc0: int,
    c: ListCheck,
    list: Seq<Seq<u8>>,
    first: InstrSeqId,
    longest: nat,
) -> bool {
    &&& holds(body, c.checks_id as int, pc0, check_list_code(c, first, list.len()))
    &&& pc0 + list.len() + 2 == body[c.checks_id as int].instrs.len()
    &&& first + list.len() <= usize::MAX
    &&& forall|j: int|
        0 <= j < list.len() ==> {
            &&& first + j < body.len()
            &&& first + j != c.checks_id
            &&& (#[trigger] body[first + j]) == seq_of(
                InstrSeqType::Simple(None),
                match_code(c, list[j], (first + j) as usize),
            )
            &&& list[j].len() < 0x8000_0000
            &&& 5 * list[j].len() + 12 <= longest
        }
}

/// A list of checks: the first string of the list that is the string in the
/// heap has the outcome recorded and the checks are left; where none is,
/// `no_redirect` is set and the sequence ends.
pub proof fn lemma_list(
    body: Seq<InstrSeqView>,
    sys: System,
    pc0: int,
    c: ListCheck,
    list: Seq<Seq<u8>>,
    first: InstrSeqId,
    k: int,
    m: Machine,
    fuel: nat,
    longest: nat,
)
    requires
        list_stands(body, pc0, c, list, first, longest),
        ready(m, c),
        0 <= k <= list.len(),
        fuel >= longest + (list.len() - k) + 3,
    ensures
        run(body, sys, c.checks_id as int, pc0 + k, m, fuel) == (match match_from(
            list,
            text_at(m, c),
            k,
        ) {
            Some(j) => Outcome::Branch(
                c.checks_id,
                Machine { locals: flagged(m.locals, c, list[j]), ..m },
            ),
            None => Outcome::Next(
                Machine { locals: m.locals.insert(c.no_redirect, Val::I32(1)), ..m },
            ),
        }),
    decreases list.len() - k,
{
    let cs = c.checks_id as int;
    let n = list.len() as int;
    let code = check_list_code(c, first, list.len());
    let blocks = Seq::new(list.len(), |j: int| crate::ir::block((first + j) as usize));
    let end = seq![i32_const(1), local_set(c.no_redirect)];
    assert(code == blocks + end);
    lemma_holds_prefix(body, cs, pc0, blocks, end);
    if k == n {
        let at = pc0 + n;
        assert(body[cs].instrs[at + 0].instr == end[0]);
        assert(body[cs].instrs[at + 1].instr == end[1]);
        let m1 = Machine { stack: m.stack.push(Val::I32(1)), ..m };
        let m2 = Machine { locals: m.locals.insert(c.no_redirect, Val::I32(1)), ..m };
        assert(below(m1.stack, 1) =~= m.stack);
        lemma_plain(body, sys, cs, at, m, fuel, m1);
        lemma_plain(body, sys, cs, at + 1, m1, (fuel - 1) as nat, m2);
    } else {
        let inner = (first + k) as usize;
        assert(body[cs].instrs[pc0 + k].instr == blocks[k]);
        assert(body[first + k] == seq_of(
            InstrSeqType::Simple(None),
            match_code(c, list[k], inner),
        ));
        let mc = match_code(c, list[k], inner);
        assert(holds(body, inner as int, 0, mc)) by {
            assert forall|j: int| 0 <= j < mc.len() implies (
            #[trigger] body[inner as int].instrs[0 + j]).instr == mc[j] by {}
        }
        lemma_match(body, sys, c, list[k], inner, m, (fuel - 1) as nat);
        let inside = run(body, sys, inner as int, 0, m, (fuel - 1) as nat);
        if text_at(m, c) == list[k] {
        } else {
            let x = inside->Branch_1;
            assert(Machine { stack: m.stack, ..x } == m);
            lemma_list(body, sys, pc0, c, list, first, k + 1, m, (fuel - 1) as nat, longest);
        }
    }
}

/// The greatest number of steps that a match with a string of `list`
/// takes.
pub open spec fn longest(list: Seq<Seq<u8>>) -> nat
    decreases list.len(),
{
    if list.len() == 0 {
        0
    } else {
        let rest = longest(list.drop_last());
        let last = 5 * list.last().len() + 12;
        if last > rest {
            last
        } else {
            rest
        }
    }
}

/// No string of the list is longer than the longest.
pub proof fn lemma_longest(list: Seq<Seq<u8>>, j: int)
    requires
        0 <= j < list.len(),
    ensures
        5 * list[j].len() + 12 <= longest(list),
    decreases list.len(),
{
    if j < list.len() - 1 {
        lemma_longest(list.drop_last(), j);
        assert(list.drop_last()[j] == list[j]);
    } else {
        assert(list.last() == list[j]);
    }
}

/// The strings are short enough for their lengths to be constants of either
/// width.
pub open spec fn short(list: Seq<Seq<u8>>) -> bool {
    forall|j: int| 0 <= j < list.len() ==> (#[trigger] list[j]).len() < 0x8000_0000
}

/// The callee of a call as the wrapper finds it in the heap.
pub open spec fn callee_text(p: Redirect, m: Machine) -> Seq<u8> {
    text_at(m, p.callee_check())
}

/// The method name of a call as the wrapper finds it in the heap.
pub open spec fn method_text(p: Redirect, m: Machine) -> Seq<u8> {
    text_at(m, p.method_check())
}

/// The call is one that the wrapper sends to the backend: its callee is
/// one of the watched canisters and its method one of the watched methods.
pub open spec fn watched(p: Redirect, m: Machine) -> bool {
    p.callees.contains(callee_text(p, m)) && p.methods.contains(method_text(p, m))
}

/// The machine is at the entry of the wrapper with the eight arguments of a
/// call in its locals: the wrapper works on memory 0, the arguments are
/// values of the width of its addresses, and the callee and the method name
/// lie in a heap that is no longer than such addresses reach.
pub open spec fn at_call(p: Redirect, m: Machine) -> bool {
    &&& p.memory == 0
    &&& p.first_local + 10 + p.target.len() <= usize::MAX
    &&& 7 + p.callees.len() + p.methods.len() <= usize::MAX
    &&& short(p.callees)
    &&& short(p.methods)
    &&& forall|k: int|
        0 <= k < 8 ==> m.locals.dom().contains(#[trigger] p.arg(k)) && is_word(
            p.wasm64,
            m.locals[p.arg(k)],
        )
    &&& ready(m, p.callee_check())
    &&& ready(m, p.method_check())
}

/// The sequences of the wrapper, one by one.
pub proof fn lemma_body_layout(p: Redirect)
    requires
        7 + p.callees.len() + p.methods.len() <= usize::MAX,
    ensures
        p.body().len() == 7 + p.callees.len() + p.methods.len(),
        p.body()[0] == seq_of(InstrSeqType::MultiValue(p.entry_ty), p.entry_code()),
        p.body()[1] == seq_of(InstrSeqType::Simple(None), p.checks_code()),
        p.body()[2] == seq_of(
            InstrSeqType::Simple(None),
            check_list_code(p.callee_check(), p.callee_seq(0), p.callees.len()),
        ),
        forall|j: int|
            0 <= j < p.callees.len() ==> (#[trigger] p.body()[3 + j]) == seq_of(
                InstrSeqType::Simple(None),
                match_code(p.callee_check(), p.callees[j], (3 + j) as usize),
            ),
        forall|j: int|
            0 <= j < p.methods.len() ==> (#[trigger] p.body()[3 + p.callees.len() + j])
                == seq_of(
                InstrSeqType::Simple(None),
                match_code(
                    p.method_check(),
                    p.methods[j],
                    (3 + p.callees.len() + j) as usize,
                ),
            ),
        p.body()[p.forward_seq() as int] == seq_of(InstrSeqType::Simple(None), p.call_code(0)),
        p.body()[p.redirect_seq() as int] == seq_of(
            InstrSeqType::Simple(None),
            p.redirect_code(),
        ),
        p.body()[p.rename_seq() as int] == seq_of(InstrSeqType::Simple(None), p.rename_code()),
        p.body()[p.keep_seq() as int] == seq_of(InstrSeqType::Simple(None), Seq::empty()),
{
    let c = p.callees.len() as int;
    let callee_seqs = check_list_seqs(p.callee_check(), p.callees, p.callee_seq(0));
    let method_seqs = check_list_seqs(p.method_check(), p.methods, p.method_seq(0));
    assert forall|j: int| 0 <= j < p.callees.len() implies (#[trigger] p.body()[3 + j]) == seq_of(
        InstrSeqType::Simple(None),
        match_code(p.callee_check(), p.callees[j], (3 + j) as usize),
    ) by {
        assert(p.body()[3 + j] == callee_seqs[j]);
    }
    assert forall|j: int| 0 <= j < p.methods.len() implies (
    #[trigger] p.body()[3 + p.callees.len() + j]) == seq_of(
        InstrSeqType::Simple(None),
        match_code(p.method_check(), p.methods[j], (3 + p.callees.len() + j) as usize),
    ) by {
        assert(p.body()[3 + c + j] == method_seqs[j]);
    }
}

/// The checks of the callee stand in the wrapper.
proof fn lemma_callee_list_stands(p: Redirect)
    requires
        7 + p.callees.len() + p.methods.len() <= usize::MAX,
        short(p.callees),
    ensures
        list_stands(p.body(), 0, p.callee_check(), p.callees, 3, longest(p.callees)),
{
    lemma_body_layout(p);
    let body = p.body();
    let c = p.callee_check();
    let code = check_list_code(c, 3, p.callees.len());
    assert(holds(body, 2, 0, code)) by {
        assert forall|j: int| 0 <= j < code.len() implies (#[trigger] body[2].instrs[0 + j]).instr
            == code[j] by {}
    }
    assert forall|j: int| 0 <= j < p.callees.len() implies {
        &&& 3 + j < body.len()
        &&& 3 + j != c.checks_id
        &&& (#[trigger] body[3 + j]) == seq_of(
            InstrSeqType::Simple(None),
            match_code(c, p.callees[j], (3 + j) as usize),
        )
        &&& p.callees[j].len() < 0x8000_0000
        &&& 5 * p.callees[j].len() + 12 <= longest(p.callees)
    } by {
        lemma_longest(p.callees, j);
    }
}

/// The checks of the method name stand in the wrapper.
proof fn lemma_method_list_stands(p: Redirect)
    requires
        7 + p.callees.len() + p.methods.len() <= usize::MAX,
        short(p.methods),
    ensures
        list_stands(
            p.body(),
            3,
            p.method_check(),
            p.methods,
            p.method_seq(0),
            longest(p.methods),
        ),
{
    lemma_body_layout(p);
    let body = p.body();
    let c = p.method_check();
    let first = p.method_seq(0);
    let code = check_list_code(c, first, p.methods.len());
    let head = seq![crate::ir::block(2), local_get(p.no_redirect()), br_if(1)];
    assert(p.checks_code() == head + code);
    assert(holds(body, 1, 0, head + code)) by {
        assert forall|j: int| 0 <= j < (head + code).len() implies (
        #[trigger] body[1].instrs[0 + j]).instr == (head + code)[j] by {}
    }
    lemma_holds_prefix(body, 1, 0, head, code);
    assert forall|j: int| 0 <= j < p.methods.len() implies {
        &&& first + j < body.len()
        &&& first + j != c.checks_id
        &&& (#[trigger] body[first + j]) == seq_of(
            InstrSeqType::Simple(None),
            match_code(c, p.methods[j], (first + j) as usize),
        )
        &&& p.methods[j].len() < 0x8000_0000
        &&& 5 * p.methods[j].len() + 12 <= longest(p.methods)
    } by {
        lemma_longest(p.methods, j);
        assert(body[3 + p.callees.len() + j] == seq_of(
            InstrSeqType::Simple(None),
            match_code(c, p.methods[j], (3 + p.callees.len() + j) as usize),
        ));
    }
}

/// A string is found in a list exactly if the list holds it.
pub proof fn lemma_match_from(list: Seq<Seq<u8>>, text: Seq<u8>, k: int)
    requires
        0 <= k <= list.len(),
    ensures
        match_from(list, text, k) is Some <==> exists|j: int|
            k <= j < list.len() && #[trigger] list[j] == text,
        match_from(list, text, k) matches Some(j) ==> k <= j < list.len() && list[j] == text,
    decreases list.len() - k,
{
    if k < list.len() {
        lemma_match_from(list, text, k + 1);
        if list[k] != text {
            if exists|j: int| k <= j < list.len() && #[trigger] list[j] == text {
                let j = choose|j: int| k <= j < list.len() && #[trigger] list[j] == text;
                assert(k + 1 <= j);
            }
        }
    }
}

/// The steps that are enough for the wrapper to run.
pub open spec fn enough(p: Redirect) -> nat {
    longest(p.callees) + longest(p.methods) + p.callees.len() + p.methods.len() + 10
        * p.target.len() + 64
}

/// The locals after the checks: `no_redirect` is 0 exactly if the call is
/// watched, and then `is_rename` says whether the method is
/// `http_request`.
pub open spec fn checked(p: Redirect, m: Machine) -> Map<LocalId, Val> {
    match match_from(p.callees, callee_text(p, m), 0) {
        None => m.locals.insert(p.no_redirect(), Val::I32(1)),
        Some(_) => match match_from(p.methods, method_text(p, m), 0) {
            None => m.locals.insert(p.no_redirect(), Val::I32(1)),
            Some(j) => flagged(
                m.locals.insert(p.no_redirect(), Val::I32(0)),
                p.method_check(),
                p.methods[j],
            ),
        },
    }
}

/// The checks change nothing but the two flags, and end or leave their
/// sequence.
#[verifier::rlimit(60)]
proof fn lemma_checks(p: Redirect, sys: System, m: Machine, fuel: nat)
    requires
        at_call(p, m),
        fuel >= longest(p.callees) + longest(p.methods) + p.callees.len() + p.methods.len() + 16,
    ensures
        ({
            let out = run(p.body(), sys, 1, 0, m, fuel);
            let done = Machine { locals: checked(p, m), ..m };
            out == Outcome::Next(done) || out == Outcome::Branch(1, done)
        }),
{
    let body = p.body();
    lemma_body_layout(p);
    lemma_callee_list_stands(p);
    lemma_method_list_stands(p);
    let cc = p.callee_check();
    let mc = p.method_check();
    let head = seq![crate::ir::block(2), local_get(p.no_redirect()), br_if(1)];
    let code = check_list_code(mc, p.method_seq(0), p.methods.len());
    assert(p.checks_code() == head + code);
    assert(holds(body, 1, 0, head + code)) by {
        assert forall|j: int| 0 <= j < (head + code).len() implies (
        #[trigger] body[1].instrs[0 + j]).instr == (head + code)[j] by {}
    }
    lemma_holds_prefix(body, 1, 0, head, code);
    assert(body[1].instrs[0int + 0].instr == head[0]);
    assert(body[1].instrs[0int + 1].instr == head[1]);
    assert(body[1].instrs[0int + 2].instr == head[2]);
    lemma_list(body, sys, 0, cc, p.callees, 3, 0, m, (fuel - 1) as nat, longest(p.callees));
    let callee = match_from(p.callees, callee_text(p, m), 0);
    lemma_match_from(p.callees, callee_text(p, m), 0);
    let flag: u32 = if callee is Some {
        0
    } else {
        1
    };
    let m0 = Machine { locals: m.locals.insert(p.no_redirect(), Val::I32(flag)), ..m };
    assert(callee matches Some(j) ==> flagged(m.locals, cc, p.callees[j]) == m0.locals);
    let inside = run(body, sys, 2, 0, m, (fuel - 1) as nat);
    assert(inside == Outcome::Next(m0) || inside == Outcome::Branch(2, m0));
    assert(Machine { stack: m.stack, ..m0 } == m0);
    reveal_with_fuel(run, 2);
    assert(run(body, sys, 1, 0, m, fuel) == run(body, sys, 1, 1, m0, (fuel - 1) as nat));
    let m1 = Machine { stack: m0.stack.push(Val::I32(flag)), ..m0 };
    assert(below(m1.stack, 1) =~= m.stack);
    lemma_plain(body, sys, 1, 1, m0, (fuel - 1) as nat, m1);
    if callee is Some {
        assert(run(body, sys, 1, 2, m1, (fuel - 2) as nat) == run(
            body,
            sys,
            1,
            3,
            m0,
            (fuel - 3) as nat,
        ));
        assert(ready(m0, mc));
        assert(text_at(m0, mc) == method_text(p, m));
        lemma_list(
            body,
            sys,
            3,
            mc,
            p.methods,
            p.method_seq(0),
            0,
            m0,
            (fuel - 3) as nat,
            longest(p.methods),
        );
        assert(m0.locals.insert(p.no_redirect(), Val::I32(1)) =~= m.locals.insert(
            p.no_redirect(),
            Val::I32(1),
        ));
    } else {
        assert(run(body, sys, 1, 2, m1, (fuel - 2) as nat) == Outcome::Branch(1, m0));
    }
}

/// The arguments from `from` on as they are in the locals.
pub open spec fn args_from(p: Redirect, m: Machine, from: int, count: nat) -> Seq<Val> {
    Seq::new(count, |k: int| m.locals[p.arg(from + k)])
}

/// Getting arguments puts them on the stack.
proof fn lemma_gets(
    body: Seq<InstrSeqView>,
    sys: System,
    s: int,
    pc: int,
    p: Redirect,
    from: int,
    count: nat,
    m: Machine,
    fuel: nat,
)
    requires
        holds(body, s, pc, Seq::new(count, |k: int| local_get(p.arg(from + k)))),
        0 <= from,
        from + count <= 8,
        forall|k: int| 0 <= k < 8 ==> m.locals.dom().contains(#[trigger] p.arg(k)),
        fuel >= count,
    ensures
        run(body, sys, s, pc, m, fuel) == run(
            body,
            sys,
            s,
            pc + count,
            Machine { stack: m.stack + args_from(p, m, from, count), ..m },
            (fuel - count) as nat,
        ),
    decreases count,
{
    let gets = Seq::new(count, |k: int| local_get(p.arg(from + k)));
    if count == 0 {
        assert(m.stack + args_from(p, m, from, count) =~= m.stack);
    } else {
        let k = (count - 1) as nat;
        let before = Seq::new(k, |j: int| local_get(p.arg(from + j)));
        assert(gets =~= before + seq![local_get(p.arg(from + k))]);
        lemma_holds_prefix(body, s, pc, before, seq![local_get(p.arg(from + k))]);
        lemma_gets(body, sys, s, pc, p, from, k, m, fuel);
        let m1 = Machine { stack: m.stack + args_from(p, m, from, k), ..m };
        let m2 = Machine { stack: m1.stack.push(m.locals[p.arg(from + k)]), ..m };
        assert(body[s].instrs[pc + k + 0].instr == local_get(p.arg(from + k)));
        assert(m.locals.dom().contains(p.arg(from + k)));
        lemma_plain(body, sys, s, pc + k, m1, (fuel - k) as nat, m2);
        assert(m2.stack =~= m.stack + args_from(p, m, from, count));
    }
}

/// Redirect selectivity: a call that is not watched is handed to
/// `ic0.call_new` with the arguments it came with, and the heap is as it
/// was; of the locals only the flag `no_redirect` has changed. This holds
/// of a wrapper of either width.
#[verifier::rlimit(60)]
pub proof fn lemma_redirect_selective(p: Redirect, sys: System, m: Machine, fuel: nat)
    requires
        at_call(p, m),
        sys.wf(),
        sys.call_new == p.call_new,
        !watched(p, m),
        fuel >= enough(p),
    ensures
        run(p.body(), sys, 0, 0, m, fuel) == Outcome::Next(
            Machine {
                locals: m.locals.insert(p.no_redirect(), Val::I32(1)),
                calls: m.calls.push(
                    CallNew {
                        callee: callee_text(p, m),
                        method: method_text(p, m),
                        rest: args_from(p, m, 4, 4),
                    },
                ),
                ..m
            },
        ),
{
    let body = p.body();
    lemma_body_layout(p);
    lemma_checks(p, sys, m, (fuel - 1) as nat);
    lemma_match_from(p.callees, callee_text(p, m), 0);
    lemma_match_from(p.methods, method_text(p, m), 0);
    let done = Machine { locals: m.locals.insert(p.no_redirect(), Val::I32(1)), ..m };
    assert(checked(p, m) == done.locals);
    let entry = p.entry_code();
    assert(body[0].instrs[0].instr == entry[0]);
    assert(body[0].instrs[1].instr == entry[1]);
    assert(body[0].instrs[2].instr == entry[2]);
    assert(body[0].instrs.len() == 3);
    assert(Machine { stack: m.stack, ..done } == done);
    reveal_with_fuel(run, 3);
    assert(run(body, sys, 0, 0, m, fuel) == run(body, sys, 0, 1, done, (fuel - 1) as nat));
    let m1 = Machine { stack: done.stack.push(Val::I32(1)), ..done };
    assert(below(m1.stack, 1) =~= m.stack);
    lemma_plain(body, sys, 0, 1, done, (fuel - 1) as nat, m1);
    let fwd = p.forward_seq();
    let code = p.call_code(0);
    let gets = Seq::new(8, |k: int| local_get(p.arg(0 + k)));
    assert(code =~= gets + seq![crate::ir::call(p.call_new)]);
    assert(holds(body, fwd as int, 0, gets + seq![crate::ir::call(p.call_new)])) by {
        assert forall|j: int| 0 <= j < code.len() implies (
        #[trigger] body[fwd as int].instrs[0 + j]).instr == code[j] by {}
    }
    lemma_holds_prefix(body, fwd as int, 0, gets, seq![crate::ir::call(p.call_new)]);
    assert forall|k: int| 0 <= k < 8 implies done.locals.dom().contains(#[trigger] p.arg(k)) by {}
    lemma_gets(body, sys, fwd as int, 0, p, 0, 8, done, (fuel - 3) as nat);
    let args = args_from(p, done, 0, 8);
    let m2 = Machine { stack: m.stack + args, ..done };
    assert(body[fwd as int].instrs[8int + 0].instr == crate::ir::call(p.call_new));
    let last = Machine {
        calls: m.calls.push(
            CallNew {
                callee: callee_text(p, m),
                method: method_text(p, m),
                rest: args_from(p, m, 4, 4),
            },
        ),
        ..done
    };
    assert(system_call(sys, p.call_new, m2) == Outcome::Next(last)) by {
        assert(top(m2.stack, 7) == m.locals[p.arg(0)]);
        assert(top(m2.stack, 6) == m.locals[p.arg(1)]);
        assert(top(m2.stack, 5) == m.locals[p.arg(2)]);
        assert(top(m2.stack, 4) == m.locals[p.arg(3)]);
        assert(below(m2.stack, 8) =~= m.stack);
        assert(m2.stack.subrange(m2.stack.len() - 4, m2.stack.len() as int) =~= args_from(
            p,
            m,
            4,
            4,
        ));
    }
    lemma_plain(body, sys, fwd as int, 8, m2, (fuel - 11) as nat, last);
    assert(run(body, sys, fwd as int, 0, done, (fuel - 3) as nat) == Outcome::Next(last));
}

/// The locals with the first `n` bytes of `memory` kept in the backup
/// locals.
pub open spec fn backed(locals: Map<LocalId, Val>, p: Redirect, memory: Seq<u8>, n: nat) -> Map<
    LocalId,
    Val,
>
    decreases n,
{
    if n == 0 {
        locals
    } else {
        backed(locals, p, memory, (n - 1) as nat).insert(
            p.backup(n - 1),
            word(p.wasm64, memory[n - 1] as int),
        )
    }
}

/// The heap with its first `n` bytes replaced by those of `bytes`.
pub open spec fn overwritten(memory: Seq<u8>, bytes: Seq<u8>, n: nat) -> Seq<u8>
    decreases n,
{
    if n == 0 {
        memory
    } else {
        overwritten(memory, bytes, (n - 1) as nat).update(n - 1, bytes[n - 1])
    }
}

/// Overwriting keeps the length, puts the bytes in the first `n` places and keeps the others.
pub proof fn lemma_overwritten(memory: Seq<u8>, bytes: Seq<u8>, n: nat)
    requires
        n <= memory.len(),
        n <= bytes.len(),
    ensures
        overwritten(memory, bytes, n).len() == memory.len(),
        forall|i: int| 0 <= i < n ==> overwritten(memory, bytes, n)[i] == bytes[i],
        forall|i: int| n <= i < memory.len() ==> overwritten(memory, bytes, n)[i] == memory[i],
    decreases n,
{
    if n > 0 {
        lemma_overwritten(memory, bytes, (n - 1) as nat);
    }
}

/// The locals `a` hold what the locals `b` hold below `bound`.
pub open spec fn keeps_below(a: Map<LocalId, Val>, b: Map<LocalId, Val>, bound: int) -> bool {
    forall|l: LocalId|
        l < bound && #[trigger] b.dom().contains(l) ==> a.dom().contains(l) && a[l] == b[l]
}

/// The backup locals hold the first `n` bytes of the heap.
pub proof fn lemma_backed(locals: Map<LocalId, Val>, p: Redirect, memory: Seq<u8>, n: nat)
    requires
        p.first_local + 10 + n <= usize::MAX,
    ensures
        forall|j: int|
            0 <= j < n ==> backed(locals, p, memory, n).dom().contains(#[trigger] p.backup(j))
                && backed(locals, p, memory, n)[p.backup(j)] == word(p.wasm64, memory[j] as int),
        keeps_below(backed(locals, p, memory, n), locals, p.first_local + 10),
    decreases n,
{
    if n > 0 {
        lemma_backed(locals, p, memory, (n - 1) as nat);
        let before = backed(locals, p, memory, (n - 1) as nat);
        assert forall|j: int| 0 <= j < n implies backed(locals, p, memory, n).dom().contains(
            #[trigger] p.backup(j),
        ) && backed(locals, p, memory, n)[p.backup(j)] == word(p.wasm64, memory[j] as int) by {
            if j < n - 1 {
                assert(before.dom().contains(p.backup(j)));
                assert(p.backup(j) != p.backup(n - 1));
            }
        }
        assert forall|l: LocalId|
            l < p.first_local + 10 && #[trigger] locals.dom().contains(l) implies backed(
            locals,
            p,
            memory,
            n,
        ).dom().contains(l) && backed(locals, p, memory, n)[l] == locals[l] by {
            assert(before.dom().contains(l) && before[l] == locals[l]);
            assert(l != p.backup(n - 1));
        }
    }
}

/// Saving, writing and putting back `n` bytes take three instructions for
/// each byte.
pub proof fn lemma_backups_len(p: Redirect, n: nat)
    ensures
        p.backups(n).len() == 3 * n,
        p.writes(n).len() == 3 * n,
        p.restores(n).len() == 3 * n,
    decreases n,
{
    if n > 0 {
        lemma_backups_len(p, (n - 1) as nat);
    }
}

/// The low byte of a byte as a value is the byte.
proof fn lemma_low_byte(b: u8)
    ensures
        ((b as u32) & 0xff) as u8 == b,
        ((b as u64) & 0xff) as u8 == b,
{
    assert(((b as u32) & 0xff) as u8 == b) by (bit_vector);
    assert(((b as u64) & 0xff) as u8 == b) by (bit_vector);
}

/// The backups keep the first `n` bytes of the heap in the backup locals.
proof fn lemma_backups(
    body: Seq<InstrSeqView>,
    sys: System,
    s: int,
    pc: int,
    p: Redirect,
    n: nat,
    base: Machine,
    fuel: nat,
)
    requires
        holds(body, s, pc, p.backups(n)),
        n <= base.memory.len() <= reach(p.wasm64),
        n < 0x8000_0000,
        fuel >= 3 * n,
    ensures
        run(body, sys, s, pc, base, fuel) == run(
            body,
            sys,
            s,
            pc + 3 * n,
            Machine { locals: backed(base.locals, p, base.memory, n), ..base },
            (fuel - 3 * n) as nat,
        ),
    decreases n,
{
    if n == 0 {
        assert(Machine { locals: backed(base.locals, p, base.memory, n), ..base } == base);
    } else {
        let k = (n - 1) as nat;
        let last = seq![
            width_const(p.wasm64, k as usize),
            load_byte(p.memory, p.wasm64, 0),
            local_set(p.backup(k as int)),
        ];
        lemma_backups_len(p, k);
        lemma_holds_prefix(body, s, pc, p.backups(k), last);
        lemma_backups(body, sys, s, pc, p, k, base, fuel);
        let m1 = Machine { locals: backed(base.locals, p, base.memory, k), ..base };
        let at = pc + 3 * k;
        assert(body[s].instrs[at + 0].instr == last[0]);
        assert(body[s].instrs[at + 1].instr == last[1]);
        assert(body[s].instrs[at + 2].instr == last[2]);
        let m2 = Machine { stack: m1.stack.push(word(p.wasm64, k as int)), ..m1 };
        let m3 = Machine { stack: m1.stack.push(word(p.wasm64, base.memory[k as int] as int)), ..m1 };
        let m4 = Machine { locals: backed(base.locals, p, base.memory, n), ..base };
        assert(below(m2.stack, 1) =~= m1.stack);
        assert(below(m3.stack, 1) =~= m1.stack);
        lemma_plain(body, sys, s, at, m1, (fuel - 3 * k) as nat, m2);
        lemma_plain(body, sys, s, at + 1, m2, (fuel - 3 * k - 1) as nat, m3);
        lemma_plain(body, sys, s, at + 2, m3, (fuel - 3 * k - 2) as nat, m4);
    }
}

/// The writes put the first `n` bytes of the target at the start of the
/// heap.
proof fn lemma_writes(
    body: Seq<InstrSeqView>,
    sys: System,
    s: int,
    pc: int,
    p: Redirect,
    n: nat,
    base: Machine,
    fuel: nat,
)
    requires
        holds(body, s, pc, p.writes(n)),
        n <= p.target.len(),
        n <= base.memory.len() <= reach(p.wasm64),
        n < 0x8000_0000,
        fuel >= 3 * n,
    ensures
        run(body, sys, s, pc, base, fuel) == run(
            body,
            sys,
            s,
            pc + 3 * n,
            Machine { memory: overwritten(base.memory, p.target, n), ..base },
            (fuel - 3 * n) as nat,
        ),
    decreases n,
{
    if n == 0 {
        assert(Machine { memory: overwritten(base.memory, p.target, n), ..base } == base);
    } else {
        let k = (n - 1) as nat;
        let b = p.target[k as int];
        let last = seq![
            width_const(p.wasm64, k as usize),
            width_const(p.wasm64, b as usize),
            store_byte(p.memory, p.wasm64),
        ];
        lemma_backups_len(p, k);
        lemma_holds_prefix(body, s, pc, p.writes(k), last);
        lemma_writes(body, sys, s, pc, p, k, base, fuel);
        lemma_overwritten(base.memory, p.target, k);
        lemma_low_byte(b);
        let m1 = Machine { memory: overwritten(base.memory, p.target, k), ..base };
        let at = pc + 3 * k;
        assert(body[s].instrs[at + 0].instr == last[0]);
        assert(body[s].instrs[at + 1].instr == last[1]);
        assert(body[s].instrs[at + 2].instr == last[2]);
        let m2 = Machine { stack: m1.stack.push(word(p.wasm64, k as int)), ..m1 };
        let m3 = Machine { stack: m2.stack.push(word(p.wasm64, b as int)), ..m1 };
        let m4 = Machine { memory: overwritten(base.memory, p.target, n), ..base };
        assert(below(m3.stack, 2) =~= m1.stack);
        lemma_plain(body, sys, s, at, m1, (fuel - 3 * k) as nat, m2);
        lemma_plain(body, sys, s, at + 1, m2, (fuel - 3 * k - 1) as nat, m3);
        lemma_plain(body, sys, s, at + 2, m3, (fuel - 3 * k - 2) as nat, m4);
    }
}

/// The restores put back the first `n` bytes of the heap that the backup
/// locals keep.
proof fn lemma_restores(
    body: Seq<InstrSeqView>,
    sys: System,
    s: int,
    pc: int,
    p: Redirect,
    n: nat,
    base: Machine,
    saved: Seq<u8>,
    fuel: nat,
)
    requires
        holds(body, s, pc, p.restores(n)),
        n <= saved.len(),
        n <= base.memory.len() <= reach(p.wasm64),
        n < 0x8000_0000,
        forall|j: int|
            0 <= j < n ==> base.locals.dom().contains(#[trigger] p.backup(j))
                && base.locals[p.backup(j)] == word(p.wasm64, saved[j] as int),
        fuel >= 3 * n,
    ensures
        run(body, sys, s, pc, base, fuel) == run(
            body,
            sys,
            s,
            pc + 3 * n,
            Machine { memory: overwritten(base.memory, saved, n), ..base },
            (fuel - 3 * n) as nat,
        ),
    decreases n,
{
    if n == 0 {
        assert(Machine { memory: overwritten(base.memory, saved, n), ..base } == base);
    } else {
        let k = (n - 1) as nat;
        let b = saved[k as int];
        let last = seq![
            width_const(p.wasm64, k as usize),
            local_get(p.backup(k as int)),
            store_byte(p.memory, p.wasm64),
        ];
        lemma_backups_len(p, k);
        lemma_holds_prefix(body, s, pc, p.restores(k), last);
        lemma_restores(body, sys, s, pc, p, k, base, saved, fuel);
        lemma_overwritten(base.memory, saved, k);
        lemma_low_byte(b);
        let m1 = Machine { memory: overwritten(base.memory, saved, k), ..base };
        let at = pc + 3 * k;
        assert(body[s].instrs[at + 0].instr == last[0]);
        assert(body[s].instrs[at + 1].instr == last[1]);
        assert(body[s].instrs[at + 2].instr == last[2]);
        assert(base.locals[p.backup(k as int)] == word(p.wasm64, b as int));
        let m2 = Machine { stack: m1.stack.push(word(p.wasm64, k as int)), ..m1 };
        let m3 = Machine { stack: m2.stack.push(word(p.wasm64, b as int)), ..m1 };
        let m4 = Machine { memory: overwritten(base.memory, saved, n), ..base };
        assert(below(m3.stack, 2) =~= m1.stack);
        lemma_plain(body, sys, s, at, m1, (fuel - 3 * k) as nat, m2);
        lemma_plain(body, sys, s, at + 1, m2, (fuel - 3 * k - 1) as nat, m3);
        lemma_plain(body, sys, s, at + 2, m3, (fuel - 3 * k - 2) as nat, m4);
    }
}

/// The method name as the backend gets it: `http_request` has an underscore
/// for its first byte.
pub open spec fn renamed(method: Seq<u8>) -> Seq<u8> {
    if method == utf8("http_request"@) {
        method.update(0, 95u8)
    } else {
        method
    }
}

/// The heap after a call whose method name at `name_src` is `method`: the
/// first byte of `http_request` is an underscore.
pub open spec fn heap_after(memory: Seq<u8>, name_src: int, method: Seq<u8>) -> Seq<u8> {
    if method == utf8("http_request"@) {
        memory.update(name_src, 95u8)
    } else {
        memory
    }
}

/// The parts of the sequence that redirects a call.
pub open spec fn redirect_mid(p: Redirect) -> Seq<InstrView> {
    seq![
        local_get(p.is_rename()),
        crate::ir::if_else(p.rename_seq(), p.keep_seq()),
        width_const(p.wasm64, 0),
        width_const(p.wasm64, p.target.len() as usize),
    ]
}

/// Where the parts of the redirecting sequence stand.
proof fn lemma_redirect_parts(p: Redirect)
    requires
        7 + p.callees.len() + p.methods.len() <= usize::MAX,
    ensures
        ({
            let body = p.body();
            let s = p.redirect_seq() as int;
            let n = p.target.len();
            let t = n as int;
            &&& holds(body, s, 0, p.backups(n))
            &&& holds(body, s, 3 * t, p.writes(n))
            &&& holds(body, s, 6 * t, redirect_mid(p))
            &&& holds(body, s, 6 * t + 4, Seq::new(6, |k: int| local_get(p.arg(2 + k))))
            &&& body[s].instrs[6 * t + 10].instr == crate::ir::call(p.call_new)
            &&& holds(body, s, 6 * t + 11, p.restores(n))
            &&& body[s].instrs.len() == 9 * t + 11
            &&& body[s].ty == InstrSeqType::Simple(None)
        }),
{
    let body = p.body();
    let s = p.redirect_seq() as int;
    let n = p.target.len();
    let t = n as int;
    lemma_body_layout(p);
    lemma_backups_len(p, n);
    let gets = Seq::new(6, |k: int| local_get(p.arg(2 + k)));
    let c = seq![crate::ir::call(p.call_new)];
    let code = p.redirect_code();
    assert(p.call_code(2) =~= gets + c);
    assert(code =~= p.backups(n) + (p.writes(n) + (redirect_mid(p) + (gets + (c + p.restores(
        n,
    ))))));
    assert(holds(body, s, 0, code)) by {
        assert forall|j: int| 0 <= j < code.len() implies (#[trigger] body[s].instrs[0 + j]).instr
            == code[j] by {}
    }
    lemma_holds_prefix(
        body,
        s,
        0,
        p.backups(n),
        p.writes(n) + (redirect_mid(p) + (gets + (c + p.restores(n)))),
    );
    lemma_holds_prefix(
        body,
        s,
        3 * t,
        p.writes(n),
        redirect_mid(p) + (gets + (c + p.restores(n))),
    );
    lemma_holds_prefix(body, s, 6 * t, redirect_mid(p), gets + (c + p.restores(n)));
    lemma_holds_prefix(body, s, 6 * t + 4, gets, c + p.restores(n));
    lemma_holds_prefix(body, s, 6 * t + 10, c, p.restores(n));
    assert(body[s].instrs[6 * t + 10 + 0].instr == c[0]);
}

/// The renaming: with the flag set, an underscore goes over the first byte
/// of the method name.
#[verifier::rlimit(60)]
proof fn lemma_rename(p: Redirect, sys: System, base: Machine, flag: u32, fuel: nat)
    requires
        7 + p.callees.len() + p.methods.len() <= usize::MAX,
        p.memory == 0,
        base.locals.dom().contains(p.is_rename()),
        base.locals[p.is_rename()] == Val::I32(flag),
        base.locals.dom().contains(p.arg(2)),
        is_word(p.wasm64, base.locals[p.arg(2)]),
        number(base.locals[p.arg(2)]) < base.memory.len(),
        fuel >= 8,
    ensures
        ({
            let s = p.redirect_seq() as int;
            let at = 6 * (p.target.len() as int);
            let after = if flag != 0 {
                Machine {
                    memory: base.memory.update(number(base.locals[p.arg(2)]), 95u8),
                    ..base
                }
            } else {
                base
            };
            run(p.body(), sys, s, at, base, fuel) == run(
                p.body(),
                sys,
                s,
                at + 2,
                after,
                (fuel - 2) as nat,
            )
        }),
{
    let body = p.body();
    let s = p.redirect_seq() as int;
    let at = 6 * (p.target.len() as int);
    lemma_redirect_parts(p);
    lemma_body_layout(p);
    let mid = redirect_mid(p);
    assert(body[s].instrs[at + 0].instr == mid[0]);
    assert(body[s].instrs[at + 1].instr == mid[1]);
    let m1 = Machine { stack: base.stack.push(Val::I32(flag)), ..base };
    assert(below(m1.stack, 1) =~= base.stack);
    lemma_plain(body, sys, s, at, base, fuel, m1);
    let inner = if flag != 0 {
        p.rename_seq()
    } else {
        p.keep_seq()
    };
    let entered = Machine { stack: base.stack, ..m1 };
    assert(entered == base);
    reveal_with_fuel(run, 2);
    if flag != 0 {
        let r = p.rename_code();
        let rs = p.rename_seq() as int;
        assert(body[rs].instrs.len() == 3);
        assert(body[rs].instrs[0].instr == r[0]);
        assert(body[rs].instrs[1].instr == r[1]);
        assert(body[rs].instrs[2].instr == r[2]);
        let src = number(base.locals[p.arg(2)]);
        assert(base.locals[p.arg(2)] == word(p.wasm64, src));
        let r1 = Machine { stack: base.stack.push(word(p.wasm64, src)), ..base };
        let r2 = Machine { stack: r1.stack.push(word(p.wasm64, 95)), ..base };
        let r3 = Machine { memory: base.memory.update(src, 95u8), ..base };
        assert(below(r2.stack, 2) =~= base.stack);
        lemma_low_byte(95u8);
        lemma_plain(body, sys, rs, 0, base, (fuel - 2) as nat, r1);
        lemma_plain(body, sys, rs, 1, r1, (fuel - 3) as nat, r2);
        lemma_plain(body, sys, rs, 2, r2, (fuel - 4) as nat, r3);
        assert(run(body, sys, rs, 0, base, (fuel - 2) as nat) == Outcome::Next(r3));
        assert(Machine { stack: base.stack, ..r3 } == r3);
    } else {
        let ks = p.keep_seq() as int;
        assert(body[ks].instrs.len() == 0);
        assert(run(body, sys, ks, 0, base, (fuel - 2) as nat) == Outcome::Next(base));
    }
}

/// What the redirecting sequence needs of the machine: the wrapper works on
/// memory 0, the arguments, of the width of its addresses, and the flag are
/// in the locals,
/// the target fits in the heap before the method name, and the name is not
/// empty.
pub open spec fn can_redirect(p: Redirect, d: Machine, flag: u32) -> bool {
    &&& p.memory == 0
    &&& p.first_local + 10 + p.target.len() <= usize::MAX
    &&& 7 + p.callees.len() + p.methods.len() <= usize::MAX
    &&& forall|k: int|
        0 <= k < 8 ==> d.locals.dom().contains(#[trigger] p.arg(k)) && is_word(p.wasm64, d.locals[p.arg(k)])
    &&& d.locals.dom().contains(p.is_rename())
    &&& d.locals[p.is_rename()] == Val::I32(flag)
    &&& p.target.len() < 0x8000_0000
    &&& d.memory.len() <= reach(p.wasm64)
    &&& p.target.len() <= number(d.locals[p.arg(2)])
    &&& number(d.locals[p.arg(3)]) >= 1
    &&& number(d.locals[p.arg(2)]) + number(d.locals[p.arg(3)]) <= d.memory.len()
}

/// The heap while the call is sent to the backend: the target at its start,
/// and the method renamed if the flag says so.
pub open spec fn heap_at_call(p: Redirect, d: Machine, flag: u32) -> Seq<u8> {
    let with_target = overwritten(d.memory, p.target, p.target.len());
    if flag != 0 {
        with_target.update(number(d.locals[p.arg(2)]), 95u8)
    } else {
        with_target
    }
}

/// The first part of the redirecting sequence: the start of the heap is
/// saved, the target is written there, and the method is renamed if the
/// flag says so.
proof fn lemma_redirect_prepare(p: Redirect, sys: System, d: Machine, flag: u32, fuel: nat)
    requires
        can_redirect(p, d, flag),
        fuel >= 6 * p.target.len() + 8,
    ensures
        ({
            let n = p.target.len();
            let t = n as int;
            run(p.body(), sys, p.redirect_seq() as int, 0, d, fuel) == run(
                p.body(),
                sys,
                p.redirect_seq() as int,
                6 * t + 2,
                Machine {
                    locals: backed(d.locals, p, d.memory, n),
                    memory: heap_at_call(p, d, flag),
                    ..d
                },
                (fuel - 6 * t - 2) as nat,
            )
        }),
{
    let body = p.body();
    let s = p.redirect_seq() as int;
    let n = p.target.len();
    let t = n as int;
    lemma_redirect_parts(p);
    lemma_backups(body, sys, s, 0, p, n, d, fuel);
    let b = Machine { locals: backed(d.locals, p, d.memory, n), ..d };
    lemma_writes(body, sys, s, 3 * t, p, n, b, (fuel - 3 * t) as nat);
    let w = Machine { memory: overwritten(d.memory, p.target, n), ..b };
    lemma_backed(d.locals, p, d.memory, n);
    lemma_overwritten(d.memory, p.target, n);
    assert(w.locals.dom().contains(p.is_rename()) && w.locals[p.is_rename()] == Val::I32(flag))
        by {
        assert(d.locals.dom().contains(p.is_rename()));
    }
    assert(w.locals.dom().contains(p.arg(2)) && w.locals[p.arg(2)] == d.locals[p.arg(2)]) by {
        assert(d.locals.dom().contains(p.arg(2)));
    }
    lemma_rename(p, sys, w, flag, (fuel - 6 * t) as nat);
}

/// The second part: the call goes to the target with the method as it now
/// is in the heap and the other arguments as they came.
proof fn lemma_redirect_call(p: Redirect, sys: System, r: Machine, fuel: nat)
    requires
        p.memory == 0,
        7 + p.callees.len() + p.methods.len() <= usize::MAX,
        p.target.len() < 0x8000_0000,
        sys.wf(),
        sys.call_new == p.call_new,
        forall|k: int|
            0 <= k < 8 ==> r.locals.dom().contains(#[trigger] p.arg(k)) && is_word(p.wasm64, r.locals[p.arg(k)]),
        p.target.len() <= r.memory.len(),
        number(r.locals[p.arg(2)]) + number(r.locals[p.arg(3)]) <= r.memory.len(),
        fuel >= 16,
    ensures
        ({
            let t = p.target.len() as int;
            let name_src = number(r.locals[p.arg(2)]);
            let name_size = number(r.locals[p.arg(3)]);
            run(p.body(), sys, p.redirect_seq() as int, 6 * t + 2, r, fuel) == run(
                p.body(),
                sys,
                p.redirect_seq() as int,
                6 * t + 11,
                Machine {
                    calls: r.calls.push(
                        CallNew {
                            callee: r.memory.subrange(0, t),
                            method: r.memory.subrange(name_src, name_src + name_size),
                            rest: args_from(p, r, 4, 4),
                        },
                    ),
                    ..r
                },
                (fuel - 9) as nat,
            )
        }),
{
    let body = p.body();
    let s = p.redirect_seq() as int;
    let t = p.target.len() as int;
    lemma_redirect_parts(p);
    let mid = redirect_mid(p);
    let at = 6 * t;
    assert(body[s].instrs[at + 2].instr == mid[2]);
    assert(body[s].instrs[at + 3].instr == mid[3]);
    let m1 = Machine { stack: r.stack.push(word(p.wasm64, 0)), ..r };
    let m2 = Machine { stack: m1.stack.push(word(p.wasm64, t as int)), ..r };
    lemma_plain(body, sys, s, at + 2, r, fuel, m1);
    lemma_plain(body, sys, s, at + 3, m1, (fuel - 1) as nat, m2);
    lemma_gets(body, sys, s, at + 4, p, 2, 6, m2, (fuel - 2) as nat);
    let m3 = Machine { stack: m2.stack + args_from(p, r, 2, 6), ..r };
    assert(args_from(p, m2, 2, 6) =~= args_from(p, r, 2, 6));
    let name_src = number(r.locals[p.arg(2)]);
    let name_size = number(r.locals[p.arg(3)]);
    let last = Machine {
        calls: r.calls.push(
            CallNew {
                callee: r.memory.subrange(0, t),
                method: r.memory.subrange(name_src, name_src + name_size),
                rest: args_from(p, r, 4, 4),
            },
        ),
        ..r
    };
    assert(system_call(sys, p.call_new, m3) == Outcome::Next(last)) by {
        assert(top(m3.stack, 7) == word(p.wasm64, 0));
        assert(top(m3.stack, 6) == word(p.wasm64, t as int));
        assert(top(m3.stack, 5) == r.locals[p.arg(2)]);
        assert(top(m3.stack, 4) == r.locals[p.arg(3)]);
        assert(below(m3.stack, 8) =~= r.stack);
        assert(m3.stack.subrange(m3.stack.len() - 4, m3.stack.len() as int) =~= args_from(
            p,
            r,
            4,
            4,
        ));
    }
    lemma_plain(body, sys, s, at + 10, m3, (fuel - 8) as nat, last);
}

/// The whole redirecting sequence: the call goes to the target, and the
/// heap is afterwards as it was but for the renamed method.
#[verifier::rlimit(60)]
proof fn lemma_redirect_run(p: Redirect, sys: System, d: Machine, flag: u32, fuel: nat)
    requires
        can_redirect(p, d, flag),
        sys.wf(),
        sys.call_new == p.call_new,
        p.target.len() <= d.memory.len(),
        fuel >= 9 * p.target.len() + 24,
    ensures
        ({
            let name_src = number(d.locals[p.arg(2)]);
            let name_size = number(d.locals[p.arg(3)]);
            let method = d.memory.subrange(name_src, name_src + name_size);
            run(p.body(), sys, p.redirect_seq() as int, 0, d, fuel) == Outcome::Next(
                Machine {
                    locals: backed(d.locals, p, d.memory, p.target.len()),
                    memory: if flag != 0 {
                        d.memory.update(name_src, 95u8)
                    } else {
                        d.memory
                    },
                    calls: d.calls.push(
                        CallNew {
                            callee: p.target,
                            method: if flag != 0 {
                                method.update(0, 95u8)
                            } else {
                                method
                            },
                            rest: args_from(p, d, 4, 4),
                        },
                    ),
                    ..d
                },
            )
        }),
{
    let body = p.body();
    let s = p.redirect_seq() as int;
    let n = p.target.len();
    let t = n as int;
    let name_src = number(d.locals[p.arg(2)]);
    let name_size = number(d.locals[p.arg(3)]);
    let method = d.memory.subrange(name_src, name_src + name_size);
    lemma_redirect_parts(p);
    lemma_redirect_prepare(p, sys, d, flag, fuel);
    lemma_backed(d.locals, p, d.memory, n);
    lemma_overwritten(d.memory, p.target, n);
    let r = Machine {
        locals: backed(d.locals, p, d.memory, n),
        memory: heap_at_call(p, d, flag),
        ..d
    };
    assert forall|k: int| 0 <= k < 8 implies r.locals.dom().contains(#[trigger] p.arg(k))
        && r.locals[p.arg(k)] == d.locals[p.arg(k)] by {
        assert(d.locals.dom().contains(p.arg(k)));
    }
    lemma_redirect_call(p, sys, r, (fuel - 6 * t - 2) as nat);
    assert(args_from(p, r, 4, 4) =~= args_from(p, d, 4, 4));
    let sent = CallNew {
        callee: p.target,
        method: if flag != 0 {
            method.update(0, 95u8)
        } else {
            method
        },
        rest: args_from(p, d, 4, 4),
    };
    assert(r.memory.subrange(0, t) =~= p.target);
    assert(r.memory.subrange(name_src, name_src + name_size) =~= sent.method);
    let c = Machine { calls: d.calls.push(sent), ..r };
    lemma_restores(body, sys, s, 6 * t + 11, p, n, c, d.memory, (fuel - 6 * t - 11) as nat);
    lemma_overwritten(r.memory, d.memory, n);
    let f = Machine { memory: overwritten(r.memory, d.memory, n), ..c };
    let with_target = overwritten(d.memory, p.target, n);
    let left = if flag != 0 {
        d.memory.update(name_src, 95u8)
    } else {
        d.memory
    };
    assert(r.memory.len() == d.memory.len());
    assert(f.memory.len() == d.memory.len());
    assert forall|i: int| 0 <= i < d.memory.len() implies f.memory[i] == left[i] by {
        if i >= n {
            assert(f.memory[i] == r.memory[i]);
            assert(with_target[i] == d.memory[i]);
        } else {
            assert(f.memory[i] == d.memory[i]);
        }
    }
    assert(f.memory =~= left);
    assert(run(body, sys, s, 9 * t + 11, f, (fuel - 9 * t - 11) as nat) == Outcome::Next(f));
}

/// Redirection and renaming: a watched call goes to the target with the
/// other arguments as they came; the method `http_request` goes out as
/// `_ttp_request` and has the underscore in the heap afterwards, and every
/// other byte of the heap is as it was. The name must lie behind the bytes
/// at the start of the heap that the target takes meanwhile. This holds of
/// a wrapper of either width.
#[verifier::rlimit(60)]
pub proof fn lemma_redirected(p: Redirect, sys: System, m: Machine, fuel: nat)
    requires
        at_call(p, m),
        sys.wf(),
        sys.call_new == p.call_new,
        watched(p, m),
        p.target.len() < 0x8000_0000,
        p.target.len() <= number(m.locals[p.arg(2)]),
        number(m.locals[p.arg(3)]) >= 1,
        fuel >= enough(p),
    ensures
        run(p.body(), sys, 0, 0, m, fuel) matches Outcome::Next(out) && out.calls
            == m.calls.push(
            CallNew {
                callee: p.target,
                method: renamed(method_text(p, m)),
                rest: args_from(p, m, 4, 4),
            },
        ) && out.memory == heap_after(
            m.memory,
            number(m.locals[p.arg(2)]),
            method_text(p, m),
        ) && out.stack == m.stack && out.globals == m.globals && out.stable_pages
            == m.stable_pages && out.reply == m.reply,
{
    let body = p.body();
    lemma_body_layout(p);
    lemma_checks(p, sys, m, (fuel - 1) as nat);
    lemma_match_from(p.callees, callee_text(p, m), 0);
    lemma_match_from(p.methods, method_text(p, m), 0);
    let j = match_from(p.methods, method_text(p, m), 0)->0;
    let method = method_text(p, m);
    assert(p.methods[j] == method);
    let flag: u32 = if method == utf8("http_request"@) {
        1
    } else {
        0
    };
    let done = Machine { locals: checked(p, m), ..m };
    assert(done.locals == m.locals.insert(p.no_redirect(), Val::I32(0)).insert(
        p.is_rename(),
        Val::I32(flag),
    ).insert(p.no_redirect(), Val::I32(0)));
    let entry = p.entry_code();
    assert(body[0].instrs[0].instr == entry[0]);
    assert(body[0].instrs[1].instr == entry[1]);
    assert(body[0].instrs[2].instr == entry[2]);
    assert(body[0].instrs.len() == 3);
    assert(Machine { stack: m.stack, ..done } == done);
    reveal_with_fuel(run, 3);
    assert(run(body, sys, 0, 0, m, fuel) == run(body, sys, 0, 1, done, (fuel - 1) as nat));
    let m1 = Machine { stack: done.stack.push(Val::I32(0)), ..done };
    assert(below(m1.stack, 1) =~= m.stack);
    lemma_plain(body, sys, 0, 1, done, (fuel - 1) as nat, m1);
    assert forall|k: int| 0 <= k < 8 implies done.locals.dom().contains(#[trigger] p.arg(k))
        && done.locals[p.arg(k)] == m.locals[p.arg(k)] by {}
    assert(can_redirect(p, done, flag));
    lemma_redirect_parts(p);
    lemma_redirect_run(p, sys, done, flag, (fuel - 3) as nat);
    assert(args_from(p, done, 4, 4) =~= args_from(p, m, 4, 4));
}

} // verus!
