//! What a traced function logs when it runs.

use vstd::prelude::*;
use crate::instrumentation::{can_trace, redirect_instrs, trace_code, traced};
use crate::ir::{
    block, call, global_set, i32_const, FunctionId, GlobalId, InstrSeqId, InstrView,
};
use crate::machine::{
    below, holds, lemma_holds_prefix, leave, run, step, top, Machine, Outcome, System, Val,
};
use crate::module::{FuncTypeView, InstrSeqView, LocalFunctionView};

verus! {

/// The log of `m` is the beginning of the log that `o` ends with.
pub open spec fn keeps_log(m: Machine, o: Outcome) -> bool {
    match o {
        Outcome::Next(x) | Outcome::Branch(_, x) | Outcome::Return(x) => m.log.is_prefix_of(x.log),
        Outcome::Stuck => true,
    }
}

/// What the instruction at `pc` of sequence `seq` does, with what it
/// encloses.
pub open spec fn head(
    body: Seq<InstrSeqView>,
    sys: System,
    seq: int,
    pc: int,
    m: Machine,
    fuel: nat,
) -> Outcome
    recommends
        fuel > 0,
        0 <= seq < body.len(),
        0 <= pc < body[seq].instrs.len(),
{
    match body[seq].instrs[pc].instr {
        InstrView::Block { seq: inner } => if inner < body.len() {
            leave(
                inner,
                body[inner as int].ty,
                m.stack,
                run(body, sys, inner as int, 0, m, (fuel - 1) as nat),
            )
        } else {
            Outcome::Stuck
        },
        InstrView::IfElse { consequent, alternative } => if m.stack.len() >= 1 && top(
            m.stack,
            0,
        ) is I32 {
            let inner = if top(m.stack, 0)->I32_0 != 0 {
                consequent
            } else {
                alternative
            };
            if inner < body.len() {
                leave(
                    inner,
                    body[inner as int].ty,
                    below(m.stack, 1),
                    run(
                        body,
                        sys,
                        inner as int,
                        0,
                        Machine { stack: below(m.stack, 1), ..m },
                        (fuel - 1) as nat,
                    ),
                )
            } else {
                Outcome::Stuck
            }
        } else {
            Outcome::Stuck
        },
        InstrView::Br { block } => Outcome::Branch(block, m),
        InstrView::BrIf { block } => if m.stack.len() >= 1 && top(m.stack, 0) is I32 {
            let rest = Machine { stack: below(m.stack, 1), ..m };
            if top(m.stack, 0)->I32_0 != 0 {
                Outcome::Branch(block, rest)
            } else {
                Outcome::Next(rest)
            }
        } else {
            Outcome::Stuck
        },
        InstrView::Return => Outcome::Return(m),
        other => step(sys, other, m),
    }
}

/// Running goes from the head to the rest of the sequence.
pub proof fn lemma_head(
    body: Seq<InstrSeqView>,
    sys: System,
    seq: int,
    pc: int,
    m: Machine,
    fuel: nat,
)
    requires
        fuel > 0,
        0 <= seq < body.len(),
        0 <= pc < body[seq].instrs.len(),
    ensures
        run(body, sys, seq, pc, m, fuel) == match head(body, sys, seq, pc, m, fuel) {
            Outcome::Next(next) => run(body, sys, seq, pc + 1, next, (fuel - 1) as nat),
            other => other,
        },
{
}

/// Nothing that runs takes anything out of the log.
pub proof fn lemma_log_grows(
    body: Seq<InstrSeqView>,
    sys: System,
    seq: int,
    pc: int,
    m: Machine,
    fuel: nat,
)
    ensures
        keeps_log(m, run(body, sys, seq, pc, m, fuel)),
    decreases fuel,
{
    if fuel == 0 || seq < 0 || seq >= body.len() || pc < 0 {
    } else if pc >= body[seq].instrs.len() {
    } else {
        lemma_head(body, sys, seq, pc, m, fuel);
        let first = head(body, sys, seq, pc, m, fuel);
        match body[seq].instrs[pc].instr {
            InstrView::Block { seq: inner } => {
                if inner < body.len() {
                    lemma_log_grows(body, sys, inner as int, 0, m, (fuel - 1) as nat);
                }
            },
            InstrView::IfElse { consequent, alternative } => {
                if m.stack.len() >= 1 && top(m.stack, 0) is I32 {
                    let inner = if top(m.stack, 0)->I32_0 != 0 {
                        consequent
                    } else {
                        alternative
                    };
                    if inner < body.len() {
                        lemma_log_grows(
                            body,
                            sys,
                            inner as int,
                            0,
                            Machine { stack: below(m.stack, 1), ..m },
                            (fuel - 1) as nat,
                        );
                    }
                }
            },
            _ => {},
        }
        assert(keeps_log(m, first));
        match first {
            Outcome::Next(next) => {
                lemma_log_grows(body, sys, seq, pc + 1, next, (fuel - 1) as nat);
            },
            _ => {},
        }
    }
}

/// No sequence of the body holds a return.
pub open spec fn returns_nowhere(body: Seq<InstrSeqView>) -> bool {
    forall|s: int, k: int|
        0 <= s < body.len() && 0 <= k < body[s].instrs.len() ==> !(
        #[trigger] body[s].instrs[k].instr is Return)
}

/// A body without a return is not left by one.
pub proof fn lemma_no_return(
    body: Seq<InstrSeqView>,
    sys: System,
    seq: int,
    pc: int,
    m: Machine,
    fuel: nat,
)
    requires
        returns_nowhere(body),
    ensures
        !(run(body, sys, seq, pc, m, fuel) is Return),
    decreases fuel,
{
    if fuel == 0 || seq < 0 || seq >= body.len() || pc < 0 {
    } else if pc >= body[seq].instrs.len() {
    } else {
        lemma_head(body, sys, seq, pc, m, fuel);
        let first = head(body, sys, seq, pc, m, fuel);
        assert(!(body[seq].instrs[pc].instr is Return));
        match body[seq].instrs[pc].instr {
            InstrView::Block { seq: inner } => {
                if inner < body.len() {
                    lemma_no_return(body, sys, inner as int, 0, m, (fuel - 1) as nat);
                }
            },
            InstrView::IfElse { consequent, alternative } => {
                if m.stack.len() >= 1 && top(m.stack, 0) is I32 {
                    let inner = if top(m.stack, 0)->I32_0 != 0 {
                        consequent
                    } else {
                        alternative
                    };
                    if inner < body.len() {
                        lemma_no_return(
                            body,
                            sys,
                            inner as int,
                            0,
                            Machine { stack: below(m.stack, 1), ..m },
                            (fuel - 1) as nat,
                        );
                    }
                }
            },
            _ => {},
        }
        assert(!(first is Return));
        match first {
            Outcome::Next(next) => {
                lemma_no_return(body, sys, seq, pc + 1, next, (fuel - 1) as nat);
            },
            _ => {},
        }
    }
}

/// A traced function holds no return.
pub proof fn lemma_traced_returns_nowhere(
    types: Seq<FuncTypeView>,
    printer: FunctionId,
    id: FunctionId,
    f: LocalFunctionView,
    is_partial_tracing: bool,
    is_init: GlobalId,
)
    requires
        can_trace(types, id, f),
    ensures
        returns_nowhere(traced(types, printer, id, f, is_partial_tracing, is_init).seqs),
{
    let body = traced(types, printer, id, f, is_partial_tracing, is_init).seqs;
    let start = f.entry;
    let inner = f.seqs.len() as usize;
    let entry = trace_code(id, printer, inner, is_partial_tracing, is_init);
    assert forall|s: int, k: int| 0 <= s < body.len() && 0 <= k < body[s].instrs.len() implies !(
    #[trigger] body[s].instrs[k].instr is Return) by {
        if s == start {
            assert(body[s].instrs[k].instr == entry[k]);
        } else if s == inner {
            assert(body[s].instrs == redirect_instrs(f.seqs[start as int].instrs, start, inner));
        } else {
            assert(body[s].instrs == redirect_instrs(f.seqs[s].instrs, start, inner));
        }
    }
}

/// The number of a function as the value that is logged when the function is
/// entered.
pub open spec fn entered(id: FunctionId) -> Val {
    Val::I32((id as i32) as u32)
}

/// The negative of the number of a function as the value that is logged when
/// the function is left.
pub open spec fn exited(id: FunctionId) -> Val {
    Val::I32(((-(id as i32)) as i32) as u32)
}

/// The middle of the entry sequence of a traced function: the entry is
/// logged, the body runs, and the exit is logged.
pub open spec fn frame_code(id: FunctionId, printer: FunctionId, inner: InstrSeqId) -> Seq<
    InstrView,
> {
    seq![
        i32_const(id as i32),
        call(printer),
        block(inner),
        i32_const((-(id as i32)) as i32),
        call(printer),
    ]
}

/// The machine has logged the entry and the exit of function `id` behind
/// what the log of `m` holds, and whatever the body logged between them.
pub open spec fn framed(m: Machine, id: FunctionId, out: Machine) -> bool {
    &&& out.log.len() >= m.log.len() + 2
    &&& m.log.is_prefix_of(out.log)
    &&& out.log[m.log.len() as int] == entered(id)
    &&& out.log.last() == exited(id)
}

/// The machine behind the frame, where running the frame comes to its end.
pub open spec fn behind_frame(
    body: Seq<InstrSeqView>,
    sys: System,
    inner: InstrSeqId,
    id: FunctionId,
    m: Machine,
    fuel: nat,
) -> Machine {
    let logged = Machine { log: m.log.push(entered(id)), ..m };
    let within = leave(
        inner,
        body[inner as int].ty,
        m.stack,
        run(body, sys, inner as int, 0, logged, (fuel - 3) as nat),
    )->Next_0;
    Machine { log: within.log.push(exited(id)), ..within }
}

/// Running the frame: where it comes to its end, the entry and the exit are
/// logged around what the body logs.
#[verifier::rlimit(60)]
proof fn lemma_frame(
    body: Seq<InstrSeqView>,
    sys: System,
    s: int,
    at: int,
    inner: InstrSeqId,
    id: FunctionId,
    m: Machine,
    fuel: nat,
)
    requires
        holds(body, s, at, frame_code(id, sys.printer, inner)),
        inner < body.len(),
        sys.wf(),
        run(body, sys, s, at, m, fuel) is Next,
    ensures
        fuel >= 5,
        run(body, sys, s, at, m, fuel) == run(
            body,
            sys,
            s,
            at + 5,
            behind_frame(body, sys, inner, id, m, fuel),
            (fuel - 5) as nat,
        ),
        framed(m, id, behind_frame(body, sys, inner, id, m, fuel)),
{
    let code = frame_code(id, sys.printer, inner);
    assert(body[s].instrs[at + 0].instr == code[0]);
    assert(body[s].instrs[at + 1].instr == code[1]);
    assert(body[s].instrs[at + 2].instr == code[2]);
    assert(body[s].instrs[at + 3].instr == code[3]);
    assert(body[s].instrs[at + 4].instr == code[4]);
    let m1 = Machine { stack: m.stack.push(entered(id)), ..m };
    let m2 = Machine { log: m.log.push(entered(id)), ..m };
    assert(below(m1.stack, 1) =~= m.stack);
    lemma_head(body, sys, s, at, m, fuel);
    assert(head(body, sys, s, at, m, fuel) == Outcome::Next(m1));
    lemma_head(body, sys, s, at + 1, m1, (fuel - 1) as nat);
    assert(head(body, sys, s, at + 1, m1, (fuel - 1) as nat) == Outcome::Next(m2));
    lemma_head(body, sys, s, at + 2, m2, (fuel - 2) as nat);
    let within = run(body, sys, inner as int, 0, m2, (fuel - 3) as nat);
    lemma_log_grows(body, sys, inner as int, 0, m2, (fuel - 3) as nat);
    let third = head(body, sys, s, at + 2, m2, (fuel - 2) as nat);
    assert(third == leave(inner, body[inner as int].ty, m2.stack, within));
    assert(third is Next);
    let m3 = third->Next_0;
    assert(m2.log.is_prefix_of(m3.log));
    let m4 = Machine { stack: m3.stack.push(exited(id)), ..m3 };
    let m5 = Machine { log: m3.log.push(exited(id)), ..m3 };
    assert(below(m4.stack, 1) =~= m3.stack);
    lemma_head(body, sys, s, at + 3, m3, (fuel - 3) as nat);
    assert(head(body, sys, s, at + 3, m3, (fuel - 3) as nat) == Outcome::Next(m4));
    lemma_head(body, sys, s, at + 4, m4, (fuel - 4) as nat);
    assert(head(body, sys, s, at + 4, m4, (fuel - 4) as nat) == Outcome::Next(m5));
    assert(m5 == behind_frame(body, sys, inner, id, m, fuel));
    assert(m.log.is_prefix_of(m2.log));
    assert(m2.log[m.log.len() as int] == entered(id));
    assert(m3.log[m.log.len() as int] == m2.log[m.log.len() as int]);
}

/// The log of a traced function: where the function runs to its end, it has
/// logged its number first and the negative of its number last, and what its
/// body logged stands between the two, behind what the log held before.
/// The function is never left by a return, which would pass the second
/// entry by. This is stated of the runs that the machine has rules for: a
/// body that holds a loop, a branch table, or a call of another function of
/// the module does not run to its end there, and of such a body this says
/// nothing.
#[verifier::rlimit(60)]
pub proof fn lemma_trace_frames(
    types: Seq<FuncTypeView>,
    id: FunctionId,
    f: LocalFunctionView,
    is_partial_tracing: bool,
    is_init: GlobalId,
    sys: System,
    m: Machine,
    fuel: nat,
)
    requires
        can_trace(types, id, f),
        sys.wf(),
    ensures
        ({
            let body = traced(types, sys.printer, id, f, is_partial_tracing, is_init).seqs;
            let end = run(body, sys, f.entry as int, 0, m, fuel);
            &&& !(end is Return)
            &&& end matches Outcome::Next(out) ==> framed(m, id, out)
        }),
{
    let printer = sys.printer;
    let body = traced(types, printer, id, f, is_partial_tracing, is_init).seqs;
    let s = f.entry as int;
    let inner = f.seqs.len() as usize;
    let code = trace_code(id, printer, inner, is_partial_tracing, is_init);
    let end = run(body, sys, s, 0, m, fuel);
    lemma_traced_returns_nowhere(types, printer, id, f, is_partial_tracing, is_init);
    lemma_no_return(body, sys, s, 0, m, fuel);
    assert(body[s].instrs.len() == code.len());
    assert forall|k: int| 0 <= k < code.len() implies (#[trigger] body[s].instrs[k]).instr
        == code[k] by {}
    let frame = frame_code(id, printer, inner);
    if end is Next {
        if is_partial_tracing {
            let on = seq![i32_const(0), global_set(is_init)];
            let off = seq![i32_const(1), global_set(is_init)];
            assert(code =~= on + (frame + off));
            assert(holds(body, s, 0, on + (frame + off)));
            lemma_holds_prefix(body, s, 0, on, frame + off);
            lemma_holds_prefix(body, s, 2, frame, off);
            assert(body[s].instrs[0int + 0].instr == on[0]);
            assert(body[s].instrs[0int + 1].instr == on[1]);
            assert(body[s].instrs[7int + 0].instr == off[0]);
            assert(body[s].instrs[7int + 1].instr == off[1]);
            let a = Machine { stack: m.stack.push(Val::I32(0)), ..m };
            let m0 = Machine { globals: m.globals.insert(is_init, Val::I32(0)), ..m };
            lemma_head(body, sys, s, 0, m, fuel);
            assert(head(body, sys, s, 0, m, fuel) == Outcome::Next(a));
            lemma_head(body, sys, s, 1, a, (fuel - 1) as nat);
            assert(below(a.stack, 1) =~= m.stack);
            assert(head(body, sys, s, 1, a, (fuel - 1) as nat) == Outcome::Next(m0));
            lemma_frame(body, sys, s, 2, inner, id, m0, (fuel - 2) as nat);
            let m5 = behind_frame(body, sys, inner, id, m0, (fuel - 2) as nat);
            let b = Machine { stack: m5.stack.push(Val::I32(1)), ..m5 };
            lemma_head(body, sys, s, 7, m5, (fuel - 7) as nat);
            assert(head(body, sys, s, 7, m5, (fuel - 7) as nat) == Outcome::Next(b));
            lemma_head(body, sys, s, 8, b, (fuel - 8) as nat);
            assert(end->Next_0.log == m5.log);
        } else {
            assert(code =~= frame);
            assert(holds(body, s, 0, frame));
            lemma_frame(body, sys, s, 0, inner, id, m, fuel);
        }
    }
}

} // verus!
