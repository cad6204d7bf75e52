//! What the charges of metering do to the counter when they run.

use vstd::prelude::*;
use crate::instrumentation::Metering;
use crate::ir::{
    binop, global_get, global_set, i32_const, unop, BinaryOp, InstrView, UnaryOp,
};
use crate::machine::{below, lemma_plain, run, Machine, System, Val};
use crate::module::{InstrSeqView, LocalFunctionView, LocatedView};

verus! {

/// The instructions `code` stand in sequence `s` of `body` from position
/// `pc` on, whatever their places in the source are.
pub open spec fn stands(body: Seq<InstrSeqView>, s: int, pc: int, code: Seq<LocatedView>) -> bool {
    &&& 0 <= s < body.len()
    &&& 0 <= pc
    &&& pc + code.len() <= body[s].instrs.len()
    &&& forall|j: int|
        0 <= j < code.len() ==> (#[trigger] body[s].instrs[pc + j]).instr == code[j].instr
}

/// By how much a charge counts: by one, or under partial tracing by the
/// flag `is_init` with its lowest bit turned, which is one while tracing is
/// on and the flag is 0.
pub open spec fn factor(t: Metering, m: Machine) -> u32 {
    if t.is_partial_tracing {
        m.globals[t.vars.is_init]->I32_0 ^ 1
    } else {
        1
    }
}

/// The counter `counter` after a charge of `cost` that counts by `by`, in
/// the arithmetic of 64 bits.
pub open spec fn charged(counter: u64, cost: int, by: u32) -> u64 {
    ((counter + (cost * by) % 0x1_0000_0000_0000_0000) % 0x1_0000_0000_0000_0000) as u64
}

/// What an instruction adds to its window is never negative, and it is
/// positive unless the instruction is a block or a loop: so every window
/// that holds another instruction has a charge.
pub proof fn lemma_cost_positive(t: Metering, f: LocalFunctionView, i: InstrView)
    requires
        forall|id: usize| t.table.dom().contains(id) ==> (#[trigger] t.table[id]).0 >= 1,
    ensures
        t.added_cost(f, i) >= 0,
        !(i is Block || i is Loop) ==> t.added_cost(f, i) >= 1,
        t.added_cost(f, i) > 0 ==> t.charge(t.added_cost(f, i)).len() > 0,
{
}

/// A charge adds the cost of its window to the counter and changes nothing
/// else. The sum is taken in 64 bits: while it fits, the counter is greater
/// by the cost times the factor, so it has not decreased, and it has grown
/// wherever the factor is not 0.
#[verifier::rlimit(60)]
pub proof fn lemma_charge_adds(
    t: Metering,
    cost: int,
    body: Seq<InstrSeqView>,
    sys: System,
    s: int,
    pc: int,
    m: Machine,
    fuel: nat,
)
    requires
        0 < cost <= i64::MAX,
        stands(body, s, pc, t.charge(cost)),
        m.globals.dom().contains(t.vars.total_counter),
        m.globals[t.vars.total_counter] is I64,
        t.is_partial_tracing ==> m.globals.dom().contains(t.vars.is_init)
            && m.globals[t.vars.is_init] is I32,
        fuel >= 9,
    ensures
        ({
            let counter = m.globals[t.vars.total_counter]->I64_0;
            let after = charged(counter, cost, factor(t, m));
            &&& run(body, sys, s, pc, m, fuel) == run(
                body,
                sys,
                s,
                pc + t.charge(cost).len(),
                Machine { globals: m.globals.insert(t.vars.total_counter, Val::I64(after)), ..m },
                (fuel - t.charge(cost).len()) as nat,
            )
            &&& counter + cost * factor(t, m) < 0x1_0000_0000_0000_0000 ==> after == counter + cost
                * factor(t, m)
            &&& after == counter + cost * factor(t, m) ==> after >= counter
            &&& after == counter + cost * factor(t, m) && factor(t, m) != 0 ==> after > counter
        }),
{
    let counter = m.globals[t.vars.total_counter]->I64_0;
    let by = factor(t, m);
    let after = charged(counter, cost, by);
    let total = t.vars.total_counter;
    let code = t.charge(cost);
    assert(cost * by >= 0 && (by != 0 ==> cost * by > 0)) by (nonlinear_arith)
        requires
            cost > 0,
            by >= 0,
    ;
    assert((cost as i64) as u64 == cost);
    let m1 = Machine { stack: m.stack.push(Val::I64(counter)), ..m };
    let m2 = Machine { stack: m1.stack.push(Val::I64(cost as u64)), ..m };
    assert(body[s].instrs[pc + 0].instr == code[0].instr);
    assert(body[s].instrs[pc + 1].instr == code[1].instr);
    lemma_plain(body, sys, s, pc, m, fuel, m1);
    lemma_plain(body, sys, s, pc + 1, m1, (fuel - 1) as nat, m2);
    if t.is_partial_tracing {
        let flag = m.globals[t.vars.is_init]->I32_0;
        assert(code.len() == 9);
        assert(body[s].instrs[pc + 2].instr == code[2].instr);
        assert(body[s].instrs[pc + 3].instr == code[3].instr);
        assert(body[s].instrs[pc + 4].instr == code[4].instr);
        assert(body[s].instrs[pc + 5].instr == code[5].instr);
        assert(body[s].instrs[pc + 6].instr == code[6].instr);
        assert(body[s].instrs[pc + 7].instr == code[7].instr);
        assert(body[s].instrs[pc + 8].instr == code[8].instr);
        assert(code[2].instr == global_get(t.vars.is_init));
        assert(code[3].instr == i32_const(1));
        assert(code[4].instr == binop(BinaryOp::I32Xor));
        assert(code[5].instr == unop(UnaryOp::I64ExtendUI32));
        assert(code[6].instr == binop(BinaryOp::I64Mul));
        assert(code[7].instr == binop(BinaryOp::I64Add));
        assert(code[8].instr == global_set(total));
        let m3 = Machine { stack: m2.stack.push(Val::I32(flag)), ..m };
        let m4 = Machine { stack: m3.stack.push(Val::I32(1)), ..m };
        let m5 = Machine { stack: m2.stack.push(Val::I32(by)), ..m };
        let m6 = Machine { stack: m2.stack.push(Val::I64(by as u64)), ..m };
        let product = ((cost * by) % 0x1_0000_0000_0000_0000) as u64;
        let m7 = Machine { stack: m1.stack.push(Val::I64(product)), ..m };
        let m8 = Machine { stack: m.stack.push(Val::I64(after)), ..m };
        let m9 = Machine { globals: m.globals.insert(total, Val::I64(after)), ..m };
        assert(below(m4.stack, 2) =~= m2.stack);
        assert(below(m5.stack, 1) =~= m2.stack);
        assert(below(m6.stack, 2) =~= m1.stack);
        assert(below(m7.stack, 2) =~= m.stack);
        assert(below(m8.stack, 1) =~= m.stack);
        lemma_plain(body, sys, s, pc + 2, m2, (fuel - 2) as nat, m3);
        lemma_plain(body, sys, s, pc + 3, m3, (fuel - 3) as nat, m4);
        lemma_plain(body, sys, s, pc + 4, m4, (fuel - 4) as nat, m5);
        lemma_plain(body, sys, s, pc + 5, m5, (fuel - 5) as nat, m6);
        lemma_plain(body, sys, s, pc + 6, m6, (fuel - 6) as nat, m7);
        lemma_plain(body, sys, s, pc + 7, m7, (fuel - 7) as nat, m8);
        lemma_plain(body, sys, s, pc + 8, m8, (fuel - 8) as nat, m9);
    } else {
        assert(code.len() == 4);
        assert(body[s].instrs[pc + 2].instr == code[2].instr);
        assert(body[s].instrs[pc + 3].instr == code[3].instr);
        assert(code[2].instr == binop(BinaryOp::I64Add));
        assert(code[3].instr == global_set(total));
        assert(cost * 1 == cost);
        let m3 = Machine { stack: m.stack.push(Val::I64(after)), ..m };
        let m4 = Machine { globals: m.globals.insert(total, Val::I64(after)), ..m };
        assert(below(m2.stack, 2) =~= m.stack);
        assert(below(m3.stack, 1) =~= m.stack);
        lemma_plain(body, sys, s, pc + 2, m2, (fuel - 2) as nat, m3);
        lemma_plain(body, sys, s, pc + 3, m3, (fuel - 3) as nat, m4);
    }
}

} // verus!
