//! What the endpoints reply, bit for bit.

use vstd::prelude::*;
use crate::instrumentation::{getter_body, getter_code, Getter};
use crate::ir::{GlobalId, TypeId};
use crate::machine::{
    below, holds, le_byte, lemma_plain, run, written, Machine, Outcome, System, Val,
};
use crate::module::InstrSeqView;

verus! {

/// The reply of `__get_cycles`: `DIDL`, no types, one argument of type
/// `nat64`, and the counter in eight bytes, the lowest first.
pub open spec fn cycles_reply(counter: u64) -> Seq<u8> {
    seq![0x44u8, 0x49u8, 0x44u8, 0x4cu8, 0x00u8, 0x01u8, 0x74u8] + Seq::new(
        8,
        |i: int| le_byte(counter, i),
    )
}

/// The endpoint `__get_cycles` replies with the counter, bit for bit: on a
/// heap of at least 15 bytes it adds `cycles_reply` of the counter to the
/// reply and sends it, and leaves the stack and the variables as they are.
#[verifier::rlimit(60)]
pub proof fn lemma_get_cycles_reply(
    sys: System,
    entry_ty: TypeId,
    total_counter: GlobalId,
    m: Machine,
    counter: u64,
)
    requires
        sys.wf(),
        m.globals.dom().contains(total_counter),
        m.globals[total_counter] == Val::I64(counter),
        m.memory.len() >= 15,
    ensures
        run(getter_body(entry_ty, total_counter, sys.reply_data, sys.reply), sys, 0, 0, m, 16)
            matches Outcome::Next(out) && out.reply == m.reply + cycles_reply(counter)
            && out.replied && out.stack == m.stack && out.globals == m.globals && out.locals
            == m.locals && out.stable_pages == m.stable_pages,
{
    let body = getter_body(entry_ty, total_counter, sys.reply_data, sys.reply);
    let code = getter_code(0, total_counter, sys.reply_data, sys.reply);
    assert(body[0].instrs.len() == 10);
    assert(forall|k: int| 0 <= k < 10 ==> (#[trigger] body[0].instrs[k]).instr == code[k]);
    let header: u64 = 0x007401004c444944;
    let m1 = Machine { stack: m.stack.push(Val::I32(0)), ..m };
    let m2 = Machine { stack: m1.stack.push(Val::I64(header)), ..m };
    let memory1 = written(m.memory, 0, header, 8);
    let m3 = Machine { memory: memory1, ..m };
    let m4 = Machine { stack: m.stack.push(Val::I32(7)), ..m3 };
    let m5 = Machine { stack: m4.stack.push(Val::I64(counter)), ..m3 };
    let memory2 = written(memory1, 7, counter, 8);
    let m6 = Machine { memory: memory2, ..m };
    let m7 = Machine { stack: m.stack.push(Val::I32(0)), ..m6 };
    let m8 = Machine { stack: m7.stack.push(Val::I32(15)), ..m6 };
    let m9 = Machine { reply: m.reply + memory2.subrange(0, 15), ..m6 };
    let m10 = Machine { replied: true, ..m9 };
    assert(below(m2.stack, 2) =~= m.stack);
    assert(below(m5.stack, 2) =~= m.stack);
    assert(below(m8.stack, 2) =~= m.stack);
    assert((0x007401004c444944i64) as u64 == header);
    lemma_plain(body, sys, 0, 0, m, 16, m1);
    lemma_plain(body, sys, 0, 1, m1, 15, m2);
    lemma_plain(body, sys, 0, 2, m2, 14, m3);
    lemma_plain(body, sys, 0, 3, m3, 13, m4);
    lemma_plain(body, sys, 0, 4, m4, 12, m5);
    lemma_plain(body, sys, 0, 5, m5, 11, m6);
    lemma_plain(body, sys, 0, 6, m6, 10, m7);
    lemma_plain(body, sys, 0, 7, m7, 9, m8);
    lemma_plain(body, sys, 0, 8, m8, 8, m9);
    lemma_plain(body, sys, 0, 9, m9, 7, m10);
    assert(run(body, sys, 0, 10, m10, 6) == Outcome::Next(m10));
    assert(header & 0xff == 0x44 && (header >> 8) & 0xff == 0x49 && (header >> 16) & 0xff == 0x44
        && (header >> 24) & 0xff == 0x4c && (header >> 32) & 0xff == 0x00 && (header >> 40) & 0xff
        == 0x01 && (header >> 48) & 0xff == 0x74) by (bit_vector)
        requires
            header == 0x007401004c444944u64,
    ;
    assert(memory2.subrange(0, 15) =~= cycles_reply(counter));
}

/// The header of the reply of `__get_profiling`: `DIDL`; three types, a
/// vector of the second, a record of an `int32` and an `int64`, and an
/// optional `nat32`; and two arguments, of the first and the third type.
pub open spec fn profiling_header() -> Seq<u8> {
    seq![
        0x44u8,
        0x49u8,
        0x44u8,
        0x4cu8,
        0x03u8,
        0x6du8,
        0x01u8,
        0x6cu8,
        0x02u8,
        0x00u8,
        0x75u8,
        0x01u8,
        0x74u8,
        0x6eu8,
        0x75u8,
        0x02u8,
        0x00u8,
        0x02u8,
    ]
}

/// The heap once the header is written at its start: the header takes the
/// first 18 bytes, and the two bytes behind it are 0.
pub open spec fn with_header(memory: Seq<u8>) -> Seq<u8> {
    written(
        written(written(memory, 0, 0x6c016d034c444944, 8), 8, 0x02756e7401750002, 8),
        16,
        0x0200,
        4,
    )
}

/// The endpoint `__get_profiling` begins its reply with the header, bit for
/// bit: on a heap of at least 20 bytes, the part of it that sends the header
/// adds `profiling_header` to the reply, and changes nothing but the start
/// of the heap.
#[verifier::rlimit(60)]
pub proof fn lemma_profiling_header(
    g: Getter,
    body: Seq<InstrSeqView>,
    sys: System,
    s: int,
    pc: int,
    m: Machine,
    fuel: nat,
)
    requires
        holds(body, s, pc, g.header_code()),
        sys.wf(),
        sys.reply_data == g.reply_data,
        m.memory.len() >= 20,
        fuel >= 12,
    ensures
        run(body, sys, s, pc, m, fuel) == run(
            body,
            sys,
            s,
            pc + 12,
            Machine {
                memory: with_header(m.memory),
                reply: m.reply + profiling_header(),
                ..m
            },
            (fuel - 12) as nat,
        ),
        with_header(m.memory).len() == m.memory.len(),
        with_header(m.memory).subrange(0, 18) == profiling_header(),
        forall|k: int| 20 <= k < m.memory.len() ==> with_header(m.memory)[k] == m.memory[k],
{
    let code = g.header_code();
    let a: u64 = 0x6c016d034c444944;
    let b: u64 = 0x02756e7401750002;
    let c: u64 = 0x0200;
    let h1 = written(m.memory, 0, a, 8);
    let h2 = written(h1, 8, b, 8);
    let h3 = written(h2, 16, c, 4);
    assert(h3 == with_header(m.memory));
    assert(body[s].instrs[pc + 0].instr == code[0]);
    assert(body[s].instrs[pc + 1].instr == code[1]);
    assert(body[s].instrs[pc + 2].instr == code[2]);
    assert(body[s].instrs[pc + 3].instr == code[3]);
    assert(body[s].instrs[pc + 4].instr == code[4]);
    assert(body[s].instrs[pc + 5].instr == code[5]);
    assert(body[s].instrs[pc + 6].instr == code[6]);
    assert(body[s].instrs[pc + 7].instr == code[7]);
    assert(body[s].instrs[pc + 8].instr == code[8]);
    assert(body[s].instrs[pc + 9].instr == code[9]);
    assert(body[s].instrs[pc + 10].instr == code[10]);
    assert(body[s].instrs[pc + 11].instr == code[11]);
    let m1 = Machine { stack: m.stack.push(Val::I32(0)), ..m };
    let m2 = Machine { stack: m1.stack.push(Val::I64(a)), ..m };
    let m3 = Machine { memory: h1, ..m };
    let m4 = Machine { stack: m.stack.push(Val::I32(8)), ..m3 };
    let m5 = Machine { stack: m4.stack.push(Val::I64(b)), ..m3 };
    let m6 = Machine { memory: h2, ..m };
    let m7 = Machine { stack: m.stack.push(Val::I32(16)), ..m6 };
    let m8 = Machine { stack: m7.stack.push(Val::I32(0x0200)), ..m6 };
    let m9 = Machine { memory: h3, ..m };
    let m10 = Machine { stack: m.stack.push(Val::I32(0)), ..m9 };
    let m11 = Machine { stack: m10.stack.push(Val::I32(18)), ..m9 };
    let m12 = Machine { reply: m.reply + h3.subrange(0, 18), ..m9 };
    assert(below(m2.stack, 2) =~= m.stack);
    assert(below(m5.stack, 2) =~= m.stack);
    assert(below(m8.stack, 2) =~= m.stack);
    assert(below(m11.stack, 2) =~= m.stack);
    assert((0x6c016d034c444944i64) as u64 == a);
    assert((0x02756e7401750002i64) as u64 == b);
    lemma_plain(body, sys, s, pc, m, fuel, m1);
    lemma_plain(body, sys, s, pc + 1, m1, (fuel - 1) as nat, m2);
    lemma_plain(body, sys, s, pc + 2, m2, (fuel - 2) as nat, m3);
    lemma_plain(body, sys, s, pc + 3, m3, (fuel - 3) as nat, m4);
    lemma_plain(body, sys, s, pc + 4, m4, (fuel - 4) as nat, m5);
    lemma_plain(body, sys, s, pc + 5, m5, (fuel - 5) as nat, m6);
    lemma_plain(body, sys, s, pc + 6, m6, (fuel - 6) as nat, m7);
    lemma_plain(body, sys, s, pc + 7, m7, (fuel - 7) as nat, m8);
    lemma_plain(body, sys, s, pc + 8, m8, (fuel - 8) as nat, m9);
    lemma_plain(body, sys, s, pc + 9, m9, (fuel - 9) as nat, m10);
    lemma_plain(body, sys, s, pc + 10, m10, (fuel - 10) as nat, m11);
    lemma_plain(body, sys, s, pc + 11, m11, (fuel - 11) as nat, m12);
    assert(a & 0xff == 0x44 && (a >> 8) & 0xff == 0x49 && (a >> 16) & 0xff == 0x44 && (a >> 24)
        & 0xff == 0x4c && (a >> 32) & 0xff == 0x03 && (a >> 40) & 0xff == 0x6d && (a >> 48) & 0xff
        == 0x01 && (a >> 56) & 0xff == 0x6c) by (bit_vector)
        requires
            a == 0x6c016d034c444944u64,
    ;
    assert(b & 0xff == 0x02 && (b >> 8) & 0xff == 0x00 && (b >> 16) & 0xff == 0x75 && (b >> 24)
        & 0xff == 0x01 && (b >> 32) & 0xff == 0x74 && (b >> 40) & 0xff == 0x6e && (b >> 48) & 0xff
        == 0x75 && (b >> 56) & 0xff == 0x02) by (bit_vector)
        requires
            b == 0x02756e7401750002u64,
    ;
    assert(c & 0xff == 0x00 && (c >> 8) & 0xff == 0x02) by (bit_vector)
        requires
            c == 0x0200u64,
    ;
    assert(h3.subrange(0, 18) =~= profiling_header());
}

} // verus!
