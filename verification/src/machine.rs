//! How the code that the passes emit runs: a machine for the instructions
//! that the wrappers and endpoints are made of, with the system functions
//! that they call. What the wrappers guarantee is stated here. The machine
//! has no rule for a loop, a branch table, a choice between two values, or
//! a call of a function of the module: where a run comes to one of them it
//! is stuck, and what is stated of runs that end says nothing of it.

use vstd::prelude::*;
use crate::builder::seq_of;
use crate::ir::{
    BinaryOp, ExtendedLoad, FunctionId, GlobalId, InstrSeqId, InstrSeqType, InstrView, LoadKind,
    LocalId, StoreKind, TypeId, UnaryOp, Value,
};
use crate::limit_resource::{
    grow_code, stable64_grow_body, stable64_grow_code, stable_grow_body, stable_grow_code,
};
use crate::module::InstrSeqView;

verus! {

/// A value on the stack or in a variable, by its bits.
pub enum Val {
    I32(u32),
    I64(u64),
}

/// The number `n` as a value of the width of an address: of 64 bits where
/// the memory is `wide`, else of 32.
pub open spec fn word(wide: bool, n: int) -> Val {
    if wide {
        Val::I64(n as u64)
    } else {
        Val::I32(n as u32)
    }
}

/// Whether the value has the width of an address.
pub open spec fn is_word(wide: bool, v: Val) -> bool {
    if wide {
        v is I64
    } else {
        v is I32
    }
}

/// The number that the bits of a value are.
pub open spec fn number(v: Val) -> int {
    match v {
        Val::I32(x) => x as int,
        Val::I64(x) => x as int,
    }
}

/// How long a heap can be at most: what an address of its width reaches.
pub open spec fn reach(wide: bool) -> int {
    if wide {
        0x1_0000_0000_0000_0000
    } else {
        0x1_0000_0000
    }
}

/// The state of a running function and of the canister around it: the
/// stack, the variables, the heap, the pages of stable memory, the reply so
/// far, the calls of other canisters that were begun, and the numbers that
/// were handed to the function that logs.
pub struct Machine {
    pub stack: Seq<Val>,
    pub locals: Map<LocalId, Val>,
    pub globals: Map<GlobalId, Val>,
    pub memory: Seq<u8>,
    pub stable_pages: nat,
    pub reply: Seq<u8>,
    pub replied: bool,
    pub calls: Seq<CallNew>,
    pub log: Seq<Val>,
}

/// A call of another canister as `ic0.call_new` begins it: the callee and
/// the method name as they are in the heap at the call, and the other four
/// arguments.
pub struct CallNew {
    pub callee: Seq<u8>,
    pub method: Seq<u8>,
    pub rest: Seq<Val>,
}

/// The system functions by the functions that they are in the module, the
/// function of the module that logs its argument, and the pages of stable
/// memory that the system itself allows.
pub struct System {
    pub stable_size: FunctionId,
    pub stable_grow: FunctionId,
    pub stable64_size: FunctionId,
    pub stable64_grow: FunctionId,
    pub reply_data: FunctionId,
    pub reply: FunctionId,
    pub call_new: FunctionId,
    pub printer: FunctionId,
    pub max_stable_pages: nat,
}

impl System {
    /// The system functions are functions of their own.
    pub open spec fn wf(self) -> bool {
        &&& self.stable_size != self.stable_grow
        &&& self.stable_size != self.stable64_size
        &&& self.stable_size != self.stable64_grow
        &&& self.stable_size != self.reply_data
        &&& self.stable_size != self.reply
        &&& self.stable_grow != self.stable64_size
        &&& self.stable_grow != self.stable64_grow
        &&& self.stable_grow != self.reply_data
        &&& self.stable_grow != self.reply
        &&& self.stable64_size != self.stable64_grow
        &&& self.stable64_size != self.reply_data
        &&& self.stable64_size != self.reply
        &&& self.stable64_grow != self.reply_data
        &&& self.stable64_grow != self.reply
        &&& self.reply_data != self.reply
        &&& self.call_new != self.stable_size
        &&& self.call_new != self.stable_grow
        &&& self.call_new != self.stable64_size
        &&& self.call_new != self.stable64_grow
        &&& self.call_new != self.reply_data
        &&& self.call_new != self.reply
        &&& self.printer != self.stable_size
        &&& self.printer != self.stable_grow
        &&& self.printer != self.stable64_size
        &&& self.printer != self.stable64_grow
        &&& self.printer != self.reply_data
        &&& self.printer != self.reply
        &&& self.printer != self.call_new
    }
}

/// How running a sequence goes on: with the next instruction, with a branch
/// out of a sequence, with the return from the function; or not at all,
/// where the machine has no rule for the instruction or the system traps.
pub enum Outcome {
    Next(Machine),
    Branch(InstrSeqId, Machine),
    Return(Machine),
    Stuck,
}

/// Byte `i` of the value `v`, the lowest byte first.
pub open spec fn le_byte(v: u64, i: int) -> u8 {
    if i == 0 {
        (v & 0xff) as u8
    } else if i == 1 {
        ((v >> 8) & 0xff) as u8
    } else if i == 2 {
        ((v >> 16) & 0xff) as u8
    } else if i == 3 {
        ((v >> 24) & 0xff) as u8
    } else if i == 4 {
        ((v >> 32) & 0xff) as u8
    } else if i == 5 {
        ((v >> 40) & 0xff) as u8
    } else if i == 6 {
        ((v >> 48) & 0xff) as u8
    } else {
        ((v >> 56) & 0xff) as u8
    }
}

/// The heap with the lowest `n` bytes of `v` written at `at`.
pub open spec fn written(memory: Seq<u8>, at: int, v: u64, n: int) -> Seq<u8> {
    Seq::new(
        memory.len(),
        |k: int|
            if at <= k < at + n {
                le_byte(v, k - at)
            } else {
                memory[k]
            },
    )
}

/// The stack without its topmost `n` values.
pub open spec fn below(stack: Seq<Val>, n: int) -> Seq<Val> {
    stack.subrange(0, stack.len() - n)
}

/// The value `k` places below the top of the stack.
pub open spec fn top(stack: Seq<Val>, k: int) -> Val {
    stack[stack.len() - 1 - k]
}

/// What a call of the system function `func` does: the size of stable
/// memory is given in pages; growing it gives the size before, or -1 and no
/// change where the system does not allow the new size; data from the heap
/// is added to the reply; the reply is sent; a call of another canister is
/// begun; and what the function that logs is called with is logged.
pub open spec fn system_call(sys: System, func: FunctionId, m: Machine) -> Outcome {
    if func == sys.stable_size {
        Outcome::Next(Machine { stack: m.stack.push(Val::I32(m.stable_pages as u32)), ..m })
    } else if func == sys.stable64_size {
        Outcome::Next(Machine { stack: m.stack.push(Val::I64(m.stable_pages as u64)), ..m })
    } else if func == sys.stable_grow {
        if m.stack.len() >= 1 && top(m.stack, 0) is I32 {
            let pages = top(m.stack, 0)->I32_0;
            if m.stable_pages + pages <= sys.max_stable_pages {
                Outcome::Next(
                    Machine {
                        stack: below(m.stack, 1).push(Val::I32(m.stable_pages as u32)),
                        stable_pages: (m.stable_pages + pages) as nat,
                        ..m
                    },
                )
            } else {
                Outcome::Next(Machine { stack: below(m.stack, 1).push(Val::I32(0xffff_ffff)), ..m })
            }
        } else {
            Outcome::Stuck
        }
    } else if func == sys.stable64_grow {
        if m.stack.len() >= 1 && top(m.stack, 0) is I64 {
            let pages = top(m.stack, 0)->I64_0;
            if m.stable_pages + pages <= sys.max_stable_pages {
                Outcome::Next(
                    Machine {
                        stack: below(m.stack, 1).push(Val::I64(m.stable_pages as u64)),
                        stable_pages: (m.stable_pages + pages) as nat,
                        ..m
                    },
                )
            } else {
                Outcome::Next(
                    Machine {
                        stack: below(m.stack, 1).push(Val::I64(0xffff_ffff_ffff_ffff)),
                        ..m
                    },
                )
            }
        } else {
            Outcome::Stuck
        }
    } else if func == sys.reply_data {
        if m.stack.len() >= 2 && top(m.stack, 0) is I32 && top(m.stack, 1) is I32 {
            let size = top(m.stack, 0)->I32_0;
            let src = top(m.stack, 1)->I32_0;
            if src + size <= m.memory.len() {
                Outcome::Next(
                    Machine {
                        stack: below(m.stack, 2),
                        reply: m.reply + m.memory.subrange(src as int, src + size),
                        ..m
                    },
                )
            } else {
                Outcome::Stuck
            }
        } else {
            Outcome::Stuck
        }
    } else if func == sys.reply {
        Outcome::Next(Machine { replied: true, ..m })
    } else if func == sys.call_new {
        let wide = top(m.stack, 7) is I64;
        if m.stack.len() >= 8 && is_word(wide, top(m.stack, 7)) && is_word(
            wide,
            top(m.stack, 6),
        ) && is_word(wide, top(m.stack, 5)) && is_word(wide, top(m.stack, 4)) {
            let callee_src = number(top(m.stack, 7));
            let callee_size = number(top(m.stack, 6));
            let name_src = number(top(m.stack, 5));
            let name_size = number(top(m.stack, 4));
            if callee_src + callee_size <= m.memory.len() && name_src + name_size
                <= m.memory.len() {
                Outcome::Next(
                    Machine {
                        stack: below(m.stack, 8),
                        calls: m.calls.push(
                            CallNew {
                                callee: m.memory.subrange(
                                    callee_src,
                                    callee_src + callee_size,
                                ),
                                method: m.memory.subrange(name_src, name_src + name_size),
                                rest: m.stack.subrange(m.stack.len() - 4, m.stack.len() as int),
                            },
                        ),
                        ..m
                    },
                )
            } else {
                Outcome::Stuck
            }
        } else {
            Outcome::Stuck
        }
    } else if func == sys.printer {
        if m.stack.len() >= 1 && top(m.stack, 0) is I32 {
            Outcome::Next(Machine { stack: below(m.stack, 1), log: m.log.push(top(m.stack, 0)), ..m })
        } else {
            Outcome::Stuck
        }
    } else {
        Outcome::Stuck
    }
}

/// The result of a comparison as a value.
pub open spec fn truth(b: bool) -> Val {
    Val::I32(
        if b {
            1
        } else {
            0
        },
    )
}

/// What a binary operator makes of `a` and `b`, for the operators that the
/// wrappers use.
pub open spec fn binary(op: BinaryOp, a: Val, b: Val) -> Option<Val> {
    match (op, a, b) {
        (BinaryOp::I32Add, Val::I32(x), Val::I32(y)) => Some(
            Val::I32(((x + y) % 0x1_0000_0000) as u32),
        ),
        (BinaryOp::I32GtU, Val::I32(x), Val::I32(y)) => Some(truth(x > y)),
        (BinaryOp::I64Add, Val::I64(x), Val::I64(y)) => Some(
            Val::I64(((x + y) % 0x1_0000_0000_0000_0000) as u64),
        ),
        (BinaryOp::I64GtU, Val::I64(x), Val::I64(y)) => Some(truth(x > y)),
        (BinaryOp::I32Ne, Val::I32(x), Val::I32(y)) => Some(truth(x != y)),
        (BinaryOp::I64Ne, Val::I64(x), Val::I64(y)) => Some(truth(x != y)),
        (BinaryOp::I32Xor, Val::I32(x), Val::I32(y)) => Some(Val::I32(x ^ y)),
        (BinaryOp::I32Mul, Val::I32(x), Val::I32(y)) => Some(
            Val::I32(((x * y) % 0x1_0000_0000) as u32),
        ),
        (BinaryOp::I64Mul, Val::I64(x), Val::I64(y)) => Some(
            Val::I64(((x * y) % 0x1_0000_0000_0000_0000) as u64),
        ),
        _ => None,
    }
}

/// What a unary operator makes of `a`, for the operators that the charges
/// use.
pub open spec fn unary(op: UnaryOp, a: Val) -> Option<Val> {
    match (op, a) {
        (UnaryOp::I64ExtendUI32, Val::I32(x)) => Some(Val::I64(x as u64)),
        _ => None,
    }
}

/// What an instruction without inner sequences does.
pub open spec fn step(sys: System, i: InstrView, m: Machine) -> Outcome {
    match i {
        InstrView::Const { value: Value::I32(v) } => Outcome::Next(
            Machine { stack: m.stack.push(Val::I32(v as u32)), ..m },
        ),
        InstrView::Const { value: Value::I64(v) } => Outcome::Next(
            Machine { stack: m.stack.push(Val::I64(v as u64)), ..m },
        ),
        InstrView::LocalGet { local } => if m.locals.dom().contains(local) {
            Outcome::Next(Machine { stack: m.stack.push(m.locals[local]), ..m })
        } else {
            Outcome::Stuck
        },
        InstrView::LocalSet { local } => if m.stack.len() >= 1 {
            Outcome::Next(
                Machine {
                    stack: below(m.stack, 1),
                    locals: m.locals.insert(local, top(m.stack, 0)),
                    ..m
                },
            )
        } else {
            Outcome::Stuck
        },
        InstrView::Load { memory, kind: LoadKind::I32_8 { kind: ExtendedLoad::ZeroExtend }, arg } => if m.stack.len()
            >= 1 && top(m.stack, 0) is I32 {
            let at = top(m.stack, 0)->I32_0 + arg.offset;
            if at < m.memory.len() {
                Outcome::Next(
                    Machine { stack: below(m.stack, 1).push(Val::I32(m.memory[at] as u32)), ..m },
                )
            } else {
                Outcome::Stuck
            }
        } else {
            Outcome::Stuck
        },
        InstrView::Load { memory, kind: LoadKind::I64_8 { kind: ExtendedLoad::ZeroExtend }, arg } => if m.stack.len()
            >= 1 && top(m.stack, 0) is I64 {
            let at = top(m.stack, 0)->I64_0 + arg.offset;
            if at < m.memory.len() {
                Outcome::Next(
                    Machine { stack: below(m.stack, 1).push(Val::I64(m.memory[at] as u64)), ..m },
                )
            } else {
                Outcome::Stuck
            }
        } else {
            Outcome::Stuck
        },
        InstrView::Store { memory, kind: StoreKind::I64_8 { atomic }, arg } => if m.stack.len() >= 2
            && top(m.stack, 0) is I64 && top(m.stack, 1) is I64 {
            let at = top(m.stack, 1)->I64_0 + arg.offset;
            if at < m.memory.len() {
                Outcome::Next(
                    Machine {
                        stack: below(m.stack, 2),
                        memory: m.memory.update(at, (top(m.stack, 0)->I64_0 & 0xff) as u8),
                        ..m
                    },
                )
            } else {
                Outcome::Stuck
            }
        } else {
            Outcome::Stuck
        },
        InstrView::Store { memory, kind: StoreKind::I32_8 { atomic }, arg } => if m.stack.len() >= 2
            && top(m.stack, 0) is I32 && top(m.stack, 1) is I32 {
            let at = top(m.stack, 1)->I32_0 + arg.offset;
            if at < m.memory.len() {
                Outcome::Next(
                    Machine {
                        stack: below(m.stack, 2),
                        memory: m.memory.update(at, (top(m.stack, 0)->I32_0 & 0xff) as u8),
                        ..m
                    },
                )
            } else {
                Outcome::Stuck
            }
        } else {
            Outcome::Stuck
        },
        InstrView::GlobalGet { global } => if m.globals.dom().contains(global) {
            Outcome::Next(Machine { stack: m.stack.push(m.globals[global]), ..m })
        } else {
            Outcome::Stuck
        },
        InstrView::GlobalSet { global } => if m.stack.len() >= 1 && m.globals.dom().contains(
            global,
        ) {
            Outcome::Next(
                Machine {
                    stack: below(m.stack, 1),
                    globals: m.globals.insert(global, top(m.stack, 0)),
                    ..m
                },
            )
        } else {
            Outcome::Stuck
        },
        InstrView::Unop { op } => if m.stack.len() >= 1 {
            match unary(op, top(m.stack, 0)) {
                Some(v) => Outcome::Next(Machine { stack: below(m.stack, 1).push(v), ..m }),
                None => Outcome::Stuck,
            }
        } else {
            Outcome::Stuck
        },
        InstrView::Drop => if m.stack.len() >= 1 {
            Outcome::Next(Machine { stack: below(m.stack, 1), ..m })
        } else {
            Outcome::Stuck
        },
        InstrView::Binop { op } => if m.stack.len() >= 2 {
            match binary(op, top(m.stack, 1), top(m.stack, 0)) {
                Some(v) => Outcome::Next(Machine { stack: below(m.stack, 2).push(v), ..m }),
                None => Outcome::Stuck,
            }
        } else {
            Outcome::Stuck
        },
        InstrView::Store { memory, kind: StoreKind::I64 { atomic }, arg } => if m.stack.len() >= 2
            && top(m.stack, 0) is I64 && top(m.stack, 1) is I32 {
            let at = top(m.stack, 1)->I32_0 + arg.offset;
            if at + 8 <= m.memory.len() {
                Outcome::Next(
                    Machine {
                        stack: below(m.stack, 2),
                        memory: written(m.memory, at, top(m.stack, 0)->I64_0, 8),
                        ..m
                    },
                )
            } else {
                Outcome::Stuck
            }
        } else {
            Outcome::Stuck
        },
        InstrView::Store { memory, kind: StoreKind::I32 { atomic }, arg } => if m.stack.len() >= 2
            && top(m.stack, 0) is I32 && top(m.stack, 1) is I32 {
            let at = top(m.stack, 1)->I32_0 + arg.offset;
            if at + 4 <= m.memory.len() {
                Outcome::Next(
                    Machine {
                        stack: below(m.stack, 2),
                        memory: written(m.memory, at, top(m.stack, 0)->I32_0 as u64, 4),
                        ..m
                    },
                )
            } else {
                Outcome::Stuck
            }
        } else {
            Outcome::Stuck
        },
        InstrView::Call { func } => system_call(sys, func, m),
        _ => Outcome::Stuck,
    }
}

/// What leaving the inner sequence `inner` with `o` means for the sequence
/// around it: a branch out of `inner` itself ends there, with the stack as
/// it was at the entry `entry` and on it the result of the sequence, if its
/// type has one. The machine has no rule for a branch out of a sequence
/// with a type of several values.
pub open spec fn leave(inner: InstrSeqId, ty: InstrSeqType, entry: Seq<Val>, o: Outcome) -> Outcome {
    match o {
        Outcome::Branch(target, m) => if target == inner {
            match ty {
                InstrSeqType::Simple(None) => Outcome::Next(Machine { stack: entry, ..m }),
                InstrSeqType::Simple(Some(_)) => if m.stack.len() >= 1 {
                    Outcome::Next(Machine { stack: entry.push(top(m.stack, 0)), ..m })
                } else {
                    Outcome::Stuck
                },
                InstrSeqType::MultiValue(_) => Outcome::Stuck,
            }
        } else {
            o
        },
        _ => o,
    }
}

/// Running the sequence `seq` of the body `body` from position `pc` on, in
/// at most `fuel` steps.
pub open spec fn run(
    body: Seq<InstrSeqView>,
    sys: System,
    seq: int,
    pc: int,
    m: Machine,
    fuel: nat,
) -> Outcome
    decreases fuel,
{
    if fuel == 0 || seq < 0 || seq >= body.len() || pc < 0 {
        Outcome::Stuck
    } else if pc >= body[seq].instrs.len() {
        Outcome::Next(m)
    } else {
        let first = match body[seq].instrs[pc].instr {
            InstrView::Block { seq: inner } => if inner < body.len() {
                leave(
                    inner,
                    body[inner as int].ty,
                    m.stack,
                    run(body, sys, inner as int, 0, m, (fuel - 1) as nat),
                )
            } else {
                Outcome::Stuck
            },
            InstrView::IfElse { consequent, alternative } => if m.stack.len() >= 1 && top(
                m.stack,
                0,
            ) is I32 {
                let inner = if top(m.stack, 0)->I32_0 != 0 {
                    consequent
                } else {
                    alternative
                };
                if inner < body.len() {
                    leave(
                        inner,
                        body[inner as int].ty,
                        below(m.stack, 1),
                        run(
                            body,
                            sys,
                            inner as int,
                            0,
                            Machine { stack: below(m.stack, 1), ..m },
                            (fuel - 1) as nat,
                        ),
                    )
                } else {
                    Outcome::Stuck
                }
            } else {
                Outcome::Stuck
            },
            InstrView::Br { block } => Outcome::Branch(block, m),
            InstrView::BrIf { block } => if m.stack.len() >= 1 && top(m.stack, 0) is I32 {
                let rest = Machine { stack: below(m.stack, 1), ..m };
                if top(m.stack, 0)->I32_0 != 0 {
                    Outcome::Branch(block, rest)
                } else {
                    Outcome::Next(rest)
                }
            } else {
                Outcome::Stuck
            },
            InstrView::Return => Outcome::Return(m),
            other => step(sys, other, m),
        };
        match first {
            Outcome::Next(next) => run(body, sys, seq, pc + 1, next, (fuel - 1) as nat),
            other => other,
        }
    }
}

/// The instructions `code` stand in sequence `s` of `body` from position
/// `pc` on.
pub open spec fn holds(body: Seq<InstrSeqView>, s: int, pc: int, code: Seq<InstrView>) -> bool {
    &&& 0 <= s < body.len()
    &&& 0 <= pc
    &&& pc + code.len() <= body[s].instrs.len()
    &&& forall|j: int|
        0 <= j < code.len() ==> (#[trigger] body[s].instrs[pc + j]).instr == code[j]
}

/// The instruction has no inner sequence and does not branch.
pub open spec fn is_plain(i: InstrView) -> bool {
    !(i is Block || i is IfElse || i is Br || i is BrIf || i is Return)
}

/// Running a plain instruction is a step.
pub proof fn lemma_plain(
    body: Seq<InstrSeqView>,
    sys: System,
    s: int,
    pc: int,
    m: Machine,
    fuel: nat,
    next: Machine,
)
    requires
        0 <= s < body.len(),
        0 <= pc < body[s].instrs.len(),
        is_plain(body[s].instrs[pc].instr),
        step(sys, body[s].instrs[pc].instr, m) == Outcome::Next(next),
        fuel >= 1,
    ensures
        run(body, sys, s, pc, m, fuel) == run(body, sys, s, pc + 1, next, (fuel - 1) as nat),
{
}

/// Where a part of a sequence stands, its beginning stands.
pub proof fn lemma_holds_prefix(
    body: Seq<InstrSeqView>,
    s: int,
    pc: int,
    a: Seq<InstrView>,
    b: Seq<InstrView>,
)
    requires
        holds(body, s, pc, a + b),
    ensures
        holds(body, s, pc, a),
        holds(body, s, pc + a.len(), b),
{
    assert forall|j: int| 0 <= j < a.len() implies (#[trigger] body[s].instrs[pc + j]).instr
        == a[j] by {
        assert((a + b)[j] == a[j]);
    }
    assert forall|j: int| 0 <= j < b.len() implies (
    #[trigger] body[s].instrs[pc + a.len() + j]).instr == b[j] by {
        assert((a + b)[a.len() + j] == b[j]);
        assert(body[s].instrs[pc + (a.len() + j)].instr == (a + b)[a.len() + j]);
    }
}

/// The page-limit clamp: where the canister asks for pages that would take
/// stable memory beyond the limit, the wrapper for `stable_grow` answers -1
/// and stable memory stays as it is; otherwise it does what the system
/// function does with the request.
#[verifier::rlimit(60)]
pub proof fn lemma_stable_grow_clamped(
    sys: System,
    entry_ty: TypeId,
    requested: LocalId,
    limit: u32,
    m: Machine,
    pages: u32,
)
    requires
        sys.wf(),
        m.locals.dom().contains(requested),
        m.locals[requested] == Val::I32(pages),
        m.stable_pages + pages < 0x1_0000_0000,
    ensures
        ({
            let body = stable_grow_body(
                entry_ty,
                sys.stable_size,
                requested,
                sys.stable_grow,
                limit as i32,
            );
            let out = run(body, sys, 0, 0, m, 16);
            &&& m.stable_pages + pages > limit ==> out == Outcome::Next(
                Machine { stack: m.stack.push(Val::I32(0xffff_ffff)), ..m },
            )
            &&& m.stable_pages + pages <= limit ==> out == system_call(
                sys,
                sys.stable_grow,
                Machine { stack: m.stack.push(Val::I32(pages)), ..m },
            )
        }),
{
    let body = stable_grow_body(entry_ty, sys.stable_size, requested, sys.stable_grow, limit as i32);
    let code = stable_grow_code(sys.stable_size, requested, limit as i32);
    assert(body[0].instrs.len() == 6);
    assert(forall|k: int| 0 <= k < 6 ==> (#[trigger] body[0].instrs[k]).instr == code[k]);
    let size = Val::I32(m.stable_pages as u32);
    let m1 = Machine { stack: m.stack.push(size), ..m };
    let m2 = Machine { stack: m1.stack.push(Val::I32(pages)), ..m };
    let sum = Val::I32((m.stable_pages + pages) as u32);
    let m3 = Machine { stack: m.stack.push(sum), ..m };
    let m4 = Machine { stack: m3.stack.push(Val::I32(limit)), ..m };
    let over = truth(m.stable_pages + pages > limit);
    let m5 = Machine { stack: m.stack.push(over), ..m };
    assert((limit as i32) as u32 == limit) by (bit_vector);
    assert((-1i32) as u32 == 0xffff_ffffu32) by (bit_vector);
    assert(below(m2.stack, 2) =~= m.stack);
    assert(below(m4.stack, 2) =~= m.stack);
    assert(below(m5.stack, 1) =~= m.stack);
    lemma_plain(body, sys, 0, 0, m, 16, m1);
    lemma_plain(body, sys, 0, 1, m1, 15, m2);
    lemma_plain(body, sys, 0, 2, m2, 14, m3);
    lemma_plain(body, sys, 0, 3, m3, 13, m4);
    lemma_plain(body, sys, 0, 4, m4, 12, m5);
    assert(body[0].instrs[5].instr == code[5]);
    reveal_with_fuel(run, 3);
    if m.stable_pages + pages > limit {
        let refuse = body[1];
        assert(refuse.instrs.len() == 1);
        assert(refuse.instrs[0].instr == crate::ir::i32_const(-1i32));
        let done = Machine { stack: m.stack.push(Val::I32(0xffff_ffff)), ..m };
        lemma_plain(body, sys, 1, 0, m, 10, done);
        assert(run(body, sys, 1, 0, m, 10) == Outcome::Next(done));
        assert(run(body, sys, 0, 5, m5, 11) == Outcome::Next(done));
    } else {
        let forward = body[2];
        let g = grow_code(requested, sys.stable_grow);
        assert(forward.instrs.len() == 2);
        assert(forward.instrs[0].instr == g[0]);
        assert(forward.instrs[1].instr == g[1]);
        let asked = Machine { stack: m.stack.push(Val::I32(pages)), ..m };
        lemma_plain(body, sys, 2, 0, m, 10, asked);
        assert(run(body, sys, 2, 1, asked, 9) == system_call(sys, sys.stable_grow, asked));
        assert(run(body, sys, 0, 5, m5, 11) == system_call(sys, sys.stable_grow, asked));
    }
}

/// The same for the wrapper for `stable64_grow`.
#[verifier::rlimit(60)]
pub proof fn lemma_stable64_grow_clamped(
    sys: System,
    entry_ty: TypeId,
    requested: LocalId,
    limit: u32,
    m: Machine,
    pages: u64,
)
    requires
        sys.wf(),
        m.locals.dom().contains(requested),
        m.locals[requested] == Val::I64(pages),
        m.stable_pages + pages < 0x1_0000_0000_0000_0000,
    ensures
        ({
            let body = stable64_grow_body(
                entry_ty,
                sys.stable64_size,
                requested,
                sys.stable64_grow,
                limit as i64,
            );
            let out = run(body, sys, 0, 0, m, 16);
            &&& m.stable_pages + pages > limit ==> out == Outcome::Next(
                Machine { stack: m.stack.push(Val::I64(0xffff_ffff_ffff_ffff)), ..m },
            )
            &&& m.stable_pages + pages <= limit ==> out == system_call(
                sys,
                sys.stable64_grow,
                Machine { stack: m.stack.push(Val::I64(pages)), ..m },
            )
        }),
{
    let body = stable64_grow_body(
        entry_ty,
        sys.stable64_size,
        requested,
        sys.stable64_grow,
        limit as i64,
    );
    let code = stable64_grow_code(sys.stable64_size, requested, limit as i64);
    assert(body[0].instrs.len() == 6);
    assert(forall|k: int| 0 <= k < 6 ==> (#[trigger] body[0].instrs[k]).instr == code[k]);
    let size = Val::I64(m.stable_pages as u64);
    let m1 = Machine { stack: m.stack.push(size), ..m };
    let m2 = Machine { stack: m1.stack.push(Val::I64(pages)), ..m };
    let sum = Val::I64((m.stable_pages + pages) as u64);
    let m3 = Machine { stack: m.stack.push(sum), ..m };
    let m4 = Machine { stack: m3.stack.push(Val::I64(limit as u64)), ..m };
    let over = truth(m.stable_pages + pages > limit);
    let m5 = Machine { stack: m.stack.push(over), ..m };
    assert((-1i64) as u64 == 0xffff_ffff_ffff_ffffu64) by (bit_vector);
    assert(below(m2.stack, 2) =~= m.stack);
    assert(below(m4.stack, 2) =~= m.stack);
    assert(below(m5.stack, 1) =~= m.stack);
    lemma_plain(body, sys, 0, 0, m, 16, m1);
    lemma_plain(body, sys, 0, 1, m1, 15, m2);
    lemma_plain(body, sys, 0, 2, m2, 14, m3);
    lemma_plain(body, sys, 0, 3, m3, 13, m4);
    lemma_plain(body, sys, 0, 4, m4, 12, m5);
    assert(body[0].instrs[5].instr == code[5]);
    reveal_with_fuel(run, 3);
    if m.stable_pages + pages > limit {
        let refuse = body[1];
        assert(refuse.instrs.len() == 1);
        assert(refuse.instrs[0].instr == crate::ir::i64_const(-1i64));
        let done = Machine { stack: m.stack.push(Val::I64(0xffff_ffff_ffff_ffff)), ..m };
        lemma_plain(body, sys, 1, 0, m, 10, done);
        assert(run(body, sys, 1, 0, m, 10) == Outcome::Next(done));
        assert(run(body, sys, 0, 5, m5, 11) == Outcome::Next(done));
    } else {
        let forward = body[2];
        let g = grow_code(requested, sys.stable64_grow);
        assert(forward.instrs.len() == 2);
        assert(forward.instrs[0].instr == g[0]);
        assert(forward.instrs[1].instr == g[1]);
        let asked = Machine { stack: m.stack.push(Val::I64(pages)), ..m };
        lemma_plain(body, sys, 2, 0, m, 10, asked);
        assert(run(body, sys, 2, 1, asked, 9) == system_call(sys, sys.stable64_grow, asked));
        assert(run(body, sys, 0, 5, m5, 11) == system_call(sys, sys.stable64_grow, asked));
    }
}

} // verus!
