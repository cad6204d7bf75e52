// The code that the passes emit is run here by a small interpreter, with the
// system functions of the Internet Computer played by a mock.

use ic_wasm::instrumentation::{check, instrument, Config as InstrumentConfig};
use ic_wasm::ir::{
    BinaryOp, ExtendedLoad, Instr, InstrSeqType, LoadKind, StoreKind, UnaryOp, ValType, Value,
    DEFAULT_LOC,
};
use ic_wasm::limit_resource::{limit_resource, Config as LimitConfig};
use ic_wasm::metadata::{add_metadata, get_metadata, Kind};
use ic_wasm::module::{
    ConstExpr, Export, ExportItem, Function, FunctionKind, GlobalKind, InstrSeq, LocalFunction,
    Located, Memory, Module,
};
use std::collections::HashMap;

#[derive(Clone, Copy, Debug, PartialEq)]
enum Val {
    I32(i32),
    I64(i64),
}

impl Val {
    fn i32(self) -> i32 {
        match self {
            Val::I32(v) => v,
            Val::I64(v) => panic!("expected an i32, found the i64 {v}"),
        }
    }

    fn i64(self) -> i64 {
        match self {
            Val::I64(v) => v,
            Val::I32(v) => panic!("expected an i64, found the i32 {v}"),
        }
    }
}

#[derive(Debug, PartialEq, Clone)]
struct CallNew {
    callee: Vec<u8>,
    method: Vec<u8>,
    rest: Vec<i32>,
}

struct Host {
    stable: Vec<u8>,
    reply: Vec<u8>,
    replied: bool,
    arg: Vec<u8>,
    calls: Vec<CallNew>,
    cycles_added: u32,
    trapped: bool,
}

impl Host {
    fn new() -> Host {
        Host {
            stable: Vec::new(),
            reply: Vec::new(),
            replied: false,
            arg: Vec::new(),
            calls: Vec::new(),
            cycles_added: 0,
            trapped: false,
        }
    }
}

enum Flow {
    Next,
    Branch(usize),
    Return,
}

struct Machine<'a> {
    module: &'a Module,
    globals: Vec<Val>,
    memory: Vec<u8>,
    host: Host,
    steps: u64,
}

impl<'a> Machine<'a> {
    fn new(module: &'a Module) -> Machine<'a> {
        let globals = module
            .globals
            .iter()
            .map(|g| match g.kind {
                GlobalKind::Local(ConstExpr::Value(Value::I32(v))) => Val::I32(v),
                GlobalKind::Local(ConstExpr::Value(Value::I64(v))) => Val::I64(v),
                _ => panic!("this interpreter knows integer globals only"),
            })
            .collect();
        let pages = module.memories.first().map(|m| m.initial).unwrap_or(0) as usize;
        Machine { module, globals, memory: vec![0; pages * 65536], host: Host::new(), steps: 0 }
    }

    fn export(&self, name: &str) -> usize {
        for e in &self.module.exports {
            if e.name == name {
                if let ExportItem::Function(id) = e.item {
                    return id;
                }
            }
        }
        panic!("no function is exported as {name}")
    }

    fn call_export(&mut self, name: &str, args: &[Val]) -> Vec<Val> {
        let id = self.export(name);
        self.call(id, args)
    }

    fn call(&mut self, id: usize, args: &[Val]) -> Vec<Val> {
        let module = self.module;
        match &module.funcs[id].kind {
            FunctionKind::Import { import, .. } => {
                let name = module.imports[*import].name.clone();
                self.system(&name, args)
            },
            FunctionKind::Local(f) => {
                let mut locals: HashMap<usize, Val> = HashMap::new();
                for l in 0..module.locals.len() {
                    locals.insert(
                        l,
                        match module.locals[l] {
                            ValType::I64 => Val::I64(0),
                            _ => Val::I32(0),
                        },
                    );
                }
                assert_eq!(f.args.len(), args.len(), "arguments of function {id}");
                for (local, value) in f.args.iter().zip(args) {
                    locals.insert(*local, *value);
                }
                let mut stack: Vec<Val> = Vec::new();
                self.run(f, f.entry, &mut locals, &mut stack);
                let results = module.types[f.ty].results.len();
                stack.split_off(stack.len() - results)
            },
        }
    }

    fn run(
        &mut self,
        f: &LocalFunction,
        seq: usize,
        locals: &mut HashMap<usize, Val>,
        stack: &mut Vec<Val>,
    ) -> Flow {
        for located in &f.seqs[seq].instrs {
            self.steps += 1;
            match &located.instr {
                Instr::Block { seq: inner } => match self.run(f, *inner, locals, stack) {
                    Flow::Branch(target) if target != *inner => return Flow::Branch(target),
                    Flow::Return => return Flow::Return,
                    _ => {},
                },
                Instr::IfElse { consequent, alternative } => {
                    let inner = if stack.pop().unwrap().i32() != 0 {
                        *consequent
                    } else {
                        *alternative
                    };
                    match self.run(f, inner, locals, stack) {
                        Flow::Branch(target) if target != inner => return Flow::Branch(target),
                        Flow::Return => return Flow::Return,
                        _ => {},
                    }
                },
                Instr::Br { block } => return Flow::Branch(*block),
                Instr::BrIf { block } => {
                    if stack.pop().unwrap().i32() != 0 {
                        return Flow::Branch(*block);
                    }
                },
                Instr::Return => return Flow::Return,
                Instr::Call { func } => {
                    let n = self.module.types[self.type_of(*func)].params.len();
                    let args = stack.split_off(stack.len() - n);
                    let results = self.call(*func, &args);
                    stack.extend(results);
                },
                Instr::LocalGet { local } => stack.push(locals[local]),
                Instr::LocalSet { local } => {
                    let v = stack.pop().unwrap();
                    locals.insert(*local, v);
                },
                Instr::LocalTee { local } => {
                    locals.insert(*local, *stack.last().unwrap());
                },
                Instr::GlobalGet { global } => stack.push(self.globals[*global]),
                Instr::GlobalSet { global } => self.globals[*global] = stack.pop().unwrap(),
                Instr::Const { value } => stack.push(match value {
                    Value::I32(v) => Val::I32(*v),
                    Value::I64(v) => Val::I64(*v),
                    _ => panic!("this interpreter knows integer constants only"),
                }),
                Instr::Drop => {
                    stack.pop().unwrap();
                },
                Instr::Binop { op } => {
                    let b = stack.pop().unwrap();
                    let a = stack.pop().unwrap();
                    stack.push(binop(*op, a, b));
                },
                Instr::Unop { op } => {
                    let a = stack.pop().unwrap();
                    stack.push(match op {
                        UnaryOp::I32Eqz => Val::I32((a.i32() == 0) as i32),
                        UnaryOp::I64ExtendUI32 => Val::I64(a.i32() as u32 as i64),
                        other => panic!("this interpreter does not know {other:?}"),
                    });
                },
                Instr::Load { kind, arg, .. } => {
                    let at = address(stack.pop().unwrap()) + arg.offset as usize;
                    stack.push(match kind {
                        LoadKind::I32 { .. } => {
                            Val::I32(i32::from_le_bytes(self.memory[at..at + 4].try_into().unwrap()))
                        },
                        LoadKind::I64 { .. } => {
                            Val::I64(i64::from_le_bytes(self.memory[at..at + 8].try_into().unwrap()))
                        },
                        LoadKind::I32_8 { kind: ExtendedLoad::ZeroExtend } => {
                            Val::I32(self.memory[at] as i32)
                        },
                        LoadKind::I64_8 { kind: ExtendedLoad::ZeroExtend } => {
                            Val::I64(self.memory[at] as i64)
                        },
                        other => panic!("this interpreter does not know {other:?}"),
                    });
                },
                Instr::Store { kind, arg, .. } => {
                    let v = stack.pop().unwrap();
                    let at = address(stack.pop().unwrap()) + arg.offset as usize;
                    match kind {
                        StoreKind::I32 { .. } => {
                            self.memory[at..at + 4].copy_from_slice(&v.i32().to_le_bytes())
                        },
                        StoreKind::I64 { .. } => {
                            self.memory[at..at + 8].copy_from_slice(&v.i64().to_le_bytes())
                        },
                        StoreKind::I32_8 { .. } => self.memory[at] = v.i32() as u8,
                        StoreKind::I64_8 { .. } => self.memory[at] = v.i64() as u8,
                        other => panic!("this interpreter does not know {other:?}"),
                    }
                },
                Instr::MemorySize { .. } => stack.push(Val::I32((self.memory.len() / 65536) as i32)),
                Instr::MemoryGrow { .. } => {
                    let pages = stack.pop().unwrap().i32() as usize;
                    let before = self.memory.len() / 65536;
                    self.memory.resize((before + pages) * 65536, 0);
                    stack.push(Val::I32(before as i32));
                },
                other => panic!("this interpreter does not know {other:?}"),
            }
        }
        Flow::Next
    }

    fn type_of(&self, func: usize) -> usize {
        match &self.module.funcs[func].kind {
            FunctionKind::Import { ty, .. } => *ty,
            FunctionKind::Local(f) => f.ty,
        }
    }

    fn bytes(&self, at: i32, len: i32) -> Vec<u8> {
        self.memory[at as usize..(at + len) as usize].to_vec()
    }

    fn system(&mut self, name: &str, args: &[Val]) -> Vec<Val> {
        match name {
            "stable_size" => vec![Val::I32((self.host.stable.len() / 65536) as i32)],
            "stable_grow" => {
                let before = self.host.stable.len() / 65536;
                self.host.stable.resize((before + args[0].i32() as usize) * 65536, 0);
                vec![Val::I32(before as i32)]
            },
            "stable64_size" => vec![Val::I64((self.host.stable.len() / 65536) as i64)],
            "stable64_grow" => {
                let before = self.host.stable.len() / 65536;
                self.host.stable.resize((before + args[0].i64() as usize) * 65536, 0);
                vec![Val::I64(before as i64)]
            },
            "stable_write" => {
                let (offset, src, size) = (args[0].i32(), args[1].i32(), args[2].i32());
                let data = self.bytes(src, size);
                self.host.stable[offset as usize..(offset + size) as usize].copy_from_slice(&data);
                vec![]
            },
            "stable_read" => {
                let (dst, offset, size) =
                    (args[0].i32() as usize, args[1].i32() as usize, args[2].i32() as usize);
                if size > 0 {
                    let data = self.host.stable[offset..offset + size].to_vec();
                    self.memory[dst..dst + size].copy_from_slice(&data);
                }
                vec![]
            },
            "msg_reply_data_append" => {
                let data = self.bytes(args[0].i32(), args[1].i32());
                self.host.reply.extend(data);
                vec![]
            },
            "msg_reply" => {
                self.host.replied = true;
                vec![]
            },
            "msg_arg_data_size" => vec![Val::I32(self.host.arg.len() as i32)],
            "msg_arg_data_copy" => {
                let (dst, offset, size) =
                    (args[0].i32() as usize, args[1].i32() as usize, args[2].i32() as usize);
                let data = self.host.arg[offset..offset + size].to_vec();
                self.memory[dst..dst + size].copy_from_slice(&data);
                vec![]
            },
            "trap" => {
                self.host.trapped = true;
                vec![]
            },
            "call_cycles_add" | "call_cycles_add128" | "cycles_burn128" => {
                self.host.cycles_added += 1;
                vec![]
            },
            "call_new" => {
                let number = |v: &Val| match v {
                    Val::I32(a) => *a,
                    Val::I64(a) => *a as i32,
                };
                let wide = matches!(args[0], Val::I64(_));
                assert!(args.iter().all(|v| matches!(v, Val::I64(_)) == wide));
                let callee = self.bytes(number(&args[0]), number(&args[1]));
                let method = self.bytes(number(&args[2]), number(&args[3]));
                let rest = args[4..].iter().map(number).collect();
                self.host.calls.push(CallNew { callee, method, rest });
                vec![]
            },
            other => panic!("the mock does not play ic0.{other}"),
        }
    }
}

fn address(v: Val) -> usize {
    match v {
        Val::I32(a) => a as u32 as usize,
        Val::I64(a) => a as usize,
    }
}

fn binop(op: BinaryOp, a: Val, b: Val) -> Val {
    match op {
        BinaryOp::I32Add => Val::I32(a.i32().wrapping_add(b.i32())),
        BinaryOp::I32Sub => Val::I32(a.i32().wrapping_sub(b.i32())),
        BinaryOp::I32Mul => Val::I32(a.i32().wrapping_mul(b.i32())),
        BinaryOp::I32Xor => Val::I32(a.i32() ^ b.i32()),
        BinaryOp::I32And => Val::I32(a.i32() & b.i32()),
        BinaryOp::I32Or => Val::I32(a.i32() | b.i32()),
        BinaryOp::I32ShrU => Val::I32(((a.i32() as u32) >> (b.i32() as u32 % 32)) as i32),
        BinaryOp::I32GtS => Val::I32((a.i32() > b.i32()) as i32),
        BinaryOp::I32GeS => Val::I32((a.i32() >= b.i32()) as i32),
        BinaryOp::I32GtU => Val::I32(((a.i32() as u32) > (b.i32() as u32)) as i32),
        BinaryOp::I32LtU => Val::I32(((a.i32() as u32) < (b.i32() as u32)) as i32),
        BinaryOp::I32Ne => Val::I32((a.i32() != b.i32()) as i32),
        BinaryOp::I64Ne => Val::I32((a.i64() != b.i64()) as i32),
        BinaryOp::I64Add => Val::I64(a.i64().wrapping_add(b.i64())),
        BinaryOp::I64Mul => Val::I64(a.i64().wrapping_mul(b.i64())),
        BinaryOp::I64GtU => Val::I32(((a.i64() as u64) > (b.i64() as u64)) as i32),
        other => panic!("this interpreter does not know {other:?}"),
    }
}

fn at(instr: Instr) -> Located {
    Located { instr, loc: DEFAULT_LOC }
}

fn i32c(v: i32) -> Located {
    at(Instr::Const { value: Value::I32(v) })
}

fn call(f: usize) -> Located {
    at(Instr::Call { func: f })
}

/// Adds a function with one sequence and gives its id.
fn add_function(m: &mut Module, params: &[ValType], results: &[ValType], instrs: Vec<Located>) -> usize {
    let ty = m.add_type(params, results, false);
    let entry_ty = m.add_type(&[], results, true);
    let mut args = Vec::new();
    for p in params {
        args.push(m.add_local(*p));
    }
    let seqs = vec![InstrSeq { ty: InstrSeqType::MultiValue(entry_ty), instrs }];
    m.add_func(Function { name: None, kind: FunctionKind::Local(LocalFunction { ty, args, seqs, entry: 0 }) })
}

fn import(m: &mut Module, name: &str, params: &[ValType], results: &[ValType]) -> usize {
    let ty = m.add_type(params, results, false);
    m.add_import_func("ic0", name, ty)
}

/// A canister with a counter: `get` replies, `inc` adds one to the counter
/// in its global and replies.
fn counter_canister() -> Module {
    let mut m = Module::new();
    m.memories.push(Memory { shared: false, memory64: false, initial: 1, maximum: None, import: None });
    let reply = import(&mut m, "msg_reply", &[], &[]);
    let _append = import(&mut m, "msg_reply_data_append", &[ValType::I32, ValType::I32], &[]);
    let _size = import(&mut m, "msg_arg_data_size", &[], &[ValType::I32]);
    let _copy = import(&mut m, "msg_arg_data_copy", &[ValType::I32, ValType::I32, ValType::I32], &[]);
    let counter = m.add_global(ic_wasm::module::Global {
        ty: ValType::I32,
        mutable: true,
        shared: false,
        kind: GlobalKind::Local(ConstExpr::Value(Value::I32(0))),
    });
    let get = add_function(&mut m, &[], &[], vec![call(reply)]);
    let inc = add_function(
        &mut m,
        &[],
        &[],
        vec![
            at(Instr::GlobalGet { global: counter }),
            i32c(1),
            at(Instr::Binop { op: BinaryOp::I32Add }),
            at(Instr::GlobalSet { global: counter }),
            call(reply),
        ],
    );
    m.exports.push(Export { name: "canister_query get".to_string(), item: ExportItem::Function(get) });
    m.exports.push(Export { name: "canister_update inc".to_string(), item: ExportItem::Function(inc) });
    m
}

fn default_config() -> InstrumentConfig {
    InstrumentConfig {
        trace_only_funcs: vec![],
        start_address: None,
        page_limit: None,
        use_new_metering: false,
    }
}

fn instrumented_counter() -> Module {
    let mut m = counter_canister();
    let config = default_config();
    assert!(check(&m, &config));
    instrument(&mut m, config).unwrap();
    m
}

fn counter_of(machine: &mut Machine) -> i64 {
    machine.host.reply.clear();
    machine.call_export("canister_query __get_cycles", &[]);
    let reply = machine.host.reply.clone();
    assert_eq!(&reply[..7], b"DIDL\x00\x01\x74");
    i64::from_le_bytes(reply[7..15].try_into().unwrap())
}

fn profiling(machine: &mut Machine, from: u32) -> Vec<u8> {
    machine.host.reply.clear();
    machine.host.arg = [b"DIDL\x00\x01\x79".to_vec(), from.to_le_bytes().to_vec()].concat();
    machine.call_export("canister_query __get_profiling", &[]);
    machine.host.reply.clone()
}

fn entries(reply: &[u8]) -> Vec<(i32, i64)> {
    let count = (reply[18] & 0x7f) as usize
        | ((reply[19] & 0x7f) as usize) << 7
        | ((reply[20] & 0x7f) as usize) << 14
        | ((reply[21] & 0x7f) as usize) << 21
        | (reply[22] as usize) << 28;
    (0..count)
        .map(|i| {
            let at = 23 + 12 * i;
            (
                i32::from_le_bytes(reply[at..at + 4].try_into().unwrap()),
                i64::from_le_bytes(reply[at + 4..at + 12].try_into().unwrap()),
            )
        })
        .collect()
}

#[test]
fn instrument_adds_the_endpoints_and_the_names() {
    let m = instrumented_counter();
    let names: Vec<&str> = m.exports.iter().map(|e| e.name.as_str()).collect();
    for wanted in [
        "canister_query get",
        "canister_update inc",
        "canister_query __get_cycles",
        "canister_query __get_profiling",
        "canister_update __toggle_tracing",
        "canister_update __toggle_entry",
    ] {
        assert!(names.contains(&wanted), "{wanted} is not exported");
    }
    assert_eq!(m.customs.len(), 1);
    assert_eq!(m.customs[0].name, "icp:public name");
}

#[test]
fn get_cycles_replies_the_counter_bit_for_bit() {
    let m = instrumented_counter();
    let mut machine = Machine::new(&m);
    machine.globals[1] = Val::I64(0x0102030405060708);
    machine.call_export("canister_query __get_cycles", &[]);
    assert_eq!(
        machine.host.reply,
        vec![0x44, 0x49, 0x44, 0x4c, 0x00, 0x01, 0x74, 0x08, 0x07, 0x06, 0x05, 0x04, 0x03, 0x02, 0x01]
    );
    assert!(machine.host.replied);
}

#[test]
fn get_profiling_of_an_empty_log() {
    let m = instrumented_counter();
    let mut machine = Machine::new(&m);
    let reply = profiling(&mut machine, 0);
    // The header, the length 0 in five bytes, no entries, and no index to go on from.
    assert_eq!(
        reply,
        vec![
            0x44, 0x49, 0x44, 0x4c, 0x03, 0x6d, 0x01, 0x6c, 0x02, 0x00, 0x75, 0x01, 0x74, 0x6e,
            0x75, 0x02, 0x00, 0x02, 0x80, 0x80, 0x80, 0x80, 0x00, 0x00
        ]
    );
    assert!(!machine.host.trapped);
}

#[test]
fn get_profiling_traps_on_an_argument_of_the_wrong_size() {
    let m = instrumented_counter();
    let mut machine = Machine::new(&m);
    machine.host.arg = vec![0; 12];
    machine.call_export("canister_query __get_profiling", &[]);
    assert!(machine.host.trapped);
}

#[test]
fn the_counter_never_decreases_and_grows_with_every_call() {
    let m = instrumented_counter();
    let mut machine = Machine::new(&m);
    let mut last = counter_of(&mut machine);
    for name in ["canister_update inc", "canister_query get", "canister_update inc"] {
        machine.call_export(name, &[]);
        let now = counter_of(&mut machine);
        assert!(now > last, "{name}: {now} is not more than {last}");
        last = now;
    }
}

#[test]
fn inc_costs_what_its_instructions_cost() {
    let m = instrumented_counter();
    let mut machine = Machine::new(&m);
    let before = counter_of(&mut machine);
    machine.call_export("canister_update inc", &[]);
    let after = counter_of(&mut machine);
    // In the legacy schedule: one unit for the function, one for each of its five
    // instructions, one for the function called, and, once traced, one for each
    // call of the printer with its constant, and one for the block.
    let own = 1 + 5 + 1;
    assert!(after - before >= own);
}

#[test]
fn tracing_starts_after_init_and_frames_every_call() {
    let m = instrumented_counter();
    let mut machine = Machine::new(&m);
    // Until initialisation ends nothing is logged.
    machine.call_export("canister_query get", &[]);
    assert_eq!(entries(&profiling(&mut machine, 0)), vec![]);
    machine.call_export("canister_init", &[]);
    machine.host.reply.clear();
    machine.call_export("canister_update __toggle_entry", &[]);
    assert_eq!(machine.host.reply, b"DIDL\x00\x00".to_vec());
    let get = machine.export("canister_query get") as i32;
    for _ in 0..3 {
        machine.call_export("canister_query get", &[]);
    }
    let log = entries(&profiling(&mut machine, 0));
    let ids: Vec<i32> = log.iter().map(|e| e.0).collect();
    assert_eq!(ids, vec![get, -get, get, -get, get, -get]);
    let costs: Vec<i64> = log.iter().map(|e| e.1).collect();
    assert!(costs.windows(2).all(|w| w[0] <= w[1]));
    // Every exit is preceded by its entry: the positive ids read in order form a stack.
    let mut depth: Vec<i32> = Vec::new();
    for id in ids {
        if id > 0 {
            depth.push(id);
        } else {
            assert_eq!(depth.pop(), Some(-id));
        }
    }
    assert!(depth.is_empty());
}

#[test]
fn the_log_starts_anew_at_each_entry_point_unless_toggled() {
    let m = instrumented_counter();
    let mut machine = Machine::new(&m);
    machine.call_export("canister_init", &[]);
    for _ in 0..3 {
        machine.call_export("canister_query get", &[]);
    }
    assert_eq!(entries(&profiling(&mut machine, 0)).len(), 2);
}

#[test]
fn toggle_tracing_switches_the_log_off() {
    let m = instrumented_counter();
    let mut machine = Machine::new(&m);
    machine.call_export("canister_init", &[]);
    machine.call_export("canister_update __toggle_tracing", &[]);
    machine.call_export("canister_query get", &[]);
    assert_eq!(entries(&profiling(&mut machine, 0)), vec![]);
}

#[test]
fn a_log_of_the_most_pages_drops_what_does_not_fit() {
    let m = instrumented_counter();
    let mut machine = Machine::new(&m);
    machine.call_export("canister_init", &[]);
    machine.call_export("canister_update __toggle_entry", &[]);
    // The log has 4096 pages, and its next entry would end beyond them.
    machine.globals[3] = Val::I32(4096);
    machine.globals[2] = Val::I32(22369620);
    let stable = machine.host.stable.clone();
    machine.call_export("canister_query get", &[]);
    assert_eq!(machine.host.stable, stable);
    assert_eq!(machine.globals[2], Val::I32(22369620));
    assert_eq!(machine.globals[3], Val::I32(4096));
}

#[test]
fn a_log_of_fewer_pages_grows_by_one() {
    let m = instrumented_counter();
    let mut machine = Machine::new(&m);
    machine.call_export("canister_init", &[]);
    machine.call_export("canister_update __toggle_entry", &[]);
    let pages = machine.host.stable.len() / 65536;
    // The page that the log has is full.
    machine.globals[3] = Val::I32(1);
    machine.globals[2] = Val::I32(5459);
    machine.host.stable.resize(65536, 0);
    machine.call_export("canister_query get", &[]);
    assert!(pages <= 1);
    assert_eq!(machine.host.stable.len(), 2 * 65536);
    assert_eq!(machine.globals[2], Val::I32(5461));
    assert_eq!(machine.globals[3], Val::I32(2));
}

#[test]
fn the_globals_survive_an_upgrade() {
    let m = instrumented_counter();
    let mut machine = Machine::new(&m);
    machine.call_export("canister_init", &[]);
    machine.call_export("canister_update inc", &[]);
    let counter = counter_of(&mut machine);
    machine.memory[..24].copy_from_slice(&[7; 24]);
    machine.call_export("canister_pre_upgrade", &[]);
    assert_eq!(&machine.memory[..24], &[7; 24]);
    let saved = machine.globals.clone();
    assert_eq!(&machine.host.stable[..8], &saved[1].i64().to_le_bytes());
    let stable = machine.host.stable.clone();
    let mut after = Machine::new(&m);
    after.host.stable = stable;
    after.call_export("canister_post_upgrade", &[]);
    assert_eq!(after.globals[1..6], saved[1..6]);
    assert!(counter_of(&mut after) >= counter);
}

#[test]
fn partial_tracing_counts_only_inside_the_named_function() {
    let mut m = counter_canister();
    let inc = m.exports[1].item;
    if let ExportItem::Function(id) = inc {
        m.funcs[id].name = Some("inc".to_string());
    }
    let config = InstrumentConfig { trace_only_funcs: vec!["inc".to_string()], ..default_config() };
    assert!(check(&m, &config));
    instrument(&mut m, config).unwrap();
    let mut machine = Machine::new(&m);
    let start = counter_of(&mut machine);
    machine.call_export("canister_query get", &[]);
    assert_eq!(counter_of(&mut machine), start);
    machine.call_export("canister_update inc", &[]);
    assert!(counter_of(&mut machine) > start);
    let log = entries(&profiling(&mut machine, 0));
    let inc_id = machine.export("canister_update inc") as i32;
    assert_eq!(log.iter().map(|e| e.0).collect::<Vec<_>>(), vec![inc_id, -inc_id]);
}

#[test]
fn a_name_that_belongs_to_no_function_is_an_error() {
    let mut m = counter_canister();
    let before = m.clone();
    let config = InstrumentConfig { trace_only_funcs: vec!["nope".to_string()], ..default_config() };
    assert_eq!(instrument(&mut m, config), Err("func \"nope\" not found".to_string()));
    assert_eq!(m, before);
}

#[test]
fn instrument_keeps_the_metadata() {
    let mut m = counter_canister();
    add_metadata(&mut m, Kind::Private, "foo", b"bar".to_vec());
    let config = default_config();
    assert!(check(&m, &config));
    instrument(&mut m, config).unwrap();
    assert_eq!(m.customs[0].name, "icp:private foo");
    assert_eq!(m.customs[0].data, b"bar".to_vec());
    assert_eq!(get_metadata(&m, "foo"), Some(&b"bar"[..]));
}

/// A canister that imports what the limiter wraps, with a function `grow`
/// that hands its argument to `stable_grow`, and a function `send` that
/// adds cycles and calls `call_new` with the callee at 100 and the method
/// name at 200 in the heap.
fn greedy_canister(callee: &[u8], method: &[u8]) -> Module {
    let mut m = Module::new();
    m.memories.push(Memory { shared: false, memory64: false, initial: 1, maximum: None, import: None });
    let stable_grow = import(&mut m, "stable_grow", &[ValType::I32], &[ValType::I32]);
    let cycles_add = import(&mut m, "call_cycles_add", &[ValType::I64], &[]);
    let call_new = import(&mut m, "call_new", &[ValType::I32; 8], &[]);
    let grow = add_function(
        &mut m,
        &[ValType::I32],
        &[ValType::I32],
        vec![at(Instr::LocalGet { local: 0 }), call(stable_grow)],
    );
    let send = add_function(
        &mut m,
        &[],
        &[],
        vec![
            at(Instr::Const { value: Value::I64(5) }),
            call(cycles_add),
            i32c(100),
            i32c(callee.len() as i32),
            i32c(200),
            i32c(method.len() as i32),
            i32c(1),
            i32c(2),
            i32c(3),
            i32c(4),
            call(call_new),
        ],
    );
    m.exports.push(Export { name: "grow".to_string(), item: ExportItem::Function(grow) });
    m.exports.push(Export { name: "send".to_string(), item: ExportItem::Function(send) });
    m.data.push(ic_wasm::module::Data {
        kind: ic_wasm::module::DataKind::Active {
            memory: 0,
            offset: ConstExpr::Value(Value::I32(100)),
        },
        value: callee.to_vec(),
    });
    m
}

fn limited(mut m: Module, config: LimitConfig) -> Module {
    assert!(ic_wasm::limit_resource::check(&m, &config));
    limit_resource(&mut m, &config);
    m
}

fn send(m: &Module, callee: &[u8], method: &[u8]) -> (Vec<CallNew>, Vec<u8>, u32) {
    let mut machine = Machine::new(m);
    for (i, b) in (0..64u8).enumerate() {
        machine.memory[i] = 0xa0 | b;
    }
    machine.memory[100..100 + callee.len()].copy_from_slice(callee);
    machine.memory[200..200 + method.len()].copy_from_slice(method);
    machine.call_export("send", &[]);
    (machine.host.calls.clone(), machine.memory[..256].to_vec(), machine.host.cycles_added)
}

const TARGET: [u8; 10] = [0, 0, 0, 0, 132, 32, 0, 4, 1, 1];
const BACKEND: [u8; 10] = [0, 0, 0, 0, 2, 48, 0, 204, 1, 1];

fn no_limits() -> LimitConfig {
    LimitConfig {
        remove_cycles_add: false,
        limit_stable_memory_page: None,
        limit_heap_memory_page: None,
        playground_canister_id: None,
    }
}

fn heap_before() -> Vec<u8> {
    (0..64u8).map(|b| 0xa0 | b).collect()
}

#[test]
fn stable_memory_does_not_grow_beyond_the_limit() {
    let m = limited(
        greedy_canister(&[], b"x"),
        LimitConfig { limit_stable_memory_page: Some(32), ..no_limits() },
    );
    let mut machine = Machine::new(&m);
    assert_eq!(machine.call_export("grow", &[Val::I32(33)]), vec![Val::I32(-1)]);
    assert_eq!(machine.host.stable.len(), 0);
    assert_eq!(machine.call_export("grow", &[Val::I32(16)]), vec![Val::I32(0)]);
    assert_eq!(machine.host.stable.len(), 16 * 65536);
    assert_eq!(machine.call_export("grow", &[Val::I32(16)]), vec![Val::I32(16)]);
    assert_eq!(machine.call_export("grow", &[Val::I32(1)]), vec![Val::I32(-1)]);
    assert_eq!(machine.host.stable.len(), 32 * 65536);
}

#[test]
fn without_a_limit_stable_memory_grows() {
    let m = limited(greedy_canister(&[], b"x"), no_limits());
    let mut machine = Machine::new(&m);
    assert_eq!(machine.call_export("grow", &[Val::I32(33)]), vec![Val::I32(0)]);
}

#[test]
fn cycles_are_not_transferred_any_more() {
    let plain = limited(greedy_canister(&[], b"x"), no_limits());
    assert_eq!(send(&plain, &[], b"x").2, 1);
    let m = limited(greedy_canister(&[], b"x"), LimitConfig { remove_cycles_add: true, ..no_limits() });
    assert_eq!(send(&m, &[], b"x").2, 0);
    let cycles_add = 1;
    for f in &m.funcs {
        if let FunctionKind::Local(f) = &f.kind {
            for seq in &f.seqs {
                for i in &seq.instrs {
                    assert_ne!(i.instr, Instr::Call { func: cycles_add });
                }
            }
        }
    }
}

#[test]
fn a_management_call_goes_to_the_backend() {
    let m = limited(
        greedy_canister(&[], b"install_code"),
        LimitConfig { playground_canister_id: Some(TARGET.to_vec()), ..no_limits() },
    );
    let (calls, heap, _) = send(&m, &[], b"install_code");
    assert_eq!(
        calls,
        vec![CallNew { callee: TARGET.to_vec(), method: b"install_code".to_vec(), rest: vec![1, 2, 3, 4] }]
    );
    assert_eq!(&heap[..64], &heap_before()[..]);
    assert_eq!(&heap[200..212], b"install_code");
}

#[test]
fn a_call_of_the_old_backend_goes_to_the_new_one() {
    let m = limited(
        greedy_canister(&BACKEND, b"create_canister"),
        LimitConfig { playground_canister_id: Some(TARGET.to_vec()), ..no_limits() },
    );
    let (calls, heap, _) = send(&m, &BACKEND, b"create_canister");
    assert_eq!(calls[0].callee, TARGET.to_vec());
    assert_eq!(calls[0].method, b"create_canister".to_vec());
    assert_eq!(&heap[..64], &heap_before()[..]);
}

#[test]
fn http_request_is_renamed_in_place() {
    let m = limited(
        greedy_canister(&[], b"http_request"),
        LimitConfig { playground_canister_id: Some(TARGET.to_vec()), ..no_limits() },
    );
    let (calls, heap, _) = send(&m, &[], b"http_request");
    assert_eq!(calls[0].callee, TARGET.to_vec());
    assert_eq!(calls[0].method, b"_ttp_request".to_vec());
    assert_eq!(&heap[200..212], b"_ttp_request");
    assert_eq!(&heap[..64], &heap_before()[..]);
    // A name renamed before is sent on as it is.
    let m = limited(
        greedy_canister(&[], b"_ttp_request"),
        LimitConfig { playground_canister_id: Some(TARGET.to_vec()), ..no_limits() },
    );
    let (again, _, _) = send(&m, &[], b"_ttp_request");
    assert_eq!(again[0].callee, TARGET.to_vec());
    assert_eq!(again[0].method, b"_ttp_request".to_vec());
}

#[test]
fn other_calls_pass_as_they_are() {
    let redirect = LimitConfig { playground_canister_id: Some(TARGET.to_vec()), ..no_limits() };
    // Another method of the management canister.
    let m = limited(greedy_canister(&[], b"raw_rand"), redirect.clone());
    let (calls, heap, _) = send(&m, &[], b"raw_rand");
    assert_eq!(calls, vec![CallNew { callee: vec![], method: b"raw_rand".to_vec(), rest: vec![1, 2, 3, 4] }]);
    assert_eq!(&heap[..64], &heap_before()[..]);
    assert_eq!(&heap[200..208], b"raw_rand");
    // A watched method of another canister.
    let other = [1u8, 2, 3];
    let m = limited(greedy_canister(&other, b"install_code"), redirect.clone());
    let (calls, heap, _) = send(&m, &other, b"install_code");
    assert_eq!(calls[0].callee, other.to_vec());
    assert_eq!(calls[0].method, b"install_code".to_vec());
    assert_eq!(&heap[..64], &heap_before()[..]);
    // A method whose name begins like a watched one.
    let m = limited(greedy_canister(&[], b"install_cod"), redirect.clone());
    let (calls, _, _) = send(&m, &[], b"install_cod");
    assert_eq!(calls[0].callee, Vec::<u8>::new());
    let m = limited(greedy_canister(&[], b"install_codes"), redirect.clone());
    let (calls, _, _) = send(&m, &[], b"install_codes");
    assert_eq!(calls[0].callee, Vec::<u8>::new());
}

/// A canister with a memory of 64 bits whose function `send` calls
/// `call_new` with the callee at 100 and the method name at 200 in the heap.
fn wide_canister(callee: &[u8], method: &[u8]) -> Module {
    let mut m = Module::new();
    m.memories.push(Memory { shared: false, memory64: true, initial: 1, maximum: None, import: None });
    let call_new = import(&mut m, "call_new", &[ValType::I64; 8], &[]);
    let i64c = |v: i64| at(Instr::Const { value: Value::I64(v) });
    let send = add_function(
        &mut m,
        &[],
        &[],
        vec![
            i64c(100),
            i64c(callee.len() as i64),
            i64c(200),
            i64c(method.len() as i64),
            i64c(1),
            i64c(2),
            i64c(3),
            i64c(4),
            call(call_new),
        ],
    );
    m.exports.push(Export { name: "send".to_string(), item: ExportItem::Function(send) });
    m
}

#[test]
fn a_wrapper_of_64_bits_sends_watched_calls_to_the_backend() {
    let redirect = LimitConfig { playground_canister_id: Some(TARGET.to_vec()), ..no_limits() };
    let m = limited(wide_canister(&[], b"install_code"), redirect.clone());
    let (calls, heap, _) = send(&m, &[], b"install_code");
    assert_eq!(
        calls,
        vec![CallNew { callee: TARGET.to_vec(), method: b"install_code".to_vec(), rest: vec![1, 2, 3, 4] }]
    );
    assert_eq!(&heap[..64], &heap_before()[..]);
    assert_eq!(&heap[200..212], b"install_code");
    let m = limited(wide_canister(&BACKEND, b"http_request"), redirect.clone());
    let (calls, heap, _) = send(&m, &BACKEND, b"http_request");
    assert_eq!(calls[0].callee, TARGET.to_vec());
    assert_eq!(calls[0].method, b"_ttp_request".to_vec());
    assert_eq!(calls[0].rest, vec![1, 2, 3, 4]);
    assert_eq!(&heap[200..212], b"_ttp_request");
    assert_eq!(&heap[..64], &heap_before()[..]);
}

#[test]
fn a_wrapper_of_64_bits_lets_other_calls_pass() {
    let redirect = LimitConfig { playground_canister_id: Some(TARGET.to_vec()), ..no_limits() };
    let m = limited(wide_canister(&[], b"raw_rand"), redirect.clone());
    let (calls, heap, _) = send(&m, &[], b"raw_rand");
    assert_eq!(calls, vec![CallNew { callee: vec![], method: b"raw_rand".to_vec(), rest: vec![1, 2, 3, 4] }]);
    assert_eq!(&heap[..64], &heap_before()[..]);
    assert_eq!(&heap[200..208], b"raw_rand");
    let other = [1u8, 2, 3];
    let m = limited(wide_canister(&other, b"http_request"), redirect);
    let (calls, heap, _) = send(&m, &other, b"http_request");
    assert_eq!(calls[0].callee, other.to_vec());
    assert_eq!(calls[0].method, b"http_request".to_vec());
    assert_eq!(&heap[200..212], b"http_request");
    assert_eq!(&heap[..64], &heap_before()[..]);
}

#[test]
fn limit_resource_keeps_the_metadata() {
    let mut m = greedy_canister(&[], b"x");
    add_metadata(&mut m, Kind::Public, "candid:service", b"service : {}".to_vec());
    let before = m.customs.clone();
    let m = limited(
        m,
        LimitConfig {
            remove_cycles_add: true,
            limit_stable_memory_page: Some(32),
            limit_heap_memory_page: Some(16),
            playground_canister_id: Some(TARGET.to_vec()),
        },
    );
    assert_eq!(m.customs, before);
}
