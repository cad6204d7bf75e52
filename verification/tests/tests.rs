use ic_wasm::check_endpoints::{
    candid_endpoints, check_endpoints as compare_endpoints, parse_line, read_hidden_endpoints,
    read_lines, wasm_endpoints, CanisterEndpoint, FuncMode, Mismatch, ServiceMethod,
};
use ic_wasm::info::{
    get_exported_methods, CustomSectionInfo, ExportedMethodInfo, LanguageSpecificInfo, WasmInfo,
};
use ic_wasm::instrumentation::{
    inject_metering, inject_profiling_prints, make_name_section, Config, Variables,
};
use ic_wasm::ir::{BinaryOp, Instr, InstrSeqType, UnaryOp, ValType, Value, DEFAULT_LOC};
use ic_wasm::limit_resource::{
    can_limit_heap_memory, check as can_limit, controller_function_names, limit_heap_memory,
    Config as LimitConfig, Replacer,
};
use ic_wasm::metadata::{add_metadata, get_metadata, list_metadata, remove_metadata, Kind};
use ic_wasm::module::{
    ConstExpr, CustomSection, Data, DataKind, Export, ExportItem, FuncType, Function,
    FunctionKind, Global, GlobalKind, Import, ImportKind, InstrSeq, LocalFunction, Located,
    Memory, Module,
};
use ic_wasm::shrink::shrink as strip;
use ic_wasm::utils::{
    encode_module_as_data_section, get_func_name, get_ic_func_id, get_motoko_wasm_data_sections,
    get_or_create_export_func, instr_cost, is_motoko_canister, is_motoko_wasm_data_section,
    FunctionCost, InjectionKind,
};
use ic_wasm::Error;

fn at(instr: Instr) -> Located {
    Located { instr, loc: DEFAULT_LOC }
}

fn from_source(instr: Instr, loc: u32) -> Located {
    Located { instr, loc }
}

fn i32c(v: i32) -> Instr {
    Instr::Const { value: Value::I32(v) }
}

fn i64c(v: i64) -> Instr {
    Instr::Const { value: Value::I64(v) }
}

fn section(name: &str, data: &[u8]) -> CustomSection {
    CustomSection { name: name.to_string(), data: data.to_vec() }
}

/// A module with the metadata of a Motoko canister.
fn motoko_metadata() -> Module {
    let mut m = Module::new();
    m.customs.push(section("icp:public candid:service", b"service : {}"));
    m.customs.push(section("icp:private motoko:stable-types", b"actor {}"));
    m.customs.push(section("icp:private motoko:compiler", b"0.10.0"));
    m.customs.push(section("icp:public candid:args", b"()"));
    m
}

#[test]
fn metadata() {
    // List metadata
    let m = motoko_metadata();
    assert_eq!(
        list_metadata(&m),
        vec![
            "icp:public candid:service",
            "icp:private motoko:stable-types",
            "icp:private motoko:compiler",
            "icp:public candid:args",
        ]
    );
    // Get motoko:compiler content
    assert_eq!(get_metadata(&m, "motoko:compiler"), Some(&b"0.10.0"[..]));
    // Get a non-existed metadata
    assert_eq!(get_metadata(&m, "whatever"), None);
    // Overwrite motoko:compiler
    let mut out = motoko_metadata();
    add_metadata(&mut out, Kind::Private, "motoko:compiler", b"hello".to_vec());
    assert_eq!(get_metadata(&out, "motoko:compiler"), Some(&b"hello"[..]));
    // Add a new metadata
    let mut out = motoko_metadata();
    add_metadata(&mut out, Kind::Public, "whatever", b"what?".to_vec());
    assert_eq!(
        list_metadata(&out),
        vec![
            "icp:public candid:service",
            "icp:private motoko:stable-types",
            "icp:private motoko:compiler",
            "icp:public candid:args",
            "icp:public whatever",
        ]
    );
}

#[test]
fn an_entry_is_there_once_whatever_its_visibility_was() {
    let mut m = motoko_metadata();
    add_metadata(&mut m, Kind::Public, "motoko:compiler", b"0.11.0".to_vec());
    assert_eq!(get_metadata(&m, "motoko:compiler"), Some(&b"0.11.0"[..]));
    let names = list_metadata(&m);
    assert_eq!(names.iter().filter(|n| n.ends_with(" motoko:compiler")).count(), 1);
    assert_eq!(names[3], "icp:public motoko:compiler");
    remove_metadata(&mut m, "motoko:compiler");
    assert_eq!(get_metadata(&m, "motoko:compiler"), None);
    assert_eq!(list_metadata(&m).len(), 3);
}

#[test]
fn list_metadata_leaves_out_other_sections() {
    let mut m = motoko_metadata();
    m.customs.insert(1, section("producers", b"x"));
    m.customs.push(section("icpx", b""));
    assert_eq!(list_metadata(&m).len(), 4);
    strip(&mut m);
    assert_eq!(m.customs, motoko_metadata().customs);
}

fn function_import(m: &mut Module, name: &str, params: &[ValType], results: &[ValType]) -> usize {
    let ty = m.add_type(params, results, false);
    m.add_import_func("ic0", name, ty)
}

fn local_function(m: &mut Module, params: &[ValType], results: &[ValType], instrs: Vec<Located>) -> usize {
    let ty = m.add_type(params, results, false);
    let entry_ty = m.add_type(&[], results, true);
    let mut args = Vec::new();
    for p in params {
        args.push(m.add_local(*p));
    }
    let seqs = vec![InstrSeq { ty: InstrSeqType::MultiValue(entry_ty), instrs }];
    m.add_func(Function { name: None, kind: FunctionKind::Local(LocalFunction { ty, args, seqs, entry: 0 }) })
}

/// A small canister: five system functions, four functions of its own of
/// which three are exported, one global and three data segments of 35
/// bytes.
fn small_canister() -> Module {
    let mut m = Module::new();
    m.memories.push(Memory { shared: false, memory64: false, initial: 1, maximum: None, import: None });
    function_import(&mut m, "msg_reply", &[], &[]);
    function_import(&mut m, "msg_reply_data_append", &[ValType::I32, ValType::I32], &[]);
    function_import(&mut m, "msg_arg_data_size", &[], &[ValType::I32]);
    function_import(&mut m, "msg_arg_data_copy", &[ValType::I32, ValType::I32, ValType::I32], &[]);
    function_import(&mut m, "trap", &[ValType::I32, ValType::I32], &[]);
    m.add_global(Global {
        ty: ValType::I32,
        mutable: true,
        shared: false,
        kind: GlobalKind::Local(ConstExpr::Value(Value::I32(0))),
    });
    let get = local_function(&mut m, &[], &[], vec![at(Instr::Call { func: 0 })]);
    let inc = local_function(&mut m, &[], &[], vec![at(Instr::Call { func: 0 })]);
    let set = local_function(&mut m, &[], &[], vec![at(Instr::Call { func: 0 })]);
    local_function(&mut m, &[ValType::I32], &[], vec![at(Instr::LocalGet { local: 0 }), at(Instr::Drop)]);
    for (name, id) in [("canister_query get", get), ("canister_update inc", inc), ("canister_update set", set)] {
        m.exports.push(Export { name: name.to_string(), item: ExportItem::Function(id) });
    }
    for (offset, len) in [(0, 4), (4, 10), (14, 21)] {
        m.data.push(Data {
            kind: DataKind::Active { memory: 0, offset: ConstExpr::Value(Value::I32(offset)) },
            value: vec![1; len],
        });
    }
    m
}

#[test]
fn info() {
    let expected = r#"Number of types: 6
Number of globals: 1

Number of data sections: 3
Size of data sections: 35 bytes

Number of functions: 9
Number of callbacks: 0
Start function: None
Exported methods: [
    "canister_query get (func_5)",
    "canister_update inc (func_6)",
    "canister_update set (func_7)",
]

Imported IC0 System API: [
    "msg_reply",
    "msg_reply_data_append",
    "msg_arg_data_size",
    "msg_arg_data_copy",
    "trap",
]

Custom sections with size: []
"#;
    let m = small_canister();
    assert_eq!(WasmInfo::from(&m, vec![]).to_text(), expected);
}

#[test]
fn info_of_a_motoko_canister_shows_the_embedded_modules() {
    let inner = WasmInfo {
        language: LanguageSpecificInfo::Unknown,
        number_of_types: 1,
        number_of_globals: 2,
        number_of_data_sections: 0,
        size_of_data_sections: 0,
        number_of_functions: 3,
        number_of_callbacks: 4,
        start_function: Some("main".to_string()),
        exported_methods: vec![ExportedMethodInfo {
            name: "start".to_string(),
            internal_name: "start".to_string(),
        }],
        imported_ic0_system_api: vec![],
        custom_sections: vec![CustomSectionInfo { name: "icp:public x".to_string(), size: 12 }],
    };
    let inner_text = inner.to_text();
    assert_eq!(
        inner_text,
        "Number of types: 1\nNumber of globals: 2\n\nNumber of data sections: 0\n\
         Size of data sections: 0 bytes\n\nNumber of functions: 3\nNumber of callbacks: 4\n\
         Start function: Some(\"main\")\nExported methods: [\n    \"start\",\n]\n\n\
         Imported IC0 System API: []\n\nCustom sections with size: [\n    \
         \"icp:public x (12 bytes)\",\n]\n"
    );
    let mut m = small_canister();
    m.customs.push(section("icp:private motoko:compiler", b"0.10.0"));
    assert!(is_motoko_canister(&m));
    let info = WasmInfo::from(&m, vec![("DataId { idx: 1 }".to_string(), inner)]);
    let text = info.to_text();
    let head = format!(
        "This is a Motoko canister\n--- Start decoding an embedded Wasm ---\n{inner_text}\
         --- End of decoding ---\n\nNumber of types: 6\n"
    );
    assert!(text.starts_with(&head), "{text}");
    assert!(text.ends_with("Custom sections with size: [\n    \"icp:private motoko:compiler (6 bytes)\",\n]\n"));
    assert_eq!(info.number_of_functions, 9);
    assert_eq!(info.size_of_data_sections, 35);
}

#[test]
fn a_canister_is_motoko_by_its_helper_too() {
    let mut m = small_canister();
    assert!(!is_motoko_canister(&m));
    assert_eq!(WasmInfo::from(&m, vec![]).language, LanguageSpecificInfo::Unknown);
    m.exports.push(Export {
        name: "canister_update __motoko_async_helper".to_string(),
        item: ExportItem::Function(5),
    });
    assert!(is_motoko_canister(&m));
    assert_eq!(
        WasmInfo::from(&m, vec![]).language,
        LanguageSpecificInfo::Motoko { embedded_wasm: vec![] }
    );
}

fn query(name: &str) -> CanisterEndpoint {
    CanisterEndpoint::Query(name.to_string())
}

fn update(name: &str) -> CanisterEndpoint {
    CanisterEndpoint::Update(name.to_string())
}

fn method(name: &str, modes: Option<Vec<FuncMode>>) -> ServiceMethod {
    ServiceMethod { name: name.to_string(), modes }
}

#[test]
fn check_endpoints() {
    let m = small_canister();
    let wasm = wasm_endpoints(&get_exported_methods(&m)).unwrap();
    assert_eq!(wasm, vec![query("get"), update("inc"), update("set")]);
    let candid = candid_endpoints(&vec![
        method("get", Some(vec![FuncMode::Query])),
        method("inc", Some(vec![])),
        method("set", Some(vec![])),
    ]);
    let hidden = read_hidden_endpoints(None).unwrap();
    assert_eq!(compare_endpoints(&wasm, &candid, &hidden), Ok(()));
}

#[test]
fn endpoints_that_differ_are_reported() {
    let wasm = vec![query("get"), update("inc"), CanisterEndpoint::Entrypoint("canister_init".to_string())];
    let candid = vec![query("get"), update("set")];
    let hidden = vec![update("hidden")];
    assert_eq!(
        compare_endpoints(&wasm, &candid, &hidden),
        Err(Mismatch {
            missing_candid: vec![update("set")],
            missing_hidden: vec![update("hidden")],
            unexpected: vec![update("inc"), CanisterEndpoint::Entrypoint("canister_init".to_string())],
        })
    );
    let hidden = vec![update("inc"), CanisterEndpoint::Entrypoint("canister_init".to_string())];
    assert_eq!(compare_endpoints(&wasm, &vec![query("get")], &hidden), Ok(()));
}

#[test]
fn a_service_declares_queries_and_updates() {
    let endpoints = candid_endpoints(&vec![
        method("a", Some(vec![FuncMode::Oneway])),
        method("b", Some(vec![FuncMode::CompositeQuery])),
        method("c", None),
        method("a", Some(vec![])),
    ]);
    assert_eq!(endpoints, vec![update("a"), query("b")]);
}

fn exported(name: &str) -> ExportedMethodInfo {
    ExportedMethodInfo { name: name.to_string(), internal_name: "f".to_string() }
}

#[test]
fn an_export_is_an_endpoint_by_its_name() {
    assert_eq!(CanisterEndpoint::try_from(&exported("canister_update  inc ")), Ok(update("inc")));
    assert_eq!(CanisterEndpoint::try_from(&exported("canister_query get")), Ok(query("get")));
    assert_eq!(
        CanisterEndpoint::try_from(&exported("canister_composite_query\u{a0}all\t")),
        Ok(CanisterEndpoint::CompositeQuery("all".to_string()))
    );
    assert_eq!(
        CanisterEndpoint::try_from(&exported(" canister_init\n")),
        Ok(CanisterEndpoint::Entrypoint("canister_init".to_string()))
    );
    assert_eq!(CanisterEndpoint::try_from(&exported("canister_update")), Ok(update("")));
    assert_eq!(
        CanisterEndpoint::try_from(&exported(" \t ")),
        Err("Exported method in canister WASM has empty name".to_string())
    );
    assert_eq!(
        wasm_endpoints(&vec![exported("a"), exported(""), exported("b")]),
        Err("Exported method in canister WASM has empty name".to_string())
    );
}

#[test]
fn an_endpoint_reads_as_it_is_written() {
    for e in [
        update("inc"),
        query("get"),
        CanisterEndpoint::CompositeQuery("all".to_string()),
        CanisterEndpoint::Entrypoint("canister_heartbeat".to_string()),
    ] {
        assert_eq!(CanisterEndpoint::from_text(&e.to_text()), e);
    }
    assert_eq!(update("inc").to_text(), "canister_update:inc");
    assert_eq!(query("get").to_text(), "canister_query:get");
    assert_eq!(
        CanisterEndpoint::CompositeQuery("all".to_string()).to_text(),
        "canister_composite_query:all"
    );
    assert_eq!(
        CanisterEndpoint::from_text("canister_update inc"),
        CanisterEndpoint::Entrypoint("canister_update inc".to_string())
    );
    assert!(update("a").same(&update("a")));
    assert!(!update("a").same(&query("a")));
}

#[test]
fn lines_of_hidden_endpoints() {
    assert_eq!(parse_line("# a comment"), Ok(None));
    assert_eq!(parse_line("canister_update:inc"), Ok(Some(update("inc"))));
    assert_eq!(parse_line("\"canister_query:a\\\"b\\n\""), Ok(Some(query("a\"b\n"))));
    assert_eq!(
        parse_line("\"canister_query:get"),
        Err("Could not parse hidden endpoint, missing terminating quote: \"canister_query:get".to_string())
    );
    assert_eq!(
        parse_line("\""),
        Err("Could not parse hidden endpoint, missing terminating quote: \"".to_string())
    );
    let broken = parse_line("\"a\"b\"").unwrap_err();
    assert!(broken.starts_with("Could not parse hidden endpoint: Error("), "{broken}");
    let lines: Vec<String> =
        ["  canister_update:inc ", "", "# none", "\t", "canister_update:inc", "canister_global_timer"]
            .iter()
            .map(|l| l.to_string())
            .collect();
    assert_eq!(read_lines(&lines), vec!["canister_update:inc", "# none", "canister_update:inc", "canister_global_timer"]);
    assert_eq!(
        read_hidden_endpoints(Some(&lines)),
        Ok(vec![update("inc"), CanisterEndpoint::Entrypoint("canister_global_timer".to_string())])
    );
    assert_eq!(read_hidden_endpoints(None), Ok(vec![]));
    let bad: Vec<String> = vec!["a".to_string(), "\"b".to_string(), "\"".to_string()];
    assert_eq!(
        read_hidden_endpoints(Some(&bad)),
        Err("Could not parse hidden endpoint, missing terminating quote: \"b".to_string())
    );
}

#[test]
fn errors_have_their_messages() {
    assert_eq!(Error::IO("disk".to_string()).message(), "Failed on IO.");
    assert_eq!(
        Error::WasmParse("bad magic".to_string()).message(),
        "Could not parse the data as WASM module. bad magic"
    );
    assert_eq!(
        Error::MetadataNotFound("Cannot find metadata whatever".to_string()).message(),
        "Cannot find metadata whatever"
    );
}

#[test]
fn the_cost_of_system_calls() {
    let m = {
        let mut m = small_canister();
        function_import(&mut m, "stable64_write", &[ValType::I64; 3], &[]);
        function_import(&mut m, "call_perform", &[], &[ValType::I32]);
        function_import(&mut m, "unknown_to_all", &[], &[]);
        let ty = m.add_type(&[], &[], false);
        let id = m.funcs.len();
        m.funcs.push(Function { name: None, kind: FunctionKind::Import { ty, import: m.imports.len() } });
        m.imports.push(Import { module: "env".to_string(), name: "trap".to_string(), kind: ImportKind::Function(id) });
        m
    };
    let current = FunctionCost::new(&m, true);
    assert_eq!(current.get_cost(0), (500, InjectionKind::Static));
    assert_eq!(current.get_cost(1), (500, InjectionKind::Dynamic));
    assert_eq!(current.get_cost(4), (500, InjectionKind::Dynamic));
    assert_eq!(current.get_cost(9), (20, InjectionKind::Dynamic64));
    assert_eq!(current.get_cost(10), (5000, InjectionKind::Static));
    assert_eq!(current.get_cost(11), (1, InjectionKind::Static));
    assert_eq!(current.get_cost(12), (1, InjectionKind::Static));
    assert_eq!(current.get_cost(5), (1, InjectionKind::Static));
    let legacy = FunctionCost::new(&m, false);
    assert_eq!(legacy.get_cost(0), (1, InjectionKind::Static));
    assert_eq!(legacy.get_cost(1), (21, InjectionKind::Dynamic));
    assert_eq!(legacy.get_cost(3), (21, InjectionKind::Dynamic));
    assert_eq!(legacy.get_cost(4), (21, InjectionKind::Dynamic));
    assert_eq!(legacy.get_cost(9), (21, InjectionKind::Dynamic64));
    assert_eq!(legacy.get_cost(10), (1, InjectionKind::Static));
}

#[test]
fn the_cost_of_instructions() {
    let costs = [
        (Instr::Block { seq: 0 }, 0),
        (Instr::Loop { seq: 0 }, 0),
        (i32c(1), 1),
        (Instr::GlobalGet { global: 0 }, 2),
        (Instr::GlobalSet { global: 0 }, 2),
        (Instr::TableGet { table: 0 }, 5),
        (Instr::TableGrow { table: 0 }, 300),
        (Instr::MemoryGrow { memory: 0 }, 300),
        (Instr::MemorySize { memory: 0 }, 20),
        (Instr::TableSize { table: 0 }, 100),
        (Instr::MemoryFill { memory: 0 }, 100),
        (Instr::MemoryCopy { src: 0, dst: 0 }, 100),
        (Instr::MemoryInit { memory: 0, data: 0 }, 100),
        (Instr::TableCopy { src: 0, dst: 0 }, 100),
        (Instr::DataDrop { data: 0 }, 300),
        (Instr::Call { func: 0 }, 5),
        (Instr::CallIndirect { ty: 0, table: 0 }, 10),
        (Instr::IfElse { consequent: 0, alternative: 1 }, 2),
        (Instr::Br { block: 0 }, 2),
        (Instr::BrTable { blocks: vec![0], default: 0 }, 2),
        (Instr::RefIsNull, 5),
        (Instr::RefFunc { func: 0 }, 130),
        (Instr::Unop { op: UnaryOp::F64Sqrt }, 20),
        (Instr::Unop { op: UnaryOp::F32Neg }, 2),
        (Instr::Unop { op: UnaryOp::F32ConvertSI32 }, 3),
        (Instr::Unop { op: UnaryOp::F32ConvertUI32 }, 16),
        (Instr::Unop { op: UnaryOp::I32TruncSF64 }, 20),
        (Instr::Unop { op: UnaryOp::I32Eqz }, 1),
        (Instr::Binop { op: BinaryOp::I32DivS }, 10),
        (Instr::Binop { op: BinaryOp::I64RemU }, 10),
        (Instr::Binop { op: BinaryOp::F32Div }, 20),
        (Instr::Binop { op: BinaryOp::F64Copysign }, 2),
        (Instr::Binop { op: BinaryOp::F64Le }, 3),
        (Instr::Binop { op: BinaryOp::I32Add }, 1),
        (Instr::Drop, 1),
        (Instr::Return, 1),
        (Instr::Opaque { token: 7 }, 1),
    ];
    for (instr, cost) in costs {
        assert_eq!(instr_cost(&instr, true), cost, "{instr:?}");
        assert_eq!(instr_cost(&instr, false), 1, "{instr:?}");
    }
}

fn variables() -> Variables {
    Variables {
        total_counter: 10,
        log_size: 11,
        page_size: 12,
        is_init: 13,
        is_entry: 14,
        dynamic_counter_func: 20,
        dynamic_counter64_func: 21,
    }
}

fn charge(cost: i64) -> Vec<Located> {
    vec![
        at(Instr::GlobalGet { global: 10 }),
        at(i64c(cost)),
        at(Instr::Binop { op: BinaryOp::I64Add }),
        at(Instr::GlobalSet { global: 10 }),
    ]
}

fn partial_charge(cost: i64) -> Vec<Located> {
    vec![
        at(Instr::GlobalGet { global: 10 }),
        at(i64c(cost)),
        at(Instr::GlobalGet { global: 13 }),
        at(i32c(1)),
        at(Instr::Binop { op: BinaryOp::I32Xor }),
        at(Instr::Unop { op: UnaryOp::I64ExtendUI32 }),
        at(Instr::Binop { op: BinaryOp::I64Mul }),
        at(Instr::Binop { op: BinaryOp::I64Add }),
        at(Instr::GlobalSet { global: 10 }),
    ]
}

fn function_of(seqs: Vec<InstrSeq>) -> LocalFunction {
    LocalFunction { ty: 0, args: vec![], seqs, entry: 0 }
}

fn simple(ty: Option<ValType>, instrs: Vec<Located>) -> InstrSeq {
    InstrSeq { ty: InstrSeqType::Simple(ty), instrs }
}

#[test]
fn metering_charges_a_window_before_its_last_instruction() {
    let m = small_canister();
    let body = vec![
        from_source(Instr::GlobalGet { global: 0 }, 100),
        from_source(i32c(1), 101),
        from_source(Instr::Binop { op: BinaryOp::I32Add }, 102),
        from_source(Instr::GlobalSet { global: 0 }, 103),
        from_source(Instr::Call { func: 0 }, 104),
    ];
    let f = function_of(vec![InstrSeq { ty: InstrSeqType::MultiValue(0), instrs: body.clone() }]);
    let legacy = inject_metering(&f, 0, &variables(), &FunctionCost::new(&m, false), false, false);
    let mut expected = body[..4].to_vec();
    expected.extend(charge(1 + 5 + 1));
    expected.push(body[4].clone());
    assert_eq!(legacy.seqs[0].instrs, expected);
    assert_eq!(legacy.seqs[0].ty, InstrSeqType::MultiValue(0));
    let current = inject_metering(&f, 0, &variables(), &FunctionCost::new(&m, true), true, true);
    let mut expected = body[..4].to_vec();
    expected.extend(partial_charge(1 + 2 + 1 + 1 + 2 + 5 + 500));
    expected.push(body[4].clone());
    assert_eq!(current.seqs[0].instrs, expected);
}

#[test]
fn metering_closes_a_window_at_control_flow() {
    let m = small_canister();
    let entry = vec![
        at(i32c(1)),
        at(Instr::IfElse { consequent: 1, alternative: 2 }),
        at(Instr::Block { seq: 3 }),
        at(Instr::Block { seq: 4 }),
        at(Instr::Drop),
        at(i32c(0)),
        at(Instr::BrIf { block: 0 }),
        at(Instr::Return),
    ];
    let f = function_of(vec![
        InstrSeq { ty: InstrSeqType::MultiValue(0), instrs: entry.clone() },
        simple(None, vec![]),
        simple(None, vec![at(Instr::Unreachable), at(Instr::Drop)]),
        simple(None, vec![at(Instr::Br { block: 3 })]),
        simple(Some(ValType::I32), vec![at(i32c(5))]),
    ]);
    let r = inject_metering(&f, 0, &variables(), &FunctionCost::new(&m, true), false, true);
    let mut expected = vec![entry[0].clone()];
    // The function, the constant and the `if`.
    expected.extend(charge(1 + 1 + 2));
    expected.push(entry[1].clone());
    // A block without a result is free, and so is a block with one in this schedule.
    expected.push(entry[2].clone());
    expected.push(entry[3].clone());
    expected.push(entry[4].clone());
    expected.push(entry[5].clone());
    expected.extend(charge(1 + 1 + 2));
    expected.push(entry[6].clone());
    expected.extend(charge(1));
    expected.push(entry[7].clone());
    assert_eq!(r.seqs[0].instrs, expected);
    assert_eq!(r.seqs[1].instrs, vec![]);
    let mut dead = charge(1);
    dead.push(at(Instr::Unreachable));
    dead.extend(charge(1));
    dead.push(at(Instr::Drop));
    assert_eq!(r.seqs[2].instrs, dead);
    let mut leave = charge(2);
    leave.push(at(Instr::Br { block: 3 }));
    assert_eq!(r.seqs[3].instrs, leave);
    let mut five = charge(1);
    five.push(at(i32c(5)));
    assert_eq!(r.seqs[4].instrs, five);
    // In the legacy schedule a block with a result costs one unit.
    let legacy = inject_metering(&f, 0, &variables(), &FunctionCost::new(&m, false), false, false);
    let mut expected = vec![entry[0].clone()];
    expected.extend(charge(1 + 1 + 1));
    expected.extend(entry[1..3].to_vec());
    expected.extend(charge(1));
    expected.push(entry[3].clone());
    expected.extend(entry[4..6].to_vec());
    expected.extend(charge(1 + 1 + 1));
    expected.push(entry[6].clone());
    expected.extend(charge(1));
    expected.push(entry[7].clone());
    assert_eq!(legacy.seqs[0].instrs, expected);
}

#[test]
fn metering_counts_the_size_of_a_dynamic_call() {
    let mut m = small_canister();
    let write64 = function_import(&mut m, "stable64_write", &[ValType::I64; 3], &[]);
    let body = vec![
        at(i32c(0)),
        at(i32c(8)),
        at(Instr::Call { func: 1 }),
        at(Instr::MemoryFill { memory: 0 }),
        at(Instr::Call { func: write64 }),
        at(Instr::Drop),
        at(Instr::Call { func: 4 }),
    ];
    let f = function_of(vec![InstrSeq { ty: InstrSeqType::MultiValue(0), instrs: body.clone() }]);
    let r = inject_metering(&f, 0, &variables(), &FunctionCost::new(&m, false), false, false);
    let mut expected = vec![body[0].clone(), body[1].clone()];
    expected.push(at(Instr::Call { func: 20 }));
    expected.push(body[2].clone());
    expected.push(at(Instr::Call { func: 20 }));
    expected.push(body[3].clone());
    expected.push(at(Instr::Call { func: 21 }));
    expected.push(body[4].clone());
    expected.push(body[5].clone());
    expected.push(at(Instr::Call { func: 20 }));
    expected.extend(charge(1 + 7 + 21 + 21 + 21));
    expected.push(body[6].clone());
    assert_eq!(r.seqs[0].instrs, expected);
}

#[test]
fn an_empty_function_still_costs_a_unit() {
    let m = small_canister();
    let f = function_of(vec![InstrSeq { ty: InstrSeqType::MultiValue(0), instrs: vec![] }, simple(None, vec![])]);
    let r = inject_metering(&f, 0, &variables(), &FunctionCost::new(&m, false), false, false);
    assert_eq!(r.seqs[0].instrs, charge(1));
    assert_eq!(r.seqs[1].instrs, vec![]);
}

#[test]
fn tracing_wraps_the_body_in_a_block() {
    let types = vec![
        FuncType { params: vec![], results: vec![ValType::I64], entry: false },
        FuncType { params: vec![], results: vec![ValType::I64], entry: true },
    ];
    let body = vec![
        from_source(Instr::BrIf { block: 0 }, 1),
        from_source(Instr::Br { block: 1 }, 2),
        from_source(Instr::BrTable { blocks: vec![0, 1, 0], default: 0 }, 3),
        from_source(Instr::Return, 4),
        from_source(i64c(1), 5),
    ];
    let inner = vec![from_source(Instr::Br { block: 0 }, 6), from_source(Instr::Return, 7)];
    let f = LocalFunction {
        ty: 0,
        args: vec![3],
        seqs: vec![
            InstrSeq { ty: InstrSeqType::MultiValue(1), instrs: body },
            simple(None, inner),
        ],
        entry: 0,
    };
    let r = inject_profiling_prints(&types, 30, 7, &f, false, &variables());
    assert_eq!(
        r.seqs[0],
        InstrSeq {
            ty: InstrSeqType::MultiValue(1),
            instrs: vec![
                at(i32c(7)),
                at(Instr::Call { func: 30 }),
                at(Instr::Block { seq: 2 }),
                at(i32c(-7)),
                at(Instr::Call { func: 30 }),
            ],
        }
    );
    assert_eq!(
        r.seqs[2],
        simple(
            Some(ValType::I64),
            vec![
                from_source(Instr::BrIf { block: 2 }, 1),
                from_source(Instr::Br { block: 1 }, 2),
                from_source(Instr::BrTable { blocks: vec![2, 1, 2], default: 2 }, 3),
                from_source(Instr::Br { block: 2 }, 4),
                from_source(i64c(1), 5),
            ]
        )
    );
    assert_eq!(
        r.seqs[1],
        simple(None, vec![from_source(Instr::Br { block: 2 }, 6), from_source(Instr::Br { block: 2 }, 7)])
    );
    assert_eq!((r.ty, r.args.clone(), r.entry), (0, vec![3], 0));
    let partial = inject_profiling_prints(&types, 30, 7, &f, true, &variables());
    assert_eq!(
        partial.seqs[0].instrs,
        vec![
            at(i32c(0)),
            at(Instr::GlobalSet { global: 13 }),
            at(i32c(7)),
            at(Instr::Call { func: 30 }),
            at(Instr::Block { seq: 2 }),
            at(i32c(-7)),
            at(Instr::Call { func: 30 }),
            at(i32c(1)),
            at(Instr::GlobalSet { global: 13 }),
        ]
    );
}

#[test]
fn the_addresses_of_a_configuration() {
    let default = Config { trace_only_funcs: vec![], start_address: None, page_limit: None, use_new_metering: false };
    assert!(!default.is_preallocated());
    assert_eq!(default.metadata_start_address(), 0);
    assert_eq!(default.log_start_address(), 24);
    assert_eq!(default.page_limit(), 4095);
    let region = Config { start_address: Some(65536), page_limit: Some(16), ..default };
    assert!(region.is_preallocated());
    assert_eq!(region.metadata_start_address(), 65536);
    assert_eq!(region.log_start_address(), 65560);
    assert_eq!(region.page_limit(), 15);
}

#[test]
fn the_name_section_holds_the_readable_names() {
    let mut m = small_canister();
    m.funcs[0].name = Some("imported".to_string());
    m.funcs[5].name = Some("_ZN3foo3bar17h05af221e174051e9E".to_string());
    m.funcs[7].name = Some("plain".to_string());
    let section = make_name_section(&m);
    assert_eq!(section.name, "icp:public name");
    let names = vec![(5u16, "foo::bar".to_string()), (7u16, "plain".to_string())];
    assert_eq!(section.data, candid::encode_one(&names).unwrap());
    assert_eq!(&section.data[..4], b"DIDL");
}

#[test]
fn a_module_in_a_data_segment() {
    let mut wasm = vec![0x00, 0x61, 0x73, 0x6d, 0x01, 0x00, 0x00, 0x00];
    wasm.extend(vec![0xaa; 300]);
    let blob = encode_module_as_data_section(&wasm);
    assert_eq!(&blob[..8], &[0x11, 0x00, 0x00, 0x00, 0x34, 0x01, 0x00, 0x00]);
    assert_eq!(&blob[8..], &wasm[..]);
    assert_eq!(is_motoko_wasm_data_section(&blob), Some(&wasm[..]));
    // A length that is not that of the payload.
    let mut longer = blob.clone();
    longer.push(0);
    assert_eq!(is_motoko_wasm_data_section(&longer), None);
    // A payload that is no module.
    let mut other = blob.clone();
    other[9] = 0x62;
    assert_eq!(is_motoko_wasm_data_section(&other), None);
    // Another tag.
    let mut tagged = blob.clone();
    tagged[0] = 0x12;
    assert_eq!(is_motoko_wasm_data_section(&tagged), None);
    // The frame is the tag, the length and the magic: a short module is one too.
    let short = encode_module_as_data_section(&wasm[..8]);
    assert_eq!(short, vec![0x11, 0, 0, 0, 8, 0, 0, 0, 0x00, 0x61, 0x73, 0x6d, 1, 0, 0, 0]);
    assert_eq!(is_motoko_wasm_data_section(&short), Some(&wasm[..8]));
    let least = encode_module_as_data_section(&wasm[..4]);
    assert_eq!(least.len(), 12);
    assert_eq!(is_motoko_wasm_data_section(&least), Some(&wasm[..4]));
    // Too short to hold the magic.
    assert_eq!(is_motoko_wasm_data_section(&[0x11, 0, 0, 0, 3, 0, 0, 0, 0x00, 0x61, 0x73]), None);
    assert_eq!(is_motoko_wasm_data_section(&[]), None);
    let mut m = small_canister();
    m.data.push(Data { kind: DataKind::Passive, value: blob });
    assert_eq!(get_motoko_wasm_data_sections(&m), vec![(3, wasm)]);
}

#[test]
fn functions_are_found_or_made() {
    let mut m = small_canister();
    assert_eq!(get_func_name(&m, 5), "func_5");
    m.funcs[6].name = Some("inc".to_string());
    assert_eq!(get_func_name(&m, 6), "inc");
    let mut big = Module::new();
    for _ in 0..1205 {
        big.funcs.push(Function { name: None, kind: FunctionKind::Import { ty: 0, import: 0 } });
    }
    assert_eq!(get_func_name(&big, 1204), "func_1204");
    assert_eq!(get_func_name(&big, 0), "func_0");
    // What is imported is found, what is catalogued is imported.
    let before = m.clone();
    assert_eq!(get_ic_func_id(&mut m, "trap"), 4);
    assert_eq!(m, before);
    assert_eq!(get_ic_func_id(&mut m, "stable64_grow"), 9);
    assert_eq!(m.imports[5], Import { module: "ic0".to_string(), name: "stable64_grow".to_string(), kind: ImportKind::Function(9) });
    let ty = match m.funcs[9].kind {
        FunctionKind::Import { ty, import: 5 } => ty,
        _ => panic!("not the import"),
    };
    assert_eq!(m.types[ty], FuncType { params: vec![ValType::I64], results: vec![ValType::I64], entry: false });
    // An export is found, or made empty.
    assert_eq!(get_or_create_export_func(&mut m, "canister_query get"), 5);
    let id = get_or_create_export_func(&mut m, "canister_init");
    assert_eq!(id, 10);
    assert_eq!(m.exports.last().unwrap(), &Export { name: "canister_init".to_string(), item: ExportItem::Function(10) });
    assert_eq!(get_or_create_export_func(&mut m, "canister_init"), 10);
}

fn memory(initial: u64) -> Memory {
    Memory { shared: false, memory64: false, initial, maximum: None, import: None }
}

fn segment(offset: ConstExpr) -> Data {
    Data { kind: DataKind::Active { memory: 0, offset }, value: vec![1, 2] }
}

#[test]
fn the_heap_is_limited_where_that_is_safe() {
    // A memory that begins with more pages loses them.
    let mut m = Module::new();
    m.memories.push(memory(4));
    m.data.push(segment(ConstExpr::Value(Value::I32(2 * 65536 - 1))));
    m.data.push(segment(ConstExpr::Global(0)));
    m.data.push(Data { kind: DataKind::Passive, value: vec![0; 10] });
    assert!(can_limit_heap_memory(&m, 2));
    limit_heap_memory(&mut m, 2);
    assert_eq!(m.memories, vec![Memory { initial: 2, maximum: Some(2), ..memory(4) }]);
    // A segment in what would be cut off: the heap cannot be limited.
    let mut m = Module::new();
    m.memories.push(memory(4));
    m.data.push(segment(ConstExpr::Value(Value::I64(2 * 65536))));
    assert!(!can_limit_heap_memory(&m, 2));
    // An address below zero is far above the limit.
    let mut m = Module::new();
    m.memories.push(memory(4));
    m.data.push(segment(ConstExpr::Value(Value::I32(-1))));
    assert!(!can_limit_heap_memory(&m, 2));
    // A memory that begins with less keeps its pages and gets the limit.
    let mut m = Module::new();
    m.memories.push(memory(1));
    m.data.push(segment(ConstExpr::Value(Value::I32(100_000_000))));
    assert!(can_limit_heap_memory(&m, 2));
    limit_heap_memory(&mut m, 2);
    assert_eq!(m.memories, vec![Memory { initial: 1, maximum: Some(2), ..memory(1) }]);
    // Without a memory there is nothing to limit.
    let mut m = Module::new();
    assert!(can_limit_heap_memory(&m, 2));
    limit_heap_memory(&mut m, 2);
    assert_eq!(m, Module::new());
}

#[test]
fn what_the_limiter_does_not_take() {
    let none = LimitConfig {
        remove_cycles_add: false,
        limit_stable_memory_page: None,
        limit_heap_memory_page: None,
        playground_canister_id: None,
    };
    let mut m = small_canister();
    assert!(can_limit(&m, &none));
    m.memories.push(memory(1));
    assert!(!can_limit(&m, &none));
    let mut m = small_canister();
    m.memories[0].memory64 = true;
    function_import(&mut m, "call_cycles_add", &[ValType::I64], &[]);
    assert!(can_limit(&m, &none));
    assert!(!can_limit(&m, &LimitConfig { remove_cycles_add: true, ..none.clone() }));
    let mut m = small_canister();
    m.memories[0].initial = 3;
    m.data[2].kind = DataKind::Active { memory: 0, offset: ConstExpr::Value(Value::I32(65536)) };
    assert!(!can_limit(&m, &LimitConfig { limit_heap_memory_page: Some(1), ..none.clone() }));
    assert!(can_limit(&m, &LimitConfig { limit_heap_memory_page: Some(2), ..none.clone() }));
    let m = small_canister();
    assert!(!can_limit(&m, &LimitConfig { playground_canister_id: Some(vec![0; 30]), ..none.clone() }));
    assert!(can_limit(&m, &LimitConfig { playground_canister_id: Some(vec![0; 29]), ..none }));
}

#[test]
fn replacements_are_looked_up() {
    let mut r = Replacer::new();
    assert_eq!(r.get(1), None);
    r.add(1, 10);
    r.add(2, 11);
    r.add(1, 12);
    assert_eq!(r.get(1), Some(12));
    assert_eq!(r.get(2), Some(11));
    assert_eq!(r.get(10), None);
    assert!(r.is_target(12));
    assert!(r.is_target(11));
    assert!(!r.is_target(10));
    assert!(!r.is_target(1));
}

#[test]
fn the_watched_methods() {
    let names = controller_function_names();
    assert_eq!(names.len(), 24);
    assert_eq!(names[0], b"create_canister".to_vec());
    assert_eq!(names[14], b"http_request".to_vec());
    assert_eq!(names[15], b"_ttp_request".to_vec());
    assert_eq!(names[23], b"request".to_vec());
}

#[test]
fn white_space_is_what_unicode_says() {
    for c in (0..=0x10ffffu32).filter_map(char::from_u32) {
        let text = format!("{c}x{c}");
        let got = ic_wasm::strings::trim(&text);
        if c.is_whitespace() {
            assert_eq!(got, "x", "{:?}", c);
        } else {
            assert_eq!(got, text, "{:?}", c);
        }
    }
    assert_eq!(ic_wasm::strings::trim(" \t canister_update inc \u{3000}\n"), "canister_update inc");
    assert_eq!(ic_wasm::strings::trim(" \u{2003} "), "");
}
