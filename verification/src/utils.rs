//! The costs that instrumentation charges, and helpers to find and create
//! the parts of a module that the passes touch.

use vstd::prelude::*;
use std::collections::HashMap;
use crate::builder::{body_of, code, seq_of, InstrSeqBuilder};
use crate::ir::{
    BinaryOp, DataId, FunctionId, Instr, InstrSeqId, InstrSeqType, InstrView, MemoryId, UnaryOp,
    ValType,
};
use crate::module::{
    copy_instrs, is_export, is_import, no_types, ExportItem, FunctionKind, ImportKind, ImportView,
    DataView, Located, LocatedView, Module, ModuleView,
};
use vstd::slice::slice_subrange;
use crate::search::{first_index, lemma_first_index, list1, list2, list3};
use crate::strings::{concat, decimal, str_eq, to_decimal};

verus! {

/// How the cost of a call is charged: a fixed amount, or the amount plus the
/// size that the call is given, as an `i32` or as an `i64`.
#[derive(Clone, Copy, Debug, PartialEq, Eq, Structural)]
pub enum InjectionKind {
    Static,
    Dynamic,
    Dynamic64,
}

/// The cost of a call of the system function `ic0.method` in the current
/// schedule.
pub open spec fn current_api_cost(method: Seq<char>) -> (i64, InjectionKind) {
    if method == "accept_message"@ {
        (500i64, InjectionKind::Static)
    } else if method == "call_cycles_add"@ {
        (500i64, InjectionKind::Static)
    } else if method == "call_cycles_add128"@ {
        (500i64, InjectionKind::Static)
    } else if method == "call_data_append"@ {
        (500i64, InjectionKind::Dynamic)
    } else if method == "call_new"@ {
        (1500i64, InjectionKind::Static)
    } else if method == "call_on_cleanup"@ {
        (500i64, InjectionKind::Static)
    } else if method == "call_perform"@ {
        (5000i64, InjectionKind::Static)
    } else if method == "canister_cycle_balance"@ {
        (500i64, InjectionKind::Static)
    } else if method == "canister_cycle_balance128"@ {
        (500i64, InjectionKind::Static)
    } else if method == "canister_self_copy"@ {
        (500i64, InjectionKind::Dynamic)
    } else if method == "canister_self_size"@ {
        (500i64, InjectionKind::Static)
    } else if method == "canister_status"@ {
        (500i64, InjectionKind::Static)
    } else if method == "canister_version"@ {
        (500i64, InjectionKind::Static)
    } else if method == "certified_data_set"@ {
        (500i64, InjectionKind::Dynamic)
    } else if method == "data_certificate_copy"@ {
        (500i64, InjectionKind::Dynamic)
    } else if method == "data_certificate_present"@ {
        (500i64, InjectionKind::Static)
    } else if method == "data_certificate_size"@ {
        (500i64, InjectionKind::Static)
    } else if method == "debug_print"@ {
        (100i64, InjectionKind::Dynamic)
    } else if method == "global_timer_set"@ {
        (500i64, InjectionKind::Static)
    } else if method == "is_controller"@ {
        (1000i64, InjectionKind::Dynamic)
    } else if method == "msg_arg_data_copy"@ {
        (500i64, InjectionKind::Dynamic)
    } else if method == "msg_arg_data_size"@ {
        (500i64, InjectionKind::Static)
    } else if method == "msg_caller_copy"@ {
        (500i64, InjectionKind::Dynamic)
    } else if method == "msg_caller_size"@ {
        (500i64, InjectionKind::Static)
    } else if method == "msg_cycles_accept"@ {
        (500i64, InjectionKind::Static)
    } else if method == "msg_cycles_accept128"@ {
        (500i64, InjectionKind::Static)
    } else if method == "msg_cycles_available"@ {
        (500i64, InjectionKind::Static)
    } else if method == "msg_cycles_available128"@ {
        (500i64, InjectionKind::Static)
    } else if method == "msg_cycles_refunded"@ {
        (500i64, InjectionKind::Static)
    } else if method == "msg_cycles_refunded128"@ {
        (500i64, InjectionKind::Static)
    } else if method == "msg_method_name_copy"@ {
        (500i64, InjectionKind::Dynamic)
    } else if method == "msg_method_name_size"@ {
        (500i64, InjectionKind::Static)
    } else if method == "msg_reject_code"@ {
        (500i64, InjectionKind::Static)
    } else if method == "msg_reject_msg_size"@ {
        (500i64, InjectionKind::Static)
    } else if method == "msg_reject_msg_copy"@ {
        (500i64, InjectionKind::Dynamic)
    } else if method == "msg_reject"@ {
        (500i64, InjectionKind::Dynamic)
    } else if method == "msg_reply_data_append"@ {
        (500i64, InjectionKind::Dynamic)
    } else if method == "msg_reply"@ {
        (500i64, InjectionKind::Static)
    } else if method == "performance_counter"@ {
        (200i64, InjectionKind::Static)
    } else if method == "stable_grow"@ {
        (100i64, InjectionKind::Static)
    } else if method == "stable64_grow"@ {
        (100i64, InjectionKind::Static)
    } else if method == "stable_size"@ {
        (20i64, InjectionKind::Static)
    } else if method == "stable64_size"@ {
        (20i64, InjectionKind::Static)
    } else if method == "stable_read"@ {
        (20i64, InjectionKind::Dynamic)
    } else if method == "stable_write"@ {
        (20i64, InjectionKind::Dynamic)
    } else if method == "stable64_read"@ {
        (20i64, InjectionKind::Dynamic64)
    } else if method == "stable64_write"@ {
        (20i64, InjectionKind::Dynamic64)
    } else if method == "trap"@ {
        (500i64, InjectionKind::Dynamic)
    } else if method == "time"@ {
        (500i64, InjectionKind::Static)
    } else {
        (1i64, InjectionKind::Static)
    }
}

/// The cost of a call of the system function `ic0.method` in the legacy
/// schedule.
pub open spec fn legacy_api_cost(method: Seq<char>) -> (i64, InjectionKind) {
    if method == "msg_arg_data_copy"@ {
        (21i64, InjectionKind::Dynamic)
    } else if method == "msg_method_name_copy"@ {
        (21i64, InjectionKind::Dynamic)
    } else if method == "msg_reply_data_append"@ {
        (21i64, InjectionKind::Dynamic)
    } else if method == "msg_reject"@ {
        (21i64, InjectionKind::Dynamic)
    } else if method == "msg_reject_msg_copy"@ {
        (21i64, InjectionKind::Dynamic)
    } else if method == "debug_print"@ {
        (101i64, InjectionKind::Dynamic)
    } else if method == "trap"@ {
        (21i64, InjectionKind::Dynamic)
    } else if method == "call_new"@ {
        (1i64, InjectionKind::Static)
    } else if method == "call_data_append"@ {
        (21i64, InjectionKind::Dynamic)
    } else if method == "call_perform"@ {
        (1i64, InjectionKind::Static)
    } else if method == "stable_read"@ {
        (21i64, InjectionKind::Dynamic)
    } else if method == "stable_write"@ {
        (21i64, InjectionKind::Dynamic)
    } else if method == "stable64_read"@ {
        (21i64, InjectionKind::Dynamic64)
    } else if method == "stable64_write"@ {
        (21i64, InjectionKind::Dynamic64)
    } else if method == "performance_counter"@ {
        (201i64, InjectionKind::Static)
    } else {
        (1i64, InjectionKind::Static)
    }
}

/// The cost of a call of the system function `ic0.method`.
pub open spec fn system_api_cost(method: Seq<char>, use_new_metering: bool) -> (
    i64,
    InjectionKind,
) {
    if use_new_metering {
        current_api_cost(method)
    } else {
        legacy_api_cost(method)
    }
}

/// The cost of a call of the system function `ic0.method`.
pub fn api_cost(method: &str, use_new_metering: bool) -> (r: (i64, InjectionKind))
    ensures
        r == system_api_cost(method@, use_new_metering),
        1 <= r.0 <= 5000,
{
    if use_new_metering {
        if str_eq(method, "accept_message") {
            (500, InjectionKind::Static)
        } else if str_eq(method, "call_cycles_add") {
            (500, InjectionKind::Static)
        } else if str_eq(method, "call_cycles_add128") {
            (500, InjectionKind::Static)
        } else if str_eq(method, "call_data_append") {
            (500, InjectionKind::Dynamic)
        } else if str_eq(method, "call_new") {
            (1500, InjectionKind::Static)
        } else if str_eq(method, "call_on_cleanup") {
            (500, InjectionKind::Static)
        } else if str_eq(method, "call_perform") {
            (5000, InjectionKind::Static)
        } else if str_eq(method, "canister_cycle_balance") {
            (500, InjectionKind::Static)
        } else if str_eq(method, "canister_cycle_balance128") {
            (500, InjectionKind::Static)
        } else if str_eq(method, "canister_self_copy") {
            (500, InjectionKind::Dynamic)
        } else if str_eq(method, "canister_self_size") {
            (500, InjectionKind::Static)
        } else if str_eq(method, "canister_status") {
            (500, InjectionKind::Static)
        } else if str_eq(method, "canister_version") {
            (500, InjectionKind::Static)
        } else if str_eq(method, "certified_data_set") {
            (500, InjectionKind::Dynamic)
        } else if str_eq(method, "data_certificate_copy") {
            (500, InjectionKind::Dynamic)
        } else if str_eq(method, "data_certificate_present") {
            (500, InjectionKind::Static)
        } else if str_eq(method, "data_certificate_size") {
            (500, InjectionKind::Static)
        } else if str_eq(method, "debug_print") {
            (100, InjectionKind::Dynamic)
        } else if str_eq(method, "global_timer_set") {
            (500, InjectionKind::Static)
        } else if str_eq(method, "is_controller") {
            (1000, InjectionKind::Dynamic)
        } else if str_eq(method, "msg_arg_data_copy") {
            (500, InjectionKind::Dynamic)
        } else if str_eq(method, "msg_arg_data_size") {
            (500, InjectionKind::Static)
        } else if str_eq(method, "msg_caller_copy") {
            (500, InjectionKind::Dynamic)
        } else if str_eq(method, "msg_caller_size") {
            (500, InjectionKind::Static)
        } else if str_eq(method, "msg_cycles_accept") {
            (500, InjectionKind::Static)
        } else if str_eq(method, "msg_cycles_accept128") {
            (500, InjectionKind::Static)
        } else if str_eq(method, "msg_cycles_available") {
            (500, InjectionKind::Static)
        } else if str_eq(method, "msg_cycles_available128") {
            (500, InjectionKind::Static)
        } else if str_eq(method, "msg_cycles_refunded") {
            (500, InjectionKind::Static)
        } else if str_eq(method, "msg_cycles_refunded128") {
            (500, InjectionKind::Static)
        } else if str_eq(method, "msg_method_name_copy") {
            (500, InjectionKind::Dynamic)
        } else if str_eq(method, "msg_method_name_size") {
            (500, InjectionKind::Static)
        } else if str_eq(method, "msg_reject_code") {
            (500, InjectionKind::Static)
        } else if str_eq(method, "msg_reject_msg_size") {
            (500, InjectionKind::Static)
        } else if str_eq(method, "msg_reject_msg_copy") {
            (500, InjectionKind::Dynamic)
        } else if str_eq(method, "msg_reject") {
            (500, InjectionKind::Dynamic)
        } else if str_eq(method, "msg_reply_data_append") {
            (500, InjectionKind::Dynamic)
        } else if str_eq(method, "msg_reply") {
            (500, InjectionKind::Static)
        } else if str_eq(method, "performance_counter") {
            (200, InjectionKind::Static)
        } else if str_eq(method, "stable_grow") {
            (100, InjectionKind::Static)
        } else if str_eq(method, "stable64_grow") {
            (100, InjectionKind::Static)
        } else if str_eq(method, "stable_size") {
            (20, InjectionKind::Static)
        } else if str_eq(method, "stable64_size") {
            (20, InjectionKind::Static)
        } else if str_eq(method, "stable_read") {
            (20, InjectionKind::Dynamic)
        } else if str_eq(method, "stable_write") {
            (20, InjectionKind::Dynamic)
        } else if str_eq(method, "stable64_read") {
            (20, InjectionKind::Dynamic64)
        } else if str_eq(method, "stable64_write") {
            (20, InjectionKind::Dynamic64)
        } else if str_eq(method, "trap") {
            (500, InjectionKind::Dynamic)
        } else if str_eq(method, "time") {
            (500, InjectionKind::Static)
        } else {
            (1, InjectionKind::Static)
        }
    } else {
        if str_eq(method, "msg_arg_data_copy") {
            (21, InjectionKind::Dynamic)
        } else if str_eq(method, "msg_method_name_copy") {
            (21, InjectionKind::Dynamic)
        } else if str_eq(method, "msg_reply_data_append") {
            (21, InjectionKind::Dynamic)
        } else if str_eq(method, "msg_reject") {
            (21, InjectionKind::Dynamic)
        } else if str_eq(method, "msg_reject_msg_copy") {
            (21, InjectionKind::Dynamic)
        } else if str_eq(method, "debug_print") {
            (101, InjectionKind::Dynamic)
        } else if str_eq(method, "trap") {
            (21, InjectionKind::Dynamic)
        } else if str_eq(method, "call_new") {
            (1, InjectionKind::Static)
        } else if str_eq(method, "call_data_append") {
            (21, InjectionKind::Dynamic)
        } else if str_eq(method, "call_perform") {
            (1, InjectionKind::Static)
        } else if str_eq(method, "stable_read") {
            (21, InjectionKind::Dynamic)
        } else if str_eq(method, "stable_write") {
            (21, InjectionKind::Dynamic)
        } else if str_eq(method, "stable64_read") {
            (21, InjectionKind::Dynamic64)
        } else if str_eq(method, "stable64_write") {
            (21, InjectionKind::Dynamic64)
        } else if str_eq(method, "performance_counter") {
            (201, InjectionKind::Static)
        } else {
            (1, InjectionKind::Static)
        }
    }
}

/// The cost table of a module with the imports `imports`: each function
/// imported from `ic0` has the cost of its name; where two imports give the
/// same function, the later one counts.
pub open spec fn cost_table(imports: Seq<ImportView>, use_new_metering: bool) -> Map<
    FunctionId,
    (i64, InjectionKind),
>
    decreases imports.len(),
{
    if imports.len() == 0 {
        Map::empty()
    } else {
        let rest = cost_table(imports.drop_last(), use_new_metering);
        let i = imports.last();
        match i.kind {
            ImportKind::Function(f) => if i.module == "ic0"@ {
                rest.insert(f, system_api_cost(i.name, use_new_metering))
            } else {
                rest
            },
            _ => rest,
        }
    }
}

/// The costs of calls of the system functions that a module imports.
pub struct FunctionCost(HashMap<FunctionId, (i64, InjectionKind)>);

impl View for FunctionCost {
    type V = Map<FunctionId, (i64, InjectionKind)>;

    closed spec fn view(&self) -> Map<FunctionId, (i64, InjectionKind)> {
        self.0@
    }
}

/// The cost that the table `t` gives for a call of `id`: a function that is
/// not in the table costs one unit.
pub open spec fn cost_of(t: Map<FunctionId, (i64, InjectionKind)>, id: FunctionId) -> (
    i64,
    InjectionKind,
) {
    if t.dom().contains(id) {
        t[id]
    } else {
        (1i64, InjectionKind::Static)
    }
}

impl FunctionCost {
    #[verifier::type_invariant]
    spec fn bounded(self) -> bool {
        forall|id: FunctionId| self.0@.dom().contains(id) ==> 1 <= (#[trigger] self.0@[id]).0 <= 5000
    }

    /// The cost table of `m` in the current schedule, or in the legacy one.
    pub fn new(m: &Module, use_new_metering: bool) -> (r: FunctionCost)
        ensures
            r@ == cost_table(m@.imports, use_new_metering),
    {
        let mut res: HashMap<FunctionId, (i64, InjectionKind)> = HashMap::new();
        let mut i: usize = 0;
        assert(m@.imports.subrange(0, 0) =~= Seq::empty());
        while i < m.imports.len()
            invariant
                i <= m.imports.len(),
                res@ == cost_table(m@.imports.subrange(0, i as int), use_new_metering),
                forall|id: FunctionId| res@.dom().contains(id) ==> 1 <= (#[trigger] res@[id]).0 <= 5000,
            decreases m.imports.len() - i,
        {
            let import = &m.imports[i];
            proof {
                assert(m@.imports.subrange(0, i + 1).drop_last() =~= m@.imports.subrange(
                    0,
                    i as int,
                ));
                assert(m@.imports.subrange(0, i + 1).last() == m@.imports[i as int]);
            }
            match import.kind {
                ImportKind::Function(func) => {
                    if str_eq(import.module.as_str(), "ic0") {
                        let cost = api_cost(import.name.as_str(), use_new_metering);
                        res.insert(func, cost);
                    }
                },
                _ => {},
            }
            i += 1;
        }
        assert(m@.imports.subrange(0, i as int) =~= m@.imports);
        FunctionCost(res)
    }

    /// The cost of a call of `id`.
    pub fn get_cost(&self, id: FunctionId) -> (r: (i64, InjectionKind))
        ensures
            r == cost_of(self@, id),
            1 <= r.0 <= 5000,
    {
        proof {
            use_type_invariant(self);
        }
        match self.0.get(&id) {
            Some(c) => *c,
            None => (1, InjectionKind::Static),
        }
    }
}

/// The cost of a unary operator in the current schedule.
pub open spec fn unop_cost(op: UnaryOp) -> i64 {
    match op {
        UnaryOp::F32Ceil | UnaryOp::F32Floor | UnaryOp::F32Trunc | UnaryOp::F32Nearest | UnaryOp::F32Sqrt => 20,
        UnaryOp::F64Ceil | UnaryOp::F64Floor | UnaryOp::F64Trunc | UnaryOp::F64Nearest | UnaryOp::F64Sqrt => 20,
        UnaryOp::F32Abs | UnaryOp::F32Neg | UnaryOp::F64Abs | UnaryOp::F64Neg => 2,
        UnaryOp::F32ConvertSI32 | UnaryOp::F64ConvertSI64 | UnaryOp::F32ConvertSI64 | UnaryOp::F64ConvertSI32 => 3,
        UnaryOp::F64ConvertUI32 | UnaryOp::F32ConvertUI64 | UnaryOp::F32ConvertUI32 | UnaryOp::F64ConvertUI64 => 16,
        UnaryOp::I64TruncSF32 | UnaryOp::I64TruncUF32 | UnaryOp::I64TruncSF64 | UnaryOp::I64TruncUF64 => 20,
        UnaryOp::I32TruncSF32 | UnaryOp::I32TruncUF32 | UnaryOp::I32TruncSF64 | UnaryOp::I32TruncUF64 => 20,
        _ => 1,
    }
}

/// The cost of a binary operator in the current schedule.
pub open spec fn binop_cost(op: BinaryOp) -> i64 {
    match op {
        BinaryOp::I32DivS | BinaryOp::I32DivU | BinaryOp::I32RemS | BinaryOp::I32RemU => 10,
        BinaryOp::I64DivS | BinaryOp::I64DivU | BinaryOp::I64RemS | BinaryOp::I64RemU => 10,
        BinaryOp::F32Add | BinaryOp::F32Sub | BinaryOp::F32Mul | BinaryOp::F32Div | BinaryOp::F32Min | BinaryOp::F32Max => 20,
        BinaryOp::F64Add | BinaryOp::F64Sub | BinaryOp::F64Mul | BinaryOp::F64Div | BinaryOp::F64Min | BinaryOp::F64Max => 20,
        BinaryOp::F32Copysign | BinaryOp::F64Copysign => 2,
        BinaryOp::F32Eq | BinaryOp::F32Ne | BinaryOp::F32Lt | BinaryOp::F32Gt | BinaryOp::F32Le | BinaryOp::F32Ge => 3,
        BinaryOp::F64Eq | BinaryOp::F64Ne | BinaryOp::F64Lt | BinaryOp::F64Gt | BinaryOp::F64Le | BinaryOp::F64Ge => 3,
        _ => 1,
    }
}

/// The cost of executing the instruction `i`, the cost of what it calls or
/// contains left aside: in the legacy schedule every instruction costs one
/// unit.
pub open spec fn instruction_cost(i: InstrView, use_new_metering: bool) -> i64 {
    if !use_new_metering {
        1
    } else {
        match i {
            InstrView::Block { .. } | InstrView::Loop { .. } => 0,
            InstrView::Const { .. } | InstrView::Load { .. } | InstrView::Store { .. } => 1,
            InstrView::GlobalGet { .. } | InstrView::GlobalSet { .. } => 2,
            InstrView::TableGet { .. } | InstrView::TableSet { .. } => 5,
            InstrView::TableGrow { .. } | InstrView::MemoryGrow { .. } => 300,
            InstrView::MemorySize { .. } => 20,
            InstrView::TableSize { .. } => 100,
            InstrView::MemoryFill { .. } | InstrView::MemoryCopy { .. } | InstrView::MemoryInit { .. } => 100,
            InstrView::TableFill { .. } | InstrView::TableCopy { .. } | InstrView::TableInit { .. } => 100,
            InstrView::DataDrop { .. } | InstrView::ElemDrop { .. } => 300,
            InstrView::Call { .. } => 5,
            InstrView::CallIndirect { .. } => 10,
            InstrView::IfElse { .. } | InstrView::Br { .. } | InstrView::BrIf { .. } | InstrView::BrTable { .. } => 2,
            InstrView::RefIsNull => 5,
            InstrView::RefFunc { .. } => 130,
            InstrView::Unop { op } => unop_cost(op),
            InstrView::Binop { op } => binop_cost(op),
            _ => 1,
        }
    }
}

fn unary_cost(op: UnaryOp) -> (r: i64)
    ensures
        r == unop_cost(op),
{
    match op {
        UnaryOp::F32Ceil | UnaryOp::F32Floor | UnaryOp::F32Trunc | UnaryOp::F32Nearest | UnaryOp::F32Sqrt => 20,
        UnaryOp::F64Ceil | UnaryOp::F64Floor | UnaryOp::F64Trunc | UnaryOp::F64Nearest | UnaryOp::F64Sqrt => 20,
        UnaryOp::F32Abs | UnaryOp::F32Neg | UnaryOp::F64Abs | UnaryOp::F64Neg => 2,
        UnaryOp::F32ConvertSI32 | UnaryOp::F64ConvertSI64 | UnaryOp::F32ConvertSI64 | UnaryOp::F64ConvertSI32 => 3,
        UnaryOp::F64ConvertUI32 | UnaryOp::F32ConvertUI64 | UnaryOp::F32ConvertUI32 | UnaryOp::F64ConvertUI64 => 16,
        UnaryOp::I64TruncSF32 | UnaryOp::I64TruncUF32 | UnaryOp::I64TruncSF64 | UnaryOp::I64TruncUF64 => 20,
        UnaryOp::I32TruncSF32 | UnaryOp::I32TruncUF32 | UnaryOp::I32TruncSF64 | UnaryOp::I32TruncUF64 => 20,
        _ => 1,
    }
}

fn binary_cost(op: BinaryOp) -> (r: i64)
    ensures
        r == binop_cost(op),
{
    match op {
        BinaryOp::I32DivS | BinaryOp::I32DivU | BinaryOp::I32RemS | BinaryOp::I32RemU => 10,
        BinaryOp::I64DivS | BinaryOp::I64DivU | BinaryOp::I64RemS | BinaryOp::I64RemU => 10,
        BinaryOp::F32Add | BinaryOp::F32Sub | BinaryOp::F32Mul | BinaryOp::F32Div | BinaryOp::F32Min | BinaryOp::F32Max => 20,
        BinaryOp::F64Add | BinaryOp::F64Sub | BinaryOp::F64Mul | BinaryOp::F64Div | BinaryOp::F64Min | BinaryOp::F64Max => 20,
        BinaryOp::F32Copysign | BinaryOp::F64Copysign => 2,
        BinaryOp::F32Eq | BinaryOp::F32Ne | BinaryOp::F32Lt | BinaryOp::F32Gt | BinaryOp::F32Le | BinaryOp::F32Ge => 3,
        BinaryOp::F64Eq | BinaryOp::F64Ne | BinaryOp::F64Lt | BinaryOp::F64Gt | BinaryOp::F64Le | BinaryOp::F64Ge => 3,
        _ => 1,
    }
}

/// The cost of executing the instruction `i`.
pub fn instr_cost(i: &Instr, use_new_metering: bool) -> (r: i64)
    ensures
        r == instruction_cost(i@, use_new_metering),
        0 <= r <= 300,
{
    if !use_new_metering {
        return 1;
    }
    match i {
        Instr::Block { .. } | Instr::Loop { .. } => 0,
        Instr::Const { .. } | Instr::Load { .. } | Instr::Store { .. } => 1,
        Instr::GlobalGet { .. } | Instr::GlobalSet { .. } => 2,
        Instr::TableGet { .. } | Instr::TableSet { .. } => 5,
        Instr::TableGrow { .. } | Instr::MemoryGrow { .. } => 300,
        Instr::MemorySize { .. } => 20,
        Instr::TableSize { .. } => 100,
        Instr::MemoryFill { .. } | Instr::MemoryCopy { .. } | Instr::MemoryInit { .. } => 100,
        Instr::TableFill { .. } | Instr::TableCopy { .. } | Instr::TableInit { .. } => 100,
        Instr::DataDrop { .. } | Instr::ElemDrop { .. } => 300,
        Instr::Call { .. } => 5,
        Instr::CallIndirect { .. } => 10,
        Instr::IfElse { .. } | Instr::Br { .. } | Instr::BrIf { .. } | Instr::BrTable { .. } => 2,
        Instr::RefIsNull => 5,
        Instr::RefFunc { .. } => 130,
        Instr::Unop { op } => unary_cost(*op),
        Instr::Binop { op } => binary_cost(*op),
        _ => 1,
    }
}

/// The parameters and results of the system functions that are imported on
/// demand.
pub open spec fn catalogue(method: Seq<char>) -> Option<(Seq<ValType>, Seq<ValType>)> {
    if method == "stable_write"@ || method == "stable_read"@ {
        Some((seq![ValType::I32, ValType::I32, ValType::I32], Seq::empty()))
    } else if method == "stable64_write"@ || method == "stable64_read"@ {
        Some((seq![ValType::I64, ValType::I64, ValType::I64], Seq::empty()))
    } else if method == "stable_grow"@ {
        Some((seq![ValType::I32], seq![ValType::I32]))
    } else if method == "stable64_grow"@ {
        Some((seq![ValType::I64], seq![ValType::I64]))
    } else if method == "stable_size"@ {
        Some((Seq::empty(), seq![ValType::I32]))
    } else if method == "stable64_size"@ {
        Some((Seq::empty(), seq![ValType::I64]))
    } else if method == "call_cycles_add"@ {
        Some((seq![ValType::I64], Seq::empty()))
    } else if method == "call_cycles_add128"@ {
        Some((seq![ValType::I64, ValType::I64], Seq::empty()))
    } else if method == "call_new"@ {
        Some((Seq::new(8, |i: int| ValType::I32), Seq::empty()))
    } else if method == "debug_print"@ || method == "trap"@ || method
        == "msg_reply_data_append"@ {
        Some((seq![ValType::I32, ValType::I32], Seq::empty()))
    } else if method == "msg_reply"@ {
        Some((Seq::empty(), Seq::empty()))
    } else {
        None
    }
}

fn catalogued(method: &str) -> (r: Option<(Vec<ValType>, Vec<ValType>)>)
    ensures
        r is Some == catalogue(method@) is Some,
        r matches Some(t) ==> catalogue(method@) == Some((t.0@, t.1@)),
{
    if str_eq(method, "stable_write") || str_eq(method, "stable_read") {
        Some((list3(ValType::I32, ValType::I32, ValType::I32), no_types()))
    } else if str_eq(method, "stable64_write") || str_eq(method, "stable64_read") {
        Some((list3(ValType::I64, ValType::I64, ValType::I64), no_types()))
    } else if str_eq(method, "stable_grow") {
        Some((list1(ValType::I32), list1(ValType::I32)))
    } else if str_eq(method, "stable64_grow") {
        Some((list1(ValType::I64), list1(ValType::I64)))
    } else if str_eq(method, "stable_size") {
        Some((no_types(), list1(ValType::I32)))
    } else if str_eq(method, "stable64_size") {
        Some((no_types(), list1(ValType::I64)))
    } else if str_eq(method, "call_cycles_add") {
        Some((list1(ValType::I64), no_types()))
    } else if str_eq(method, "call_cycles_add128") {
        Some((list2(ValType::I64, ValType::I64), no_types()))
    } else if str_eq(method, "call_new") {
        let mut params: Vec<ValType> = Vec::new();
        let mut k: usize = 0;
        while k < 8
            invariant
                k <= 8,
                params@ == Seq::new(k as nat, |i: int| ValType::I32),
            decreases 8 - k,
        {
            params.push(ValType::I32);
            assert(params@ =~= Seq::new((k + 1) as nat, |i: int| ValType::I32));
            k += 1;
        }
        Some((params, no_types()))
    } else if str_eq(method, "debug_print") || str_eq(method, "trap") || str_eq(
        method,
        "msg_reply_data_append",
    ) {
        Some((list2(ValType::I32, ValType::I32), no_types()))
    } else if str_eq(method, "msg_reply") {
        Some((no_types(), no_types()))
    } else {
        None
    }
}

/// Whether `m` imports `ic0.method`.
pub open spec fn imports_ic0(m: ModuleView, method: Seq<char>) -> bool {
    m.find_import("ic0"@, method) is Some
}

/// The function that the system function `ic0.method` is in `m`, or is going
/// to be once it is imported.
pub open spec fn ic_import_id(m: ModuleView, method: Seq<char>) -> FunctionId {
    match m.find_import("ic0"@, method) {
        Some(i) => m.imports[i].kind->Function_0,
        None => m.funcs.len() as usize,
    }
}

/// The module with `ic0.method` imported: where it was not, and the
/// catalogue has it, it is imported with its catalogued type.
pub open spec fn with_ic_import(m: ModuleView, method: Seq<char>) -> ModuleView {
    match m.find_import("ic0"@, method) {
        Some(_) => m,
        None => match catalogue(method) {
            Some((params, results)) => m.with_type(params, results, false).with_import_func(
                "ic0"@,
                method,
                m.type_id(params, results, false),
            ),
            None => m,
        },
    }
}

/// `b` is `a` with tables extended: the tables that the passes leave alone
/// are the same, and the others begin with what `a` has.
pub open spec fn extends(a: ModuleView, b: ModuleView) -> bool {
    &&& b.memories == a.memories
    &&& b.data == a.data
    &&& b.tables == a.tables
    &&& b.elements == a.elements
    &&& b.start == a.start
    &&& a.imports.is_prefix_of(b.imports)
    &&& a.types.is_prefix_of(b.types)
    &&& a.locals.is_prefix_of(b.locals)
    &&& a.globals.is_prefix_of(b.globals)
    &&& a.exports.is_prefix_of(b.exports)
    &&& a.customs.is_prefix_of(b.customs)
    &&& a.funcs.len() <= b.funcs.len()
}

/// What a module imports from `ic0` it still imports, as the same function,
/// once its tables are extended.
pub proof fn lemma_extends_import(a: ModuleView, b: ModuleView, method: Seq<char>)
    requires
        a.imports.is_prefix_of(b.imports),
        imports_ic0(a, method),
    ensures
        imports_ic0(b, method),
        ic_import_id(b, method) == ic_import_id(a, method),
{
    let p = is_import("ic0"@, method);
    lemma_first_index(a.imports, p);
    let i = a.find_import("ic0"@, method)->0;
    assert(b.imports[i] == a.imports[i]);
    assert forall|j: int| 0 <= j < i implies !p(#[trigger] b.imports[j]) by {
        assert(b.imports[j] == a.imports[j]);
    }
    assert(crate::search::is_first(b.imports, p, i));
    crate::search::lemma_first_index_found(b.imports, p, i);
}

/// The id of the system function `ic0.method`, which is imported with its
/// catalogued type if the module does not import it.
pub fn get_ic_func_id(m: &mut Module, method: &str) -> (id: FunctionId)
    requires
        old(m)@.ic0_imports_are_functions(),
        imports_ic0(old(m)@, method@) || catalogue(method@) is Some,
    ensures
        id == ic_import_id(old(m)@, method@),
        final(m)@ == with_ic_import(old(m)@, method@),
        final(m)@.ic0_imports_are_functions(),
        imports_ic0(final(m)@, method@),
        ic_import_id(final(m)@, method@) == id,
        extends(old(m)@, final(m)@),
        final(m)@.exports == old(m)@.exports,
        final(m)@.customs == old(m)@.customs,
        final(m)@.globals == old(m)@.globals,
        final(m)@.locals == old(m)@.locals,
        final(m)@.funcs.len() <= old(m)@.funcs.len() + 1,
        same_funcs(old(m)@, final(m)@),
        preserves(old(m)@, final(m)@),
{
    proof {
        if catalogue(method@) is Some && !imports_ic0(old(m)@, method@) {
            let c = catalogue(method@)->0;
            let w = with_ic_import(old(m)@, method@);
            assert(same_funcs(old(m)@, w));
            lemma_same_funcs_keeps(old(m)@, w);
        }
    }
    match m.find_import("ic0", method) {
        Some(i) => {
            proof {
                lemma_first_index(m@.imports, is_import("ic0"@, method@));
            }
            match m.imports[i].kind {
                ImportKind::Function(func_id) => func_id,
                _ => 0,
            }
        },
        None => {
            match catalogued(method) {
                Some((params, results)) => {
                    let ty = m.add_type(params.as_slice(), results.as_slice(), false);
                    let id = m.add_import_func("ic0", method, ty);
                    proof {
                        let p = is_import("ic0"@, method@);
                        let n = old(m)@.imports.len() as int;
                        lemma_first_index(old(m)@.imports, p);
                        assert(m@.imports[n].name == method@);
                        assert forall|j: int| 0 <= j < n implies !p(#[trigger] m@.imports[j]) by {
                            assert(m@.imports[j] == old(m)@.imports[j]);
                        }
                        assert(crate::search::is_first(m@.imports, p, n));
                        crate::search::lemma_first_index_found(m@.imports, p, n);
                        assert forall|k: int|
                            0 <= k < m@.imports.len() && (#[trigger] m@.imports[k]).module
                                == "ic0"@ implies m@.imports[k].kind is Function by {
                            if k < n {
                                assert(m@.imports[k] == old(m)@.imports[k]);
                            }
                        }
                    }
                    id
                },
                None => 0,
            }
        },
    }
}

/// The local functions of `a` are unchanged in `b`.
pub open spec fn same_funcs(a: ModuleView, b: ModuleView) -> bool {
    a.funcs.is_prefix_of(b.funcs)
}

/// `b` is `a` after a step of instrumentation: its tables are extended,
/// its custom sections are the same, what was a local function is one, what
/// is exported in addition is a local function, and imports from `ic0` are
/// functions if they were.
pub open spec fn preserves(a: ModuleView, b: ModuleView) -> bool {
    &&& extends(a, b)
    &&& b.customs == a.customs
    &&& keeps_locals(a, b)
    &&& a.ic0_imports_are_functions() ==> b.ic0_imports_are_functions()
    &&& forall|k: int|
        a.exports.len() <= k < b.exports.len() ==> (#[trigger] b.exports[k]).item is Function
            && is_local(b, b.exports[k].item->Function_0)
}

/// What is preserved twice is preserved.
pub proof fn lemma_preserves_trans(a: ModuleView, b: ModuleView, c: ModuleView)
    requires
        preserves(a, b),
        preserves(b, c),
    ensures
        preserves(a, c),
{
    assert forall|k: int| a.exports.len() <= k < c.exports.len() implies (
    #[trigger] c.exports[k]).item is Function && is_local(c, c.exports[k].item->Function_0) by {
        if k < b.exports.len() {
            assert(c.exports[k] == b.exports[k]);
            assert(is_local(b, b.exports[k].item->Function_0));
        }
    }
}

/// A step that leaves the functions there are as they are keeps the local
/// functions local.
pub proof fn lemma_same_funcs_keeps(a: ModuleView, b: ModuleView)
    requires
        same_funcs(a, b),
    ensures
        keeps_locals(a, b),
{
    assert forall|id: FunctionId| is_local(a, id) implies is_local(b, id) by {
        assert(b.funcs[id as int] == a.funcs[id as int]);
    }
}

/// Extending is transitive.
pub proof fn lemma_extends_trans(a: ModuleView, b: ModuleView, c: ModuleView)
    requires
        extends(a, b),
        extends(b, c),
    ensures
        extends(a, c),
{
}

/// The texts of a list of names.
pub open spec fn texts(names: &[&str]) -> Seq<Seq<char>> {
    Seq::new(names@.len(), |i: int| names@[i]@)
}

/// The module with each of the system functions `names` imported, in their
/// order.
pub open spec fn with_ic_imports(m: ModuleView, names: Seq<Seq<char>>) -> ModuleView
    decreases names.len(),
{
    if names.len() == 0 {
        m
    } else {
        with_ic_import(with_ic_imports(m, names.drop_last()), names.last())
    }
}

/// The functions that the system functions `names` are, once they are
/// imported in their order.
pub open spec fn ic_import_ids(m: ModuleView, names: Seq<Seq<char>>) -> Seq<FunctionId>
    decreases names.len(),
{
    if names.len() == 0 {
        Seq::empty()
    } else {
        ic_import_ids(m, names.drop_last()).push(
            ic_import_id(with_ic_imports(m, names.drop_last()), names.last()),
        )
    }
}

/// Each of the system functions `names` is imported or in the catalogue.
pub open spec fn can_import(m: ModuleView, names: Seq<Seq<char>>) -> bool {
    forall|k: int|
        0 <= k < names.len() ==> imports_ic0(m, #[trigger] names[k]) || catalogue(names[k])
            is Some
}

/// The ids of the system functions `names`, each of which is imported with
/// its catalogued type if the module does not import it.
pub fn get_ic_func_ids(m: &mut Module, names: &[&str]) -> (ids: Vec<FunctionId>)
    requires
        old(m)@.ic0_imports_are_functions(),
        can_import(old(m)@, texts(names)),
    ensures
        ids@ == ic_import_ids(old(m)@, texts(names)),
        final(m)@ == with_ic_imports(old(m)@, texts(names)),
        final(m)@.ic0_imports_are_functions(),
        extends(old(m)@, final(m)@),
        final(m)@.exports == old(m)@.exports,
        final(m)@.customs == old(m)@.customs,
        final(m)@.globals == old(m)@.globals,
        final(m)@.locals == old(m)@.locals,
        same_funcs(old(m)@, final(m)@),
        preserves(old(m)@, final(m)@),
{
    let ghost all = texts(names);
    let mut ids: Vec<FunctionId> = Vec::new();
    let mut k: usize = 0;
    assert(all.subrange(0, 0) =~= Seq::empty());
    while k < names.len()
        invariant
            k <= names.len(),
            all == texts(names),
            old(m)@.ic0_imports_are_functions(),
            can_import(old(m)@, all),
            ids@ == ic_import_ids(old(m)@, all.subrange(0, k as int)),
            m@ == with_ic_imports(old(m)@, all.subrange(0, k as int)),
            m@.ic0_imports_are_functions(),
            extends(old(m)@, m@),
            m@.exports == old(m)@.exports,
            m@.customs == old(m)@.customs,
            m@.globals == old(m)@.globals,
            m@.locals == old(m)@.locals,
            same_funcs(old(m)@, m@),
            preserves(old(m)@, m@),
        decreases names.len() - k,
    {
        let ghost before = m@;
        proof {
            assert(all.subrange(0, k + 1).drop_last() =~= all.subrange(0, k as int));
            assert(all.subrange(0, k + 1).last() == names@[k as int]@);
            assert(all[k as int] == names@[k as int]@);
            if imports_ic0(old(m)@, all[k as int]) {
                lemma_extends_import(old(m)@, m@, all[k as int]);
            }
        }
        let id = get_ic_func_id(m, names[k]);
        ids.push(id);
        proof {
            lemma_extends_trans(old(m)@, before, m@);
            lemma_preserves_trans(old(m)@, before, m@);
        }
        k += 1;
    }
    assert(all.subrange(0, k as int) =~= all);
    ids
}

/// The id of the module's linear memory.
pub fn get_memory_id(m: &Module) -> (id: MemoryId)
    requires
        m@.memories.len() >= 1,
    ensures
        id == 0,
{
    0
}

/// The function that the first export called `method` gives, if it is a
/// function.
pub open spec fn export_func(m: ModuleView, method: Seq<char>) -> Option<FunctionId> {
    match m.find_export(method) {
        Some(i) => match m.exports[i].item {
            ExportItem::Function(id) => Some(id),
            _ => None,
        },
        None => None,
    }
}

/// The function exported as `method`, if there is one.
pub fn get_export_func_id(m: &Module, method: &str) -> (r: Option<FunctionId>)
    ensures
        r == export_func(m@, method@),
{
    match m.find_export(method) {
        Some(i) => match m.exports[i].item {
            ExportItem::Function(id) => Some(id),
            _ => None,
        },
        None => None,
    }
}

/// The id of the function that `get_or_create_export_func` gives.
pub open spec fn export_func_or_new(m: ModuleView, method: Seq<char>) -> FunctionId {
    match export_func(m, method) {
        Some(id) => id,
        None => m.funcs.len() as usize,
    }
}

/// The module with a function exported as `method`: where there was none, it
/// is a new function without parameters, results or instructions.
pub open spec fn with_export_func(m: ModuleView, method: Seq<char>) -> ModuleView {
    match export_func(m, method) {
        Some(_) => m,
        None => {
            let m1 = m.with_signature(Seq::empty(), Seq::empty());
            m1.with_local_func(
                None,
                m.signature_ty(Seq::empty(), Seq::empty()),
                Seq::empty(),
                seq![
                    seq_of(
                        InstrSeqType::MultiValue(m.signature_entry_ty(Seq::empty(), Seq::empty())),
                        Seq::empty(),
                    ),
                ],
            ).with_export(method, ExportItem::Function(m.funcs.len() as usize))
        },
    }
}

/// `id` is a local function of `m` with its entry sequence in range.
pub open spec fn is_local(m: ModuleView, id: FunctionId) -> bool {
    &&& id < m.funcs.len()
    &&& m.funcs[id as int].kind is Local
    &&& m.local(id as int).entry < m.local(id as int).seqs.len()
}

/// A function exported under `method` is a local function.
pub open spec fn export_is_local(m: ModuleView, method: Seq<char>) -> bool {
    export_func(m, method) matches Some(id) ==> is_local(m, id)
}

/// Every function that is local in `a`, with its entry sequence in range,
/// is so in `b`.
pub open spec fn keeps_locals(a: ModuleView, b: ModuleView) -> bool {
    forall|id: FunctionId| is_local(a, id) ==> is_local(b, id)
}

/// The function exported as `method`; where there is none, an empty one is
/// made and exported.
pub fn get_or_create_export_func(m: &mut Module, method: &str) -> (id: FunctionId)
    ensures
        id == export_func_or_new(old(m)@, method@),
        final(m)@ == with_export_func(old(m)@, method@),
        export_is_local(old(m)@, method@) ==> is_local(final(m)@, id),
        keeps_locals(old(m)@, final(m)@),
        same_funcs(old(m)@, final(m)@),
        preserves(old(m)@, final(m)@),
        extends(old(m)@, final(m)@),
        final(m)@.imports == old(m)@.imports,
        final(m)@.locals == old(m)@.locals,
        final(m)@.globals == old(m)@.globals,
        final(m)@.customs == old(m)@.customs,
{
    match get_export_func_id(m, method) {
        Some(id) => id,
        None => {
            let (ty, entry_ty) = m.add_signature(no_types().as_slice(), no_types().as_slice());
            let seqs = body_of(InstrSeqBuilder::new().finish(InstrSeqType::MultiValue(entry_ty)));
            let args: Vec<usize> = Vec::new();
            assert(args@ =~= Seq::<usize>::empty());
            let id = m.add_local_func(None, ty, args, seqs);
            m.add_export(method, ExportItem::Function(id));
            id
        },
    }
}

/// The sequence that the body of the local function `id` begins with: what
/// is added to the function goes there.
pub fn get_builder(m: &Module, id: FunctionId) -> (seq: InstrSeqId)
    requires
        is_local(m@, id),
    ensures
        seq == m@.local(id as int).entry,
{
    match &m.funcs[id].kind {
        FunctionKind::Local(f) => f.entry,
        _ => 0,
    }
}

/// The module with `top` put before the instructions of the entry sequence
/// of function `id`.
pub open spec fn with_top(m: ModuleView, id: FunctionId, top: Seq<InstrView>) -> ModuleView {
    let f = m.local(id as int);
    m.with_body(id as int, f.with_instrs(f.entry as int, code(top) + f.entry_instrs()))
}

/// The module with `bottom` put after the instructions of the entry sequence
/// of function `id`.
pub open spec fn with_bottom(m: ModuleView, id: FunctionId, bottom: Seq<InstrView>) -> ModuleView {
    let f = m.local(id as int);
    m.with_body(id as int, f.with_instrs(f.entry as int, f.entry_instrs() + code(bottom)))
}

/// Puts the instructions `instrs` at the top of function `id`, in their
/// order.
pub fn inject_top(m: &mut Module, id: FunctionId, instrs: InstrSeqBuilder)
    requires
        is_local(old(m)@, id),
    ensures
        final(m)@ == with_top(old(m)@, id, instrs@),
        final(m)@.locals == old(m)@.locals,
        keeps_locals(old(m)@, final(m)@),
        preserves(old(m)@, final(m)@),
        final(m)@.funcs.len() == old(m)@.funcs.len(),
{
    let updated = match &m.funcs[id].kind {
        FunctionKind::Local(f) => {
            let mut all = instrs.into_instrs();
            let mut rest = copy_instrs(&f.seqs[f.entry].instrs);
            let ghost top = all.deep_view();
            let ghost old_instrs = rest.deep_view();
            all.append(&mut rest);
            assert(all.deep_view() =~= top + old_instrs);
            assert(f.deep_view().seqs[f.entry as int] == f.seqs[f.entry as int].deep_view());
            Some(f.with_instrs(f.entry, all))
        },
        _ => None,
    };
    match updated {
        Some(f) => m.set_body(id, f),
        None => {},
    }
}

/// Puts the instructions `instrs` at the end of function `id`.
pub fn inject_bottom(m: &mut Module, id: FunctionId, instrs: InstrSeqBuilder)
    requires
        is_local(old(m)@, id),
    ensures
        final(m)@ == with_bottom(old(m)@, id, instrs@),
        final(m)@.locals == old(m)@.locals,
        keeps_locals(old(m)@, final(m)@),
        preserves(old(m)@, final(m)@),
        final(m)@.funcs.len() == old(m)@.funcs.len(),
{
    let updated = match &m.funcs[id].kind {
        FunctionKind::Local(f) => {
            let mut all = copy_instrs(&f.seqs[f.entry].instrs);
            let mut rest = instrs.into_instrs();
            let ghost old_instrs = all.deep_view();
            let ghost bottom = rest.deep_view();
            all.append(&mut rest);
            assert(all.deep_view() =~= old_instrs + bottom);
            assert(f.deep_view().seqs[f.entry as int] == f.seqs[f.entry as int].deep_view());
            Some(f.with_instrs(f.entry, all))
        },
        _ => None,
    };
    match updated {
        Some(f) => m.set_body(id, f),
        None => {},
    }
}

/// The name that function `id` goes by: its own, or `func_` and its number.
pub open spec fn func_name(m: ModuleView, id: FunctionId) -> Seq<char> {
    match m.funcs[id as int].name {
        Some(name) => name,
        None => "func_"@ + decimal(id as nat),
    }
}

/// The name that function `id` goes by.
pub fn get_func_name(m: &Module, id: FunctionId) -> (name: String)
    requires
        id < m@.funcs.len(),
    ensures
        name@ == func_name(m@, id),
{
    match &m.funcs[id].name {
        Some(name) => name.clone(),
        None => concat("func_", to_decimal(id).as_str()),
    }
}

/// Whether the module was compiled from Motoko: it says so in a custom
/// section, or exports the helper that Motoko canisters export.
pub open spec fn is_motoko(m: ModuleView) -> bool {
    ||| exists|i: int|
        0 <= i < m.customs.len() && ((#[trigger] m.customs[i]).name
            == "icp:private motoko:compiler"@ || m.customs[i].name
            == "icp:public motoko:compiler"@)
    ||| exists|i: int|
        0 <= i < m.exports.len() && (#[trigger] m.exports[i]).name
            == "canister_update __motoko_async_helper"@
}

/// Whether the module was compiled from Motoko.
pub fn is_motoko_canister(m: &Module) -> (r: bool)
    ensures
        r == is_motoko(m@),
{
    let mut i: usize = 0;
    while i < m.customs.len()
        invariant
            i <= m.customs.len(),
            forall|k: int|
                0 <= k < i ==> !((#[trigger] m@.customs[k]).name == "icp:private motoko:compiler"@
                    || m@.customs[k].name == "icp:public motoko:compiler"@),
        decreases m.customs.len() - i,
    {
        let name = m.customs[i].name.as_str();
        if str_eq(name, "icp:private motoko:compiler") || str_eq(
            name,
            "icp:public motoko:compiler",
        ) {
            assert(m@.customs[i as int].name == name@);
            return true;
        }
        i += 1;
    }
    let mut j: usize = 0;
    while j < m.exports.len()
        invariant
            j <= m.exports.len(),
            forall|k: int|
                0 <= k < m.customs.len() ==> !((#[trigger] m@.customs[k]).name
                    == "icp:private motoko:compiler"@ || m@.customs[k].name
                    == "icp:public motoko:compiler"@),
            forall|k: int|
                0 <= k < j ==> (#[trigger] m@.exports[k]).name
                    != "canister_update __motoko_async_helper"@,
        decreases m.exports.len() - j,
    {
        if str_eq(m.exports[j].name.as_str(), "canister_update __motoko_async_helper") {
            assert(m@.exports[j as int].name == "canister_update __motoko_async_helper"@);
            return true;
        }
        j += 1;
    }
    false
}

/// Whether the bytes begin as a gzip file does.
pub open spec fn begins_as_gzip(bytes: Seq<u8>) -> bool {
    bytes.len() >= 2 && bytes[0] == 0x1f && bytes[1] == 0x8b
}

/// Whether the bytes are compressed with gzip, by the two bytes they begin
/// with.
pub fn is_gzip(bytes: &[u8]) -> (r: bool)
    ensures
        r == begins_as_gzip(bytes@),
{
    bytes.len() >= 2 && bytes[0] == 0x1f && bytes[1] == 0x8b
}

/// The number that four bytes give, the lowest byte first.
pub open spec fn le_u32(b: Seq<u8>) -> u32 {
    (b[0] as u32) | (b[1] as u32) << 8 | (b[2] as u32) << 16 | (b[3] as u32) << 24
}

/// The four bytes of a number, the lowest first.
pub open spec fn le_bytes(n: u32) -> Seq<u8> {
    seq![
        (n & 0xff) as u8,
        ((n >> 8) & 0xff) as u8,
        ((n >> 16) & 0xff) as u8,
        ((n >> 24) & 0xff) as u8,
    ]
}

/// The tag that begins a blob in a data segment of a Motoko module.
pub open spec fn blob_tag() -> Seq<u8> {
    seq![0x11u8, 0x00u8, 0x00u8, 0x00u8]
}

/// The four bytes that begin a WebAssembly module.
pub open spec fn wasm_magic() -> Seq<u8> {
    seq![0x00u8, 0x61u8, 0x73u8, 0x6du8]
}

/// The module that the bytes of a data segment frame, if they frame one:
/// the tag of a blob, the length of the payload in four bytes, and a payload
/// of that length that begins as a WebAssembly module does.
pub open spec fn framed_module(blob: Seq<u8>) -> Option<Seq<u8>> {
    if blob.len() >= 12 && blob.subrange(0, 4) == blob_tag() && blob.subrange(8, 12)
        == wasm_magic() && le_u32(blob.subrange(4, 8)) + 8 == blob.len() {
        Some(blob.subrange(8, blob.len() as int))
    } else {
        None
    }
}

/// The module that the bytes of a data segment frame, if they frame one.
pub fn is_motoko_wasm_data_section(blob: &[u8]) -> (r: Option<&[u8]>)
    ensures
        r is Some == framed_module(blob@) is Some,
        r matches Some(payload) ==> framed_module(blob@) == Some(payload@),
{
    let len = blob.len();
    if len >= 12 {
        let tagged = blob[0] == 0x11 && blob[1] == 0x00 && blob[2] == 0x00 && blob[3] == 0x00;
        let module = blob[8] == 0x00 && blob[9] == 0x61 && blob[10] == 0x73 && blob[11] == 0x6d;
        let decoded_len: u32 = (blob[4] as u32) | (blob[5] as u32) << 8 | (blob[6] as u32) << 16
            | (blob[7] as u32) << 24;
        proof {
            assert(tagged == (blob@.subrange(0, 4) =~= blob_tag()));
            assert(module == (blob@.subrange(8, 12) =~= wasm_magic()));
            assert(decoded_len == le_u32(blob@.subrange(4, 8)));
        }
        if tagged && module && decoded_len as u64 + 8 == len as u64 {
            return Some(slice_subrange(blob, 8, len));
        }
    }
    None
}

/// The data segments that frame a module, with the module's bytes, in the
/// order of the segments.
pub open spec fn embedded_modules(data: Seq<DataView>) -> Seq<(DataId, Seq<u8>)>
    decreases data.len(),
{
    if data.len() == 0 {
        Seq::empty()
    } else {
        let rest = embedded_modules(data.drop_last());
        match framed_module(data.last().value) {
            Some(payload) => rest.push(((data.len() - 1) as usize, payload)),
            None => rest,
        }
    }
}

/// The pairs of a data segment's id and the bytes of the module in it.
pub open spec fn id_and_bytes(v: Vec<(DataId, Vec<u8>)>) -> Seq<(DataId, Seq<u8>)> {
    Seq::new(v.len() as nat, |i: int| (v[i].0, v[i].1@))
}

/// The data segments of `m` that frame a module, each with the module's
/// bytes.
pub fn get_motoko_wasm_data_sections(m: &Module) -> (r: Vec<(DataId, Vec<u8>)>)
    ensures
        id_and_bytes(r) == embedded_modules(m@.data),
{
    let mut r: Vec<(DataId, Vec<u8>)> = Vec::new();
    let mut d: usize = 0;
    assert(m@.data.subrange(0, 0) =~= Seq::empty());
    assert(id_and_bytes(r) =~= Seq::empty());
    while d < m.data.len()
        invariant
            d <= m.data.len(),
            id_and_bytes(r) == embedded_modules(m@.data.subrange(0, d as int)),
        decreases m.data.len() - d,
    {
        proof {
            assert(m@.data.subrange(0, d + 1).drop_last() =~= m@.data.subrange(0, d as int));
            assert(m@.data.subrange(0, d + 1).last().value == m.data[d as int].value@);
        }
        match is_motoko_wasm_data_section(m.data[d].value.as_slice()) {
            Some(payload) => {
                let ghost before = id_and_bytes(r);
                let bytes = crate::strings::copy_bytes(payload);
                r.push((d, bytes));
                assert(id_and_bytes(r) =~= before.push((d, payload@)));
            },
            None => {},
        }
        d += 1;
    }
    assert(m@.data.subrange(0, d as int) =~= m@.data);
    r
}

/// The bytes that frame the module `wasm` in a data segment.
pub open spec fn framed(wasm: Seq<u8>) -> Seq<u8> {
    blob_tag() + le_bytes(wasm.len() as u32) + wasm
}

/// The bytes that frame the module `wasm` in a data segment of a Motoko
/// module.
pub fn encode_module_as_data_section(wasm: &[u8]) -> (r: Vec<u8>)
    ensures
        r@ == framed(wasm@),
{
    let n: u32 = #[verifier::truncate] (wasm.len() as u32);
    let mut r: Vec<u8> = Vec::new();
    r.push(0x11);
    r.push(0x00);
    r.push(0x00);
    r.push(0x00);
    r.push((n & 0xff) as u8);
    r.push(((n >> 8) & 0xff) as u8);
    r.push(((n >> 16) & 0xff) as u8);
    r.push(((n >> 24) & 0xff) as u8);
    assert(r@ =~= blob_tag() + le_bytes(wasm@.len() as u32));
    let mut i: usize = 0;
    while i < wasm.len()
        invariant
            i <= wasm.len(),
            r@ == blob_tag() + le_bytes(wasm@.len() as u32) + wasm@.subrange(0, i as int),
        decreases wasm.len() - i,
    {
        r.push(wasm[i]);
        assert(r@ =~= blob_tag() + le_bytes(wasm@.len() as u32) + wasm@.subrange(0, i + 1));
        i += 1;
    }
    assert(wasm@.subrange(0, i as int) =~= wasm@);
    r
}

/// Framing is undone by unframing: the frame of a module, of less than four
/// gibibytes with the frame, holds that module.
pub proof fn lemma_framed_module(wasm: Seq<u8>)
    requires
        wasm.len() >= 4,
        wasm.len() + 8 <= u32::MAX,
        wasm.subrange(0, 4) == wasm_magic(),
    ensures
        framed_module(framed(wasm)) == Some(wasm),
{
    let blob = framed(wasm);
    let n = wasm.len() as u32;
    assert(blob.subrange(0, 4) =~= blob_tag());
    assert(blob.subrange(4, 8) =~= le_bytes(n));
    assert(blob.subrange(8, 12) =~= wasm.subrange(0, 4));
    assert(blob.subrange(8, blob.len() as int) =~= wasm);
    let b = le_bytes(n);
    assert(le_u32(b) == n) by {
        let b0 = (n & 0xff) as u8;
        let b1 = ((n >> 8) & 0xff) as u8;
        let b2 = ((n >> 16) & 0xff) as u8;
        let b3 = ((n >> 24) & 0xff) as u8;
        assert((b0 as u32) | (b1 as u32) << 8 | (b2 as u32) << 16 | (b3 as u32) << 24 == n)
            by (bit_vector)
            requires
                b0 == (n & 0xff) as u8,
                b1 == ((n >> 8) & 0xff) as u8,
                b2 == ((n >> 16) & 0xff) as u8,
                b3 == ((n >> 24) & 0xff) as u8,
        ;
    }
}

} // verus!
