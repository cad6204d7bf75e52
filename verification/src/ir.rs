//! Instructions and instruction sequences of a function body.

use vstd::prelude::*;

verus! {

/// Index of a type in a module's type table.
pub type TypeId = usize;

/// Index of a function in a module's function table.
pub type FunctionId = usize;

/// Index of a local variable in a module's table of locals.
pub type LocalId = usize;

/// Index of a global in a module's global table.
pub type GlobalId = usize;

/// Index of a memory in a module's memory table.
pub type MemoryId = usize;

/// Index of a table in a module.
pub type TableId = usize;

/// Index of a data segment in a module.
pub type DataId = usize;

/// Index of an element segment in a module.
pub type ElementId = usize;

/// Index of an import in a module's import table.
pub type ImportId = usize;

/// Index of an instruction sequence within its function.
pub type InstrSeqId = usize;

/// The source location given to instructions that a pass inserts.
pub const DEFAULT_LOC: u32 = 0xffff_ffff;

/// A value type.
#[derive(Clone, Copy, Debug, PartialEq, Eq, Structural)]
pub enum ValType {
    I32,
    I64,
    F32,
    F64,
    V128,
    FuncRef,
    ExternRef,
}

/// A constant. Floating-point constants are held by their bit patterns.
#[derive(Clone, Copy, Debug, PartialEq, Eq, Structural)]
pub enum Value {
    I32(i32),
    I64(i64),
    F32(u32),
    F64(u64),
    V128(u128),
}

/// Scalar operators with one operand.
#[derive(Clone, Copy, Debug, PartialEq, Eq, Structural)]
pub enum UnaryOp {
    I32Eqz,
    I32Clz,
    I32Ctz,
    I32Popcnt,
    I64Eqz,
    I64Clz,
    I64Ctz,
    I64Popcnt,
    F32Abs,
    F32Neg,
    F32Ceil,
    F32Floor,
    F32Trunc,
    F32Nearest,
    F32Sqrt,
    F64Abs,
    F64Neg,
    F64Ceil,
    F64Floor,
    F64Trunc,
    F64Nearest,
    F64Sqrt,
    I32WrapI64,
    I32TruncSF32,
    I32TruncUF32,
    I32TruncSF64,
    I32TruncUF64,
    I64ExtendSI32,
    I64ExtendUI32,
    I64TruncSF32,
    I64TruncUF32,
    I64TruncSF64,
    I64TruncUF64,
    F32ConvertSI32,
    F32ConvertUI32,
    F32ConvertSI64,
    F32ConvertUI64,
    F32DemoteF64,
    F64ConvertSI32,
    F64ConvertUI32,
    F64ConvertSI64,
    F64ConvertUI64,
    F64PromoteF32,
    I32ReinterpretF32,
    I64ReinterpretF64,
    F32ReinterpretI32,
    F64ReinterpretI64,
    I32Extend8S,
    I32Extend16S,
    I64Extend8S,
    I64Extend16S,
    I64Extend32S,
    I32TruncSSatF32,
    I32TruncUSatF32,
    I32TruncSSatF64,
    I32TruncUSatF64,
    I64TruncSSatF32,
    I64TruncUSatF32,
    I64TruncSSatF64,
    I64TruncUSatF64,
}

/// Scalar operators with two operands.
#[derive(Clone, Copy, Debug, PartialEq, Eq, Structural)]
pub enum BinaryOp {
    I32Eq,
    I32Ne,
    I32LtS,
    I32LtU,
    I32GtS,
    I32GtU,
    I32LeS,
    I32LeU,
    I32GeS,
    I32GeU,
    I64Eq,
    I64Ne,
    I64LtS,
    I64LtU,
    I64GtS,
    I64GtU,
    I64LeS,
    I64LeU,
    I64GeS,
    I64GeU,
    F32Eq,
    F32Ne,
    F32Lt,
    F32Gt,
    F32Le,
    F32Ge,
    F64Eq,
    F64Ne,
    F64Lt,
    F64Gt,
    F64Le,
    F64Ge,
    I32Add,
    I32Sub,
    I32Mul,
    I32DivS,
    I32DivU,
    I32RemS,
    I32RemU,
    I32And,
    I32Or,
    I32Xor,
    I32Shl,
    I32ShrS,
    I32ShrU,
    I32Rotl,
    I32Rotr,
    I64Add,
    I64Sub,
    I64Mul,
    I64DivS,
    I64DivU,
    I64RemS,
    I64RemU,
    I64And,
    I64Or,
    I64Xor,
    I64Shl,
    I64ShrS,
    I64ShrU,
    I64Rotl,
    I64Rotr,
    F32Add,
    F32Sub,
    F32Mul,
    F32Div,
    F32Min,
    F32Max,
    F32Copysign,
    F64Add,
    F64Sub,
    F64Mul,
    F64Div,
    F64Min,
    F64Max,
    F64Copysign,
}

/// How a narrow load fills the wider value.
#[derive(Clone, Copy, Debug, PartialEq, Eq, Structural)]
pub enum ExtendedLoad {
    SignExtend,
    ZeroExtend,
    ZeroExtendAtomic,
}

/// The width and result type of a load.
#[derive(Clone, Copy, Debug, PartialEq, Eq, Structural)]
pub enum LoadKind {
    I32 { atomic: bool },
    I64 { atomic: bool },
    F32,
    F64,
    V128,
    I32_8 { kind: ExtendedLoad },
    I32_16 { kind: ExtendedLoad },
    I64_8 { kind: ExtendedLoad },
    I64_16 { kind: ExtendedLoad },
    I64_32 { kind: ExtendedLoad },
}

/// The width and operand type of a store.
#[derive(Clone, Copy, Debug, PartialEq, Eq, Structural)]
pub enum StoreKind {
    I32 { atomic: bool },
    I64 { atomic: bool },
    F32,
    F64,
    V128,
    I32_8 { atomic: bool },
    I32_16 { atomic: bool },
    I64_8 { atomic: bool },
    I64_16 { atomic: bool },
    I64_32 { atomic: bool },
}

/// Alignment and constant offset of a memory access.
#[derive(Clone, Copy, Debug, PartialEq, Eq, Structural)]
pub struct MemArg {
    pub align: u32,
    pub offset: u64,
}

/// The type of an instruction sequence: at most one result, or a reference to
/// a function type of the module.
#[derive(Clone, Copy, Debug, PartialEq, Eq, Structural)]
pub enum InstrSeqType {
    Simple(Option<ValType>),
    MultiValue(TypeId),
}

/// An instruction. Structured instructions name their inner sequences by id;
/// branches name the sequence they leave.
///
/// `Opaque` stands for any instruction without inner sequences that the
/// passes of this crate neither read nor write; the token identifies it to
/// whoever built the model.
#[allow(inconsistent_fields)]
#[derive(Clone, Debug, PartialEq, Eq)]
pub enum Instr {
    Block { seq: InstrSeqId },
    Loop { seq: InstrSeqId },
    Call { func: FunctionId },
    CallIndirect { ty: TypeId, table: TableId },
    LocalGet { local: LocalId },
    LocalSet { local: LocalId },
    LocalTee { local: LocalId },
    GlobalGet { global: GlobalId },
    GlobalSet { global: GlobalId },
    Const { value: Value },
    Binop { op: BinaryOp },
    Unop { op: UnaryOp },
    Select { ty: Option<ValType> },
    Unreachable,
    Br { block: InstrSeqId },
    BrIf { block: InstrSeqId },
    IfElse { consequent: InstrSeqId, alternative: InstrSeqId },
    BrTable { blocks: Vec<InstrSeqId>, default: InstrSeqId },
    Drop,
    Return,
    MemorySize { memory: MemoryId },
    MemoryGrow { memory: MemoryId },
    MemoryInit { memory: MemoryId, data: DataId },
    DataDrop { data: DataId },
    MemoryCopy { src: MemoryId, dst: MemoryId },
    MemoryFill { memory: MemoryId },
    Load { memory: MemoryId, kind: LoadKind, arg: MemArg },
    Store { memory: MemoryId, kind: StoreKind, arg: MemArg },
    TableGet { table: TableId },
    TableSet { table: TableId },
    TableGrow { table: TableId },
    TableSize { table: TableId },
    TableFill { table: TableId },
    RefIsNull,
    RefFunc { func: FunctionId },
    TableInit { table: TableId, elem: ElementId },
    ElemDrop { elem: ElementId },
    TableCopy { src: TableId, dst: TableId },
    Opaque { token: u32 },
}

/// The mathematical value of an [`Instr`].
#[allow(inconsistent_fields)]
pub enum InstrView {
    Block { seq: InstrSeqId },
    Loop { seq: InstrSeqId },
    Call { func: FunctionId },
    CallIndirect { ty: TypeId, table: TableId },
    LocalGet { local: LocalId },
    LocalSet { local: LocalId },
    LocalTee { local: LocalId },
    GlobalGet { global: GlobalId },
    GlobalSet { global: GlobalId },
    Const { value: Value },
    Binop { op: BinaryOp },
    Unop { op: UnaryOp },
    Select { ty: Option<ValType> },
    Unreachable,
    Br { block: InstrSeqId },
    BrIf { block: InstrSeqId },
    IfElse { consequent: InstrSeqId, alternative: InstrSeqId },
    BrTable { blocks: Seq<InstrSeqId>, default: InstrSeqId },
    Drop,
    Return,
    MemorySize { memory: MemoryId },
    MemoryGrow { memory: MemoryId },
    MemoryInit { memory: MemoryId, data: DataId },
    DataDrop { data: DataId },
    MemoryCopy { src: MemoryId, dst: MemoryId },
    MemoryFill { memory: MemoryId },
    Load { memory: MemoryId, kind: LoadKind, arg: MemArg },
    Store { memory: MemoryId, kind: StoreKind, arg: MemArg },
    TableGet { table: TableId },
    TableSet { table: TableId },
    TableGrow { table: TableId },
    TableSize { table: TableId },
    TableFill { table: TableId },
    RefIsNull,
    RefFunc { func: FunctionId },
    TableInit { table: TableId, elem: ElementId },
    ElemDrop { elem: ElementId },
    TableCopy { src: TableId, dst: TableId },
    Opaque { token: u32 },
}

impl View for Instr {
    type V = InstrView;

    open spec fn view(&self) -> InstrView {
        match *self {
            Instr::Block { seq } => InstrView::Block { seq },
            Instr::Loop { seq } => InstrView::Loop { seq },
            Instr::Call { func } => InstrView::Call { func },
            Instr::CallIndirect { ty, table } => InstrView::CallIndirect { ty, table },
            Instr::LocalGet { local } => InstrView::LocalGet { local },
            Instr::LocalSet { local } => InstrView::LocalSet { local },
            Instr::LocalTee { local } => InstrView::LocalTee { local },
            Instr::GlobalGet { global } => InstrView::GlobalGet { global },
            Instr::GlobalSet { global } => InstrView::GlobalSet { global },
            Instr::Const { value } => InstrView::Const { value },
            Instr::Binop { op } => InstrView::Binop { op },
            Instr::Unop { op } => InstrView::Unop { op },
            Instr::Select { ty } => InstrView::Select { ty },
            Instr::Unreachable => InstrView::Unreachable,
            Instr::Br { block } => InstrView::Br { block },
            Instr::BrIf { block } => InstrView::BrIf { block },
            Instr::IfElse { consequent, alternative } => InstrView::IfElse {
                consequent,
                alternative,
            },
            Instr::BrTable { blocks, default } => InstrView::BrTable { blocks: blocks@, default },
            Instr::Drop => InstrView::Drop,
            Instr::Return => InstrView::Return,
            Instr::MemorySize { memory } => InstrView::MemorySize { memory },
            Instr::MemoryGrow { memory } => InstrView::MemoryGrow { memory },
            Instr::MemoryInit { memory, data } => InstrView::MemoryInit { memory, data },
            Instr::DataDrop { data } => InstrView::DataDrop { data },
            Instr::MemoryCopy { src, dst } => InstrView::MemoryCopy { src, dst },
            Instr::MemoryFill { memory } => InstrView::MemoryFill { memory },
            Instr::Load { memory, kind, arg } => InstrView::Load { memory, kind, arg },
            Instr::Store { memory, kind, arg } => InstrView::Store { memory, kind, arg },
            Instr::TableGet { table } => InstrView::TableGet { table },
            Instr::TableSet { table } => InstrView::TableSet { table },
            Instr::TableGrow { table } => InstrView::TableGrow { table },
            Instr::TableSize { table } => InstrView::TableSize { table },
            Instr::TableFill { table } => InstrView::TableFill { table },
            Instr::RefIsNull => InstrView::RefIsNull,
            Instr::RefFunc { func } => InstrView::RefFunc { func },
            Instr::TableInit { table, elem } => InstrView::TableInit { table, elem },
            Instr::ElemDrop { elem } => InstrView::ElemDrop { elem },
            Instr::TableCopy { src, dst } => InstrView::TableCopy { src, dst },
            Instr::Opaque { token } => InstrView::Opaque { token },
        }
    }
}

/// A copy of the list of indices `v`.
pub fn copy_ids(v: &Vec<usize>) -> (r: Vec<usize>)
    ensures
        r@ == v@,
{
    let mut r: Vec<usize> = Vec::new();
    let mut i: usize = 0;
    while i < v.len()
        invariant
            i <= v.len(),
            r@ == v@.subrange(0, i as int),
        decreases v.len() - i,
    {
        r.push(v[i]);
        assert(r@ =~= v@.subrange(0, i + 1));
        i += 1;
    }
    assert(r@ =~= v@);
    r
}

impl Instr {
    /// A copy of this instruction.
    pub fn duplicate(&self) -> (r: Instr)
        ensures
            r@ == self@,
    {
        match self {
            Instr::Block { seq } => Instr::Block { seq: *seq },
            Instr::Loop { seq } => Instr::Loop { seq: *seq },
            Instr::Call { func } => Instr::Call { func: *func },
            Instr::CallIndirect { ty, table } => Instr::CallIndirect { ty: *ty, table: *table },
            Instr::LocalGet { local } => Instr::LocalGet { local: *local },
            Instr::LocalSet { local } => Instr::LocalSet { local: *local },
            Instr::LocalTee { local } => Instr::LocalTee { local: *local },
            Instr::GlobalGet { global } => Instr::GlobalGet { global: *global },
            Instr::GlobalSet { global } => Instr::GlobalSet { global: *global },
            Instr::Const { value } => Instr::Const { value: *value },
            Instr::Binop { op } => Instr::Binop { op: *op },
            Instr::Unop { op } => Instr::Unop { op: *op },
            Instr::Select { ty } => Instr::Select { ty: *ty },
            Instr::Unreachable => Instr::Unreachable,
            Instr::Br { block } => Instr::Br { block: *block },
            Instr::BrIf { block } => Instr::BrIf { block: *block },
            Instr::IfElse { consequent, alternative } => Instr::IfElse {
                consequent: *consequent,
                alternative: *alternative,
            },
            Instr::BrTable { blocks, default } => Instr::BrTable {
                blocks: copy_ids(blocks),
                default: *default,
            },
            Instr::Drop => Instr::Drop,
            Instr::Return => Instr::Return,
            Instr::MemorySize { memory } => Instr::MemorySize { memory: *memory },
            Instr::MemoryGrow { memory } => Instr::MemoryGrow { memory: *memory },
            Instr::MemoryInit { memory, data } => Instr::MemoryInit {
                memory: *memory,
                data: *data,
            },
            Instr::DataDrop { data } => Instr::DataDrop { data: *data },
            Instr::MemoryCopy { src, dst } => Instr::MemoryCopy { src: *src, dst: *dst },
            Instr::MemoryFill { memory } => Instr::MemoryFill { memory: *memory },
            Instr::Load { memory, kind, arg } => Instr::Load {
                memory: *memory,
                kind: *kind,
                arg: *arg,
            },
            Instr::Store { memory, kind, arg } => Instr::Store {
                memory: *memory,
                kind: *kind,
                arg: *arg,
            },
            Instr::TableGet { table } => Instr::TableGet { table: *table },
            Instr::TableSet { table } => Instr::TableSet { table: *table },
            Instr::TableGrow { table } => Instr::TableGrow { table: *table },
            Instr::TableSize { table } => Instr::TableSize { table: *table },
            Instr::TableFill { table } => Instr::TableFill { table: *table },
            Instr::RefIsNull => Instr::RefIsNull,
            Instr::RefFunc { func } => Instr::RefFunc { func: *func },
            Instr::TableInit { table, elem } => Instr::TableInit { table: *table, elem: *elem },
            Instr::ElemDrop { elem } => Instr::ElemDrop { elem: *elem },
            Instr::TableCopy { src, dst } => Instr::TableCopy { src: *src, dst: *dst },
            Instr::Opaque { token } => Instr::Opaque { token: *token },
        }
    }
}

impl DeepView for Instr {
    type V = InstrView;

    open spec fn deep_view(&self) -> InstrView {
        self.view()
    }
}

/// `i32.const v`
pub open spec fn i32_const(v: i32) -> InstrView {
    InstrView::Const { value: Value::I32(v) }
}

/// `i64.const v`
pub open spec fn i64_const(v: i64) -> InstrView {
    InstrView::Const { value: Value::I64(v) }
}

/// `call f`
pub open spec fn call(f: FunctionId) -> InstrView {
    InstrView::Call { func: f }
}

/// `local.get l`
pub open spec fn local_get(l: LocalId) -> InstrView {
    InstrView::LocalGet { local: l }
}

/// `local.set l`
pub open spec fn local_set(l: LocalId) -> InstrView {
    InstrView::LocalSet { local: l }
}

/// `local.tee l`
pub open spec fn local_tee(l: LocalId) -> InstrView {
    InstrView::LocalTee { local: l }
}

/// `global.get g`
pub open spec fn global_get(g: GlobalId) -> InstrView {
    InstrView::GlobalGet { global: g }
}

/// `global.set g`
pub open spec fn global_set(g: GlobalId) -> InstrView {
    InstrView::GlobalSet { global: g }
}

/// The binary operator `op`.
pub open spec fn binop(op: BinaryOp) -> InstrView {
    InstrView::Binop { op }
}

/// The unary operator `op`.
pub open spec fn unop(op: UnaryOp) -> InstrView {
    InstrView::Unop { op }
}

/// A load from `memory` at constant offset 0.
pub open spec fn load(memory: MemoryId, kind: LoadKind, align: u32) -> InstrView {
    InstrView::Load { memory, kind, arg: MemArg { align, offset: 0 } }
}

/// A store to `memory` at constant offset 0.
pub open spec fn store(memory: MemoryId, kind: StoreKind, align: u32) -> InstrView {
    InstrView::Store { memory, kind, arg: MemArg { align, offset: 0 } }
}

/// `br block`
pub open spec fn br(block: InstrSeqId) -> InstrView {
    InstrView::Br { block }
}

/// `br_if block`
pub open spec fn br_if(block: InstrSeqId) -> InstrView {
    InstrView::BrIf { block }
}

/// `block` with the inner sequence `seq`.
pub open spec fn block(seq: InstrSeqId) -> InstrView {
    InstrView::Block { seq }
}

/// `if` with the two inner sequences.
pub open spec fn if_else(consequent: InstrSeqId, alternative: InstrSeqId) -> InstrView {
    InstrView::IfElse { consequent, alternative }
}

} // verus!
