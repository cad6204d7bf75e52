//! The in-memory model of a WebAssembly module: every table of the module is
//! a vector, and an id is an index into its table.

use vstd::prelude::*;
use crate::search::{first_index, is_first, lemma_first_index_found, lemma_first_index_none};
use crate::strings::str_eq;
use crate::ir::{
    copy_ids, DataId, FunctionId, GlobalId, ImportId, Instr, InstrSeqId, InstrSeqType, InstrView, LocalId,
    MemoryId, TableId, TypeId, ValType, Value,
};

verus! {

/// A function signature. `entry` marks the signature that types the entry
/// sequence of a function body (no parameters, the function's results); such
/// a type is never the declared type of a function or an import.
#[derive(Clone, Debug, PartialEq, Eq)]
pub struct FuncType {
    pub params: Vec<ValType>,
    pub results: Vec<ValType>,
    pub entry: bool,
}

pub struct FuncTypeView {
    pub params: Seq<ValType>,
    pub results: Seq<ValType>,
    pub entry: bool,
}

impl DeepView for FuncType {
    type V = FuncTypeView;

    open spec fn deep_view(&self) -> FuncTypeView {
        FuncTypeView { params: self.params@, results: self.results@, entry: self.entry }
    }
}

/// What an import brings into the module.
#[derive(Clone, Copy, Debug, PartialEq, Eq, Structural)]
pub enum ImportKind {
    Function(FunctionId),
    Table(TableId),
    Memory(MemoryId),
    Global(GlobalId),
}

#[derive(Clone, Debug, PartialEq, Eq)]
pub struct Import {
    pub module: String,
    pub name: String,
    pub kind: ImportKind,
}

pub struct ImportView {
    pub module: Seq<char>,
    pub name: Seq<char>,
    pub kind: ImportKind,
}

impl DeepView for Import {
    type V = ImportView;

    open spec fn deep_view(&self) -> ImportView {
        ImportView { module: self.module@, name: self.name@, kind: self.kind }
    }
}

/// An instruction with its source location.
#[derive(Clone, Debug, PartialEq, Eq)]
pub struct Located {
    pub instr: Instr,
    pub loc: u32,
}

pub struct LocatedView {
    pub instr: InstrView,
    pub loc: u32,
}

impl DeepView for Located {
    type V = LocatedView;

    open spec fn deep_view(&self) -> LocatedView {
        LocatedView { instr: self.instr@, loc: self.loc }
    }
}

/// An instruction sequence: the body of a function, block, loop or branch of
/// an `if`.
#[derive(Clone, Debug, PartialEq, Eq)]
pub struct InstrSeq {
    pub ty: InstrSeqType,
    pub instrs: Vec<Located>,
}

pub struct InstrSeqView {
    pub ty: InstrSeqType,
    pub instrs: Seq<LocatedView>,
}

impl DeepView for InstrSeq {
    type V = InstrSeqView;

    open spec fn deep_view(&self) -> InstrSeqView {
        InstrSeqView { ty: self.ty, instrs: self.instrs.deep_view() }
    }
}

/// A function defined in the module. `seqs` holds the instruction sequences
/// of its body, `entry` is the outermost one, and `args` are the locals that
/// receive the arguments.
#[derive(Clone, Debug, PartialEq, Eq)]
pub struct LocalFunction {
    pub ty: TypeId,
    pub args: Vec<LocalId>,
    pub seqs: Vec<InstrSeq>,
    pub entry: InstrSeqId,
}

pub struct LocalFunctionView {
    pub ty: TypeId,
    pub args: Seq<LocalId>,
    pub seqs: Seq<InstrSeqView>,
    pub entry: InstrSeqId,
}

impl DeepView for LocalFunction {
    type V = LocalFunctionView;

    open spec fn deep_view(&self) -> LocalFunctionView {
        LocalFunctionView {
            ty: self.ty,
            args: self.args@,
            seqs: self.seqs.deep_view(),
            entry: self.entry,
        }
    }
}

#[derive(Clone, Debug, PartialEq, Eq)]
pub enum FunctionKind {
    Import { ty: TypeId, import: ImportId },
    Local(LocalFunction),
}

pub enum FunctionKindView {
    Import { ty: TypeId, import: ImportId },
    Local(LocalFunctionView),
}

#[derive(Clone, Debug, PartialEq, Eq)]
pub struct Function {
    pub name: Option<String>,
    pub kind: FunctionKind,
}

pub struct FunctionView {
    pub name: Option<Seq<char>>,
    pub kind: FunctionKindView,
}

impl DeepView for Function {
    type V = FunctionView;

    open spec fn deep_view(&self) -> FunctionView {
        FunctionView {
            name: self.name.deep_view(),
            kind: match self.kind {
                FunctionKind::Import { ty, import } => FunctionKindView::Import { ty, import },
                FunctionKind::Local(f) => FunctionKindView::Local(f.deep_view()),
            },
        }
    }
}

/// A constant initialiser. `Opaque` stands for any expression other than a
/// plain value, a global or a function reference.
#[derive(Clone, Copy, Debug, PartialEq, Eq, Structural)]
pub enum ConstExpr {
    Value(Value),
    Global(GlobalId),
    RefFunc(FunctionId),
    Opaque { token: u32 },
}

#[derive(Clone, Copy, Debug, PartialEq, Eq, Structural)]
pub enum GlobalKind {
    Import(ImportId),
    Local(ConstExpr),
}

#[derive(Clone, Copy, Debug, PartialEq, Eq, Structural)]
pub struct Global {
    pub ty: ValType,
    pub mutable: bool,
    pub shared: bool,
    pub kind: GlobalKind,
}

/// A linear memory; sizes are in pages of 65536 bytes.
#[derive(Clone, Copy, Debug, PartialEq, Eq, Structural)]
pub struct Memory {
    pub shared: bool,
    pub memory64: bool,
    pub initial: u64,
    pub maximum: Option<u64>,
    pub import: Option<ImportId>,
}

#[derive(Clone, Copy, Debug, PartialEq, Eq, Structural)]
pub enum DataKind {
    Active { memory: MemoryId, offset: ConstExpr },
    Passive,
}

#[derive(Clone, Debug, PartialEq, Eq)]
pub struct Data {
    pub kind: DataKind,
    pub value: Vec<u8>,
}

pub struct DataView {
    pub kind: DataKind,
    pub value: Seq<u8>,
}

impl DeepView for Data {
    type V = DataView;

    open spec fn deep_view(&self) -> DataView {
        DataView { kind: self.kind, value: self.value@ }
    }
}

#[derive(Clone, Copy, Debug, PartialEq, Eq, Structural)]
pub enum ExportItem {
    Function(FunctionId),
    Table(TableId),
    Memory(MemoryId),
    Global(GlobalId),
}

#[derive(Clone, Debug, PartialEq, Eq)]
pub struct Export {
    pub name: String,
    pub item: ExportItem,
}

pub struct ExportView {
    pub name: Seq<char>,
    pub item: ExportItem,
}

impl DeepView for Export {
    type V = ExportView;

    open spec fn deep_view(&self) -> ExportView {
        ExportView { name: self.name@, item: self.item }
    }
}

/// A custom section with its raw contents.
#[derive(Clone, Debug, PartialEq, Eq)]
pub struct CustomSection {
    pub name: String,
    pub data: Vec<u8>,
}

pub struct CustomSectionView {
    pub name: Seq<char>,
    pub data: Seq<u8>,
}

impl DeepView for CustomSection {
    type V = CustomSectionView;

    open spec fn deep_view(&self) -> CustomSectionView {
        CustomSectionView { name: self.name@, data: self.data@ }
    }
}

/// A module. Tables and element segments are not rewritten by this crate and
/// are present by their number only.
#[derive(Clone, Debug, PartialEq, Eq)]
pub struct Module {
    pub types: Vec<FuncType>,
    pub imports: Vec<Import>,
    pub funcs: Vec<Function>,
    pub locals: Vec<ValType>,
    pub globals: Vec<Global>,
    pub memories: Vec<Memory>,
    pub data: Vec<Data>,
    pub exports: Vec<Export>,
    pub customs: Vec<CustomSection>,
    pub tables: usize,
    pub elements: usize,
    pub start: Option<FunctionId>,
}

pub struct ModuleView {
    pub types: Seq<FuncTypeView>,
    pub imports: Seq<ImportView>,
    pub funcs: Seq<FunctionView>,
    pub locals: Seq<ValType>,
    pub globals: Seq<Global>,
    pub memories: Seq<Memory>,
    pub data: Seq<DataView>,
    pub exports: Seq<ExportView>,
    pub customs: Seq<CustomSectionView>,
    pub tables: usize,
    pub elements: usize,
    pub start: Option<FunctionId>,
}

impl View for Module {
    type V = ModuleView;

    open spec fn view(&self) -> ModuleView {
        ModuleView {
            types: self.types.deep_view(),
            imports: self.imports.deep_view(),
            funcs: self.funcs.deep_view(),
            locals: self.locals@,
            globals: self.globals@,
            memories: self.memories@,
            data: self.data.deep_view(),
            exports: self.exports.deep_view(),
            customs: self.customs.deep_view(),
            tables: self.tables,
            elements: self.elements,
            start: self.start,
        }
    }
}

/// The condition on a type of being the given signature.
pub open spec fn is_sig(params: Seq<ValType>, results: Seq<ValType>, entry: bool) -> spec_fn(
    FuncTypeView,
) -> bool {
    |t: FuncTypeView| t == (FuncTypeView { params, results, entry })
}

/// The condition on an import of being `module.name`.
pub open spec fn is_import(module: Seq<char>, name: Seq<char>) -> spec_fn(ImportView) -> bool {
    |i: ImportView| i.name == name && i.module == module
}

/// The condition on an export of having the name `name`.
pub open spec fn is_export(name: Seq<char>) -> spec_fn(ExportView) -> bool {
    |e: ExportView| e.name == name
}

/// The condition on a function of having the name `name`.
pub open spec fn is_named(name: Seq<char>) -> spec_fn(FunctionView) -> bool {
    |f: FunctionView| f.name == Some(name)
}

impl LocalFunctionView {
    /// The function with the instructions of sequence `s` replaced.
    pub open spec fn with_instrs(self, s: int, instrs: Seq<LocatedView>) -> LocalFunctionView {
        LocalFunctionView {
            seqs: self.seqs.update(s, InstrSeqView { ty: self.seqs[s].ty, instrs }),
            ..self
        }
    }

    /// The instructions of the entry sequence.
    pub open spec fn entry_instrs(self) -> Seq<LocatedView> {
        self.seqs[self.entry as int].instrs
    }
}

/// A copy of a list of instructions.
pub fn copy_instrs(v: &Vec<Located>) -> (r: Vec<Located>)
    ensures
        r.deep_view() == v.deep_view(),
{
    let mut r: Vec<Located> = Vec::new();
    let mut i: usize = 0;
    while i < v.len()
        invariant
            i <= v.len(),
            r.deep_view() == v.deep_view().subrange(0, i as int),
        decreases v.len() - i,
    {
        let ghost before = r.deep_view();
        r.push(Located { instr: v[i].instr.duplicate(), loc: v[i].loc });
        assert(r.deep_view() =~= before.push(v[i as int].deep_view()));
        assert(r.deep_view() =~= v.deep_view().subrange(0, i + 1));
        i += 1;
    }
    assert(r.deep_view() =~= v.deep_view());
    r
}

impl InstrSeq {
    /// A copy of this sequence.
    pub fn duplicate(&self) -> (r: InstrSeq)
        ensures
            r.deep_view() == self.deep_view(),
    {
        InstrSeq { ty: self.ty, instrs: copy_instrs(&self.instrs) }
    }
}

impl LocalFunction {
    /// A copy of this function with the instructions of sequence `s`
    /// replaced.
    pub fn with_instrs(&self, s: InstrSeqId, instrs: Vec<Located>) -> (r: LocalFunction)
        requires
            s < self.seqs@.len(),
        ensures
            r.deep_view() == self.deep_view().with_instrs(s as int, instrs.deep_view()),
    {
        let mut seqs: Vec<InstrSeq> = Vec::new();
        let mut k: usize = 0;
        while k < s
            invariant
                k <= s < self.seqs@.len(),
                seqs.deep_view() == self.seqs.deep_view().subrange(0, k as int),
            decreases s - k,
        {
            let ghost before = seqs.deep_view();
            seqs.push(self.seqs[k].duplicate());
            assert(seqs.deep_view() =~= before.push(self.seqs[k as int].deep_view()));
            assert(seqs.deep_view() =~= self.seqs.deep_view().subrange(0, k + 1));
            k += 1;
        }
        assert(s < self.seqs.len());
        let ghost head = seqs.deep_view();
        let ghost new_seq = InstrSeqView { ty: self.seqs[s as int].ty, instrs: instrs.deep_view() };
        seqs.push(InstrSeq { ty: self.seqs[s].ty, instrs });
        assert(seqs.deep_view() =~= head.push(new_seq));
        k = s + 1;
        while k < self.seqs.len()
            invariant
                s < k <= self.seqs@.len(),
                seqs.deep_view() == self.seqs.deep_view().update(s as int, new_seq).subrange(
                    0,
                    k as int,
                ),
            decreases self.seqs.len() - k,
        {
            let ghost before = seqs.deep_view();
            seqs.push(self.seqs[k].duplicate());
            assert(seqs.deep_view() =~= before.push(self.seqs[k as int].deep_view()));
            assert(seqs.deep_view() =~= self.seqs.deep_view().update(s as int, new_seq).subrange(
                0,
                k + 1,
            ));
            k += 1;
        }
        assert(seqs.deep_view() =~= self.seqs.deep_view().update(s as int, new_seq));
        LocalFunction { ty: self.ty, args: copy_ids(&self.args), seqs, entry: self.entry }
    }
}

impl ModuleView {
    /// The module with the body of the local function `id` replaced by `f`.
    pub open spec fn with_body(self, id: int, f: LocalFunctionView) -> ModuleView {
        self.with_func_at(
            id,
            FunctionView { name: self.funcs[id].name, kind: FunctionKindView::Local(f) },
        )
    }

    /// The position of the first import `module.name`, if there is one.
    pub open spec fn find_import(self, module: Seq<char>, name: Seq<char>) -> Option<int> {
        first_index(self.imports, is_import(module, name))
    }

    /// The position of the first export called `name`, if there is one.
    pub open spec fn find_export(self, name: Seq<char>) -> Option<int> {
        first_index(self.exports, is_export(name))
    }

    /// The first function called `name`, if there is one.
    pub open spec fn func_by_name(self, name: Seq<char>) -> Option<int> {
        first_index(self.funcs, is_named(name))
    }

    /// Every import from the module `ic0` is a function.
    pub open spec fn ic0_imports_are_functions(self) -> bool {
        forall|i: int|
            0 <= i < self.imports.len() && (#[trigger] self.imports[i]).module == "ic0"@
                ==> self.imports[i].kind is Function
    }

    /// Every import of a function and the function it gives refer to each
    /// other.
    pub open spec fn imports_are_bound(self) -> bool {
        forall|i: int|
            0 <= i < self.imports.len() ==> ((#[trigger] self.imports[i]).kind matches ImportKind::Function(
                f,
            ) ==> f < self.funcs.len() && self.funcs[f as int].kind is Import
                && self.funcs[f as int].kind->import == i)
    }

    /// The local function `id`.
    pub open spec fn local(self, id: int) -> LocalFunctionView
        recommends
            0 <= id < self.funcs.len(),
            self.funcs[id].kind is Local,
    {
        self.funcs[id].kind->Local_0
    }

    /// The declared type and the entry type of a function with the given
    /// parameters and results are in the type table.
    pub open spec fn with_signature(self, params: Seq<ValType>, results: Seq<ValType>) -> ModuleView {
        self.with_type(params, results, false).with_type(Seq::empty(), results, true)
    }

    /// The id of the declared type after `with_signature`.
    pub open spec fn signature_ty(self, params: Seq<ValType>, results: Seq<ValType>) -> TypeId {
        self.type_id(params, results, false)
    }

    /// The id of the entry type after `with_signature`.
    pub open spec fn signature_entry_ty(self, params: Seq<ValType>, results: Seq<ValType>) -> TypeId {
        self.with_type(params, results, false).type_id(Seq::empty(), results, true)
    }

    /// The position of the signature in the type table, if it is there.
    pub open spec fn type_index(
        self,
        params: Seq<ValType>,
        results: Seq<ValType>,
        entry: bool,
    ) -> Option<int> {
        first_index(self.types, is_sig(params, results, entry))
    }

    /// The id that the signature has once it is in the type table: that of
    /// its first occurrence, or the next free id.
    pub open spec fn type_id(
        self,
        params: Seq<ValType>,
        results: Seq<ValType>,
        entry: bool,
    ) -> TypeId {
        match self.type_index(params, results, entry) {
            Some(i) => i as usize,
            None => self.types.len() as usize,
        }
    }

    /// The module with the signature in its type table, added at the end
    /// unless it was there.
    pub open spec fn with_type(
        self,
        params: Seq<ValType>,
        results: Seq<ValType>,
        entry: bool,
    ) -> ModuleView {
        match self.type_index(params, results, entry) {
            Some(_) => self,
            None => ModuleView {
                types: self.types.push(FuncTypeView { params, results, entry }),
                ..self
            },
        }
    }

    /// The module with one more local, of type `ty`.
    pub open spec fn with_local(self, ty: ValType) -> ModuleView {
        ModuleView { locals: self.locals.push(ty), ..self }
    }

    /// The module with `n` more locals of type `ty`.
    pub open spec fn with_locals(self, ty: ValType, n: nat) -> ModuleView {
        ModuleView { locals: self.locals + Seq::new(n, |i: int| ty), ..self }
    }

    /// The module with one more imported function `module.name` of type
    /// `ty`: a new import and a new function that refer to each other.
    pub open spec fn with_import_func(
        self,
        module: Seq<char>,
        name: Seq<char>,
        ty: TypeId,
    ) -> ModuleView {
        ModuleView {
            imports: self.imports.push(
                ImportView {
                    module,
                    name,
                    kind: ImportKind::Function(self.funcs.len() as usize),
                },
            ),
            funcs: self.funcs.push(
                FunctionView {
                    name: None,
                    kind: FunctionKindView::Import { ty, import: self.imports.len() as usize },
                },
            ),
            ..self
        }
    }

    /// The module with one more global.
    pub open spec fn with_global(self, g: Global) -> ModuleView {
        ModuleView { globals: self.globals.push(g), ..self }
    }

    /// The module with one more function.
    pub open spec fn with_func(self, f: FunctionView) -> ModuleView {
        ModuleView { funcs: self.funcs.push(f), ..self }
    }

    /// The module with one more export.
    pub open spec fn with_export(self, name: Seq<char>, item: ExportItem) -> ModuleView {
        ModuleView { exports: self.exports.push(ExportView { name, item }), ..self }
    }

    /// The module with one more custom section.
    pub open spec fn with_custom(self, c: CustomSectionView) -> ModuleView {
        ModuleView { customs: self.customs.push(c), ..self }
    }

    /// The module with one more local function, whose entry sequence is the
    /// first of `seqs`.
    pub open spec fn with_local_func(
        self,
        name: Option<Seq<char>>,
        ty: TypeId,
        args: Seq<LocalId>,
        seqs: Seq<InstrSeqView>,
    ) -> ModuleView {
        self.with_func(
            FunctionView {
                name,
                kind: FunctionKindView::Local(LocalFunctionView { ty, args, seqs, entry: 0 }),
            },
        )
    }

    /// The module with function `id` replaced by `f`.
    pub open spec fn with_func_at(self, id: int, f: FunctionView) -> ModuleView {
        ModuleView { funcs: self.funcs.update(id, f), ..self }
    }
}

/// Whether two lists of value types are equal.
pub fn val_types_eq(a: &Vec<ValType>, b: &[ValType]) -> (r: bool)
    ensures
        r == (a@ == b@),
{
    if a.len() != b.len() {
        return false;
    }
    let mut i: usize = 0;
    while i < a.len()
        invariant
            a.len() == b.len(),
            i <= a.len(),
            forall|j: int| 0 <= j < i ==> a@[j] == b@[j],
        decreases a.len() - i,
    {
        if a[i] != b[i] {
            return false;
        }
        i += 1;
    }
    assert(a@ =~= b@);
    true
}

/// The empty list of value types.
pub fn no_types() -> (v: Vec<ValType>)
    ensures
        v@ == Seq::<ValType>::empty(),
{
    let v: Vec<ValType> = Vec::new();
    assert(v@ =~= Seq::<ValType>::empty());
    v
}

/// A copy of a list of value types.
pub fn copy_val_types(v: &[ValType]) -> (r: Vec<ValType>)
    ensures
        r@ == v@,
{
    let mut r: Vec<ValType> = Vec::new();
    let mut i: usize = 0;
    while i < v.len()
        invariant
            i <= v.len(),
            r@ == v@.subrange(0, i as int),
        decreases v.len() - i,
    {
        r.push(v[i]);
        assert(r@ =~= v@.subrange(0, i + 1));
        i += 1;
    }
    assert(r@ =~= v@);
    r
}

impl Module {
    /// The module without anything in it.
    pub fn new() -> (m: Module)
        ensures
            m@.types.len() == 0,
            m@.imports.len() == 0,
            m@.funcs.len() == 0,
            m@.locals.len() == 0,
            m@.globals.len() == 0,
            m@.memories.len() == 0,
            m@.data.len() == 0,
            m@.exports.len() == 0,
            m@.customs.len() == 0,
            m@.tables == 0,
            m@.elements == 0,
            m@.start is None,
    {
        Module {
            types: Vec::new(),
            imports: Vec::new(),
            funcs: Vec::new(),
            locals: Vec::new(),
            globals: Vec::new(),
            memories: Vec::new(),
            data: Vec::new(),
            exports: Vec::new(),
            customs: Vec::new(),
            tables: 0,
            elements: 0,
            start: None,
        }
    }

    /// Puts the signature into the type table unless it is there, and gives
    /// its id.
    pub fn add_type(&mut self, params: &[ValType], results: &[ValType], entry: bool) -> (id:
        TypeId)
        ensures
            final(self)@ == old(self)@.with_type(params@, results@, entry),
            id == old(self)@.type_id(params@, results@, entry),
            id < final(self)@.types.len(),
    {
        let ghost p = is_sig(params@, results@, entry);
        let mut i: usize = 0;
        while i < self.types.len()
            invariant
                i <= self.types.len(),
                *self == *old(self),
                p == is_sig(params@, results@, entry),
                forall|j: int| 0 <= j < i ==> !p(#[trigger] self@.types[j]),
            decreases self.types.len() - i,
        {
            let t = &self.types[i];
            if t.entry == entry && val_types_eq(&t.params, params) && val_types_eq(
                &t.results,
                results,
            ) {
                proof {
                    assert(p(self@.types[i as int]));
                    assert(is_first(self@.types, p, i as int));
                    lemma_first_index_found(self@.types, p, i as int);
                }
                return i;
            }
            i += 1;
        }
        proof {
            lemma_first_index_none(self@.types, p);
        }
        let id = self.types.len();
        self.types.push(
            FuncType { params: copy_val_types(params), results: copy_val_types(results), entry },
        );
        assert(self@.types =~= old(self)@.types.push(
            FuncTypeView { params: params@, results: results@, entry },
        ));
        id
    }

    /// Puts the declared type and the entry type of a function with the
    /// given parameters and results into the type table, and gives their ids.
    pub fn add_signature(&mut self, params: &[ValType], results: &[ValType]) -> (ids: (
        TypeId,
        TypeId,
    ))
        ensures
            final(self)@ == old(self)@.with_signature(params@, results@),
            ids.0 == old(self)@.signature_ty(params@, results@),
            ids.1 == old(self)@.signature_entry_ty(params@, results@),
    {
        let ty = self.add_type(params, results, false);
        let entry_ty = self.add_type(no_types().as_slice(), results, true);
        (ty, entry_ty)
    }

    /// Whether every import from the module `ic0` is a function.
    pub fn ic0_imports_are_functions(&self) -> (ok: bool)
        ensures
            ok == self@.ic0_imports_are_functions(),
    {
        let mut i: usize = 0;
        while i < self.imports.len()
            invariant
                i <= self.imports.len(),
                forall|k: int|
                    0 <= k < i && (#[trigger] self@.imports[k]).module == "ic0"@
                        ==> self@.imports[k].kind is Function,
            decreases self.imports.len() - i,
        {
            if str_eq(self.imports[i].module.as_str(), "ic0") {
                match self.imports[i].kind {
                    ImportKind::Function(_) => {},
                    _ => {
                        assert(self@.imports[i as int].module == "ic0"@);
                        return false;
                    },
                }
            }
            i += 1;
        }
        true
    }

    /// The first import `module.name`, if there is one.
    pub fn find_import(&self, module: &str, name: &str) -> (r: Option<ImportId>)
        ensures
            r is Some == self@.find_import(module@, name@) is Some,
            r matches Some(i) ==> self@.find_import(module@, name@) == Some(i as int) && i
                < self@.imports.len() && self@.imports[i as int].kind == self.imports[i as int].kind,
    {
        let ghost p = is_import(module@, name@);
        let mut i: usize = 0;
        while i < self.imports.len()
            invariant
                i <= self.imports.len(),
                p == is_import(module@, name@),
                forall|j: int| 0 <= j < i ==> !p(#[trigger] self@.imports[j]),
            decreases self.imports.len() - i,
        {
            let imp = &self.imports[i];
            if str_eq(imp.name.as_str(), name) && str_eq(imp.module.as_str(), module) {
                proof {
                    assert(p(self@.imports[i as int]));
                    assert(is_first(self@.imports, p, i as int));
                    lemma_first_index_found(self@.imports, p, i as int);
                }
                return Some(i);
            }
            i += 1;
        }
        proof {
            lemma_first_index_none(self@.imports, p);
        }
        None
    }

    /// The first export called `name`, if there is one.
    pub fn find_export(&self, name: &str) -> (r: Option<usize>)
        ensures
            r is Some == self@.find_export(name@) is Some,
            r matches Some(i) ==> self@.find_export(name@) == Some(i as int) && i
                < self@.exports.len() && self@.exports[i as int].item == self.exports[i as int].item,
    {
        let ghost p = is_export(name@);
        let mut i: usize = 0;
        while i < self.exports.len()
            invariant
                i <= self.exports.len(),
                p == is_export(name@),
                forall|j: int| 0 <= j < i ==> !p(#[trigger] self@.exports[j]),
            decreases self.exports.len() - i,
        {
            if str_eq(self.exports[i].name.as_str(), name) {
                proof {
                    assert(p(self@.exports[i as int]));
                    assert(is_first(self@.exports, p, i as int));
                    lemma_first_index_found(self@.exports, p, i as int);
                }
                return Some(i);
            }
            i += 1;
        }
        proof {
            lemma_first_index_none(self@.exports, p);
        }
        None
    }

    /// The first function called `name`, if there is one.
    pub fn func_by_name(&self, name: &str) -> (r: Option<FunctionId>)
        ensures
            r is Some == self@.func_by_name(name@) is Some,
            r matches Some(i) ==> self@.func_by_name(name@) == Some(i as int) && i
                < self@.funcs.len(),
    {
        let ghost p = is_named(name@);
        let mut i: usize = 0;
        while i < self.funcs.len()
            invariant
                i <= self.funcs.len(),
                p == is_named(name@),
                forall|j: int| 0 <= j < i ==> !p(#[trigger] self@.funcs[j]),
            decreases self.funcs.len() - i,
        {
            let hit = match &self.funcs[i].name {
                Some(n) => str_eq(n.as_str(), name),
                None => false,
            };
            if hit {
                proof {
                    assert(p(self@.funcs[i as int]));
                    assert(is_first(self@.funcs, p, i as int));
                    lemma_first_index_found(self@.funcs, p, i as int);
                }
                return Some(i);
            }
            i += 1;
        }
        proof {
            lemma_first_index_none(self@.funcs, p);
        }
        None
    }

    /// Adds a local of type `ty` and gives its id.
    pub fn add_local(&mut self, ty: ValType) -> (id: LocalId)
        ensures
            final(self)@ == old(self)@.with_local(ty),
            id == old(self)@.locals.len(),
    {
        let id = self.locals.len();
        self.locals.push(ty);
        id
    }

    /// Adds `n` locals of type `ty` and gives the id of the first; the
    /// others follow it.
    pub fn add_locals(&mut self, ty: ValType, n: usize) -> (first: LocalId)
        ensures
            final(self)@ == old(self)@.with_locals(ty, n as nat),
            first == old(self)@.locals.len(),
    {
        let first = self.locals.len();
        let mut i: usize = 0;
        while i < n
            invariant
                i <= n,
                self@ == old(self)@.with_locals(ty, i as nat),
            decreases n - i,
        {
            self.locals.push(ty);
            assert(self@.locals =~= old(self)@.locals + Seq::new((i + 1) as nat, |k: int| ty));
            i += 1;
        }
        first
    }

    /// Adds the import of function `module.name` with type `ty` and gives the
    /// function's id.
    pub fn add_import_func(&mut self, module: &str, name: &str, ty: TypeId) -> (id: FunctionId)
        ensures
            final(self)@ == old(self)@.with_import_func(module@, name@, ty),
            id == old(self)@.funcs.len(),
    {
        let id = self.funcs.len();
        let import = self.imports.len();
        self.funcs.push(Function { name: None, kind: FunctionKind::Import { ty, import } });
        self.imports.push(
            Import { module: module.to_owned(), name: name.to_owned(), kind: ImportKind::Function(id) },
        );
        proof {
            let w = old(self)@.with_import_func(module@, name@, ty);
            assert(self@.funcs =~= w.funcs);
            assert(self@.imports =~= w.imports);
        }
        id
    }

    /// Adds a global and gives its id.
    pub fn add_global(&mut self, g: Global) -> (id: GlobalId)
        ensures
            final(self)@ == old(self)@.with_global(g),
            id == old(self)@.globals.len(),
    {
        let id = self.globals.len();
        self.globals.push(g);
        id
    }

    /// Adds a function and gives its id.
    pub fn add_func(&mut self, f: Function) -> (id: FunctionId)
        ensures
            final(self)@ == old(self)@.with_func(f.deep_view()),
            id == old(self)@.funcs.len(),
    {
        let id = self.funcs.len();
        self.funcs.push(f);
        assert(self@.funcs =~= old(self)@.funcs.push(f.deep_view()));
        id
    }

    /// Adds a local function whose entry sequence is the first of `seqs`, and
    /// gives its id.
    pub fn add_local_func(
        &mut self,
        name: Option<String>,
        ty: TypeId,
        args: Vec<LocalId>,
        seqs: Vec<InstrSeq>,
    ) -> (id: FunctionId)
        ensures
            final(self)@ == old(self)@.with_local_func(
                name.deep_view(),
                ty,
                args@,
                seqs.deep_view(),
            ),
            id == old(self)@.funcs.len(),
    {
        self.add_func(
            Function { name, kind: FunctionKind::Local(LocalFunction { ty, args, seqs, entry: 0 }) },
        )
    }

    /// Adds an export.
    pub fn add_export(&mut self, name: &str, item: ExportItem)
        ensures
            final(self)@ == old(self)@.with_export(name@, item),
    {
        self.exports.push(Export { name: name.to_owned(), item });
        assert(self@.exports =~= old(self)@.exports.push(ExportView { name: name@, item }));
    }

    /// Adds a custom section.
    pub fn add_custom(&mut self, c: CustomSection)
        ensures
            final(self)@ == old(self)@.with_custom(c.deep_view()),
    {
        self.customs.push(c);
        assert(self@.customs =~= old(self)@.customs.push(c.deep_view()));
    }

    /// Replaces the body of function `id` by `f`; the function keeps its
    /// name.
    pub fn set_body(&mut self, id: FunctionId, f: LocalFunction)
        requires
            id < old(self)@.funcs.len(),
        ensures
            final(self)@ == old(self)@.with_body(id as int, f.deep_view()),
    {
        let name = match &self.funcs[id].name {
            Some(n) => Some(n.clone()),
            None => None,
        };
        self.set_func(id, Function { name, kind: FunctionKind::Local(f) });
    }

    /// Replaces function `id` by `f`.
    pub fn set_func(&mut self, id: FunctionId, f: Function)
        requires
            id < old(self)@.funcs.len(),
        ensures
            final(self)@ == old(self)@.with_func_at(id as int, f.deep_view()),
    {
        self.funcs.set(id, f);
        assert(self@.funcs =~= old(self)@.funcs.update(id as int, f.deep_view()));
    }
}

} // verus!
