//! A summary of a module: what it holds, exports and imports.

use vstd::prelude::*;
use vstd::string::StringExecFns;
use crate::ir::FunctionId;
use crate::module::{DataView, ExportItem, ExportView, ImportView, Module, ModuleView};
use crate::strings::{concat, decimal, str_eq, to_decimal};
use crate::utils::{func_name, get_func_name, is_motoko, is_motoko_canister};

verus! {

/// An exported function: the name it is exported under and the name it goes
/// by in the module.
#[derive(Clone, Debug, PartialEq, Eq)]
pub struct ExportedMethodInfo {
    pub name: String,
    pub internal_name: String,
}

pub struct ExportedMethodView {
    pub name: Seq<char>,
    pub internal_name: Seq<char>,
}

impl DeepView for ExportedMethodInfo {
    type V = ExportedMethodView;

    open spec fn deep_view(&self) -> ExportedMethodView {
        ExportedMethodView { name: self.name@, internal_name: self.internal_name@ }
    }
}

/// A custom section: its name and the number of its bytes.
#[derive(Clone, Debug, PartialEq, Eq)]
pub struct CustomSectionInfo {
    pub name: String,
    pub size: usize,
}

pub struct CustomSectionInfoView {
    pub name: Seq<char>,
    pub size: usize,
}

impl DeepView for CustomSectionInfo {
    type V = CustomSectionInfoView;

    open spec fn deep_view(&self) -> CustomSectionInfoView {
        CustomSectionInfoView { name: self.name@, size: self.size }
    }
}

/// What is known of the language a module was compiled from: for Motoko,
/// the modules embedded in its data segments, each with a label.
#[derive(Debug, PartialEq, Eq)]
pub enum LanguageSpecificInfo {
    Motoko { embedded_wasm: Vec<(String, WasmInfo)> },
    Unknown,
}

/// The summary of a module.
#[derive(Debug, PartialEq, Eq)]
pub struct WasmInfo {
    pub language: LanguageSpecificInfo,
    pub number_of_types: usize,
    pub number_of_globals: usize,
    pub number_of_data_sections: usize,
    pub size_of_data_sections: usize,
    pub number_of_functions: usize,
    pub number_of_callbacks: usize,
    pub start_function: Option<String>,
    pub exported_methods: Vec<ExportedMethodInfo>,
    pub imported_ic0_system_api: Vec<String>,
    pub custom_sections: Vec<CustomSectionInfo>,
}

/// The bytes in all the data segments.
pub open spec fn data_size(data: Seq<DataView>) -> nat
    decreases data.len(),
{
    if data.len() == 0 {
        0
    } else {
        data_size(data.drop_last()) + data.last().value.len()
    }
}

/// The exported functions of a module, in the order of the exports.
pub open spec fn exported_methods(m: ModuleView, exports: Seq<ExportView>) -> Seq<ExportedMethodView>
    decreases exports.len(),
{
    if exports.len() == 0 {
        Seq::empty()
    } else {
        let rest = exported_methods(m, exports.drop_last());
        match exports.last().item {
            ExportItem::Function(id) => rest.push(
                ExportedMethodView { name: exports.last().name, internal_name: func_name(m, id) },
            ),
            _ => rest,
        }
    }
}

/// The names of what is imported from `ic0`, in the order of the imports.
pub open spec fn ic0_imports(imports: Seq<ImportView>) -> Seq<Seq<char>>
    decreases imports.len(),
{
    if imports.len() == 0 {
        Seq::empty()
    } else if imports.last().module == "ic0"@ {
        ic0_imports(imports.drop_last()).push(imports.last().name)
    } else {
        ic0_imports(imports.drop_last())
    }
}

/// What a summary asks of a module: the start function and the exported
/// functions are functions of the module, and the sizes of the data
/// segments add up within the machine's range.
pub open spec fn can_summarise(m: ModuleView) -> bool {
    &&& m.start matches Some(id) ==> id < m.funcs.len()
    &&& forall|k: int|
        0 <= k < m.exports.len() ==> ((#[trigger] m.exports[k]).item matches ExportItem::Function(
            id,
        ) ==> id < m.funcs.len())
    &&& data_size(m.data) <= usize::MAX
}

/// The sizes add up: a part of the segments holds no more than all.
proof fn lemma_data_size_mono(data: Seq<DataView>, d: int)
    requires
        0 <= d <= data.len(),
    ensures
        data_size(data.subrange(0, d)) <= data_size(data),
    decreases data.len() - d,
{
    if d < data.len() {
        lemma_data_size_mono(data, d + 1);
        assert(data.subrange(0, d + 1).drop_last() =~= data.subrange(0, d));
    } else {
        assert(data.subrange(0, d) =~= data);
    }
}

/// The exported functions of `m`.
pub fn get_exported_methods(m: &Module) -> (methods: Vec<ExportedMethodInfo>)
    requires
        can_summarise(m@),
    ensures
        methods.deep_view() == exported_methods(m@, m@.exports),
{
    let mut methods: Vec<ExportedMethodInfo> = Vec::new();
    let mut e: usize = 0;
    assert(m@.exports.subrange(0, 0) =~= Seq::empty());
    assert(methods.deep_view() =~= Seq::empty());
    while e < m.exports.len()
        invariant
            e <= m.exports.len(),
            can_summarise(m@),
            methods.deep_view() == exported_methods(m@, m@.exports.subrange(0, e as int)),
        decreases m.exports.len() - e,
    {
        let export = &m.exports[e];
        proof {
            assert(m@.exports.subrange(0, e + 1).drop_last() =~= m@.exports.subrange(0, e as int));
            assert(m@.exports.subrange(0, e + 1).last() == export.deep_view());
            assert(m@.exports[e as int] == export.deep_view());
        }
        match export.item {
            ExportItem::Function(id) => {
                let ghost before = methods.deep_view();
                let info = ExportedMethodInfo {
                    name: export.name.clone(),
                    internal_name: get_func_name(m, id),
                };
                let ghost added = info.deep_view();
                methods.push(info);
                assert(methods.deep_view() =~= before.push(added));
            },
            _ => {},
        }
        e += 1;
    }
    assert(m@.exports.subrange(0, e as int) =~= m@.exports);
    methods
}

impl LanguageSpecificInfo {
    /// What is known of the language of `m`, given the summaries of the
    /// modules embedded in it.
    pub fn from(m: &Module, embedded_wasm: Vec<(String, WasmInfo)>) -> (r: LanguageSpecificInfo)
        ensures
            is_motoko(m@) ==> r == (LanguageSpecificInfo::Motoko { embedded_wasm }),
            !is_motoko(m@) ==> r == LanguageSpecificInfo::Unknown,
    {
        if is_motoko_canister(m) {
            LanguageSpecificInfo::Motoko { embedded_wasm }
        } else {
            LanguageSpecificInfo::Unknown
        }
    }
}

impl WasmInfo {
    /// The summary of `m`, given the summaries of the modules embedded in
    /// it.
    pub fn from(m: &Module, embedded_wasm: Vec<(String, WasmInfo)>) -> (r: WasmInfo)
        requires
            can_summarise(m@),
        ensures
            is_motoko(m@) ==> r.language == (LanguageSpecificInfo::Motoko { embedded_wasm }),
            !is_motoko(m@) ==> r.language == LanguageSpecificInfo::Unknown,
            r.number_of_types == m@.types.len(),
            r.number_of_globals == m@.globals.len(),
            r.number_of_data_sections == m@.data.len(),
            r.size_of_data_sections == data_size(m@.data),
            r.number_of_functions == m@.funcs.len(),
            r.number_of_callbacks == m@.elements,
            r.start_function.deep_view() == (match m@.start {
                Some(id) => Some(func_name(m@, id)),
                None => None,
            }),
            r.exported_methods.deep_view() == exported_methods(m@, m@.exports),
            r.imported_ic0_system_api.deep_view() == ic0_imports(m@.imports),
            r.custom_sections.deep_view() == Seq::new(
                m@.customs.len(),
                |i: int|
                    CustomSectionInfoView {
                        name: m@.customs[i].name,
                        size: m@.customs[i].data.len() as usize,
                    },
            ),
    {
        let mut size_of_data_sections: usize = 0;
        let mut d: usize = 0;
        assert(m@.data.subrange(0, 0) =~= Seq::empty());
        while d < m.data.len()
            invariant
                d <= m.data.len(),
                data_size(m@.data) <= usize::MAX,
                size_of_data_sections == data_size(m@.data.subrange(0, d as int)),
            decreases m.data.len() - d,
        {
            proof {
                assert(m@.data.subrange(0, d + 1).drop_last() =~= m@.data.subrange(0, d as int));
                assert(m@.data.subrange(0, d + 1).last().value == m.data[d as int].value@);
                lemma_data_size_mono(m@.data, d + 1);
            }
            size_of_data_sections = size_of_data_sections + m.data[d].value.len();
            d += 1;
        }
        assert(m@.data.subrange(0, d as int) =~= m@.data);
        let mut imported_ic0_system_api: Vec<String> = Vec::new();
        let mut i: usize = 0;
        assert(m@.imports.subrange(0, 0) =~= Seq::empty());
        assert(imported_ic0_system_api.deep_view() =~= Seq::empty());
        while i < m.imports.len()
            invariant
                i <= m.imports.len(),
                imported_ic0_system_api.deep_view() == ic0_imports(
                    m@.imports.subrange(0, i as int),
                ),
            decreases m.imports.len() - i,
        {
            let import = &m.imports[i];
            proof {
                assert(m@.imports.subrange(0, i + 1).drop_last() =~= m@.imports.subrange(
                    0,
                    i as int,
                ));
                assert(m@.imports.subrange(0, i + 1).last() == import.deep_view());
            }
            if str_eq(import.module.as_str(), "ic0") {
                let ghost before = imported_ic0_system_api.deep_view();
                imported_ic0_system_api.push(import.name.clone());
                assert(imported_ic0_system_api.deep_view() =~= before.push(import.name@));
            }
            i += 1;
        }
        assert(m@.imports.subrange(0, i as int) =~= m@.imports);
        let mut custom_sections: Vec<CustomSectionInfo> = Vec::new();
        let mut c: usize = 0;
        while c < m.customs.len()
            invariant
                c <= m.customs.len(),
                custom_sections.deep_view() == Seq::new(
                    c as nat,
                    |i: int|
                        CustomSectionInfoView {
                            name: m@.customs[i].name,
                            size: m@.customs[i].data.len() as usize,
                        },
                ),
            decreases m.customs.len() - c,
        {
            let section = &m.customs[c];
            let ghost before = custom_sections.deep_view();
            let info = CustomSectionInfo { name: section.name.clone(), size: section.data.len() };
            let ghost added = info.deep_view();
            custom_sections.push(info);
            proof {
                assert(m@.customs[c as int] == section.deep_view());
                assert(custom_sections.deep_view() =~= before.push(added));
                assert(custom_sections.deep_view() =~= Seq::new(
                    (c + 1) as nat,
                    |i: int|
                        CustomSectionInfoView {
                            name: m@.customs[i].name,
                            size: m@.customs[i].data.len() as usize,
                        },
                ));
            }
            c += 1;
        }
        let start_function = match m.start {
            Some(id) => Some(get_func_name(m, id)),
            None => None,
        };
        WasmInfo {
            language: LanguageSpecificInfo::from(m, embedded_wasm),
            number_of_types: m.types.len(),
            number_of_globals: m.globals.len(),
            number_of_data_sections: m.data.len(),
            size_of_data_sections,
            number_of_functions: m.funcs.len(),
            number_of_callbacks: m.elements,
            start_function,
            exported_methods: get_exported_methods(m),
            imported_ic0_system_api,
            custom_sections,
        }
    }
}

/// The text that the debug form of an optional text is.
pub uninterp spec fn option_debug(text: Option<Seq<char>>) -> Seq<char>;

/// The debug formatting of std for an `Option<String>`: `None`, or `Some`
/// with the text quoted and escaped.
#[verifier::external_body]
fn debug_option(text: &Option<String>) -> (r: String)
    ensures
        r@ == option_debug(text.deep_view()),
{
    format!("{:?}", text)
}

/// The text that the pretty debug form of a list of texts is.
pub uninterp spec fn list_debug(items: Seq<Seq<char>>) -> Seq<char>;

/// The pretty debug formatting of std for a `Vec<String>`: the texts quoted
/// and escaped, one on a line, between brackets.
#[verifier::external_body]
fn debug_list(items: &Vec<String>) -> (r: String)
    ensures
        r@ == list_debug(items.deep_view()),
{
    format!("{:#?}", items)
}

/// How an exported function is shown: by its name in the module, after the
/// name it is exported under where the two differ.
pub open spec fn method_text(method: ExportedMethodView) -> Seq<char> {
    if method.name == method.internal_name {
        method.internal_name
    } else {
        method.name + " ("@ + method.internal_name + ")"@
    }
}

/// How a custom section is shown: its name and its size.
pub open spec fn section_text(section: CustomSectionInfoView) -> Seq<char> {
    section.name + " ("@ + decimal(section.size as nat) + " bytes)"@
}

/// A line with a label and what it labels.
pub open spec fn labelled(label: Seq<char>, what: Seq<char>, end: Seq<char>) -> Seq<char> {
    label + what + end
}

/// The exported functions as they are shown.
pub open spec fn shown_methods(i: WasmInfo) -> Seq<Seq<char>> {
    Seq::new(
        i.exported_methods.len() as nat,
        |k: int| method_text(i.exported_methods[k].deep_view()),
    )
}

/// The custom sections as they are shown.
pub open spec fn shown_sections(i: WasmInfo) -> Seq<Seq<char>> {
    Seq::new(
        i.custom_sections.len() as nat,
        |k: int| section_text(i.custom_sections[k].deep_view()),
    )
}

/// The summary as text, without what is specific to the language.
pub open spec fn summary_text(i: WasmInfo) -> Seq<char> {
    labelled("Number of types: "@, decimal(i.number_of_types as nat), "\n"@) + labelled(
        "Number of globals: "@,
        decimal(i.number_of_globals as nat),
        "\n\n"@,
    ) + labelled("Number of data sections: "@, decimal(i.number_of_data_sections as nat), "\n"@)
        + labelled(
        "Size of data sections: "@,
        decimal(i.size_of_data_sections as nat),
        " bytes\n\n"@,
    ) + labelled("Number of functions: "@, decimal(i.number_of_functions as nat), "\n"@)
        + labelled("Number of callbacks: "@, decimal(i.number_of_callbacks as nat), "\n"@)
        + labelled("Start function: "@, option_debug(i.start_function.deep_view()), "\n"@)
        + labelled("Exported methods: "@, list_debug(shown_methods(i)), "\n\n"@) + labelled(
        "Imported IC0 System API: "@,
        list_debug(i.imported_ic0_system_api.deep_view()),
        "\n\n"@,
    ) + labelled("Custom sections with size: "@, list_debug(shown_sections(i)), "\n"@)
}

fn line(label: &str, what: &str, end: &str) -> (r: String)
    ensures
        r@ == labelled(label@, what@, end@),
{
    let mut r = concat(label, what);
    r.append(end);
    r
}

impl WasmInfo {
    /// The summary as text, without what is specific to the language.
    pub fn summary(&self) -> (text: String)
        ensures
            text@ == summary_text(*self),
    {
        let mut exports: Vec<String> = Vec::new();
        let mut k: usize = 0;
        while k < self.exported_methods.len()
            invariant
                k <= self.exported_methods.len(),
                exports.deep_view() == shown_methods(*self).subrange(0, k as int),
            decreases self.exported_methods.len() - k,
        {
            let method = &self.exported_methods[k];
            let shown = if str_eq(method.name.as_str(), method.internal_name.as_str()) {
                method.internal_name.clone()
            } else {
                let mut t = concat(method.name.as_str(), " (");
                t.append(method.internal_name.as_str());
                t.append(")");
                t
            };
            let ghost before = exports.deep_view();
            exports.push(shown);
            assert(exports.deep_view() =~= before.push(method_text(method.deep_view())));
            assert(exports.deep_view() =~= shown_methods(*self).subrange(0, k + 1));
            k += 1;
        }
        assert(exports.deep_view() =~= shown_methods(*self));
        let mut customs: Vec<String> = Vec::new();
        let mut c: usize = 0;
        while c < self.custom_sections.len()
            invariant
                c <= self.custom_sections.len(),
                customs.deep_view() == shown_sections(*self).subrange(0, c as int),
            decreases self.custom_sections.len() - c,
        {
            let section = &self.custom_sections[c];
            let mut t = concat(section.name.as_str(), " (");
            t.append(to_decimal(section.size).as_str());
            t.append(" bytes)");
            let ghost before = customs.deep_view();
            customs.push(t);
            assert(customs.deep_view() =~= before.push(section_text(section.deep_view())));
            assert(customs.deep_view() =~= shown_sections(*self).subrange(0, c + 1));
            c += 1;
        }
        assert(customs.deep_view() =~= shown_sections(*self));
        let mut text = line("Number of types: ", to_decimal(self.number_of_types).as_str(), "\n");
        text.append(
            line("Number of globals: ", to_decimal(self.number_of_globals).as_str(), "\n\n").as_str(),
        );
        text.append(
            line(
                "Number of data sections: ",
                to_decimal(self.number_of_data_sections).as_str(),
                "\n",
            ).as_str(),
        );
        text.append(
            line(
                "Size of data sections: ",
                to_decimal(self.size_of_data_sections).as_str(),
                " bytes\n\n",
            ).as_str(),
        );
        text.append(
            line("Number of functions: ", to_decimal(self.number_of_functions).as_str(), "\n").as_str(),
        );
        text.append(
            line("Number of callbacks: ", to_decimal(self.number_of_callbacks).as_str(), "\n").as_str(),
        );
        text.append(
            line("Start function: ", debug_option(&self.start_function).as_str(), "\n").as_str(),
        );
        text.append(line("Exported methods: ", debug_list(&exports).as_str(), "\n\n").as_str());
        text.append(
            line(
                "Imported IC0 System API: ",
                debug_list(&self.imported_ic0_system_api).as_str(),
                "\n\n",
            ).as_str(),
        );
        text.append(
            line("Custom sections with size: ", debug_list(&customs).as_str(), "\n").as_str(),
        );
        text
    }
}

/// The summaries of the first `n` embedded modules as text, each between a
/// line that opens and a line that closes it.
pub open spec fn embedded_text(embedded: Seq<(String, WasmInfo)>, n: nat) -> Seq<char>
    decreases embedded, n,
{
    if n == 0 || n > embedded.len() {
        Seq::empty()
    } else {
        embedded_text(embedded, (n - 1) as nat) + "--- Start decoding an embedded Wasm ---\n"@
            + info_text(embedded[n - 1].1) + "--- End of decoding ---\n"@
    }
}

/// What is known of the language as text: nothing where it is unknown.
pub open spec fn language_text(language: LanguageSpecificInfo) -> Seq<char>
    decreases language,
{
    match language {
        LanguageSpecificInfo::Motoko { embedded_wasm } => "This is a Motoko canister\n"@
            + embedded_text(embedded_wasm@, embedded_wasm@.len()) + "\n"@,
        LanguageSpecificInfo::Unknown => Seq::empty(),
    }
}

/// The summary as text.
pub open spec fn info_text(i: WasmInfo) -> Seq<char>
    decreases i,
{
    language_text(i.language) + summary_text(i)
}

impl LanguageSpecificInfo {
    /// What is known of the language as text.
    pub fn to_text(&self) -> (text: String)
        ensures
            text@ == language_text(*self),
        decreases self,
    {
        match self {
            LanguageSpecificInfo::Motoko { embedded_wasm } => {
                let mut text = "This is a Motoko canister\n".to_owned();
                let mut inner = String::new();
                let mut k: usize = 0;
                while k < embedded_wasm.len()
                    invariant
                        k <= embedded_wasm.len(),
                        *self == (LanguageSpecificInfo::Motoko { embedded_wasm: *embedded_wasm }),
                        inner@ == embedded_text(embedded_wasm@, k as nat),
                    decreases embedded_wasm.len() - k,
                {
                    let info = &embedded_wasm[k].1;
                    proof {
                        vstd::std_specs::vec::axiom_vec_index_decreases(*embedded_wasm, k as int);
                        assert(decreases_to!(*embedded_wasm => embedded_wasm[k as int]));
                        assert(decreases_to!(embedded_wasm[k as int] => embedded_wasm[k as int].1));
                        let l = *self;
                        assert(l is Motoko);
                        assert(l->embedded_wasm == *embedded_wasm);
                        assert(decreases_to!(l => l->embedded_wasm));
                    }
                    let mut part = concat(
                        "--- Start decoding an embedded Wasm ---\n",
                        info.to_text().as_str(),
                    );
                    part.append("--- End of decoding ---\n");
                    let ghost before = inner@;
                    inner.append(part.as_str());
                    assert(inner@ =~= embedded_text(embedded_wasm@, (k + 1) as nat));
                    k += 1;
                }
                text.append(inner.as_str());
                text.append("\n");
                text
            },
            LanguageSpecificInfo::Unknown => String::new(),
        }
    }
}

impl WasmInfo {
    /// The summary as text.
    pub fn to_text(&self) -> (text: String)
        ensures
            text@ == info_text(*self),
        decreases self,
    {
        let mut text = self.language.to_text();
        text.append(self.summary().as_str());
        text
    }
}

} // verus!
