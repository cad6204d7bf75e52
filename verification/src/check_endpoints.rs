//! Comparing what a canister module exports with the endpoints that its
//! Candid interface and a list of hidden endpoints declare.

use vstd::prelude::*;
use vstd::string::{StrSliceExecFns, StringExecFns};
use crate::info::{ExportedMethodInfo, ExportedMethodView};
use crate::search::{first_index, is_first, lemma_first_index_found, lemma_first_index_none};
use crate::strings::{
    after_prefix, concat, starts_with, str_eq, strip_prefix, trim, trimmed,
};

verus! {

/// An endpoint of a canister: a method of one of the three kinds, or another
/// entry point that the system calls.
#[derive(Clone, Debug, PartialEq, Eq, PartialOrd, Ord)]
pub enum CanisterEndpoint {
    Update(String),
    Query(String),
    CompositeQuery(String),
    Entrypoint(String),
}

pub enum EndpointView {
    Update(Seq<char>),
    Query(Seq<char>),
    CompositeQuery(Seq<char>),
    Entrypoint(Seq<char>),
}

impl DeepView for CanisterEndpoint {
    type V = EndpointView;

    open spec fn deep_view(&self) -> EndpointView {
        match self {
            CanisterEndpoint::Update(s) => EndpointView::Update(s@),
            CanisterEndpoint::Query(s) => EndpointView::Query(s@),
            CanisterEndpoint::CompositeQuery(s) => EndpointView::CompositeQuery(s@),
            CanisterEndpoint::Entrypoint(s) => EndpointView::Entrypoint(s@),
        }
    }
}

impl View for CanisterEndpoint {
    type V = EndpointView;

    open spec fn view(&self) -> EndpointView {
        self.deep_view()
    }
}

/// The endpoint as text: the kind of a method, a colon and its name, or the
/// name of the entry point alone.
pub open spec fn endpoint_text(e: EndpointView) -> Seq<char> {
    match e {
        EndpointView::Update(s) => "canister_update:"@ + s,
        EndpointView::Query(s) => "canister_query:"@ + s,
        EndpointView::CompositeQuery(s) => "canister_composite_query:"@ + s,
        EndpointView::Entrypoint(s) => s,
    }
}

/// The endpoint that a text stands for: what begins with the kind of a
/// method and a colon is that method, anything else an entry point.
pub open spec fn endpoint_of_text(s: Seq<char>) -> EndpointView {
    if let Some(rest) = after_prefix(s, "canister_update:"@) {
        EndpointView::Update(rest)
    } else if let Some(rest) = after_prefix(s, "canister_query:"@) {
        EndpointView::Query(rest)
    } else if let Some(rest) = after_prefix(s, "canister_composite_query:"@) {
        EndpointView::CompositeQuery(rest)
    } else {
        EndpointView::Entrypoint(s)
    }
}

/// The endpoint that an export of a module is, if its name is not empty:
/// what begins with the kind of a method is that method, by the trimmed rest
/// of the name; anything else is an entry point, by its trimmed name.
pub open spec fn endpoint_of_export(name: Seq<char>) -> Option<EndpointView> {
    if let Some(rest) = after_prefix(name, "canister_update"@) {
        Some(EndpointView::Update(trimmed(rest)))
    } else if let Some(rest) = after_prefix(name, "canister_query"@) {
        Some(EndpointView::Query(trimmed(rest)))
    } else if let Some(rest) = after_prefix(name, "canister_composite_query"@) {
        Some(EndpointView::CompositeQuery(trimmed(rest)))
    } else if trimmed(name).len() > 0 {
        Some(EndpointView::Entrypoint(trimmed(name)))
    } else {
        None
    }
}

impl CanisterEndpoint {
    /// The endpoint as text.
    pub fn to_text(&self) -> (text: String)
        ensures
            text@ == endpoint_text(self@),
    {
        match self {
            CanisterEndpoint::Update(s) => concat("canister_update:", s.as_str()),
            CanisterEndpoint::Query(s) => concat("canister_query:", s.as_str()),
            CanisterEndpoint::CompositeQuery(s) => concat(
                "canister_composite_query:",
                s.as_str(),
            ),
            CanisterEndpoint::Entrypoint(s) => s.clone(),
        }
    }

    /// The endpoint that the text `s` stands for.
    pub fn from_text(s: &str) -> (e: CanisterEndpoint)
        ensures
            e@ == endpoint_of_text(s@),
    {
        if let Some(rest) = strip_prefix(s, "canister_update:") {
            CanisterEndpoint::Update(rest.to_owned())
        } else if let Some(rest) = strip_prefix(s, "canister_query:") {
            CanisterEndpoint::Query(rest.to_owned())
        } else if let Some(rest) = strip_prefix(s, "canister_composite_query:") {
            CanisterEndpoint::CompositeQuery(rest.to_owned())
        } else {
            CanisterEndpoint::Entrypoint(s.to_owned())
        }
    }

    /// The endpoint that the exported function `method` is; an error where
    /// its name is empty but for white space.
    pub fn try_from(method: &ExportedMethodInfo) -> (r: Result<CanisterEndpoint, String>)
        ensures
            match endpoint_of_export(method.name@) {
                Some(e) => r matches Ok(endpoint) && endpoint@ == e,
                None => r matches Err(message) && message@
                    == "Exported method in canister WASM has empty name"@,
            },
    {
        let name = method.name.as_str();
        if let Some(rest) = strip_prefix(name, "canister_update") {
            return Ok(CanisterEndpoint::Update(trim(rest).to_owned()));
        }
        if let Some(rest) = strip_prefix(name, "canister_query") {
            return Ok(CanisterEndpoint::Query(trim(rest).to_owned()));
        }
        if let Some(rest) = strip_prefix(name, "canister_composite_query") {
            return Ok(CanisterEndpoint::CompositeQuery(trim(rest).to_owned()));
        }
        let trimmed_name = trim(name);
        if trimmed_name.unicode_len() > 0 {
            Ok(CanisterEndpoint::Entrypoint(trimmed_name.to_owned()))
        } else {
            Err("Exported method in canister WASM has empty name".to_owned())
        }
    }

    /// Whether the two endpoints are the same.
    pub fn same(&self, other: &CanisterEndpoint) -> (r: bool)
        ensures
            r == (self@ == other@),
    {
        match (self, other) {
            (CanisterEndpoint::Update(a), CanisterEndpoint::Update(b)) => str_eq(
                a.as_str(),
                b.as_str(),
            ),
            (CanisterEndpoint::Query(a), CanisterEndpoint::Query(b)) => str_eq(
                a.as_str(),
                b.as_str(),
            ),
            (CanisterEndpoint::CompositeQuery(a), CanisterEndpoint::CompositeQuery(b)) => str_eq(
                a.as_str(),
                b.as_str(),
            ),
            (CanisterEndpoint::Entrypoint(a), CanisterEndpoint::Entrypoint(b)) => str_eq(
                a.as_str(),
                b.as_str(),
            ),
            _ => false,
        }
    }

    /// A copy of the endpoint.
    pub fn duplicate(&self) -> (r: CanisterEndpoint)
        ensures
            r@ == self@,
    {
        match self {
            CanisterEndpoint::Update(s) => CanisterEndpoint::Update(s.clone()),
            CanisterEndpoint::Query(s) => CanisterEndpoint::Query(s.clone()),
            CanisterEndpoint::CompositeQuery(s) => CanisterEndpoint::CompositeQuery(s.clone()),
            CanisterEndpoint::Entrypoint(s) => CanisterEndpoint::Entrypoint(s.clone()),
        }
    }
}

/// The set with the endpoint in it: the set itself where it has the
/// endpoint, else the set with the endpoint at its end.
pub open spec fn with_endpoint(set: Seq<EndpointView>, e: EndpointView) -> Seq<EndpointView> {
    if set.contains(e) {
        set
    } else {
        set.push(e)
    }
}

/// Whether `set` holds `e`.
pub fn has_endpoint(set: &Vec<CanisterEndpoint>, e: &CanisterEndpoint) -> (r: bool)
    ensures
        r == set.deep_view().contains(e@),
{
    let mut i: usize = 0;
    while i < set.len()
        invariant
            i <= set.len(),
            forall|j: int| 0 <= j < i ==> set.deep_view()[j] != e@,
        decreases set.len() - i,
    {
        if set[i].same(e) {
            assert(set.deep_view()[i as int] == e@);
            return true;
        }
        i += 1;
    }
    false
}

/// Puts `e` into `set` unless it is there.
pub fn insert_endpoint(set: &mut Vec<CanisterEndpoint>, e: CanisterEndpoint)
    ensures
        final(set).deep_view() == with_endpoint(old(set).deep_view(), e@),
{
    if !has_endpoint(set, &e) {
        let ghost before = set.deep_view();
        set.push(e);
        assert(set.deep_view() =~= before.push(e@));
    }
}

/// The texts of an outcome that is a text either way.
pub open spec fn text_outcome(r: Result<String, String>) -> Result<Seq<char>, Seq<char>> {
    match r {
        Ok(text) => Ok(text@),
        Err(e) => Err(e@),
    }
}

/// The model of what reading a line gives.
pub open spec fn line_outcome(r: Result<Option<CanisterEndpoint>, String>) -> Result<
    Option<EndpointView>,
    Seq<char>,
> {
    match r {
        Ok(Some(e)) => Ok(Some(e@)),
        Ok(None) => Ok(None),
        Err(e) => Err(e@),
    }
}

/// The model of what reading a list of endpoints gives.
pub open spec fn set_outcome(r: Result<Vec<CanisterEndpoint>, String>) -> Result<
    Seq<EndpointView>,
    Seq<char>,
> {
    match r {
        Ok(set) => Ok(set.deep_view()),
        Err(e) => Err(e@),
    }
}

/// The text in a JSON string literal, or the report of why `line` is none.
pub uninterp spec fn json_string(line: Seq<char>) -> Result<Seq<char>, Seq<char>>;

/// `from_str` of serde_json for a `String`: the text that the JSON string
/// literal `line` holds, or, where `line` is no such literal, the error in
/// its debug form.
#[verifier::external_body]
fn parse_json_string(line: &str) -> (r: Result<String, String>)
    ensures
        text_outcome(r) == json_string(line@),
{
    match serde_json::from_str::<String>(line) {
        Ok(text) => Ok(text),
        Err(e) => Err(format!("{e:?}")),
    }
}

/// What a line of the list of hidden endpoints says: a line that begins with
/// `#` is a comment and says nothing; a line that begins with a quote is a
/// JSON string literal that holds the endpoint's text; any other line is the
/// endpoint's text itself.
pub open spec fn line_endpoint(line: Seq<char>) -> Result<Option<EndpointView>, Seq<char>> {
    if "#"@.is_prefix_of(line) {
        Ok(None)
    } else if "\""@.is_prefix_of(line) {
        if line.len() < 2 || line.last() != '"' {
            Err("Could not parse hidden endpoint, missing terminating quote: "@ + line)
        } else {
            match json_string(line) {
                Ok(text) => Ok(Some(endpoint_of_text(text))),
                Err(e) => Err("Could not parse hidden endpoint: "@ + e),
            }
        }
    } else {
        Ok(Some(endpoint_of_text(line)))
    }
}

/// What a line of the list of hidden endpoints says.
pub fn parse_line(line: &str) -> (r: Result<Option<CanisterEndpoint>, String>)
    ensures
        line_outcome(r) == line_endpoint(line@),
{
    if starts_with(line, "#") {
        return Ok(None);
    }
    if starts_with(line, "\"") {
        let n = line.unicode_len();
        if n < 2 || line.get_char(n - 1) != '"' {
            return Err(
                concat("Could not parse hidden endpoint, missing terminating quote: ", line),
            );
        }
        return match parse_json_string(line) {
            Ok(text) => Ok(Some(CanisterEndpoint::from_text(text.as_str()))),
            Err(e) => Err(concat("Could not parse hidden endpoint: ", e.as_str())),
        };
    }
    Ok(Some(CanisterEndpoint::from_text(line)))
}

/// The lines that count: each line trimmed, without those that are empty
/// then.
pub open spec fn trimmed_lines(lines: Seq<Seq<char>>) -> Seq<Seq<char>>
    decreases lines.len(),
{
    if lines.len() == 0 {
        Seq::empty()
    } else if trimmed(lines.last()).len() > 0 {
        trimmed_lines(lines.drop_last()).push(trimmed(lines.last()))
    } else {
        trimmed_lines(lines.drop_last())
    }
}

/// The lines of a file that count: trimmed, and not empty.
pub fn read_lines(lines: &Vec<String>) -> (r: Vec<String>)
    ensures
        r.deep_view() == trimmed_lines(lines.deep_view()),
{
    let mut r: Vec<String> = Vec::new();
    let mut i: usize = 0;
    assert(lines.deep_view().subrange(0, 0) =~= Seq::empty());
    assert(r.deep_view() =~= Seq::empty());
    while i < lines.len()
        invariant
            i <= lines.len(),
            r.deep_view() == trimmed_lines(lines.deep_view().subrange(0, i as int)),
        decreases lines.len() - i,
    {
        proof {
            assert(lines.deep_view().subrange(0, i + 1).drop_last() =~= lines.deep_view().subrange(
                0,
                i as int,
            ));
            assert(lines.deep_view().subrange(0, i + 1).last() == lines[i as int]@);
        }
        let line = trim(lines[i].as_str());
        if line.unicode_len() > 0 {
            let ghost before = r.deep_view();
            r.push(line.to_owned());
            assert(r.deep_view() =~= before.push(line@));
        }
        i += 1;
    }
    assert(lines.deep_view().subrange(0, i as int) =~= lines.deep_view());
    r
}

/// The endpoints that the lines declare, each once, in the order in which
/// they first occur; or the error of the first line that cannot be read.
pub open spec fn declared(lines: Seq<Seq<char>>) -> Result<Seq<EndpointView>, Seq<char>>
    decreases lines.len(),
{
    if lines.len() == 0 {
        Ok(Seq::empty())
    } else {
        match declared(lines.drop_last()) {
            Err(e) => Err(e),
            Ok(set) => match line_endpoint(lines.last()) {
                Err(e) => Err(e),
                Ok(None) => Ok(set),
                Ok(Some(e)) => Ok(with_endpoint(set, e)),
            },
        }
    }
}

/// The hidden endpoints that a file of the given lines declares; none where
/// there is no file.
pub open spec fn hidden_endpoints(maybe_lines: Option<Seq<Seq<char>>>) -> Result<
    Seq<EndpointView>,
    Seq<char>,
> {
    match maybe_lines {
        Some(lines) => declared(trimmed_lines(lines)),
        None => Ok(Seq::empty()),
    }
}

/// The set of hidden endpoints that a file declares, given its lines.
pub fn read_hidden_endpoints(maybe_lines: Option<&Vec<String>>) -> (r: Result<
    Vec<CanisterEndpoint>,
    String,
>)
    ensures
        set_outcome(r) == hidden_endpoints(
            match maybe_lines {
                Some(lines) => Some(lines.deep_view()),
                None => None,
            },
        ),
{
    let mut endpoints: Vec<CanisterEndpoint> = Vec::new();
    assert(endpoints.deep_view() =~= Seq::empty());
    if let Some(raw) = maybe_lines {
        let lines = read_lines(raw);
        let ghost all = lines.deep_view();
        let mut i: usize = 0;
        assert(all.subrange(0, 0) =~= Seq::empty());
        while i < lines.len()
            invariant
                i <= lines.len(),
                all == lines.deep_view(),
                maybe_lines == Some(raw),
                all == trimmed_lines(raw.deep_view()),
                declared(all.subrange(0, i as int)) == Ok::<Seq<EndpointView>, Seq<char>>(
                    endpoints.deep_view(),
                ),
            decreases lines.len() - i,
        {
            proof {
                assert(all.subrange(0, i + 1).drop_last() =~= all.subrange(0, i as int));
                assert(all.subrange(0, i + 1).last() == lines[i as int]@);
            }
            match parse_line(lines[i].as_str()) {
                Ok(Some(endpoint)) => {
                    insert_endpoint(&mut endpoints, endpoint);
                },
                Ok(None) => {},
                Err(e) => {
                    proof {
                        lemma_declared_fails(all, i as int);
                    }
                    return Err(e);
                },
            }
            i += 1;
        }
        assert(all.subrange(0, i as int) =~= all);
    }
    Ok(endpoints)
}

/// Where the lines up to a line can be read and that line cannot, its error
/// is the error of all the lines.
proof fn lemma_declared_fails(lines: Seq<Seq<char>>, i: int)
    requires
        0 <= i < lines.len(),
        declared(lines.subrange(0, i)) is Ok,
        line_endpoint(lines[i]) is Err,
    ensures
        declared(lines) == Err::<Seq<EndpointView>, Seq<char>>(line_endpoint(lines[i])->Err_0),
    decreases lines.len() - i,
{
    let next = lines.subrange(0, i + 1);
    assert(next.drop_last() =~= lines.subrange(0, i));
    assert(next.last() == lines[i]);
    lemma_declared_error_stays(lines, i + 1);
}

/// An error in the first lines is the error of all the lines.
proof fn lemma_declared_error_stays(lines: Seq<Seq<char>>, k: int)
    requires
        0 <= k <= lines.len(),
        declared(lines.subrange(0, k)) is Err,
    ensures
        declared(lines) == declared(lines.subrange(0, k)),
    decreases lines.len() - k,
{
    if k < lines.len() {
        let next = lines.subrange(0, k + 1);
        assert(next.drop_last() =~= lines.subrange(0, k));
        lemma_declared_error_stays(lines, k + 1);
    } else {
        assert(lines.subrange(0, k) =~= lines);
    }
}

/// The endpoints of the exported functions, each once, in the order in
/// which they first occur; or the error of the first export without a name.
pub open spec fn exported_endpoints(methods: Seq<ExportedMethodView>) -> Result<
    Seq<EndpointView>,
    Seq<char>,
>
    decreases methods.len(),
{
    if methods.len() == 0 {
        Ok(Seq::empty())
    } else {
        match exported_endpoints(methods.drop_last()) {
            Err(e) => Err(e),
            Ok(set) => match endpoint_of_export(methods.last().name) {
                Some(e) => Ok(with_endpoint(set, e)),
                None => Err("Exported method in canister WASM has empty name"@),
            },
        }
    }
}

/// An error among the first exports is the error of all the exports.
proof fn lemma_exported_error_stays(methods: Seq<ExportedMethodView>, k: int)
    requires
        0 <= k <= methods.len(),
        exported_endpoints(methods.subrange(0, k)) is Err,
    ensures
        exported_endpoints(methods) == exported_endpoints(methods.subrange(0, k)),
    decreases methods.len() - k,
{
    if k < methods.len() {
        let next = methods.subrange(0, k + 1);
        assert(next.drop_last() =~= methods.subrange(0, k));
        lemma_exported_error_stays(methods, k + 1);
    } else {
        assert(methods.subrange(0, k) =~= methods);
    }
}

/// The set of endpoints that a module exports, given its exported
/// functions.
pub fn wasm_endpoints(methods: &Vec<ExportedMethodInfo>) -> (r: Result<
    Vec<CanisterEndpoint>,
    String,
>)
    ensures
        set_outcome(r) == exported_endpoints(methods.deep_view()),
{
    let ghost all = methods.deep_view();
    let mut endpoints: Vec<CanisterEndpoint> = Vec::new();
    let mut i: usize = 0;
    assert(endpoints.deep_view() =~= Seq::empty());
    assert(all.subrange(0, 0) =~= Seq::empty());
    while i < methods.len()
        invariant
            i <= methods.len(),
            all == methods.deep_view(),
            exported_endpoints(all.subrange(0, i as int)) == Ok::<Seq<EndpointView>, Seq<char>>(
                endpoints.deep_view(),
            ),
        decreases methods.len() - i,
    {
        proof {
            assert(all.subrange(0, i + 1).drop_last() =~= all.subrange(0, i as int));
            assert(all.subrange(0, i + 1).last() == methods[i as int].deep_view());
        }
        match CanisterEndpoint::try_from(&methods[i]) {
            Ok(endpoint) => {
                insert_endpoint(&mut endpoints, endpoint);
            },
            Err(e) => {
                proof {
                    lemma_exported_error_stays(all, i + 1);
                }
                return Err(e);
            },
        }
        i += 1;
    }
    assert(all.subrange(0, i as int) =~= all);
    Ok(endpoints)
}

/// How a function of a Candid service is called.
#[derive(Clone, Copy, Debug, PartialEq, Eq, Structural)]
pub enum FuncMode {
    Oneway,
    Query,
    CompositeQuery,
}

/// A member of a Candid service: its name and, where it is a function, the
/// modes of the function.
#[derive(Clone, Debug, PartialEq, Eq)]
pub struct ServiceMethod {
    pub name: String,
    pub modes: Option<Vec<FuncMode>>,
}

pub struct ServiceMethodView {
    pub name: Seq<char>,
    pub modes: Option<Seq<FuncMode>>,
}

impl DeepView for ServiceMethod {
    type V = ServiceMethodView;

    open spec fn deep_view(&self) -> ServiceMethodView {
        ServiceMethodView {
            name: self.name@,
            modes: match self.modes {
                Some(modes) => Some(modes@),
                None => None,
            },
        }
    }
}

/// The endpoint that a member of a service declares: a function is a query
/// if it has the mode of a query or of a composite query, and an update
/// otherwise; what is no function declares nothing.
pub open spec fn service_endpoint(method: ServiceMethodView) -> Option<EndpointView> {
    match method.modes {
        Some(modes) => if modes.contains(FuncMode::Query) || modes.contains(
            FuncMode::CompositeQuery,
        ) {
            Some(EndpointView::Query(method.name))
        } else {
            Some(EndpointView::Update(method.name))
        },
        None => None,
    }
}

/// The endpoints that the members of a service declare, each once, in the
/// order in which they first occur.
pub open spec fn service_endpoints(methods: Seq<ServiceMethodView>) -> Seq<EndpointView>
    decreases methods.len(),
{
    if methods.len() == 0 {
        Seq::empty()
    } else {
        match service_endpoint(methods.last()) {
            Some(e) => with_endpoint(service_endpoints(methods.drop_last()), e),
            None => service_endpoints(methods.drop_last()),
        }
    }
}

fn has_mode(modes: &Vec<FuncMode>, mode: FuncMode) -> (r: bool)
    ensures
        r == modes@.contains(mode),
{
    let mut i: usize = 0;
    while i < modes.len()
        invariant
            i <= modes.len(),
            forall|j: int| 0 <= j < i ==> modes@[j] != mode,
        decreases modes.len() - i,
    {
        if modes[i] == mode {
            return true;
        }
        i += 1;
    }
    false
}

/// The set of endpoints that a Candid service declares, given its members.
pub fn candid_endpoints(methods: &Vec<ServiceMethod>) -> (r: Vec<CanisterEndpoint>)
    ensures
        r.deep_view() == service_endpoints(methods.deep_view()),
{
    let ghost all = methods.deep_view();
    let mut endpoints: Vec<CanisterEndpoint> = Vec::new();
    let mut i: usize = 0;
    assert(endpoints.deep_view() =~= Seq::empty());
    assert(all.subrange(0, 0) =~= Seq::empty());
    while i < methods.len()
        invariant
            i <= methods.len(),
            all == methods.deep_view(),
            endpoints.deep_view() == service_endpoints(all.subrange(0, i as int)),
        decreases methods.len() - i,
    {
        proof {
            assert(all.subrange(0, i + 1).drop_last() =~= all.subrange(0, i as int));
            assert(all.subrange(0, i + 1).last() == methods[i as int].deep_view());
        }
        let method = &methods[i];
        match &method.modes {
            Some(modes) => {
                let endpoint = if has_mode(modes, FuncMode::Query) || has_mode(
                    modes,
                    FuncMode::CompositeQuery,
                ) {
                    CanisterEndpoint::Query(method.name.clone())
                } else {
                    CanisterEndpoint::Update(method.name.clone())
                };
                insert_endpoint(&mut endpoints, endpoint);
            },
            None => {},
        }
        i += 1;
    }
    assert(all.subrange(0, i as int) =~= all);
    endpoints
}

/// The endpoints of `a` that are not in `b`, in their order.
pub open spec fn without(a: Seq<EndpointView>, b: Seq<EndpointView>) -> Seq<EndpointView>
    decreases a.len(),
{
    if a.len() == 0 {
        Seq::empty()
    } else if b.contains(a.last()) {
        without(a.drop_last(), b)
    } else {
        without(a.drop_last(), b).push(a.last())
    }
}

/// The endpoints of `a` that are not in `b`.
pub fn difference(a: &Vec<CanisterEndpoint>, b: &Vec<CanisterEndpoint>) -> (r: Vec<
    CanisterEndpoint,
>)
    ensures
        r.deep_view() == without(a.deep_view(), b.deep_view()),
{
    let ghost all = a.deep_view();
    let mut r: Vec<CanisterEndpoint> = Vec::new();
    let mut i: usize = 0;
    assert(r.deep_view() =~= Seq::empty());
    assert(all.subrange(0, 0) =~= Seq::empty());
    while i < a.len()
        invariant
            i <= a.len(),
            all == a.deep_view(),
            r.deep_view() == without(all.subrange(0, i as int), b.deep_view()),
        decreases a.len() - i,
    {
        proof {
            assert(all.subrange(0, i + 1).drop_last() =~= all.subrange(0, i as int));
            assert(all.subrange(0, i + 1).last() == a[i as int]@);
        }
        if !has_endpoint(b, &a[i]) {
            let ghost before = r.deep_view();
            r.push(a[i].duplicate());
            assert(r.deep_view() =~= before.push(a[i as int]@));
        }
        i += 1;
    }
    assert(all.subrange(0, i as int) =~= all);
    r
}

/// How the exports of a module differ from what is declared: the endpoints
/// of the Candid interface and the hidden endpoints that the module does not
/// export, and the exported endpoints that neither declares.
#[derive(Clone, Debug, PartialEq, Eq)]
pub struct Mismatch {
    pub missing_candid: Vec<CanisterEndpoint>,
    pub missing_hidden: Vec<CanisterEndpoint>,
    pub unexpected: Vec<CanisterEndpoint>,
}

/// Checks the exported endpoints `wasm` against those of the Candid
/// interface and the hidden ones: they match if every declared endpoint is
/// exported and every exported endpoint is declared.
pub fn check_endpoints(
    wasm: &Vec<CanisterEndpoint>,
    candid: &Vec<CanisterEndpoint>,
    hidden: &Vec<CanisterEndpoint>,
) -> (r: Result<(), Mismatch>)
    ensures
        r is Ok <==> without(candid.deep_view(), wasm.deep_view()).len() == 0 && without(
            hidden.deep_view(),
            wasm.deep_view(),
        ).len() == 0 && without(
            without(wasm.deep_view(), candid.deep_view()),
            hidden.deep_view(),
        ).len() == 0,
        r matches Err(d) ==> d.missing_candid.deep_view() == without(
            candid.deep_view(),
            wasm.deep_view(),
        ) && d.missing_hidden.deep_view() == without(hidden.deep_view(), wasm.deep_view())
            && d.unexpected.deep_view() == without(
            without(wasm.deep_view(), candid.deep_view()),
            hidden.deep_view(),
        ),
{
    let missing_candid = difference(candid, wasm);
    let missing_hidden = difference(hidden, wasm);
    let undeclared = difference(wasm, candid);
    let unexpected = difference(&undeclared, hidden);
    if missing_candid.len() > 0 || missing_hidden.len() > 0 || unexpected.len() > 0 {
        Err(Mismatch { missing_candid, missing_hidden, unexpected })
    } else {
        Ok(())
    }
}

} // verus!
