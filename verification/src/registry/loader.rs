//! From a workflow file to a definition.

use vstd::prelude::*;

use crate::definition;
use crate::definition::{
    AgentSpec, AgentSpecView, ParameterSpec, ParameterSpecView, ParameterType, ServiceMode, ServiceSpec, ServiceSpecView,
    WorkflowDefinition, WorkflowDefinitionView, DEFAULT_HANDLER,
};
use crate::error::{LoadError, LoadErrorView};
use crate::json::{JsonNumber, NumberView};
use crate::agent_log::store;
use crate::paths;
use crate::table;
use crate::table::Table;
use crate::text;

verus! {

// ---------------------------------------------------------------------------
// Which files

/// What follows the last dot of a file name that has something before it.
pub open spec fn has_extension(name: Seq<char>, ext: Seq<char>) -> bool {
    &&& !ext.contains('.')
    &&& name.len() > ext.len() + 1
    &&& text::has_suffix(name, seq!['.'] + ext)
}

/// A Markdown file, unless it lies in a directory named `agent`: such a file is material for an
/// agent and no workflow.
pub open spec fn is_workflow_file(path: Seq<char>) -> bool {
    &&& match paths::file_name(path) {
        Some(name) => has_extension(name, "md"@),
        None => false,
    }
    &&& match paths::parent(path) {
        Some(dir) => paths::file_name(dir) != Some("agent"@),
        None => true,
    }
}

/// Whether the file is looked at when workflows are loaded.
pub fn is_definition_file(path: &str) -> (r: bool)
    ensures
        r == is_workflow_file(path@),
{
    proof {
        reveal_strlit(".md");
        reveal_strlit("md");
        assert(".md"@ =~= seq!['.'] + "md"@);
        assert(!"md"@.contains('.')) by {
            assert("md"@ =~= seq!['m', 'd']);
        }
    }
    let name = match paths::file_name_of(path) {
        Some(name) => name,
        None => {
            return false;
        },
    };
    if !(name.as_str().unicode_len() > 3 && text::ends_with(&name, ".md")) {
        return false;
    }
    match paths::parent_of(path) {
        Some(dir) => match paths::file_name_of(&dir) {
            Some(dir_name) => !text::same_text(&dir_name, "agent"),
            None => true,
        },
        None => true,
    }
}

// ---------------------------------------------------------------------------
// Front matter and body

/// What `gray_matter` makes of a text: the front matter and the body, or the words of the error.
pub uninterp spec fn front_matter(content: Seq<char>) -> Result<(Seq<char>, Seq<char>), Seq<char>>;

/// A front matter between two lines of dashes, and what follows it.
pub open spec fn fenced(matter: Seq<char>, rest: Seq<char>) -> Seq<char> {
    "---\n"@ + matter + "\n---\n"@ + rest
}

/// A line of the text ends in a carriage return before its line feed.
pub open spec fn has_crlf(s: Seq<char>) -> bool {
    exists|i: int| 0 <= i < s.len() - 1 && #[trigger] s[i] == '\r' && s[i + 1] == '\n'
}

/// No line of the text starts with dashes, and within the white space around it none ends in a
/// carriage return.
pub open spec fn is_plain(matter: Seq<char>) -> bool {
    &&& !has_crlf(text::trimmed(matter))
    &&& !text::has_prefix(matter, "---"@)
    &&& forall|i: int|
        0 <= i < matter.len() && #[trigger] matter[i] == '\n' ==> !text::has_prefix(matter.skip(i + 1), "---"@)
}

/// Where the text is a plain front matter between two lines of dashes, followed by text whose lines
/// end in line feeds alone, the parts are those two, but for the white space around them.
pub open spec fn parts_are_those_fenced(content: Seq<char>, matter: Seq<char>, body: Seq<char>) -> bool {
    forall|m: Seq<char>, rest: Seq<char>|
        content == #[trigger] fenced(m, rest) && is_plain(m) && !has_crlf(text::trimmed(rest)) ==> text::trimmed(
            matter,
        ) == text::trimmed(m) && text::trimmed(body) == text::trimmed(rest)
}

/// `gray_matter::Matter::<YAML>::parse`: the raw front matter between the first two lines of
/// dashes, empty where there is none, and the text that follows it. It reads line by line, so that
/// a front matter without a line of dashes in it ends at the first such line after it, and a carriage
/// return is lost where a line feed follows it, and only there.
#[verifier::external_body]
fn split_front_matter(content: &str) -> (r: Result<(String, String), String>)
    ensures
        match r {
            Ok((matter, body)) => front_matter(content@) == Ok::<(Seq<char>, Seq<char>), Seq<char>>((matter@, body@))
                && parts_are_those_fenced(content@, matter@, body@),
            Err(e) => front_matter(content@) == Err::<(Seq<char>, Seq<char>), Seq<char>>(e@),
        },
{
    let matter: gray_matter::Matter<gray_matter::engine::YAML> = gray_matter::Matter::new();
    match matter.parse::<gray_matter::Pod>(content) {
        Ok(entity) => Ok((entity.matter, entity.content)),
        Err(e) => Err(e.to_string()),
    }
}

/// What a file is made of: the front matter as it stands there, and the prose without the white
/// space around it.
pub open spec fn split_file(
    parsed: Result<(Seq<char>, Seq<char>), Seq<char>>,
    path: Seq<char>,
) -> Result<(Seq<char>, Seq<char>), LoadErrorView> {
    match parsed {
        Err(detail) => Err(LoadErrorView::ParseError { path, detail }),
        Ok((matter, body)) => if text::is_blank(matter) {
            Err(LoadErrorView::NoFrontmatter { path })
        } else {
            Ok((matter, text::trimmed(body)))
        },
    }
}

/// What the two parts of a file say.
pub open spec fn parts_view(r: Result<(String, String), LoadError>) -> Result<(Seq<char>, Seq<char>), LoadErrorView> {
    match r {
        Ok((a, b)) => Ok((a@, b@)),
        Err(e) => Err(e@),
    }
}

/// The front matter and the prose, from what the text was split into.
pub fn matter_and_prose(parsed: Result<(String, String), String>, path: &str) -> (r: Result<(String, String), LoadError>)
    ensures
        parts_view(r) == split_file(
            match parsed {
                Ok((a, b)) => Ok((a@, b@)),
                Err(e) => Err(e@),
            },
            path@,
        ),
{
    match parsed {
        Err(detail) => Err(LoadError::ParseError { path: path.to_owned(), detail }),
        Ok((matter, body)) => if text::blank(&matter) {
            Err(LoadError::NoFrontmatter { path: path.to_owned() })
        } else {
            Ok((matter, text::trim(&body)))
        },
    }
}

/// The front matter and the prose of the file at `path` with the given content. A front matter
/// that stands between two lines of dashes is found as it is, but for the white space around it.
pub fn parse_file(content: &str, path: &str) -> (r: Result<(String, String), LoadError>)
    ensures
        parts_view(r) == split_file(front_matter(content@), path@),
        r matches Ok((matter, prose)) ==> parts_are_those_fenced(content@, matter@, prose@),
{
    let parsed = split_front_matter(content);
    let ghost found = parsed;
    let r = matter_and_prose(parsed, path);
    proof {
        if let Ok((matter, body)) = found {
            text::trimming_is_done_once(body@);
        }
    }
    r
}

// ---------------------------------------------------------------------------
// The front matter as it is read

/// A parameter as the front matter has it.
#[derive(Debug, PartialEq)]
pub struct RawParameter {
    pub type_: Option<String>,
    pub description: Option<String>,
    pub required: Option<bool>,
}

pub struct RawParameterView {
    pub type_: Option<Seq<char>>,
    pub description: Option<Seq<char>>,
    pub required: Option<bool>,
}

impl View for RawParameter {
    type V = RawParameterView;

    open spec fn view(&self) -> RawParameterView {
        RawParameterView {
            type_: definition::optional_text(self.type_),
            description: definition::optional_text(self.description),
            required: self.required,
        }
    }
}

/// An agent as the front matter has it.
#[derive(Debug, PartialEq)]
pub struct RawAgent {
    pub files: Option<Vec<String>>,
    pub model: Option<String>,
    pub max_budget_usd: Option<JsonNumber>,
    pub timeout_secs: Option<u64>,
}

/// The service block as the front matter has it.
#[derive(Debug, PartialEq)]
pub struct RawService {
    pub type_: Option<String>,
    pub handler: Option<String>,
    pub mode: Option<String>,
    pub command: Option<String>,
    pub args: Option<Vec<String>>,
    pub agent: Option<RawAgent>,
}

/// The front matter: nothing in it has to be there until it is checked.
#[derive(Debug, PartialEq)]
pub struct RawFrontmatter {
    pub id: Option<String>,
    pub name: Option<String>,
    pub intent: Option<String>,
    pub triggers: Option<Vec<String>>,
    pub parameters: Option<Table<RawParameter>>,
    pub service: Option<RawService>,
}

pub struct RawAgentView {
    pub files: Option<Seq<Seq<char>>>,
    pub model: Option<Seq<char>>,
    pub max_budget_usd: Option<NumberView>,
    pub timeout_secs: Option<u64>,
}

pub struct RawServiceView {
    pub type_: Option<Seq<char>>,
    pub handler: Option<Seq<char>>,
    pub mode: Option<Seq<char>>,
    pub command: Option<Seq<char>>,
    pub args: Option<Seq<Seq<char>>>,
    pub agent: Option<RawAgentView>,
}

pub struct RawFrontmatterView {
    pub id: Option<Seq<char>>,
    pub name: Option<Seq<char>>,
    pub intent: Option<Seq<char>>,
    pub triggers: Option<Seq<Seq<char>>>,
    pub parameters: Option<Map<Seq<char>, RawParameterView>>,
    pub service: Option<RawServiceView>,
}

/// What an optional list of texts says.
pub open spec fn optional_texts(v: Option<Vec<String>>) -> Option<Seq<Seq<char>>> {
    match v {
        Some(v) => Some(text::texts(v@)),
        None => None,
    }
}

/// What the parameters of the front matter say.
pub open spec fn raw_parameters_view(m: Map<Seq<char>, RawParameter>) -> Map<Seq<char>, RawParameterView> {
    m.map_values(|p: RawParameter| p@)
}

impl View for RawAgent {
    type V = RawAgentView;

    open spec fn view(&self) -> RawAgentView {
        RawAgentView {
            files: optional_texts(self.files),
            model: definition::optional_text(self.model),
            max_budget_usd: store::optional_number(self.max_budget_usd),
            timeout_secs: self.timeout_secs,
        }
    }
}

impl View for RawService {
    type V = RawServiceView;

    open spec fn view(&self) -> RawServiceView {
        RawServiceView {
            type_: definition::optional_text(self.type_),
            handler: definition::optional_text(self.handler),
            mode: definition::optional_text(self.mode),
            command: definition::optional_text(self.command),
            args: optional_texts(self.args),
            agent: match self.agent {
                Some(a) => Some(a@),
                None => None,
            },
        }
    }
}

impl View for RawFrontmatter {
    type V = RawFrontmatterView;

    open spec fn view(&self) -> RawFrontmatterView {
        RawFrontmatterView {
            id: definition::optional_text(self.id),
            name: definition::optional_text(self.name),
            intent: definition::optional_text(self.intent),
            triggers: optional_texts(self.triggers),
            parameters: match self.parameters {
                Some(t) => Some(raw_parameters_view(t@)),
                None => None,
            },
            service: match self.service {
                Some(s) => Some(s@),
                None => None,
            },
        }
    }
}

// ---------------------------------------------------------------------------
// What the front matter has to be

/// A field that has to hold something other than white space.
pub open spec fn filled(v: Option<Seq<char>>) -> bool {
    match v {
        Some(s) => !text::is_blank(s),
        None => false,
    }
}

/// The handler, or the one that stands in where none is named.
pub open spec fn handler_of(v: Option<Seq<char>>) -> Seq<char> {
    if filled(v) {
        v->0
    } else {
        "action.immediate"@
    }
}

/// The mode, where it is one of the two; nothing said means synchronous.
pub open spec fn mode_of(v: Option<Seq<char>>) -> Option<ServiceMode> {
    match v {
        None => Some(ServiceMode::Sync),
        Some(s) => if s == "sync"@ {
            Some(ServiceMode::Sync)
        } else if s == "async"@ {
            Some(ServiceMode::Async)
        } else {
            None
        },
    }
}

/// The parameter type of that name.
pub open spec fn type_of(s: Seq<char>) -> Option<ParameterType> {
    if s == "string"@ {
        Some(ParameterType::String)
    } else if s == "int"@ {
        Some(ParameterType::Int)
    } else if s == "bool"@ {
        Some(ParameterType::Bool)
    } else {
        None
    }
}

/// What is wrong with a parameter: it has no type, or one that there is not.
pub open spec fn parameter_error(name: Seq<char>, p: RawParameterView, path: Seq<char>) -> Option<LoadErrorView> {
    match p.type_ {
        None => Some(LoadErrorView::MissingField { path, field: "parameters."@ + name + ".type"@ }),
        Some(t) => if type_of(t) is None {
            Some(LoadErrorView::UnknownParameterType { path, value: t })
        } else {
            None
        },
    }
}

/// The specification of a parameter that has nothing wrong.
pub open spec fn parameter_of(p: RawParameterView) -> ParameterSpecView {
    ParameterSpecView {
        type_: type_of(p.type_->0)->0,
        description: p.description,
        required: match p.required {
            Some(b) => b,
            None => false,
        },
    }
}

/// The parameters that have something wrong.
pub open spec fn bad_parameters(m: Map<Seq<char>, RawParameterView>, path: Seq<char>) -> Set<Seq<char>> {
    Set::new(|k: Seq<char>| m.dom().contains(k) && parameter_error(k, m[k], path) is Some)
}

/// The specifications of the parameters, or what is wrong with the first that is bad.
pub open spec fn parameters_of(m: Map<Seq<char>, RawParameterView>, path: Seq<char>) -> Result<
    Map<Seq<char>, ParameterSpecView>,
    LoadErrorView,
> {
    let bad = bad_parameters(m, path);
    if exists|k: Seq<char>| bad.contains(k) {
        let k = text::least(bad);
        Err(parameter_error(k, m[k], path)->0)
    } else {
        Ok(m.map_values(|p: RawParameterView| parameter_of(p)))
    }
}

/// A path that the workflow names: one that is not absolute is seen from the workflow's directory.
pub open spec fn anchored(entry: Seq<char>, path: Seq<char>) -> Seq<char> {
    let dir = match paths::parent(path) {
        Some(d) => d,
        None => Seq::empty(),
    };
    if paths::absolute(entry) {
        entry
    } else {
        paths::joined(dir, entry)
    }
}

/// The agent of a workflow.
pub open spec fn agent_of(a: RawAgentView, path: Seq<char>) -> AgentSpecView {
    AgentSpecView {
        files: match a.files {
            Some(fs) => fs.map_values(|f: Seq<char>| anchored(f, path)),
            None => Seq::empty(),
        },
        model: a.model,
        max_budget_usd: a.max_budget_usd,
        timeout_secs: a.timeout_secs,
    }
}

/// The workflow that the front matter and the prose define, or what is wrong: the first of these
/// that holds.
pub open spec fn definition_of(raw: RawFrontmatterView, description: Seq<char>, path: Seq<char>) -> Result<
    WorkflowDefinitionView,
    LoadErrorView,
> {
    if !filled(raw.id) {
        Err(LoadErrorView::MissingField { path, field: "id"@ })
    } else if !filled(raw.name) {
        Err(LoadErrorView::MissingField { path, field: "name"@ })
    } else {
        match raw.service {
            None => Err(LoadErrorView::MissingField { path, field: "service.handler"@ }),
            Some(service) => match mode_of(service.mode) {
                None => Err(LoadErrorView::UnknownServiceMode { path, value: service.mode->0 }),
                Some(mode) => {
                    let raw_parameters = match raw.parameters {
                        Some(m) => m,
                        None => Map::empty(),
                    };
                    match parameters_of(raw_parameters, path) {
                        Err(e) => Err(e),
                        Ok(parameters) => if service.command is Some && service.agent is Some {
                            Err(LoadErrorView::ConflictingServiceBinding { path })
                        } else {
                            Ok(
                                WorkflowDefinitionView {
                                    id: raw.id->0,
                                    name: raw.name->0,
                                    description,
                                    intent: match raw.intent {
                                        Some(s) => s,
                                        None => Seq::empty(),
                                    },
                                    triggers: match raw.triggers {
                                        Some(v) => v,
                                        None => Seq::empty(),
                                    },
                                    parameters,
                                    service: ServiceSpecView {
                                        type_: service.type_,
                                        handler: handler_of(service.handler),
                                        mode,
                                        command: match service.command {
                                            Some(c) => Some(anchored(c, path)),
                                            None => None,
                                        },
                                        args: match service.args {
                                            Some(a) => a,
                                            None => Seq::empty(),
                                        },
                                        agent: match service.agent {
                                            Some(a) => Some(agent_of(a, path)),
                                            None => None,
                                        },
                                    },
                                    source_path: path,
                                },
                            )
                        },
                    }
                },
            },
        }
    }
}

/// What the outcome of loading a file says.
pub open spec fn loaded_view(r: Result<WorkflowDefinition, LoadError>) -> Result<WorkflowDefinitionView, LoadErrorView> {
    match r {
        Ok(d) => Ok(d@),
        Err(e) => Err(e@),
    }
}

// ---------------------------------------------------------------------------
// Checking it

/// The value of a field that has to be filled.
pub fn required_string(value: Option<String>, field: &str, path: &str) -> (r: Result<String, LoadError>)
    ensures
        match r {
            Ok(s) => filled(definition::optional_text(value)) && definition::optional_text(value) == Some(s@),
            Err(e) => !filled(definition::optional_text(value)) && e@ == (LoadErrorView::MissingField {
                path: path@,
                field: field@,
            }),
        },
{
    match value {
        Some(s) => if text::blank(&s) {
            Err(LoadError::MissingField { path: path.to_owned(), field: field.to_owned() })
        } else {
            Ok(s)
        },
        None => Err(LoadError::MissingField { path: path.to_owned(), field: field.to_owned() }),
    }
}

fn anchor(entry: String, path: &str) -> (r: String)
    ensures
        r@ == anchored(entry@, path@),
{
    if paths::is_absolute(&entry) {
        entry
    } else {
        let dir = match paths::parent_of(path) {
            Some(d) => d,
            None => String::new(),
        };
        paths::join(&dir, &entry)
    }
}

fn anchor_all(entries: Vec<String>, path: &str) -> (r: Vec<String>)
    ensures
        text::texts(r@) == text::texts(entries@).map_values(|f: Seq<char>| anchored(f, path@)),
{
    let ghost want = text::texts(entries@).map_values(|f: Seq<char>| anchored(f, path@));
    let mut out: Vec<String> = Vec::new();
    for entry in it: entries
        invariant
            want == text::texts(it.seq()).map_values(|f: Seq<char>| anchored(f, path@)),
            text::texts(out@) == want.take(it.index()),
    {
        let ghost i = it.index();
        let a = anchor(entry, path);
        proof {
            assert(want[i] == a@);
            text::texts_push(out@, a);
            assert(want.take(i + 1) =~= want.take(i).push(want[i]));
        }
        out.push(a);
    }
    assert(want.take(want.len() as int) =~= want);
    out
}

fn read_type(t: &str) -> (r: Option<ParameterType>)
    ensures
        r == type_of(t@),
{
    if text::same_text(t, "string") {
        Some(ParameterType::String)
    } else if text::same_text(t, "int") {
        Some(ParameterType::Int)
    } else if text::same_text(t, "bool") {
        Some(ParameterType::Bool)
    } else {
        None
    }
}

fn read_mode(mode: &Option<String>) -> (r: Option<ServiceMode>)
    ensures
        r == mode_of(definition::optional_text(*mode)),
{
    match mode {
        None => Some(ServiceMode::Sync),
        Some(s) => if text::same_text(s, "sync") {
            Some(ServiceMode::Sync)
        } else if text::same_text(s, "async") {
            Some(ServiceMode::Async)
        } else {
            None
        },
    }
}

fn read_parameter(name: &str, p: &RawParameter, path: &str) -> (r: Result<ParameterSpec, LoadError>)
    ensures
        match r {
            Ok(spec) => parameter_error(name@, p@, path@) is None && spec@ == parameter_of(p@),
            Err(e) => parameter_error(name@, p@, path@) == Some(e@),
        },
{
    match &p.type_ {
        None => Err(
            LoadError::MissingField { path: path.to_owned(), field: text::concat3("parameters.", name, ".type") },
        ),
        Some(t) => match read_type(t) {
            None => Err(LoadError::UnknownParameterType { path: path.to_owned(), value: t.clone() }),
            Some(type_) => Ok(
                ParameterSpec {
                    type_,
                    description: definition::copy_optional(&p.description),
                    required: match p.required {
                        Some(b) => b,
                        None => false,
                    },
                },
            ),
        },
    }
}

fn read_parameters(raw: &Table<RawParameter>, path: &str) -> (r: Result<Table<ParameterSpec>, LoadError>)
    ensures
        match r {
            Ok(t) => parameters_of(raw_parameters_view(raw@), path@) == Ok::<
                Map<Seq<char>, ParameterSpecView>,
                LoadErrorView,
            >(definition::parameters_view(t@)),
            Err(e) => parameters_of(raw_parameters_view(raw@), path@) == Err::<
                Map<Seq<char>, ParameterSpecView>,
                LoadErrorView,
            >(e@),
        },
{
    let ghost m = raw_parameters_view(raw@);
    let ghost bad = bad_parameters(m, path@);
    let mut out: Table<ParameterSpec> = Table::new();
    let n = raw.len();
    let mut i: usize = 0;
    assert(definition::parameters_view(out@) =~= raw_parameters_view(table::map_of_rows(raw.rows().take(0))).map_values(
        |p: RawParameterView| parameter_of(p),
    ));
    while i < n
        invariant
            i <= n,
            n == raw.rows().len(),
            m == raw_parameters_view(raw@),
            bad == bad_parameters(m, path@),
            table::in_key_order(raw.rows()),
            forall|j: int| 0 <= j < i ==> !bad.contains(#[trigger] raw.rows()[j].0),
            definition::parameters_view(out@) == raw_parameters_view(
                table::map_of_rows(raw.rows().take(i as int)),
            ).map_values(|p: RawParameterView| parameter_of(p)),
        decreases n - i,
    {
        let k = raw.key_at(i);
        let p = raw.value_at(i);
        proof {
            table::row_is_unique(raw.rows(), i as int);
            table::rows_one_more(raw.rows(), i as int);
            assert(m[k@] == p@);
        }
        match read_parameter(k, p, path) {
            Ok(spec) => {
                let ghost before = out@;
                out.insert(k.clone(), spec);
                proof {
                    assert(definition::parameters_view(out@) =~= definition::parameters_view(before).insert(k@, spec@));
                    let short = raw_parameters_view(table::map_of_rows(raw.rows().take(i as int)));
                    let long = raw_parameters_view(table::map_of_rows(raw.rows().take(i + 1)));
                    assert(long =~= short.insert(k@, p@));
                    assert(long.map_values(|p: RawParameterView| parameter_of(p)) =~= short.map_values(
                        |p: RawParameterView| parameter_of(p),
                    ).insert(k@, spec@));
                }
            },
            Err(e) => {
                proof {
                    assert(bad.contains(k@));
                    assert forall|j: Seq<char>| #[trigger] bad.contains(j) && j != k@ implies text::text_lt(k@, j) by {
                        let at = table::row_of(raw.rows(), j);
                        assert(table::has_key(raw.rows(), j));
                        assert(raw.rows()[at].0 == j);
                        assert(at > i);
                    }
                    text::least_is(bad, k@);
                }
                return Err(e);
            },
        }
        i = i + 1;
    }
    proof {
        assert(raw.rows().take(n as int) =~= raw.rows());
        assert forall|k: Seq<char>| !bad.contains(k) by {
            if m.dom().contains(k) {
                assert(table::has_key(raw.rows(), k));
                let at = table::row_of(raw.rows(), k);
                assert(raw.rows()[at].0 == k);
            }
        }
    }
    Ok(out)
}

/// The workflow that the front matter and the prose define, or the first thing that is wrong.
pub fn validate_definition(raw: RawFrontmatter, description: String, path: &str) -> (r: Result<
    WorkflowDefinition,
    LoadError,
>)
    ensures
        loaded_view(r) == definition_of(raw@, description@, path@),
{
    let id = match required_string(raw.id, "id", path) {
        Ok(s) => s,
        Err(e) => {
            return Err(e);
        },
    };
    let name = match required_string(raw.name, "name", path) {
        Ok(s) => s,
        Err(e) => {
            return Err(e);
        },
    };
    let service = match raw.service {
        Some(s) => s,
        None => {
            return Err(LoadError::MissingField { path: path.to_owned(), field: "service.handler".to_owned() });
        },
    };
    let handler = match service.handler {
        Some(s) => if text::blank(&s) {
            DEFAULT_HANDLER.to_owned()
        } else {
            s
        },
        None => DEFAULT_HANDLER.to_owned(),
    };
    let mode = match read_mode(&service.mode) {
        Some(m) => m,
        None => {
            let value = match service.mode {
                Some(s) => s,
                None => String::new(),
            };
            return Err(LoadError::UnknownServiceMode { path: path.to_owned(), value });
        },
    };
    let raw_parameters = match raw.parameters {
        Some(t) => t,
        None => Table::new(),
    };
    proof {
        if raw.parameters is None {
            assert(raw_parameters_view(raw_parameters@) =~= Map::<Seq<char>, RawParameterView>::empty());
        }
    }
    let parameters = match read_parameters(&raw_parameters, path) {
        Ok(t) => t,
        Err(e) => {
            return Err(e);
        },
    };
    if service.command.is_some() && service.agent.is_some() {
        return Err(LoadError::ConflictingServiceBinding { path: path.to_owned() });
    }
    let command = match service.command {
        Some(c) => Some(anchor(c, path)),
        None => None,
    };
    let args = match service.args {
        Some(a) => a,
        None => Vec::new(),
    };
    let agent = match service.agent {
        Some(a) => {
            let files = match a.files {
                Some(fs) => anchor_all(fs, path),
                None => Vec::new(),
            };
            assert(a.files is None ==> text::texts(files@) =~= Seq::<Seq<char>>::empty());
            Some(
                AgentSpec {
                    files,
                    model: a.model,
                    max_budget_usd: a.max_budget_usd,
                    timeout_secs: a.timeout_secs,
                },
            )
        },
        None => None,
    };
    let intent = match raw.intent {
        Some(s) => s,
        None => String::new(),
    };
    let triggers = match raw.triggers {
        Some(v) => v,
        None => Vec::new(),
    };
    proof {
        assert(service.args is None ==> text::texts(args@) =~= Seq::<Seq<char>>::empty());
        assert(raw.triggers is None ==> text::texts(triggers@) =~= Seq::<Seq<char>>::empty());
    }
    Ok(
        WorkflowDefinition {
            id,
            name,
            description,
            intent,
            triggers,
            parameters,
            service: ServiceSpec { type_: service.type_, handler, mode, command, args, agent },
            source_path: path.to_owned(),
        },
    )
}

// ---------------------------------------------------------------------------
// What holds of it all

/// A path of a workflow as it is loaded: an absolute one as it is, and any other from the directory of
/// the workflow's file.
pub open spec fn leads_from(entry: Seq<char>, path: Seq<char>, r: Seq<char>) -> bool {
    if entry.len() > 0 && entry[0] == '/' {
        r == entry
    } else {
        r == paths::joined(
            match paths::parent(path) {
                Some(dir) => dir,
                None => Seq::empty(),
            },
            entry,
        )
    }
}

/// A front matter defines a workflow exactly where its id and its name hold something besides white
/// space, where it has a service whose mode is not said, `sync` or `async`, where every parameter says
/// `string`, `int` or `bool`, and where it has not both a command and an agent.
pub proof fn complete_front_matter_defines_a_workflow(raw: RawFrontmatterView, description: Seq<char>, path: Seq<char>)
    ensures
        definition_of(raw, description, path) is Ok <==> {
            &&& raw.id matches Some(id) && text::trimmed(id).len() > 0
            &&& raw.name matches Some(name) && text::trimmed(name).len() > 0
            &&& raw.service matches Some(s) && (s.mode is None || s.mode == Some("sync"@) || s.mode == Some("async"@))
                && !(s.command is Some && s.agent is Some)
            &&& raw.parameters matches Some(m) ==> forall|k: Seq<char>| #[trigger]
                m.dom().contains(k) ==> (m[k].type_ == Some("string"@) || m[k].type_ == Some("int"@) || m[k].type_
                    == Some("bool"@))
        },
{
    if raw.id is Some {
        text::trimmed_of_blank(raw.id->0);
    }
    if raw.name is Some {
        text::trimmed_of_blank(raw.name->0);
    }
    if let Some(m) = raw.parameters {
        let bad = bad_parameters(m, path);
        assert forall|k: Seq<char>| #[trigger] m.dom().contains(k) implies (bad.contains(k) <==> !(m[k].type_ == Some(
            "string"@,
        ) || m[k].type_ == Some("int"@) || m[k].type_ == Some("bool"@))) by {}
        if exists|k: Seq<char>| bad.contains(k) {
            let k = choose|k: Seq<char>| bad.contains(k);
            assert(m.dom().contains(k));
        }
    } else {
        let bad = bad_parameters(Map::empty(), path);
        assert forall|k: Seq<char>| !bad.contains(k) by {}
    }
}

/// A workflow that is loaded has what its front matter lists, field by field: nothing is dropped,
/// nothing is made up but what stands in where the front matter is silent, and paths are seen from the
/// directory of the file.
pub proof fn what_is_listed_is_loaded(raw: RawFrontmatterView, description: Seq<char>, path: Seq<char>)
    requires
        definition_of(raw, description, path) is Ok,
    ensures
        ({
            let d = definition_of(raw, description, path)->Ok_0;
            let s = raw.service->0;
            &&& raw.id == Some(d.id)
            &&& raw.name == Some(d.name)
            &&& d.description == description
            &&& d.source_path == path
            &&& raw.intent matches Some(x) ==> d.intent == x
            &&& raw.intent is None ==> d.intent.len() == 0
            &&& raw.triggers matches Some(x) ==> d.triggers == x
            &&& raw.triggers is None ==> d.triggers.len() == 0
            &&& d.service.type_ == s.type_
            &&& s.args matches Some(x) ==> d.service.args == x
            &&& s.args is None ==> d.service.args.len() == 0
            &&& s.handler matches Some(h) ==> (text::trimmed(h).len() > 0 ==> d.service.handler == h)
            &&& !(s.handler matches Some(h) && text::trimmed(h).len() > 0) ==> d.service.handler == "action.immediate"@
            &&& d.service.mode == ServiceMode::Async <==> s.mode == Some("async"@)
            &&& d.service.mode == ServiceMode::Sync <==> s.mode != Some("async"@)
            &&& d.service.command is Some <==> s.command is Some
            &&& s.command is Some ==> leads_from(s.command->0, path, d.service.command->0)
            &&& d.service.agent is Some <==> s.agent is Some
        }),
{
    let s = raw.service->0;
    if s.handler is Some {
        text::trimmed_of_blank(s.handler->0);
    }
    reveal_strlit("sync");
    reveal_strlit("async");
    assert("sync"@.len() == 4 && "async"@.len() == 5);
}

/// The agent of a workflow that is loaded has the model, the budget and the time that the front matter
/// gives it, and its files in their order, each from the directory of the workflow's file.
pub proof fn listed_agents_are_loaded(raw: RawFrontmatterView, description: Seq<char>, path: Seq<char>, i: int)
    requires
        definition_of(raw, description, path) is Ok,
        raw.service->0.agent is Some,
    ensures
        ({
            let a = raw.service->0.agent->0;
            let b = definition_of(raw, description, path)->Ok_0.service.agent->0;
            &&& b.model == a.model
            &&& b.max_budget_usd == a.max_budget_usd
            &&& b.timeout_secs == a.timeout_secs
            &&& a.files is None ==> b.files.len() == 0
            &&& a.files matches Some(fs) ==> b.files.len() == fs.len() && (0 <= i < fs.len() ==> leads_from(
                fs[i],
                path,
                b.files[i],
            ))
        }),
{
}

/// The parameters of a workflow that is loaded are those that the front matter lists, each with its
/// type and its description, and required only where the front matter says so.
pub proof fn listed_parameters_are_loaded(raw: RawFrontmatterView, description: Seq<char>, path: Seq<char>, k: Seq<char>)
    requires
        definition_of(raw, description, path) is Ok,
    ensures
        ({
            let d = definition_of(raw, description, path)->Ok_0;
            &&& raw.parameters is None ==> !d.parameters.dom().contains(k)
            &&& raw.parameters matches Some(m) ==> {
                &&& d.parameters.dom().contains(k) <==> m.dom().contains(k)
                &&& m.dom().contains(k) ==> {
                    let p = d.parameters[k];
                    &&& p.description == m[k].description
                    &&& p.required <==> m[k].required == Some(true)
                    &&& p.type_ == ParameterType::String <==> m[k].type_ == Some("string"@)
                    &&& p.type_ == ParameterType::Int <==> m[k].type_ == Some("int"@)
                    &&& p.type_ == ParameterType::Bool <==> m[k].type_ == Some("bool"@)
                }
            }
        }),
{
    reveal_strlit("string");
    reveal_strlit("int");
    reveal_strlit("bool");
    assert("string"@.len() == 6 && "int"@.len() == 3 && "bool"@.len() == 4);
    if let Some(m) = raw.parameters {
        if m.dom().contains(k) {
            assert(!bad_parameters(m, path).contains(k));
        }
    }
}

/// A front matter that defines no workflow is refused for the first thing that is wrong with it: the
/// id, the name, the service, its mode, its parameters, or that it has a command and an agent.
pub proof fn the_first_thing_wrong_is_named(raw: RawFrontmatterView, description: Seq<char>, path: Seq<char>)
    ensures
        ({
            let r = definition_of(raw, description, path);
            let no_id = !(raw.id matches Some(id) && text::trimmed(id).len() > 0);
            let no_name = !(raw.name matches Some(name) && text::trimmed(name).len() > 0);
            &&& no_id ==> r == Err::<WorkflowDefinitionView, LoadErrorView>(
                LoadErrorView::MissingField { path, field: "id"@ },
            )
            &&& !no_id && no_name ==> r == Err::<WorkflowDefinitionView, LoadErrorView>(
                LoadErrorView::MissingField { path, field: "name"@ },
            )
            &&& !no_id && !no_name && raw.service is None ==> r == Err::<WorkflowDefinitionView, LoadErrorView>(
                LoadErrorView::MissingField { path, field: "service.handler"@ },
            )
            &&& !no_id && !no_name ==> (raw.service matches Some(s) ==> (s.mode matches Some(mode) ==> (mode != "sync"@
                && mode != "async"@ ==> r == Err::<WorkflowDefinitionView, LoadErrorView>(
                LoadErrorView::UnknownServiceMode { path, value: mode },
            ))))
            &&& !no_id && !no_name ==> (raw.service matches Some(s) ==> ((s.mode is None || s.mode == Some("sync"@)
                || s.mode == Some("async"@)) && s.command is Some && s.agent is Some && (raw.parameters matches Some(m)
                ==> forall|k: Seq<char>| #[trigger]
                m.dom().contains(k) ==> (m[k].type_ == Some("string"@) || m[k].type_ == Some("int"@) || m[k].type_
                    == Some("bool"@))) ==> r == Err::<WorkflowDefinitionView, LoadErrorView>(
                LoadErrorView::ConflictingServiceBinding { path },
            )))
        }),
{
    if raw.id is Some {
        text::trimmed_of_blank(raw.id->0);
    }
    if raw.name is Some {
        text::trimmed_of_blank(raw.name->0);
    }
    if let Some(m) = raw.parameters {
        let bad = bad_parameters(m, path);
        if exists|k: Seq<char>| bad.contains(k) {
            let k = choose|k: Seq<char>| bad.contains(k);
            assert(m.dom().contains(k));
        }
    } else {
        let bad = bad_parameters(Map::empty(), path);
        assert forall|k: Seq<char>| !bad.contains(k) by {}
    }
}

/// Of the parameters without one of the three types the first, in the order of the names, is the one
/// that the front matter is refused for: one without a type by its field, any other by what it says.
pub proof fn the_first_bad_parameter_is_named(
    raw: RawFrontmatterView,
    description: Seq<char>,
    path: Seq<char>,
    m: Map<Seq<char>, RawParameterView>,
    name: Seq<char>,
)
    requires
        raw.parameters == Some(m),
        raw.id matches Some(id) && text::trimmed(id).len() > 0,
        raw.name matches Some(n) && text::trimmed(n).len() > 0,
        raw.service matches Some(s) && (s.mode is None || s.mode == Some("sync"@) || s.mode == Some("async"@)),
        m.dom().contains(name),
        forall|k: Seq<char>| #[trigger]
            m.dom().contains(k) && k != name && !text::text_lt(name, k) ==> (m[k].type_ == Some("string"@) || m[k].type_
                == Some("int"@) || m[k].type_ == Some("bool"@)),
    ensures
        ({
            let r = definition_of(raw, description, path);
            &&& m[name].type_ is None ==> r == Err::<WorkflowDefinitionView, LoadErrorView>(
                LoadErrorView::MissingField { path, field: "parameters."@ + name + ".type"@ },
            )
            &&& m[name].type_ matches Some(t) ==> (t != "string"@ && t != "int"@ && t != "bool"@ ==> r == Err::<
                WorkflowDefinitionView,
                LoadErrorView,
            >(LoadErrorView::UnknownParameterType { path, value: t }))
        }),
{
    text::trimmed_of_blank(raw.id->0);
    text::trimmed_of_blank(raw.name->0);
    first_bad_parameter(m, path, name);
}

proof fn first_bad_parameter(m: Map<Seq<char>, RawParameterView>, path: Seq<char>, name: Seq<char>)
    requires
        m.dom().contains(name),
        forall|k: Seq<char>| #[trigger]
            m.dom().contains(k) && k != name && !text::text_lt(name, k) ==> (m[k].type_ == Some("string"@) || m[k].type_
                == Some("int"@) || m[k].type_ == Some("bool"@)),
    ensures
        m[name].type_ is None ==> parameters_of(m, path) == Err::<Map<Seq<char>, ParameterSpecView>, LoadErrorView>(
            LoadErrorView::MissingField { path, field: "parameters."@ + name + ".type"@ },
        ),
        m[name].type_ matches Some(t) ==> (t != "string"@ && t != "int"@ && t != "bool"@ ==> parameters_of(m, path)
            == Err::<Map<Seq<char>, ParameterSpecView>, LoadErrorView>(
            LoadErrorView::UnknownParameterType { path, value: t },
        )),
{
    let bad = bad_parameters(m, path);
    if parameter_error(name, m[name], path) is Some {
        assert(bad.contains(name));
        assert forall|j: Seq<char>| #[trigger] bad.contains(j) && j != name implies text::text_lt(name, j) by {
            assert(m.dom().contains(j));
        }
        text::least_is(bad, name);
    }
}

/// A file is looked at where its name is some characters and then `.md`, unless the directory that it
/// lies in is called `agent`.
pub proof fn markdown_outside_agent_directories_is_looked_at(path: Seq<char>)
    ensures
        is_workflow_file(path) <==> {
            &&& paths::file_name(path) matches Some(name) && name.len() > 3 && name[name.len() - 3] == '.' && name[
            name.len() - 2] == 'm' && name[name.len() - 1] == 'd'
            &&& !(paths::parent(path) matches Some(dir) && paths::file_name(dir) == Some("agent"@))
        },
{
    reveal_strlit("md");
    assert("md"@ =~= seq!['m', 'd']);
    assert(!"md"@.contains('.'));
    if let Some(name) = paths::file_name(path) {
        if name.len() > 3 {
            let end = seq!['.'] + "md"@;
            if text::has_suffix(name, end) {
                assert(name.skip(name.len() - 3) == end);
                assert(name.skip(name.len() - 3)[0] == end[0]);
                assert(name.skip(name.len() - 3)[1] == end[1]);
                assert(name.skip(name.len() - 3)[2] == end[2]);
            }
            if name[name.len() - 3] == '.' && name[name.len() - 2] == 'm' && name[name.len() - 1] == 'd' {
                assert(name.skip(name.len() - 3) =~= end);
            }
        }
    }
}

/// A file with a front matter that is not blank is that front matter and the prose without the white
/// space around it; one without is refused as such, and one that cannot be split for that reason.
pub proof fn files_are_front_matter_and_prose(matter: Seq<char>, body: Seq<char>, path: Seq<char>, why: Seq<char>)
    ensures
        text::trimmed(matter).len() > 0 ==> split_file(Ok((matter, body)), path) == Ok::<
            (Seq<char>, Seq<char>),
            LoadErrorView,
        >((matter, text::trimmed(body))),
        text::trimmed(matter).len() == 0 ==> split_file(Ok((matter, body)), path) == Err::<
            (Seq<char>, Seq<char>),
            LoadErrorView,
        >(LoadErrorView::NoFrontmatter { path }),
        split_file(Err(why), path) == Err::<(Seq<char>, Seq<char>), LoadErrorView>(
            LoadErrorView::ParseError { path, detail: why },
        ),
{
    text::trimmed_of_blank(matter);
}

/// Two front matters that look the same are the same in every field of the service and in every text.
pub proof fn front_matter_is_seen_whole(a: RawFrontmatter, b: RawFrontmatter)
    requires
        a@ == b@,
    ensures
        definition::same_optional(a.id, b.id),
        definition::same_optional(a.name, b.name),
        definition::same_optional(a.intent, b.intent),
        same_lists(a.triggers, b.triggers),
        a.parameters is Some <==> b.parameters is Some,
        a.parameters is Some ==> forall|k: Seq<char>|
            (#[trigger] a.parameters->0@.dom().contains(k) <==> b.parameters->0@.dom().contains(k)) && (
            a.parameters->0@.dom().contains(k) ==> definition::same_optional(
                a.parameters->0@[k].type_,
                b.parameters->0@[k].type_,
            ) && definition::same_optional(a.parameters->0@[k].description, b.parameters->0@[k].description)
                && a.parameters->0@[k].required == b.parameters->0@[k].required),
        a.service is Some <==> b.service is Some,
        a.service is Some ==> {
            let (x, y) = (a.service->0, b.service->0);
            &&& definition::same_optional(x.type_, y.type_)
            &&& definition::same_optional(x.handler, y.handler)
            &&& definition::same_optional(x.mode, y.mode)
            &&& definition::same_optional(x.command, y.command)
            &&& same_lists(x.args, y.args)
            &&& x.agent is Some <==> y.agent is Some
            &&& x.agent is Some ==> {
                let (p, q) = (x.agent->0, y.agent->0);
                &&& same_lists(p.files, q.files)
                &&& definition::same_optional(p.model, q.model)
                &&& p.timeout_secs == q.timeout_secs
                &&& p.max_budget_usd is Some <==> q.max_budget_usd is Some
                &&& p.max_budget_usd is Some ==> p.max_budget_usd->0@ == q.max_budget_usd->0@
            }
        },
{
    lists_are_seen_whole(a.triggers, b.triggers);
    if a.service is Some {
        let (x, y) = (a.service->0, b.service->0);
        assert(a@.service == Some(x@) && b@.service == Some(y@));
        lists_are_seen_whole(x.args, y.args);
        if x.agent is Some {
            assert(x@.agent == Some(x.agent->0@) && y@.agent == Some(y.agent->0@));
            lists_are_seen_whole(x.agent->0.files, y.agent->0.files);
        }
    }
    if a.parameters is Some {
        let (m, n) = (a.parameters->0@, b.parameters->0@);
        assert(raw_parameters_view(m) == raw_parameters_view(n));
        assert forall|k: Seq<char>|
            (#[trigger] m.dom().contains(k) <==> n.dom().contains(k)) && (m.dom().contains(k) ==> definition::same_optional(
                m[k].type_,
                n[k].type_,
            ) && definition::same_optional(m[k].description, n[k].description) && m[k].required == n[k].required) by {
            assert(raw_parameters_view(m).dom().contains(k) == m.dom().contains(k));
            assert(raw_parameters_view(n).dom().contains(k) == n.dom().contains(k));
            if m.dom().contains(k) {
                assert(raw_parameters_view(m)[k] == m[k]@);
                assert(raw_parameters_view(n)[k] == n[k]@);
            }
        }
    }
}

/// Both lists are there and hold the same texts, or neither is.
pub open spec fn same_lists(a: Option<Vec<String>>, b: Option<Vec<String>>) -> bool {
    &&& a is Some <==> b is Some
    &&& a is Some ==> a->0@.len() == b->0@.len() && forall|i: int|
        0 <= i < a->0@.len() ==> (#[trigger] a->0@[i])@ == b->0@[i]@
}

proof fn lists_are_seen_whole(a: Option<Vec<String>>, b: Option<Vec<String>>)
    requires
        optional_texts(a) == optional_texts(b),
    ensures
        same_lists(a, b),
{
    if a is Some {
        text::texts_are_seen_whole(a->0@, b->0@);
    }
}

/// A workflow that is loaded from a file has the arguments and the type of service that are listed
/// there, its handler, its mode and its parameters: nothing of it is dropped on the way.
pub proof fn files_are_loaded_as_they_are(
    raw: RawFrontmatter,
    description: String,
    path: &str,
    r: Result<WorkflowDefinition, LoadError>,
    name: Seq<char>,
)
    requires
        call_ensures(validate_definition, (raw, description, path), r),
    ensures
        r is Ok <==> definition_of(raw@, description@, path@) is Ok,
        r matches Err(e) ==> definition_of(raw@, description@, path@) == Err::<WorkflowDefinitionView, LoadErrorView>(e@),
        r matches Ok(d) ==> {
            let s = raw.service->0;
            &&& raw.id is Some && d.id@ == raw.id->0@
            &&& raw.name is Some && d.name@ == raw.name->0@
            &&& d.description@ == description@
            &&& d.source_path@ == path@
            &&& d.intent@ == (if raw.intent is Some { raw.intent->0@ } else { Seq::empty() })
            &&& raw.triggers matches Some(t) ==> text::texts(d.triggers@) == text::texts(t@)
            &&& raw.triggers is None ==> text::texts(d.triggers@).len() == 0
            &&& raw.service is Some
            &&& definition::same_optional(d.service.type_, s.type_)
            &&& s.args matches Some(a) ==> text::texts(d.service.args@) == text::texts(a@)
            &&& s.args is None ==> text::texts(d.service.args@).len() == 0
            &&& d.service.command is Some <==> s.command is Some
            &&& d.service.agent is Some <==> s.agent is Some
            &&& d.service.mode == ServiceMode::Async <==> (s.mode matches Some(m) && m@ == "async"@)
            &&& raw.parameters matches Some(ps) ==> (d@.parameters.dom().contains(name) <==> ps@.dom().contains(name)) && (ps@.dom().contains(name) ==> {
                let p = d@.parameters[name];
                let q = ps@[name];
                &&& p.description == definition::optional_text(q.description)
                &&& p.required == (q.required is Some && q.required->0)
                &&& p.type_ == definition::ParameterType::String <==> (q.type_ matches Some(t) && t@ == "string"@)
                &&& p.type_ == definition::ParameterType::Int <==> (q.type_ matches Some(t) && t@ == "int"@)
                &&& p.type_ == definition::ParameterType::Bool <==> (q.type_ matches Some(t) && t@ == "bool"@)
            })
        },
{
    if let Ok(d) = r {
        what_is_listed_is_loaded(raw@, description@, path@);
        complete_front_matter_defines_a_workflow(raw@, description@, path@);
        assert(d@.id == d.id@ && d@.service.type_ == definition::optional_text(d.service.type_));
        if raw.parameters is Some {
            listed_parameters_are_loaded(raw@, description@, path@, name);
        }
    }
}

/// A file with something in a field that has to be filled is read as that text, and else as an error
/// that names the field.
pub proof fn fields_have_to_be_filled(value: Option<String>, field: &str, path: &str, r: Result<String, LoadError>)
    requires
        call_ensures(required_string, (value, field, path), r),
    ensures
        r is Ok <==> (value matches Some(v) && text::trimmed(v@).len() > 0),
        r is Ok ==> r->Ok_0@ == value->0@,
        r is Err ==> (r->Err_0 matches LoadError::MissingField { path: p, field: f } && p@ == path@ && f@ == field@),
{
    if value is Some {
        text::trimmed_of_blank(value->0@);
    }
    if r is Err {
        assert(r->Err_0@ is MissingField);
    }
}

/// Files are looked at and split as was said of their names and their text.
pub proof fn files_are_split(path: &str, b: bool, content: &str, r: Result<(String, String), LoadError>)
    requires
        call_ensures(is_definition_file, (path,), b),
        call_ensures(parse_file, (content, path), r),
    ensures
        b <==> is_workflow_file(path@),
        parts_view(r) == split_file(front_matter(content@), path@),
        r is Ok ==> parts_are_those_fenced(content@, (r->Ok_0).0@, (r->Ok_0).1@),
{
}

} // verus!
