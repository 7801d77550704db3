//! From a request to a workflow file, and from an id to what is removed.
//!
//! A request is checked before anything on disk is touched. What is then to be done is a list of
//! steps, in an order that never leaves a definition whose script is not there.

use vstd::prelude::*;

use crate::agent_log::store;
use crate::definition;
use crate::definition::{ParameterType, ServiceMode, WorkflowDefinitionView, DEFAULT_HANDLER};
use crate::error::{CreateError, CreateErrorView, DeleteError, DeleteErrorView};
use crate::json::{JsonNumber, NumberView};
use crate::paths;
use crate::registry::loader;
use crate::registry::loader::{RawAgentView, RawFrontmatterView, RawParameterView, RawServiceView};
use crate::registry::Registry;
use crate::table;
use crate::table::Table;
use crate::text;
use crate::wire::{CreateWorkflowRequest, ParameterDescriptor, ParameterDescriptorView, WorkflowWriteMode};

verus! {

pub const MAX_WORKFLOW_ID_LEN: usize = 64;

pub const MAX_WORKFLOW_NAME_LEN: usize = 200;

/// One mebibyte.
pub const MAX_CONTENT_LEN: usize = 1048576;

pub const SCRIPTS_SUBDIR: &'static str = "scripts";

pub const MAX_AGENT_FILES: usize = 50;

pub const MAX_AGENT_FILE_LEN: usize = 512;

/// What the key of the handler for agents starts with; the name of the agent's program follows.
pub const AGENT_HANDLER_PREFIX: &'static str = "agent.";

/// The key of the handler for agents that the program runs.
pub open spec fn agent_handler(program: Seq<char>) -> Seq<char> {
    "agent."@ + program
}

/// The key of the handler for agents that the program runs.
pub fn agent_handler_key(program: &str) -> (r: String)
    ensures
        r@ == agent_handler(program@),
{
    text::concat2(AGENT_HANDLER_PREFIX, program)
}

// ---------------------------------------------------------------------------
// Checking a request

/// A character that an id may hold.
pub open spec fn id_char(c: char) -> bool {
    ('a' <= c <= 'z') || ('0' <= c <= '9') || c == '_' || c == '-'
}

/// What is wrong with an id.
pub open spec fn id_error(id: Seq<char>) -> Option<CreateErrorView> {
    if id.len() == 0 {
        Some(CreateErrorView::InvalidId { id, reason: "must not be empty"@ })
    } else if id.len() > MAX_WORKFLOW_ID_LEN {
        Some(CreateErrorView::InvalidId { id, reason: "must be at most 64 characters"@ })
    } else if exists|i: int| 0 <= i < id.len() && !id_char(#[trigger] id[i]) {
        Some(CreateErrorView::InvalidId { id, reason: "must contain only lowercase letters, digits, `_`, and `-`"@ })
    } else if id[0] == '_' || id[0] == '-' {
        Some(CreateErrorView::InvalidId { id, reason: "must start with an alphanumeric character"@ })
    } else {
        None
    }
}

/// What is wrong with a name.
pub open spec fn name_error(name: Seq<char>) -> Option<CreateErrorView> {
    if text::is_blank(name) {
        Some(CreateErrorView::InvalidName { reason: "must not be empty"@ })
    } else if name.len() > MAX_WORKFLOW_NAME_LEN {
        Some(CreateErrorView::InvalidName { reason: "must be at most 200 characters"@ })
    } else {
        None
    }
}

/// What is wrong with an entry of the agent's files.
pub open spec fn agent_file_error(entry: Seq<char>) -> Option<CreateErrorView> {
    if entry.len() == 0 {
        Some(CreateErrorView::InvalidAgentFile { reason: "agent.files entry must not be empty"@ })
    } else if entry.contains('\0') {
        Some(CreateErrorView::InvalidAgentFile { reason: "agent.files entry must not contain a NUL byte"@ })
    } else if entry.len() > MAX_AGENT_FILE_LEN {
        Some(CreateErrorView::InvalidAgentFile { reason: "agent.files entry exceeds the 512 character limit"@ })
    } else {
        None
    }
}

/// What is wrong with the first bad entry from the `i`-th on.
pub open spec fn entries_error(files: Seq<Seq<char>>, i: int) -> Option<CreateErrorView>
    decreases files.len() - i,
{
    if i < 0 || i >= files.len() {
        None
    } else if agent_file_error(files[i]) is Some {
        agent_file_error(files[i])
    } else {
        entries_error(files, i + 1)
    }
}

/// What is wrong with the agent's files: there are too many, or one is bad.
pub open spec fn agent_files_error(files: Seq<Seq<char>>) -> Option<CreateErrorView> {
    if files.len() > MAX_AGENT_FILES {
        Some(
            CreateErrorView::InvalidAgentFile {
                reason: "agent.files declares "@ + text::decimal(files.len()) + " entries, exceeding the 50 limit"@,
            },
        )
    } else {
        entries_error(files, 0)
    }
}

/// The outcome of a check whose error is as given.
pub open spec fn refused_as(r: Result<(), CreateError>, e: Option<CreateErrorView>) -> bool {
    match r {
        Ok(_) => e is None,
        Err(x) => e == Some(x@),
    }
}

/// Checks an id. What passes holds no slash, no dot and nothing that leads out of a directory.
pub fn validate_id(id: &str) -> (r: Result<(), CreateError>)
    ensures
        refused_as(r, id_error(id@)),
{
    if id.is_empty() {
        return Err(CreateError::InvalidId { id: id.to_owned(), reason: "must not be empty".to_owned() });
    }
    let cs = text::chars_of(id);
    if cs.len() > MAX_WORKFLOW_ID_LEN {
        return Err(CreateError::InvalidId { id: id.to_owned(), reason: "must be at most 64 characters".to_owned() });
    }
    let mut i: usize = 0;
    while i < cs.len()
        invariant
            cs@ == id@,
            0 < cs@.len() <= MAX_WORKFLOW_ID_LEN,
            i <= cs@.len(),
            forall|j: int| 0 <= j < i ==> id_char(#[trigger] id@[j]),
        decreases cs@.len() - i,
    {
        let c: char = cs[i];
        if !(('a' <= c && c <= 'z') || ('0' <= c && c <= '9') || c == '_' || c == '-') {
            assert(!id_char(id@[i as int]));
            return Err(
                CreateError::InvalidId {
                    id: id.to_owned(),
                    reason: "must contain only lowercase letters, digits, `_`, and `-`".to_owned(),
                },
            );
        }
        i = i + 1;
    }
    if cs[0] == '_' || cs[0] == '-' {
        return Err(
            CreateError::InvalidId {
                id: id.to_owned(),
                reason: "must start with an alphanumeric character".to_owned(),
            },
        );
    }
    Ok(())
}

/// Checks a name.
pub fn validate_name(name: &str) -> (r: Result<(), CreateError>)
    ensures
        refused_as(r, name_error(name@)),
{
    if text::blank(name) {
        return Err(CreateError::InvalidName { reason: "must not be empty".to_owned() });
    }
    if name.unicode_len() > MAX_WORKFLOW_NAME_LEN {
        return Err(CreateError::InvalidName { reason: "must be at most 200 characters".to_owned() });
    }
    Ok(())
}

/// What is wrong with the length of a content.
pub open spec fn content_error(content: Seq<char>, max: usize) -> Option<CreateErrorView> {
    if text::utf8_size(content) > max {
        Some(CreateErrorView::ContentTooLarge { len: text::utf8_size(content) as usize, max })
    } else {
        None
    }
}

/// Checks the length of a content, in bytes.
pub fn validate_content_len(content: &str, max: usize) -> (r: Result<(), CreateError>)
    ensures
        refused_as(r, content_error(content@, max)),
{
    let len: usize = text::size_of(content);
    if len > max {
        return Err(CreateError::ContentTooLarge { len, max });
    }
    Ok(())
}

/// Checks the files that an agent needs.
pub fn validate_agent_files(files: &Vec<String>) -> (r: Result<(), CreateError>)
    ensures
        refused_as(r, agent_files_error(text::texts(files@))),
{
    if files.len() > MAX_AGENT_FILES {
        return Err(
            CreateError::InvalidAgentFile {
                reason: text::concat3(
                    "agent.files declares ",
                    &text::decimal_u64(files.len() as u64),
                    " entries, exceeding the 50 limit",
                ),
            },
        );
    }
    let ghost fs = text::texts(files@);
    let mut i: usize = 0;
    while i < files.len()
        invariant
            fs == text::texts(files@),
            files@.len() <= MAX_AGENT_FILES,
            i <= files@.len(),
            entries_error(fs, 0) == entries_error(fs, i as int),
        decreases files@.len() - i,
    {
        let entry = files[i].as_str();
        assert(fs[i as int] == entry@);
        if entry.is_empty() {
            return Err(
                CreateError::InvalidAgentFile { reason: "agent.files entry must not be empty".to_owned() },
            );
        }
        if text::contains_char(entry, '\0') {
            return Err(
                CreateError::InvalidAgentFile { reason: "agent.files entry must not contain a NUL byte".to_owned() },
            );
        }
        if entry.unicode_len() > MAX_AGENT_FILE_LEN {
            return Err(
                CreateError::InvalidAgentFile {
                    reason: "agent.files entry exceeds the 512 character limit".to_owned(),
                },
            );
        }
        i = i + 1;
    }
    Ok(())
}

/// An agent as a request has it.
pub struct AgentConfigView {
    pub files: Seq<Seq<char>>,
    pub timeout_secs: Option<u64>,
    pub max_budget_usd: Option<NumberView>,
}

/// What a request to write a workflow says.
pub struct CreateRequestView {
    pub id: Seq<char>,
    pub name: Seq<char>,
    pub description: Seq<char>,
    pub script: Option<Seq<char>>,
    pub agent: Option<AgentConfigView>,
    pub parameters: Seq<ParameterDescriptorView>,
    pub mode: WorkflowWriteMode,
}

/// What the parameters of a request say.
pub open spec fn descriptors_view(ps: Seq<ParameterDescriptor>) -> Seq<ParameterDescriptorView> {
    ps.map_values(|p: ParameterDescriptor| p@)
}

impl View for CreateWorkflowRequest {
    type V = CreateRequestView;

    open spec fn view(&self) -> CreateRequestView {
        CreateRequestView {
            id: self.id@,
            name: self.name@,
            description: self.description@,
            script: definition::optional_text(self.script),
            agent: match self.agent {
                Some(a) => Some(
                    AgentConfigView {
                        files: text::texts(a.files@),
                        timeout_secs: a.timeout_secs,
                        max_budget_usd: store::optional_number(a.max_budget_usd),
                    },
                ),
                None => None,
            },
            parameters: descriptors_view(self.parameters@),
            mode: self.mode,
        }
    }
}

/// What is wrong with a request, whatever is on disk: the first of these.
pub open spec fn request_error(req: CreateRequestView) -> Option<CreateErrorView> {
    if id_error(req.id) is Some {
        id_error(req.id)
    } else if name_error(req.name) is Some {
        name_error(req.name)
    } else if content_error(req.description, MAX_CONTENT_LEN) is Some {
        content_error(req.description, MAX_CONTENT_LEN)
    } else if req.script is Some && content_error(req.script->0, MAX_CONTENT_LEN) is Some {
        content_error(req.script->0, MAX_CONTENT_LEN)
    } else if req.script is Some && req.agent is Some {
        Some(CreateErrorView::ConflictingServiceBinding { id: req.id })
    } else if req.agent is Some {
        agent_files_error(req.agent->0.files)
    } else {
        None
    }
}

/// Checks a request, whatever is on disk.
pub fn check_request(req: &CreateWorkflowRequest) -> (r: Result<(), CreateError>)
    ensures
        refused_as(r, request_error(req@)),
{
    if let Err(e) = validate_id(&req.id) {
        return Err(e);
    }
    if let Err(e) = validate_name(&req.name) {
        return Err(e);
    }
    if let Err(e) = validate_content_len(&req.description, MAX_CONTENT_LEN) {
        return Err(e);
    }
    if let Some(script) = &req.script {
        if let Err(e) = validate_content_len(script, MAX_CONTENT_LEN) {
            return Err(e);
        }
    }
    if req.script.is_some() && req.agent.is_some() {
        return Err(CreateError::ConflictingServiceBinding { id: req.id.clone() });
    }
    if let Some(agent) = &req.agent {
        if let Err(e) = validate_agent_files(&agent.files) {
            return Err(e);
        }
    }
    Ok(())
}

// ---------------------------------------------------------------------------
// What is there already

/// What was found on disk for a request.
#[derive(Debug, PartialEq)]
pub struct DiskFacts {
    /// The file that a workflow with the id was loaded from, where there is one.
    pub loaded_from: Option<String>,
    /// There is a file named after the id, whatever is in it.
    pub definition_exists: bool,
    /// There is a file where the script goes.
    pub script_exists: bool,
    /// There is the workflows directory.
    pub dir_exists: bool,
    /// There is the directory that the script goes to.
    pub scripts_dir_exists: bool,
}

pub struct FactsView {
    pub loaded_from: Option<Seq<char>>,
    pub definition_exists: bool,
    pub script_exists: bool,
    pub dir_exists: bool,
    pub scripts_dir_exists: bool,
}

impl View for DiskFacts {
    type V = FactsView;

    open spec fn view(&self) -> FactsView {
        FactsView {
            loaded_from: definition::optional_text(self.loaded_from),
            definition_exists: self.definition_exists,
            script_exists: self.script_exists,
            dir_exists: self.dir_exists,
            scripts_dir_exists: self.scripts_dir_exists,
        }
    }
}

/// The path of the definition of a workflow.
pub open spec fn definition_path(dir: Seq<char>, id: Seq<char>) -> Seq<char> {
    paths::joined(dir, id + ".md"@)
}

/// The path of the script of a workflow.
pub open spec fn script_path(dir: Seq<char>, id: Seq<char>) -> Seq<char> {
    paths::joined(paths::joined(dir, "scripts"@), id + ".sh"@)
}

pub fn definition_path_of(dir: &str, id: &str) -> (r: String)
    ensures
        r@ == definition_path(dir@, id@),
{
    paths::join(dir, &text::concat2(id, ".md"))
}

pub fn script_path_of(dir: &str, id: &str) -> (r: String)
    ensures
        r@ == script_path(dir@, id@),
{
    paths::join(&paths::join(dir, SCRIPTS_SUBDIR), &text::concat2(id, ".sh"))
}

/// Where the definition is written: an edit stays in the file that the workflow was loaded from.
pub open spec fn written_path(dir: Seq<char>, req: CreateRequestView, loaded_from: Option<Seq<char>>) -> Seq<char> {
    match (req.mode, loaded_from) {
        (WorkflowWriteMode::Edit, Some(path)) => path,
        _ => definition_path(dir, req.id),
    }
}

/// The directory that the definition is written to.
pub open spec fn written_dir(dir: Seq<char>, req: CreateRequestView, loaded_from: Option<Seq<char>>) -> Seq<char> {
    match (req.mode, loaded_from) {
        (WorkflowWriteMode::Edit, Some(path)) => match paths::parent(path) {
            Some(parent) => parent,
            None => Seq::empty(),
        },
        _ => dir,
    }
}

/// Where the definition is written.
pub fn written_path_of(dir: &str, req: &CreateWorkflowRequest, loaded_from: &Option<String>) -> (r: String)
    ensures
        r@ == written_path(dir@, req@, definition::optional_text(*loaded_from)),
{
    match (req.mode, loaded_from) {
        (WorkflowWriteMode::Edit, Some(path)) => path.clone(),
        _ => definition_path_of(dir, &req.id),
    }
}

/// The directory that the definition is written to. Its script goes below it.
pub fn written_dir_of(dir: &str, req: &CreateWorkflowRequest, loaded_from: &Option<String>) -> (r: String)
    ensures
        r@ == written_dir(dir@, req@, definition::optional_text(*loaded_from)),
{
    match (req.mode, loaded_from) {
        (WorkflowWriteMode::Edit, Some(path)) => match paths::parent_of(path) {
            Some(parent) => parent,
            None => String::new(),
        },
        _ => dir.to_owned(),
    }
}

/// Why the request does not fit what is on disk: a new workflow must not be there yet, and one
/// that is edited must.
pub open spec fn disk_error(dir: Seq<char>, req: CreateRequestView, facts: FactsView) -> Option<CreateErrorView> {
    let there = facts.loaded_from is Some || facts.definition_exists;
    match req.mode {
        WorkflowWriteMode::Create => if there {
            Some(CreateErrorView::AlreadyExists { id: req.id, path: definition_path(dir, req.id) })
        } else if req.script is Some && facts.script_exists {
            Some(CreateErrorView::AlreadyExists { id: req.id, path: script_path(dir, req.id) })
        } else {
            None
        },
        WorkflowWriteMode::Edit => if there {
            None
        } else {
            Some(CreateErrorView::NotFound { id: req.id, path: definition_path(dir, req.id) })
        },
    }
}

/// A new workflow is refused where anything of it is there.
pub fn check_collisions(dir: &str, req: &CreateWorkflowRequest, facts: &DiskFacts) -> (r: Result<(), CreateError>)
    requires
        req.mode == WorkflowWriteMode::Create,
    ensures
        refused_as(r, disk_error(dir@, req@, facts@)),
{
    if facts.loaded_from.is_some() || facts.definition_exists {
        return Err(CreateError::AlreadyExists { id: req.id.clone(), path: definition_path_of(dir, &req.id) });
    }
    if req.script.is_some() && facts.script_exists {
        return Err(CreateError::AlreadyExists { id: req.id.clone(), path: script_path_of(dir, &req.id) });
    }
    Ok(())
}

/// A workflow that is not there cannot be edited.
pub fn check_exists(dir: &str, req: &CreateWorkflowRequest, facts: &DiskFacts) -> (r: Result<(), CreateError>)
    requires
        req.mode == WorkflowWriteMode::Edit,
    ensures
        refused_as(r, disk_error(dir@, req@, facts@)),
{
    if facts.loaded_from.is_some() || facts.definition_exists {
        Ok(())
    } else {
        Err(CreateError::NotFound { id: req.id.clone(), path: definition_path_of(dir, &req.id) })
    }
}

// ---------------------------------------------------------------------------
// The front matter that is written

/// A parameter as it is written.
#[derive(Debug, Clone, Copy, PartialEq, Eq, Structural)]
pub struct FmParameter {
    pub type_: ParameterType,
    pub required: bool,
}

/// An agent as it is written: an empty list and what is not set are left out.
#[derive(Debug, PartialEq)]
pub struct FmAgent {
    pub files: Vec<String>,
    pub timeout_secs: Option<u64>,
    pub max_budget_usd: Option<JsonNumber>,
}

/// The service block as it is written: what is not set is left out.
#[derive(Debug, PartialEq)]
pub struct FmService {
    pub type_: String,
    pub handler: String,
    pub mode: Option<ServiceMode>,
    pub command: Option<String>,
    pub agent: Option<FmAgent>,
}

/// The front matter as it is written.
#[derive(Debug, PartialEq)]
pub struct Frontmatter {
    pub id: String,
    pub name: String,
    pub parameters: Table<FmParameter>,
    pub service: FmService,
}

pub struct FmServiceView {
    pub type_: Seq<char>,
    pub handler: Seq<char>,
    pub mode: Option<ServiceMode>,
    pub command: Option<Seq<char>>,
    pub agent: Option<AgentConfigView>,
}

pub struct FrontmatterView {
    pub id: Seq<char>,
    pub name: Seq<char>,
    pub parameters: Map<Seq<char>, FmParameter>,
    pub service: FmServiceView,
}

impl View for Frontmatter {
    type V = FrontmatterView;

    open spec fn view(&self) -> FrontmatterView {
        FrontmatterView {
            id: self.id@,
            name: self.name@,
            parameters: self.parameters@,
            service: FmServiceView {
                type_: self.service.type_@,
                handler: self.service.handler@,
                mode: self.service.mode,
                command: definition::optional_text(self.service.command),
                agent: match self.service.agent {
                    Some(a) => Some(
                        AgentConfigView {
                            files: text::texts(a.files@),
                            timeout_secs: a.timeout_secs,
                            max_budget_usd: store::optional_number(a.max_budget_usd),
                        },
                    ),
                    None => None,
                },
            },
        }
    }
}

/// The parameters of a request by name: of two with one name the later counts.
pub open spec fn parameters_by_name(ps: Seq<ParameterDescriptorView>) -> Map<Seq<char>, FmParameter>
    decreases ps.len(),
{
    if ps.len() == 0 {
        Map::empty()
    } else {
        parameters_by_name(ps.drop_last()).insert(
            ps.last().name,
            FmParameter { type_: ps.last().type_, required: ps.last().required },
        )
    }
}

/// The front matter for a request: an agent workflow runs asynchronously and has no command, any
/// other is an action, with its script as the command. `program` runs the agents.
pub open spec fn frontmatter_of(req: CreateRequestView, program: Seq<char>) -> FrontmatterView {
    FrontmatterView {
        id: req.id,
        name: req.name,
        parameters: parameters_by_name(req.parameters),
        service: match req.agent {
            Some(agent) => FmServiceView {
                type_: "agent"@,
                handler: agent_handler(program),
                mode: Some(ServiceMode::Async),
                command: None,
                agent: Some(agent),
            },
            None => FmServiceView {
                type_: "action"@,
                handler: "action.immediate"@,
                mode: None,
                command: match req.script {
                    Some(_) => Some("scripts"@ + "/"@ + req.id + ".sh"@),
                    None => None,
                },
                agent: None,
            },
        },
    }
}

fn frontmatter_for(req: &CreateWorkflowRequest, program: &str) -> (r: Frontmatter)
    ensures
        r@ == frontmatter_of(req@, program@),
{
    let ghost ps = descriptors_view(req.parameters@);
    let mut parameters: Table<FmParameter> = Table::new();
    let mut i: usize = 0;
    assert(ps.take(0) =~= Seq::<ParameterDescriptorView>::empty());
    while i < req.parameters.len()
        invariant
            ps == descriptors_view(req.parameters@),
            i <= req.parameters@.len(),
            parameters@ == parameters_by_name(ps.take(i as int)),
        decreases req.parameters@.len() - i,
    {
        let p = &req.parameters[i];
        proof {
            assert(ps.take(i + 1).drop_last() =~= ps.take(i as int));
            assert(ps.take(i + 1).last() == p@);
        }
        parameters.insert(p.name.clone(), FmParameter { type_: p.type_, required: p.required });
        i = i + 1;
    }
    assert(ps.take(req.parameters@.len() as int) =~= ps);
    let service = match &req.agent {
        Some(agent) => FmService {
            type_: "agent".to_owned(),
            handler: agent_handler_key(program),
            mode: Some(ServiceMode::Async),
            command: None,
            agent: Some(
                FmAgent {
                    files: text::copy_texts(&agent.files),
                    timeout_secs: agent.timeout_secs,
                    max_budget_usd: match &agent.max_budget_usd {
                        Some(n) => Some(n.copy()),
                        None => None,
                    },
                },
            ),
        },
        None => FmService {
            type_: "action".to_owned(),
            handler: DEFAULT_HANDLER.to_owned(),
            mode: None,
            command: match &req.script {
                Some(_) => {
                    let mut command = text::concat3(SCRIPTS_SUBDIR, "/", &req.id);
                    command.append(".sh");
                    Some(command)
                },
                None => None,
            },
            agent: None,
        },
    };
    Frontmatter { id: req.id.clone(), name: req.name.clone(), parameters, service }
}

/// A file: the front matter between two lines of dashes, and the prose.
pub open spec fn rendered(yaml: Seq<char>, description: Seq<char>) -> Seq<char> {
    let body = if text::has_prefix(yaml, "---\n"@) {
        yaml.skip("---\n"@.len() as int)
    } else {
        yaml
    };
    let line = if body.len() > 0 && body.last() == '\n' {
        body
    } else {
        body.push('\n')
    };
    "---\n"@ + line + "---\n"@ + description + "\n"@
}

/// The file for the front matter in YAML, or for the words of the error where there is none.
pub fn render_file(yaml: Result<String, String>, description: &str, path_for_errors: &str) -> (r: Result<String, CreateError>)
    ensures
        match (r, yaml) {
            (Ok(t), Ok(y)) => t@ == rendered(y@, description@),
            (Err(e), Err(d)) => e@ == (CreateErrorView::Io {
                path: path_for_errors@,
                detail: "failed to serialize frontmatter: "@ + d@,
            }),
            _ => false,
        },
{
    match yaml {
        Err(d) => Err(
            CreateError::Io {
                path: path_for_errors.to_owned(),
                detail: text::concat2("failed to serialize frontmatter: ", &d),
            },
        ),
        Ok(y) => {
            let mut body = match text::strip_prefix(&y, "---\n") {
                Some(rest) => rest,
                None => y,
            };
            let n = body.as_str().unicode_len();
            if !(n > 0 && body.as_str().get_char(n - 1) == '\n') {
                body.push('\n');
            }
            let mut out = text::concat3("---\n", &body, "---\n");
            out.append(description);
            out.append("\n");
            Ok(out)
        },
    }
}

// ---------------------------------------------------------------------------
// What is to be done

/// The paths that were written.
#[derive(Debug, PartialEq)]
pub struct CreateOutcome {
    pub workflow_path: String,
    pub script_path: Option<String>,
}

/// A step of a write. Each names the path that an error would name.
#[derive(Debug, PartialEq)]
pub enum WriteStep {
    MakeDir { path: String },
    WriteScript { path: String, content: String },
    MakeExecutable { path: String },
    /// Write the definition, rendered from the front matter of the plan.
    WriteDefinition { path: String },
}

pub enum WriteStepView {
    MakeDir { path: Seq<char> },
    WriteScript { path: Seq<char>, content: Seq<char> },
    MakeExecutable { path: Seq<char> },
    WriteDefinition { path: Seq<char> },
}

impl View for WriteStep {
    type V = WriteStepView;

    open spec fn view(&self) -> WriteStepView {
        match *self {
            WriteStep::MakeDir { path } => WriteStepView::MakeDir { path: path@ },
            WriteStep::WriteScript { path, content } => WriteStepView::WriteScript { path: path@, content: content@ },
            WriteStep::MakeExecutable { path } => WriteStepView::MakeExecutable { path: path@ },
            WriteStep::WriteDefinition { path } => WriteStepView::WriteDefinition { path: path@ },
        }
    }
}

/// What the steps say.
pub open spec fn steps_view(steps: Seq<WriteStep>) -> Seq<WriteStepView> {
    steps.map_values(|s: WriteStep| s@)
}

/// A step that takes a change back. What was at the path before is kept until then.
#[derive(Debug, PartialEq)]
pub enum UndoStep {
    /// Put back what was at the path.
    Restore { path: String },
    /// Remove the file, where there is one.
    RemoveFile { path: String },
    /// Remove the directory, where there is one. It is empty by then.
    RemoveDir { path: String },
}

pub enum UndoStepView {
    Restore { path: Seq<char> },
    RemoveFile { path: Seq<char> },
    RemoveDir { path: Seq<char> },
}

impl View for UndoStep {
    type V = UndoStepView;

    open spec fn view(&self) -> UndoStepView {
        match *self {
            UndoStep::Restore { path } => UndoStepView::Restore { path: path@ },
            UndoStep::RemoveFile { path } => UndoStepView::RemoveFile { path: path@ },
            UndoStep::RemoveDir { path } => UndoStepView::RemoveDir { path: path@ },
        }
    }
}

impl UndoStep {
    fn copy(&self) -> (r: Self)
        ensures
            r@ == self@,
    {
        match self {
            UndoStep::Restore { path } => UndoStep::Restore { path: path.clone() },
            UndoStep::RemoveFile { path } => UndoStep::RemoveFile { path: path.clone() },
            UndoStep::RemoveDir { path } => UndoStep::RemoveDir { path: path.clone() },
        }
    }
}

/// What the steps say.
pub open spec fn undo_view(steps: Seq<UndoStep>) -> Seq<UndoStepView> {
    steps.map_values(|s: UndoStep| s@)
}

/// What is to be done for a request.
#[derive(Debug, PartialEq)]
pub struct WritePlan {
    pub steps: Vec<WriteStep>,
    /// For each step the one that takes it back.
    pub undo: Vec<UndoStep>,
    pub frontmatter: Frontmatter,
    /// What to report once every step is done.
    pub outcome: CreateOutcome,
}

/// Where the script of a workflow is written: below the directory of its definition.
pub open spec fn written_script(dir: Seq<char>, req: CreateRequestView, loaded_from: Option<Seq<char>>) -> Seq<char> {
    script_path(written_dir(dir, req, loaded_from), req.id)
}

/// The steps for a request: the script before the definition that names it. Only a new workflow
/// may need the workflows directory to be made.
pub open spec fn steps_for(dir: Seq<char>, req: CreateRequestView, facts: FactsView) -> Seq<WriteStepView> {
    let made = if req.mode == WorkflowWriteMode::Create && !facts.dir_exists {
        seq![WriteStepView::MakeDir { path: dir }]
    } else {
        Seq::empty()
    };
    let scripts = paths::joined(written_dir(dir, req, facts.loaded_from), "scripts"@);
    let script = written_script(dir, req, facts.loaded_from);
    let scripted = match req.script {
        Some(content) => (if facts.scripts_dir_exists {
            Seq::empty()
        } else {
            seq![WriteStepView::MakeDir { path: scripts }]
        }).push(WriteStepView::WriteScript { path: script, content }).push(
            WriteStepView::MakeExecutable { path: script },
        ),
        None => Seq::empty(),
    };
    (made + scripted).push(WriteStepView::WriteDefinition { path: written_path(dir, req, facts.loaded_from) })
}

/// What takes a step back: what was not there is removed, and what was is put back.
pub open spec fn undo_of(step: WriteStepView, mode: WorkflowWriteMode, facts: FactsView) -> UndoStepView {
    match step {
        WriteStepView::MakeDir { path } => UndoStepView::RemoveDir { path },
        WriteStepView::WriteScript { path, .. } => put_back(path, facts.script_exists),
        WriteStepView::MakeExecutable { path } => put_back(path, facts.script_exists),
        WriteStepView::WriteDefinition { path } => put_back(path, mode == WorkflowWriteMode::Edit),
    }
}

/// What takes a change of a file back.
pub open spec fn put_back(path: Seq<char>, was_there: bool) -> UndoStepView {
    if was_there {
        UndoStepView::Restore { path }
    } else {
        UndoStepView::RemoveFile { path }
    }
}

/// What takes each of the steps for a request back.
pub open spec fn undo_for(dir: Seq<char>, req: CreateRequestView, facts: FactsView) -> Seq<UndoStepView> {
    steps_for(dir, req, facts).map_values(|s: WriteStepView| undo_of(s, req.mode, facts))
}

fn undo_file(path: String, was_there: bool) -> (r: UndoStep)
    ensures
        r@ == put_back(path@, was_there),
{
    if was_there {
        UndoStep::Restore { path }
    } else {
        UndoStep::RemoveFile { path }
    }
}

fn undo_step(step: &WriteStep, mode: WorkflowWriteMode, facts: &DiskFacts) -> (r: UndoStep)
    ensures
        r@ == undo_of(step@, mode, facts@),
{
    let edits = match mode {
        WorkflowWriteMode::Edit => true,
        WorkflowWriteMode::Create => false,
    };
    match step {
        WriteStep::MakeDir { path } => UndoStep::RemoveDir { path: path.clone() },
        WriteStep::WriteScript { path, .. } => undo_file(path.clone(), facts.script_exists),
        WriteStep::MakeExecutable { path } => undo_file(path.clone(), facts.script_exists),
        WriteStep::WriteDefinition { path } => undo_file(path.clone(), edits),
    }
}

/// What is to be done for a request, given what is on disk; or why nothing is. `program` runs the
/// agents.
pub fn create_workflow(dir: &str, req: &CreateWorkflowRequest, program: &str, facts: &DiskFacts) -> (r: Result<
    WritePlan,
    CreateError,
>)
    ensures
        match r {
            Ok(plan) => {
                let path = written_path(dir@, req@, facts@.loaded_from);
                &&& request_error(req@) is None
                &&& disk_error(dir@, req@, facts@) is None
                &&& steps_view(plan.steps@) == steps_for(dir@, req@, facts@)
                &&& steps_view(plan.steps@).last() == (WriteStepView::WriteDefinition { path })
                &&& undo_view(plan.undo@) == undo_for(dir@, req@, facts@)
                &&& plan.frontmatter@ == frontmatter_of(req@, program@)
                &&& plan.outcome.workflow_path@ == path
                &&& definition::optional_text(plan.outcome.script_path) == match req@.script {
                    Some(_) => Some(written_script(dir@, req@, facts@.loaded_from)),
                    None => None,
                }
            },
            Err(e) => Some(e@) == if request_error(req@) is Some {
                request_error(req@)
            } else {
                disk_error(dir@, req@, facts@)
            },
        },
{
    if let Err(e) = check_request(req) {
        return Err(e);
    }
    let guard = match req.mode {
        WorkflowWriteMode::Create => check_collisions(dir, req, facts),
        WorkflowWriteMode::Edit => check_exists(dir, req, facts),
    };
    if let Err(e) = guard {
        return Err(e);
    }
    let md_path = written_path_of(dir, req, &facts.loaded_from);
    let md_dir = written_dir_of(dir, req, &facts.loaded_from);
    let mut steps: Vec<WriteStep> = Vec::new();
    if req.mode == WorkflowWriteMode::Create && !facts.dir_exists {
        steps.push(WriteStep::MakeDir { path: dir.to_owned() });
    }
    let script = match &req.script {
        Some(content) => {
            let path = script_path_of(&md_dir, &req.id);
            if !facts.scripts_dir_exists {
                steps.push(WriteStep::MakeDir { path: paths::join(&md_dir, SCRIPTS_SUBDIR) });
            }
            steps.push(WriteStep::WriteScript { path: path.clone(), content: content.clone() });
            steps.push(WriteStep::MakeExecutable { path: path.clone() });
            Some(path)
        },
        None => None,
    };
    steps.push(WriteStep::WriteDefinition { path: md_path.clone() });
    assert(steps_view(steps@) =~= steps_for(dir@, req@, facts@));
    let ghost want = undo_for(dir@, req@, facts@);
    let mut undo: Vec<UndoStep> = Vec::new();
    let mut i: usize = 0;
    assert(undo_view(undo@) =~= want.take(0));
    while i < steps.len()
        invariant
            i <= steps@.len(),
            want == steps_view(steps@).map_values(|s: WriteStepView| undo_of(s, req@.mode, facts@)),
            undo_view(undo@) == want.take(i as int),
        decreases steps@.len() - i,
    {
        let u = undo_step(&steps[i], req.mode, facts);
        let ghost before = undo@;
        undo.push(u);
        proof {
            assert(undo_view(undo@) =~= undo_view(before).push(u@));
            assert(want.take(i + 1) =~= want.take(i as int).push(want[i as int]));
        }
        i = i + 1;
    }
    assert(want.take(want.len() as int) =~= want);
    Ok(
        WritePlan {
            steps,
            undo,
            frontmatter: frontmatter_for(req, program),
            outcome: CreateOutcome { workflow_path: md_path, script_path: script },
        },
    )
}

/// What takes the first `begun` steps back, the last of them first. A step that failed counts: it
/// may have changed something.
pub fn undo_steps(plan: &WritePlan, begun: usize) -> (r: Vec<UndoStep>)
    requires
        begun <= plan.undo@.len(),
    ensures
        undo_view(r@) == undo_view(plan.undo@).take(begun as int).reverse(),
{
    let ghost first = undo_view(plan.undo@).take(begun as int);
    let mut out: Vec<UndoStep> = Vec::new();
    let mut left: usize = begun;
    assert(undo_view(out@) =~= first.reverse().take(0));
    while left > 0
        invariant
            left <= begun <= plan.undo@.len(),
            first == undo_view(plan.undo@).take(begun as int),
            undo_view(out@) == first.reverse().take(begun - left),
        decreases left,
    {
        left = left - 1;
        let u = plan.undo[left].copy();
        let ghost before = out@;
        out.push(u);
        proof {
            assert(undo_view(out@) =~= undo_view(before).push(u@));
            let at = begun - left - 1;
            assert(first.reverse()[at] == first[left as int]);
            assert(first.reverse().take(at + 1) =~= first.reverse().take(at).push(first[left as int]));
        }
    }
    assert(first.reverse().take(begun as int) =~= first.reverse());
    out
}

// ---------------------------------------------------------------------------
// Removing a workflow

/// The paths that were removed.
#[derive(Debug, PartialEq)]
pub struct DeleteOutcome {
    pub workflow_path: String,
    pub script_path: Option<String>,
}

/// What is to be removed for an id, the definition first; nothing where there is no such workflow.
/// A workflow that is loaded says itself where it lies and what its script is.
pub open spec fn removal_of(
    dir: Seq<char>,
    id: Seq<char>,
    loaded: Option<WorkflowDefinitionView>,
    definition_exists: bool,
    script_exists: bool,
) -> Option<(Seq<char>, Option<Seq<char>>)> {
    if id_error(id) is Some {
        None
    } else {
        match loaded {
            Some(d) => Some((d.source_path, d.service.command)),
            None => if definition_exists {
                Some(
                    (
                        definition_path(dir, id),
                        if script_exists {
                            Some(script_path(dir, id))
                        } else {
                            None
                        },
                    ),
                )
            } else {
                None
            },
        }
    }
}

/// What the registry has under an id.
pub open spec fn registered(m: Map<Seq<char>, WorkflowDefinitionView>, id: Seq<char>) -> Option<WorkflowDefinitionView> {
    if m.dom().contains(id) {
        Some(m[id])
    } else {
        None
    }
}

/// What is to be removed for an id. The two facts are about the paths that the definition and the
/// script of the id would have.
pub fn delete_workflow(dir: &str, id: &str, registry: &Registry, definition_exists: bool, script_exists: bool) -> (r: Result<
    DeleteOutcome,
    DeleteError,
>)
    ensures
        match r {
            Ok(o) => removal_of(dir@, id@, registered(registry@, id@), definition_exists, script_exists) == Some(
                (o.workflow_path@, definition::optional_text(o.script_path)),
            ),
            Err(e) => e@ == (DeleteErrorView::NotFound { id: id@ }) && removal_of(
                dir@,
                id@,
                registered(registry@, id@),
                definition_exists,
                script_exists,
            ) is None,
        },
{
    if validate_id(id).is_err() {
        return Err(DeleteError::NotFound { id: id.to_owned() });
    }
    match registry.lookup(id) {
        Some(d) => Ok(
            DeleteOutcome {
                workflow_path: d.source_path.clone(),
                script_path: definition::copy_optional(&d.service.command),
            },
        ),
        None => {
            if !definition_exists {
                return Err(DeleteError::NotFound { id: id.to_owned() });
            }
            Ok(
                DeleteOutcome {
                    workflow_path: definition_path_of(dir, id),
                    script_path: if script_exists {
                        Some(script_path_of(dir, id))
                    } else {
                        None
                    },
                },
            )
        },
    }
}

/// Where a path leads once every link is followed.
#[derive(Debug, PartialEq)]
pub enum Resolution {
    /// There is nothing at the path, in the words of the file system.
    Missing { detail: String },
    /// There is a link at the path that leads nowhere.
    Dangling,
    /// Where the workflows directory and the path lead, or the words of the error.
    Resolved { dir: Result<String, String>, candidate: Result<String, String> },
}

/// Why the candidate must not be removed. What leads nowhere leads nowhere outside either.
pub open spec fn containment_error(dir: Seq<char>, candidate: Seq<char>, res: Resolution) -> Option<DeleteErrorView> {
    match res {
        Resolution::Missing { .. } | Resolution::Dangling => None,
        Resolution::Resolved { dir: Err(detail), .. } => Some(DeleteErrorView::Io { path: dir, detail: detail@ }),
        Resolution::Resolved { dir: Ok(_), candidate: Err(detail) } => Some(
            DeleteErrorView::Io { path: candidate, detail: detail@ },
        ),
        Resolution::Resolved { dir: Ok(d), candidate: Ok(c) } => if paths::is_within(c@, d@) {
            None
        } else {
            Some(DeleteErrorView::PathEscape { path: candidate, reason: "outside workflows dir "@ + d@ })
        },
    }
}

/// Refuses what lies outside the workflows directory.
pub fn assert_contained(dir: &str, candidate: &str, res: &Resolution) -> (r: Result<(), DeleteError>)
    ensures
        match r {
            Ok(_) => containment_error(dir@, candidate@, *res) is None,
            Err(e) => containment_error(dir@, candidate@, *res) == Some(e@),
        },
{
    match res {
        Resolution::Missing { .. } | Resolution::Dangling => Ok(()),
        Resolution::Resolved { dir: d, candidate: c } => match d {
            Err(detail) => Err(DeleteError::Io { path: dir.to_owned(), detail: detail.clone() }),
            Ok(d) => match c {
                Err(detail) => Err(DeleteError::Io { path: candidate.to_owned(), detail: detail.clone() }),
                Ok(c) => if paths::starts_with(c, d) {
                    Ok(())
                } else {
                    Err(
                        DeleteError::PathEscape {
                            path: candidate.to_owned(),
                            reason: text::concat2("outside workflows dir ", d),
                        },
                    )
                },
            },
        },
    }
}

/// Why the candidate cannot be removed: it is not there.
pub open spec fn absence_error(candidate: Seq<char>, res: Resolution) -> Option<DeleteErrorView> {
    match res {
        Resolution::Missing { detail } => Some(DeleteErrorView::Io { path: candidate, detail: detail@ }),
        _ => None,
    }
}

/// Why nothing is removed: one of the paths lies outside the workflows directory, or is not there.
/// The definition is looked at first.
pub open spec fn removal_error(
    dir: Seq<char>,
    definition: Seq<char>,
    at_definition: Resolution,
    script: Option<Seq<char>>,
    at_script: Resolution,
) -> Option<DeleteErrorView> {
    let (script_outside, script_absent) = match script {
        Some(path) => (containment_error(dir, path, at_script), absence_error(path, at_script)),
        None => (None, None),
    };
    if containment_error(dir, definition, at_definition) is Some {
        containment_error(dir, definition, at_definition)
    } else if script_outside is Some {
        script_outside
    } else if absence_error(definition, at_definition) is Some {
        absence_error(definition, at_definition)
    } else {
        script_absent
    }
}

/// The files to remove for a workflow, the definition first.
pub open spec fn removed_files(definition: Seq<char>, script: Option<Seq<char>>) -> Seq<Seq<char>> {
    match script {
        Some(path) => seq![definition, path],
        None => seq![definition],
    }
}

/// What is to be removed.
#[derive(Debug, PartialEq)]
pub struct Removal {
    /// The files to remove, one after the other.
    pub files: Vec<String>,
    /// What to report once they are removed.
    pub outcome: DeleteOutcome,
}

/// Refuses what is not there.
fn assert_present(candidate: &str, res: &Resolution) -> (r: Result<(), DeleteError>)
    ensures
        match r {
            Ok(_) => absence_error(candidate@, *res) is None,
            Err(e) => absence_error(candidate@, *res) == Some(e@),
        },
{
    match res {
        Resolution::Missing { detail } => Err(
            DeleteError::Io { path: candidate.to_owned(), detail: detail.clone() },
        ),
        _ => Ok(()),
    }
}

/// The files to remove: all of the workflow, where every one of them is there and lies within the
/// workflows directory, and else none.
pub fn removal_steps(dir: &str, found: &DeleteOutcome, at_definition: &Resolution, at_script: &Resolution) -> (r: Result<
    Removal,
    DeleteError,
>)
    ensures
        ({
            let script = definition::optional_text(found.script_path);
            let error = removal_error(dir@, found.workflow_path@, *at_definition, script, *at_script);
            match r {
                Ok(removal) => {
                    &&& error is None
                    &&& text::texts(removal.files@) == removed_files(found.workflow_path@, script)
                    &&& removal.outcome.workflow_path@ == found.workflow_path@
                    &&& definition::optional_text(removal.outcome.script_path) == script
                },
                Err(e) => error == Some(e@),
            }
        }),
{
    if let Err(e) = assert_contained(dir, &found.workflow_path, at_definition) {
        return Err(e);
    }
    if let Some(script) = &found.script_path {
        if let Err(e) = assert_contained(dir, script, at_script) {
            return Err(e);
        }
    }
    if let Err(e) = assert_present(&found.workflow_path, at_definition) {
        return Err(e);
    }
    if let Some(script) = &found.script_path {
        if let Err(e) = assert_present(script, at_script) {
            return Err(e);
        }
    }
    let mut files: Vec<String> = Vec::new();
    files.push(found.workflow_path.clone());
    let script_path = definition::copy_optional(&found.script_path);
    if let Some(script) = &script_path {
        files.push(script.clone());
        assert(text::texts(files@) =~= seq![found.workflow_path@, script@]);
    } else {
        assert(text::texts(files@) =~= seq![found.workflow_path@]);
    }
    Ok(Removal { files, outcome: DeleteOutcome { workflow_path: found.workflow_path.clone(), script_path } })
}

/// What takes the removal of the first `begun` files back, the last of them first.
pub fn undo_removal(removal: &Removal, begun: usize) -> (r: Vec<UndoStep>)
    requires
        begun <= removal.files@.len(),
    ensures
        undo_view(r@) == restores(text::texts(removal.files@).take(begun as int)).reverse(),
{
    let ghost first = restores(text::texts(removal.files@).take(begun as int));
    let mut out: Vec<UndoStep> = Vec::new();
    let mut left: usize = begun;
    assert(undo_view(out@) =~= first.reverse().take(0));
    while left > 0
        invariant
            left <= begun <= removal.files@.len(),
            first == restores(text::texts(removal.files@).take(begun as int)),
            undo_view(out@) == first.reverse().take(begun - left),
        decreases left,
    {
        left = left - 1;
        let u = UndoStep::Restore { path: removal.files[left].clone() };
        let ghost before = out@;
        out.push(u);
        proof {
            assert(undo_view(out@) =~= undo_view(before).push(u@));
            let at = begun - left - 1;
            assert(first.reverse()[at] == first[left as int]);
            assert(first.reverse().take(at + 1) =~= first.reverse().take(at).push(first[left as int]));
        }
    }
    assert(first.reverse().take(begun as int) =~= first.reverse());
    out
}

/// The steps that put the files back.
pub open spec fn restores(files: Seq<Seq<char>>) -> Seq<UndoStepView> {
    files.map_values(|path: Seq<char>| UndoStepView::Restore { path })
}

// ---------------------------------------------------------------------------
// What holds of it all

proof fn id_is_plain(id: Seq<char>, ext: Seq<char>)
    requires
        id_error(id) is None,
        !ext.contains('/'),
        ext.len() > 0,
    ensures
        !(id + ext).contains('/'),
        (id + ext).len() > 0,
        (id + ext) != seq!['.'],
{
    let name = id + ext;
    if name.contains('/') {
        let i = choose|i: int| 0 <= i < name.len() && name[i] == '/';
        if i < id.len() {
            assert(id_char(id[i]));
        } else {
            assert(ext[i - id.len()] == '/');
        }
    }
    assert(name.len() >= 2);
    assert(seq!['.'].len() == 1);
}

/// What an id that passes is made into never leads out of the workflows directory.
pub proof fn accepted_ids_stay_within(dir: Seq<char>, id: Seq<char>)
    requires
        id_error(id) is None,
    ensures
        paths::is_within(definition_path(dir, id), dir),
        paths::is_within(script_path(dir, id), dir),
        definition_path(dir, id) != dir,
{
    reveal_strlit(".md");
    reveal_strlit(".sh");
    reveal_strlit("scripts");
    assert(".md"@ =~= seq!['.', 'm', 'd']);
    assert(".sh"@ =~= seq!['.', 's', 'h']);
    assert("scripts"@ =~= seq!['s', 'c', 'r', 'i', 'p', 't', 's']);
    id_is_plain(id, ".md"@);
    id_is_plain(id, ".sh"@);
    paths::child_is_within(dir, id + ".md"@);
    paths::child_components(dir, id + ".md"@);
    let scripts = paths::joined(dir, "scripts"@);
    assert("scripts"@ != seq!['.']) by {
        assert("scripts"@.len() == 7);
    }
    paths::child_is_within(dir, "scripts"@);
    paths::child_is_within(scripts, id + ".sh"@);
    paths::within_is_transitive(script_path(dir, id), scripts, dir);
    if definition_path(dir, id) == dir {
        assert(paths::components(dir).len() == paths::components(dir).push(id + ".md"@).len());
    }
}

/// The definition is the last thing that is written, and a script that it names is there by then.
pub proof fn script_comes_before_definition(
    dir: Seq<char>,
    req: CreateRequestView,
    facts: FactsView,
    program: Seq<char>,
)
    ensures
        ({
            let steps = steps_for(dir, req, facts);
            &&& forall|i: int| 0 <= i < steps.len() ==> ((#[trigger] steps[i] is WriteDefinition) <==> i == steps.len() - 1)
            &&& frontmatter_of(req, program).service.command is Some ==> exists|i: int|
                0 <= i < steps.len() - 1 && #[trigger] steps[i] == (WriteStepView::WriteScript {
                    path: written_script(dir, req, facts.loaded_from),
                    content: req.script->0,
                })
        }),
{
    let steps = steps_for(dir, req, facts);
    if req.script is Some {
        assert(steps[steps.len() - 3] == (WriteStepView::WriteScript {
            path: written_script(dir, req, facts.loaded_from),
            content: req.script->0,
        }));
    }
}

/// What is on disk is as the facts say, `disk` holding what there is by path.
pub open spec fn facts_hold<E>(
    disk: Map<Seq<char>, E>,
    dir: Seq<char>,
    req: CreateRequestView,
    facts: FactsView,
) -> bool {
    &&& facts.loaded_from matches Some(path) ==> disk.dom().contains(path)
    &&& facts.definition_exists <==> disk.dom().contains(definition_path(dir, req.id))
    &&& facts.script_exists <==> disk.dom().contains(written_script(dir, req, facts.loaded_from))
    &&& facts.dir_exists <==> disk.dom().contains(dir)
    &&& facts.scripts_dir_exists <==> disk.dom().contains(
        paths::joined(written_dir(dir, req, facts.loaded_from), "scripts"@),
    )
}

/// An edit that is accepted writes its definition only where one already is. Where it brings no
/// script, it writes nothing else.
pub proof fn edits_stay_in_place<E>(
    disk: Map<Seq<char>, E>,
    dir: Seq<char>,
    req: CreateRequestView,
    facts: FactsView,
)
    requires
        req.mode == WorkflowWriteMode::Edit,
        disk_error(dir, req, facts) is None,
        facts_hold(disk, dir, req, facts),
    ensures
        disk.dom().contains(written_path(dir, req, facts.loaded_from)),
        facts.loaded_from matches Some(path) ==> written_path(dir, req, facts.loaded_from) == path,
        forall|i: int|
            0 <= i < steps_for(dir, req, facts).len() ==> (#[trigger] steps_for(
                dir,
                req,
                facts,
            )[i] matches WriteStepView::WriteDefinition { path } ==> disk.dom().contains(path)),
        req.script is None ==> steps_for(dir, req, facts) == seq![
            WriteStepView::WriteDefinition { path: written_path(dir, req, facts.loaded_from) },
        ],
{
    if req.script is None {
        assert(steps_for(dir, req, facts) =~= seq![
            WriteStepView::WriteDefinition { path: written_path(dir, req, facts.loaded_from) },
        ]);
    }
}

/// The path that a step changes.
pub open spec fn changed_path(step: WriteStepView) -> Seq<char> {
    match step {
        WriteStepView::MakeDir { path } => path,
        WriteStepView::WriteScript { path, .. } => path,
        WriteStepView::MakeExecutable { path } => path,
        WriteStepView::WriteDefinition { path } => path,
    }
}

/// The path that is put back.
pub open spec fn undone_path(u: UndoStepView) -> Seq<char> {
    match u {
        UndoStepView::Restore { path } => path,
        UndoStepView::RemoveFile { path } => path,
        UndoStepView::RemoveDir { path } => path,
    }
}

/// The same is at the path in both.
pub open spec fn same_at<E>(a: Map<Seq<char>, E>, b: Map<Seq<char>, E>, path: Seq<char>) -> bool {
    &&& a.dom().contains(path) <==> b.dom().contains(path)
    &&& a.dom().contains(path) ==> a[path] == b[path]
}

/// What is on disk after a change was taken back. `kept` is what was there before the change.
pub open spec fn after_undo<E>(disk: Map<Seq<char>, E>, kept: Map<Seq<char>, E>, u: UndoStepView) -> Map<Seq<char>, E> {
    match u {
        UndoStepView::Restore { path } => disk.insert(path, kept[path]),
        UndoStepView::RemoveFile { path } => disk.remove(path),
        UndoStepView::RemoveDir { path } => disk.remove(path),
    }
}

/// What is on disk after changes were taken back, one after the other.
pub open spec fn after_undos<E>(
    disk: Map<Seq<char>, E>,
    kept: Map<Seq<char>, E>,
    us: Seq<UndoStepView>,
) -> Map<Seq<char>, E>
    decreases us.len(),
{
    if us.len() == 0 {
        disk
    } else {
        after_undo(after_undos(disk, kept, us.drop_last()), kept, us.last())
    }
}

/// The step puts back what was there, or removes what was not.
pub open spec fn is_faithful<E>(u: UndoStepView, kept: Map<Seq<char>, E>) -> bool {
    u is Restore <==> kept.dom().contains(undone_path(u))
}

proof fn undos_put_back<E>(
    disk: Map<Seq<char>, E>,
    kept: Map<Seq<char>, E>,
    us: Seq<UndoStepView>,
    path: Seq<char>,
)
    requires
        forall|i: int| 0 <= i < us.len() ==> is_faithful(#[trigger] us[i], kept),
    ensures
        if exists|i: int| 0 <= i < us.len() && undone_path(#[trigger] us[i]) == path {
            same_at(after_undos(disk, kept, us), kept, path)
        } else {
            same_at(after_undos(disk, kept, us), disk, path)
        },
    decreases us.len(),
{
    if us.len() > 0 {
        let rest = us.drop_last();
        assert forall|i: int| 0 <= i < rest.len() implies is_faithful(#[trigger] rest[i], kept) by {
            assert(rest[i] == us[i]);
        }
        undos_put_back(disk, kept, rest, path);
        let last = us[us.len() - 1];
        assert(is_faithful(last, kept));
        if exists|i: int| 0 <= i < us.len() && undone_path(#[trigger] us[i]) == path {
            let i = choose|i: int| 0 <= i < us.len() && undone_path(#[trigger] us[i]) == path;
            if i < rest.len() {
                assert(undone_path(rest[i]) == path);
            }
        }
        if exists|i: int| 0 <= i < rest.len() && undone_path(#[trigger] rest[i]) == path {
            let i = choose|i: int| 0 <= i < rest.len() && undone_path(#[trigger] rest[i]) == path;
            assert(undone_path(us[i]) == path);
        }
    }
}

/// A write that fails leaves nothing behind: whatever the steps that were begun did at the paths
/// they name, once they are taken back everything is as it was.
pub proof fn failed_writes_leave_nothing_behind<E>(
    before: Map<Seq<char>, E>,
    after: Map<Seq<char>, E>,
    dir: Seq<char>,
    req: CreateRequestView,
    facts: FactsView,
    begun: int,
)
    requires
        disk_error(dir, req, facts) is None,
        facts_hold(before, dir, req, facts),
        0 <= begun <= steps_for(dir, req, facts).len(),
        forall|path: Seq<char>|
            (forall|i: int| 0 <= i < begun ==> changed_path(#[trigger] steps_for(dir, req, facts)[i]) != path)
                ==> #[trigger] same_at(before, after, path),
    ensures
        after_undos(after, before, undo_for(dir, req, facts).take(begun).reverse()) == before,
{
    let steps = steps_for(dir, req, facts);
    let us = undo_for(dir, req, facts).take(begun).reverse();
    assert forall|i: int| 0 <= i < us.len() implies is_faithful(#[trigger] us[i], before) by {
        let at = begun - 1 - i;
        assert(us[i] == undo_of(steps[at], req.mode, facts));
        if req.mode == WorkflowWriteMode::Edit {
            edits_stay_in_place(before, dir, req, facts);
        }
    }
    let end = after_undos(after, before, us);
    assert forall|path: Seq<char>| #[trigger] same_at(end, before, path) by {
        undos_put_back(after, before, us, path);
        if !(exists|i: int| 0 <= i < us.len() && undone_path(#[trigger] us[i]) == path) {
            assert forall|i: int| 0 <= i < begun implies changed_path(#[trigger] steps[i]) != path by {
                let at = begun - 1 - i;
                assert(us[at] == undo_of(steps[i], req.mode, facts));
                assert(undone_path(us[at]) == changed_path(steps[i]));
            }
            assert(same_at(before, after, path));
        }
    }
    assert forall|path: Seq<char>| end.dom().contains(path) <==> before.dom().contains(path) by {
        assert(same_at(end, before, path));
    }
    assert forall|path: Seq<char>| end.dom().contains(path) implies end[path] == before[path] by {
        assert(same_at(end, before, path));
    }
    assert(end =~= before);
}

/// A removal is begun only where everything that it is to remove is there: a workflow whose script is
/// gone keeps its definition, and the script is named.
pub proof fn removals_need_every_file(
    dir: Seq<char>,
    definition: Seq<char>,
    at_definition: Resolution,
    script: Option<Seq<char>>,
    at_script: Resolution,
)
    ensures
        ({
            let error = removal_error(dir, definition, at_definition, script, at_script);
            &&& at_definition is Missing ==> error is Some
            &&& script is Some && at_script is Missing ==> error is Some
            &&& containment_error(dir, definition, at_definition) is None && !(at_definition is Missing) ==> match (
                script,
                at_script,
            ) {
                (Some(path), Resolution::Missing { detail }) => error == Some(
                    DeleteErrorView::Io { path, detail: detail@ },
                ),
                _ => true,
            }
        }),
{
}

/// A removal that fails leaves everything as it was: the files whose removal was begun are put
/// back.
pub proof fn failed_removals_leave_everything<E>(
    before: Map<Seq<char>, E>,
    after: Map<Seq<char>, E>,
    files: Seq<Seq<char>>,
    begun: int,
)
    requires
        0 <= begun <= files.len(),
        forall|i: int| 0 <= i < files.len() ==> before.dom().contains(#[trigger] files[i]),
        forall|path: Seq<char>|
            (forall|i: int| 0 <= i < begun ==> #[trigger] files[i] != path) ==> #[trigger] same_at(before, after, path),
    ensures
        after_undos(after, before, restores(files.take(begun)).reverse()) == before,
{
    let us = restores(files.take(begun)).reverse();
    assert forall|i: int| 0 <= i < us.len() implies is_faithful(#[trigger] us[i], before) by {
        assert(us[i] == (UndoStepView::Restore { path: files[begun - 1 - i] }));
    }
    let end = after_undos(after, before, us);
    assert forall|path: Seq<char>| #[trigger] same_at(end, before, path) by {
        undos_put_back(after, before, us, path);
        if !(exists|i: int| 0 <= i < us.len() && undone_path(#[trigger] us[i]) == path) {
            assert forall|i: int| 0 <= i < begun implies #[trigger] files[i] != path by {
                let at = begun - 1 - i;
                assert(undone_path(us[at]) == files[i]);
            }
            assert(same_at(before, after, path));
        }
    }
    assert forall|path: Seq<char>| end.dom().contains(path) <==> before.dom().contains(path) by {
        assert(same_at(end, before, path));
    }
    assert forall|path: Seq<char>| end.dom().contains(path) implies end[path] == before[path] by {
        assert(same_at(end, before, path));
    }
    assert(end =~= before);
}

/// The word that a parameter type is written as.
pub open spec fn written_type(t: ParameterType) -> Seq<char> {
    match t {
        ParameterType::String => "string"@,
        ParameterType::Int => "int"@,
        ParameterType::Bool => "bool"@,
    }
}

/// What the loader finds in a front matter that was written: what is left out is not there.
pub open spec fn as_read(fm: FrontmatterView) -> RawFrontmatterView {
    RawFrontmatterView {
        id: Some(fm.id),
        name: Some(fm.name),
        intent: None,
        triggers: None,
        parameters: Some(
            fm.parameters.map_values(
                |p: FmParameter|
                    RawParameterView { type_: Some(written_type(p.type_)), description: None, required: Some(p.required) },
            ),
        ),
        service: Some(
            RawServiceView {
                type_: Some(fm.service.type_),
                handler: Some(fm.service.handler),
                mode: match fm.service.mode {
                    Some(ServiceMode::Sync) => Some("sync"@),
                    Some(ServiceMode::Async) => Some("async"@),
                    None => None,
                },
                command: fm.service.command,
                args: None,
                agent: match fm.service.agent {
                    Some(a) => Some(
                        RawAgentView {
                            files: if a.files.len() == 0 {
                                None
                            } else {
                                Some(a.files)
                            },
                            model: None,
                            max_budget_usd: a.max_budget_usd,
                            timeout_secs: a.timeout_secs,
                        },
                    ),
                    None => None,
                },
            },
        ),
    }
}

proof fn type_words_are_read_back(t: ParameterType)
    ensures
        loader::type_of(written_type(t)) == Some(t),
{
    reveal_strlit("string");
    reveal_strlit("int");
    reveal_strlit("bool");
    assert("string"@.len() == 6);
    assert("int"@.len() == 3);
    assert("bool"@.len() == 4);
}

/// Whatever is written for a request that passes, the loader takes: it defines a workflow with
/// the id, the name, the parameters and the service that the request asked for.
pub proof fn written_definitions_load(
    req: CreateRequestView,
    program: Seq<char>,
    description: Seq<char>,
    path: Seq<char>,
)
    requires
        request_error(req) is None,
    ensures
        ({
            let d = loader::definition_of(as_read(frontmatter_of(req, program)), description, path);
            &&& d is Ok
            &&& d->Ok_0.id == req.id
            &&& d->Ok_0.name == req.name
            &&& d->Ok_0.description == description
            &&& d->Ok_0.source_path == path
            &&& d->Ok_0.parameters.dom() == parameters_by_name(req.parameters).dom()
            &&& forall|k: Seq<char>| #[trigger]
                d->Ok_0.parameters.dom().contains(k) ==> d->Ok_0.parameters[k].type_ == parameters_by_name(
                    req.parameters,
                )[k].type_ && d->Ok_0.parameters[k].required == parameters_by_name(req.parameters)[k].required
            &&& match req.agent {
                Some(a) => {
                    &&& d->Ok_0.service.handler == agent_handler(program)
                    &&& d->Ok_0.service.mode == ServiceMode::Async
                    &&& d->Ok_0.service.command is None
                    &&& d->Ok_0.service.agent == Some(
                        definition::AgentSpecView {
                            files: a.files.map_values(|f: Seq<char>| loader::anchored(f, path)),
                            model: None,
                            max_budget_usd: a.max_budget_usd,
                            timeout_secs: a.timeout_secs,
                        },
                    )
                },
                None => {
                    &&& d->Ok_0.service.handler == "action.immediate"@
                    &&& d->Ok_0.service.mode == ServiceMode::Sync
                    &&& d->Ok_0.service.agent is None
                    &&& d->Ok_0.service.command is Some <==> req.script is Some
                },
            }
        }),
{
    let fm = frontmatter_of(req, program);
    let raw = as_read(fm);
    let m = raw.parameters->0;
    // The id and the name are not blank.
    assert(id_char(req.id[0]));
    assert(!text::is_white_space(req.id[0]));
    assert(!text::is_blank(req.id));
    // The handlers are not blank.
    reveal_strlit("agent.");
    reveal_strlit("action.immediate");
    assert(agent_handler(program)[0] == 'a');
    assert("action.immediate"@[0] == 'a');
    assert(!text::is_blank(agent_handler(program)));
    assert(!text::is_blank("action.immediate"@));
    // The mode is one of the two.
    reveal_strlit("sync");
    reveal_strlit("async");
    assert("sync"@.len() == 4);
    assert("async"@.len() == 5);
    // Every parameter has a type.
    let bad = loader::bad_parameters(m, path);
    assert forall|k: Seq<char>| !bad.contains(k) by {
        if m.dom().contains(k) {
            type_words_are_read_back(fm.parameters[k].type_);
        }
    }
    let d = loader::definition_of(raw, description, path);
    assert(d is Ok);
    assert(d->Ok_0.parameters.dom() =~= parameters_by_name(req.parameters).dom());
    assert forall|k: Seq<char>| #[trigger] d->Ok_0.parameters.dom().contains(k) implies d->Ok_0.parameters[k].type_
        == parameters_by_name(req.parameters)[k].type_ && d->Ok_0.parameters[k].required == parameters_by_name(
        req.parameters,
    )[k].required by {
        type_words_are_read_back(fm.parameters[k].type_);
    }
    if let Some(a) = req.agent {
        if a.files.len() == 0 {
            assert(a.files.map_values(|f: Seq<char>| loader::anchored(f, path)) =~= Seq::<Seq<char>>::empty());
        }
    }
}

/// The command of a workflow that was written with a script leads to that script, whichever file
/// the definition is in.
pub proof fn written_commands_lead_to_the_script(
    dir: Seq<char>,
    req: CreateRequestView,
    loaded_from: Option<Seq<char>>,
    program: Seq<char>,
)
    requires
        request_error(req) is None,
        req.script is Some,
    ensures
        ({
            let command = frontmatter_of(req, program).service.command;
            &&& command is Some
            &&& paths::components(loader::anchored(command->0, written_path(dir, req, loaded_from)))
                == paths::components(written_script(dir, req, loaded_from))
        }),
{
    let command = frontmatter_of(req, program).service.command->0;
    let path = written_path(dir, req, loaded_from);
    let file = req.id + ".sh"@;
    reveal_strlit(".md");
    reveal_strlit(".sh");
    reveal_strlit("scripts");
    reveal_strlit("/");
    assert(".md"@ =~= seq!['.', 'm', 'd']);
    assert(".sh"@ =~= seq!['.', 's', 'h']);
    assert("scripts"@ =~= seq!['s', 'c', 'r', 'i', 'p', 't', 's']);
    id_is_plain(req.id, ".md"@);
    id_is_plain(req.id, ".sh"@);
    let parent = match paths::parent(path) {
        Some(d) => d,
        None => Seq::empty(),
    };
    assert(command =~= "scripts"@.push('/') + file);
    let scripts = paths::joined(parent, "scripts"@);
    assert(scripts.len() > 0 && scripts.last() == 's');
    assert(file[0] == req.id[0]);
    assert(id_char(req.id[0]));
    assert(paths::joined(parent, command) =~= paths::joined(scripts, file));
    if !(req.mode == WorkflowWriteMode::Edit && loaded_from is Some) {
        paths::parent_of_child(dir, req.id + ".md"@);
        paths::child_components(parent, "scripts"@);
        paths::child_components(scripts, file);
        paths::child_components(dir, "scripts"@);
        paths::child_components(paths::joined(dir, "scripts"@), file);
    }
}

/// The YAML in a file that was written: without a line of dashes before it and without the end of
/// its last line.
pub open spec fn yaml_text(yaml: Seq<char>) -> Seq<char> {
    let body = if text::has_prefix(yaml, "---\n"@) {
        yaml.skip("---\n"@.len() as int)
    } else {
        yaml
    };
    if body.len() > 0 && body.last() == '\n' {
        body.drop_last()
    } else {
        body
    }
}

proof fn rendered_is_fenced(yaml: Seq<char>, description: Seq<char>)
    ensures
        rendered(yaml, description) == loader::fenced(yaml_text(yaml), description.push('\n')),
{
    reveal_strlit("---\n");
    reveal_strlit("\n---\n");
    reveal_strlit("\n");
    assert("\n---\n"@ =~= seq!['\n'] + "---\n"@);
    assert(rendered(yaml, description) =~= loader::fenced(yaml_text(yaml), description.push('\n')));
}

/// Of two parameters with one name the later counts; the others are as they are.
proof fn last_parameter_counts(ps: Seq<ParameterDescriptorView>, at: int)
    requires
        0 <= at < ps.len(),
        forall|j: int| at < j < ps.len() ==> (#[trigger] ps[j]).name != ps[at].name,
    ensures
        parameters_by_name(ps).dom().contains(ps[at].name),
        parameters_by_name(ps)[ps[at].name] == (FmParameter { type_: ps[at].type_, required: ps[at].required }),
    decreases ps.len(),
{
    if at < ps.len() - 1 {
        assert(ps[ps.len() - 1].name != ps[at].name);
        last_parameter_counts(ps.drop_last(), at);
    }
}

/// A file that was written is read back: its front matter is the YAML that was written, its prose
/// is the description without the white space around it, and it defines a workflow with the id, the
/// name and the parameters that the request asked for. `matter` and `prose` are what `parse_file`
/// finds in the file; the YAML is read as what it was written from. Only a carriage return with a
/// line feed behind it, in the middle of the description, would be lost.
pub proof fn written_files_load(
    req: CreateRequestView,
    program: Seq<char>,
    yaml: Seq<char>,
    path: Seq<char>,
    matter: Seq<char>,
    prose: Seq<char>,
)
    requires
        request_error(req) is None,
        loader::is_plain(yaml_text(yaml)),
        !loader::has_crlf(text::trimmed(req.description)),
        loader::split_file(loader::front_matter(rendered(yaml, req.description)), path) == Ok::<
            (Seq<char>, Seq<char>),
            crate::error::LoadErrorView,
        >((matter, prose)),
        loader::parts_are_those_fenced(rendered(yaml, req.description), matter, prose),
    ensures
        text::trimmed(matter) == text::trimmed(yaml_text(yaml)),
        prose == text::trimmed(req.description),
        ({
            let d = loader::definition_of(as_read(frontmatter_of(req, program)), prose, path);
            &&& d is Ok
            &&& d->Ok_0.id == req.id
            &&& d->Ok_0.name == req.name
            &&& d->Ok_0.description == text::trimmed(req.description)
            &&& d->Ok_0.source_path == path
            &&& forall|i: int|
                0 <= i < req.parameters.len() && (forall|j: int|
                    i < j < req.parameters.len() ==> (#[trigger] req.parameters[j]).name != req.parameters[i].name)
                    ==> d->Ok_0.parameters.dom().contains((#[trigger] req.parameters[i]).name)
                    && d->Ok_0.parameters[req.parameters[i].name].type_ == req.parameters[i].type_
                    && d->Ok_0.parameters[req.parameters[i].name].required == req.parameters[i].required
            &&& d->Ok_0.parameters.dom() == parameters_by_name(req.parameters).dom()
            &&& match req.agent {
                Some(_) => d->Ok_0.service.handler == agent_handler(program) && d->Ok_0.service.mode
                    == ServiceMode::Async && d->Ok_0.service.command is None,
                None => d->Ok_0.service.handler == "action.immediate"@ && d->Ok_0.service.mode == ServiceMode::Sync
                    && d->Ok_0.service.agent is None && (d->Ok_0.service.command is Some <==> req.script is Some),
            }
        }),
{
    let rest = req.description.push('\n');
    rendered_is_fenced(yaml, req.description);
    assert(rendered(yaml, req.description) == loader::fenced(yaml_text(yaml), rest));
    text::trimmed_of_more(req.description, '\n');
    let parsed = loader::front_matter(rendered(yaml, req.description));
    text::trimming_is_done_once(parsed->Ok_0.1);
    written_definitions_load(req, program, prose, path);
    let d = loader::definition_of(as_read(frontmatter_of(req, program)), prose, path);
    assert forall|i: int|
        0 <= i < req.parameters.len() && (forall|j: int|
            i < j < req.parameters.len() ==> (#[trigger] req.parameters[j]).name != req.parameters[i].name) implies
        d->Ok_0.parameters.dom().contains((#[trigger] req.parameters[i]).name)
        && d->Ok_0.parameters[req.parameters[i].name].type_ == req.parameters[i].type_
        && d->Ok_0.parameters[req.parameters[i].name].required == req.parameters[i].required by {
        last_parameter_counts(req.parameters, i);
    }
}

/// Removing a workflow that was written, and has been loaded, removes what was written for it and
/// nothing else: the definition, and the script where there is one.
pub proof fn removal_undoes_creation(
    dir: Seq<char>,
    req: CreateRequestView,
    program: Seq<char>,
    description: Seq<char>,
    before: FactsView,
    definition_exists: bool,
    script_exists: bool,
)
    requires
        request_error(req) is None,
    ensures
        ({
            let path = written_path(dir, req, before.loaded_from);
            let loaded = loader::definition_of(as_read(frontmatter_of(req, program)), description, path)->Ok_0;
            let removal = removal_of(dir, req.id, Some(loaded), definition_exists, script_exists);
            &&& removal matches Some((file, script)) && file == path && match req.script {
                Some(_) => script is Some && paths::components(script->0) == paths::components(
                    written_script(dir, req, before.loaded_from),
                ),
                None => script is None,
            }
        }),
{
    let path = written_path(dir, req, before.loaded_from);
    written_definitions_load(req, program, description, path);
    if req.script is Some {
        written_commands_lead_to_the_script(dir, req, before.loaded_from, program);
    }
}

// ---------------------------------------------------------------------------
// What requests are for

/// An id passes exactly where it has 1 to 64 characters, each a small letter, a digit, an underscore
/// or a hyphen, and the first of them a letter or a digit.
pub proof fn ids_that_pass(id: Seq<char>)
    ensures
        id_error(id) is None <==> {
            &&& 1 <= id.len() <= 64
            &&& forall|i: int|
                0 <= i < id.len() ==> {
                    let c = #[trigger] id[i] as int;
                    97 <= c <= 122 || 48 <= c <= 57 || c == 95 || c == 45
                }
            &&& 97 <= id[0] as int <= 122 || 48 <= id[0] as int <= 57
        },
        id_error(id) matches Some(e) ==> (e matches CreateErrorView::InvalidId { id: named, .. } && named == id),
{
    if id_error(id) is None {
        assert forall|i: int| 0 <= i < id.len() implies {
            let c = #[trigger] id[i] as int;
            97 <= c <= 122 || 48 <= c <= 57 || c == 95 || c == 45
        } by {
            assert(id_char(id[i]));
        }
        assert(id_char(id[0]));
    }
    if exists|i: int| 0 <= i < id.len() && !id_char(#[trigger] id[i]) {
        let i = choose|i: int| 0 <= i < id.len() && !id_char(#[trigger] id[i]);
        let c = id[i] as int;
        assert(!(97 <= c <= 122 || 48 <= c <= 57 || c == 95 || c == 45));
    }
}

/// A request passes, whatever is on disk, exactly where its id does, where its name is not blank and
/// has at most 200 characters, where its description and its script have at most a mebibyte of UTF-8
/// each, where it brings no script beside an agent, and where the agent has at most 50 files, each
/// with 1 to 512 characters and without a NUL.
pub proof fn requests_that_pass(req: CreateRequestView)
    ensures
        request_error(req) is None <==> {
            &&& id_error(req.id) is None
            &&& text::trimmed(req.name).len() > 0
            &&& req.name.len() <= 200
            &&& vstd::utf8::encode_utf8(req.description).len() <= 0x10_0000
            &&& req.script matches Some(s) ==> vstd::utf8::encode_utf8(s).len() <= 0x10_0000
            &&& !(req.script is Some && req.agent is Some)
            &&& req.agent matches Some(a) ==> a.files.len() <= 50 && forall|i: int|
                0 <= i < a.files.len() ==> 1 <= (#[trigger] a.files[i]).len() <= 512 && !a.files[i].contains('\0')
        },
        req.script is Some && req.agent is Some ==> request_error(req) is Some,
{
    text::trimmed_of_blank(req.name);
    if let Some(a) = req.agent {
        entries_are_checked(a.files, 0);
    }
}

proof fn entries_are_checked(files: Seq<Seq<char>>, from: int)
    requires
        0 <= from <= files.len(),
    ensures
        entries_error(files, from) is None <==> forall|i: int|
            from <= i < files.len() ==> 1 <= (#[trigger] files[i]).len() <= 512 && !files[i].contains('\0'),
    decreases files.len() - from,
{
    if from < files.len() {
        entries_are_checked(files, from + 1);
    }
}

/// A new workflow is refused where a workflow with its id is loaded, where a file is named after it, or
/// where it brings a script and one is there. An edit is refused where neither a workflow is loaded nor
/// a file there. Nothing else on disk is a reason.
pub proof fn what_is_on_disk_decides(dir: Seq<char>, req: CreateRequestView, facts: FactsView)
    ensures
        req.mode == WorkflowWriteMode::Create ==> (disk_error(dir, req, facts) is None <==> facts.loaded_from is None
            && !facts.definition_exists && !(req.script is Some && facts.script_exists)),
        req.mode == WorkflowWriteMode::Edit ==> (disk_error(dir, req, facts) is None <==> facts.loaded_from is Some
            || facts.definition_exists),
        disk_error(dir, req, facts) matches Some(e) ==> {
            &&& req.mode == WorkflowWriteMode::Create ==> (e matches CreateErrorView::AlreadyExists { id, path } && id
                == req.id && path == if facts.loaded_from is Some || facts.definition_exists {
                paths::joined(dir, req.id + ".md"@)
            } else {
                paths::joined(paths::joined(dir, "scripts"@), req.id + ".sh"@)
            })
            &&& req.mode == WorkflowWriteMode::Edit ==> (e matches CreateErrorView::NotFound { id, path } && id == req.id
                && path == paths::joined(dir, req.id + ".md"@))
        },
{
}

/// A new workflow is written into the directory under its id. An edit is written into the file that
/// the workflow was loaded from, and under its id where it could not be loaded.
pub proof fn definitions_are_written_where_they_belong(
    dir: Seq<char>,
    req: CreateRequestView,
    loaded_from: Option<Seq<char>>,
)
    ensures
        req.mode == WorkflowWriteMode::Create ==> written_path(dir, req, loaded_from) == paths::joined(
            dir,
            req.id + ".md"@,
        ) && written_dir(dir, req, loaded_from) == dir,
        req.mode == WorkflowWriteMode::Edit && loaded_from is None ==> written_path(dir, req, loaded_from)
            == paths::joined(dir, req.id + ".md"@) && written_dir(dir, req, loaded_from) == dir,
        req.mode == WorkflowWriteMode::Edit && loaded_from is Some ==> written_path(dir, req, loaded_from)
            == loaded_from->0 && (paths::parent(loaded_from->0) is Some ==> written_dir(dir, req, loaded_from)
            == paths::parent(loaded_from->0)->0),
        written_script(dir, req, loaded_from) == paths::joined(
            paths::joined(written_dir(dir, req, loaded_from), "scripts"@),
            req.id + ".sh"@,
        ),
{
}

/// The last thing that is done for a request is to write the definition. A script is written just as
/// it came and made executable just before that, into a directory that is made where it is not there;
/// the workflows directory is made first of all, and only for a new workflow. Nothing else is done.
pub proof fn requests_are_carried_out_in_order(dir: Seq<char>, req: CreateRequestView, facts: FactsView)
    ensures
        ({
            let steps = steps_for(dir, req, facts);
            let n = steps.len() as int;
            let scripts = paths::joined(written_dir(dir, req, facts.loaded_from), "scripts"@);
            let script = paths::joined(scripts, req.id + ".sh"@);
            let makes_dir = req.mode == WorkflowWriteMode::Create && !facts.dir_exists;
            let makes_scripts = req.script is Some && !facts.scripts_dir_exists;
            &&& n == 1 + (if req.script is Some { 2int } else { 0int }) + (if makes_scripts { 1int } else { 0int }) + (
            if makes_dir { 1int } else { 0int })
            &&& steps[n - 1] == (WriteStepView::WriteDefinition { path: written_path(dir, req, facts.loaded_from) })
            &&& req.script matches Some(content) ==> steps[n - 3] == (WriteStepView::WriteScript { path: script, content })
                && steps[n - 2] == (WriteStepView::MakeExecutable { path: script })
            &&& makes_scripts ==> steps[n - 4] == (WriteStepView::MakeDir { path: scripts })
            &&& makes_dir ==> steps[0] == (WriteStepView::MakeDir { path: dir })
        }),
{
}

/// The definition of a request with an agent says `agent`, runs by the handler of the program, in the
/// background, and carries the agent as it was asked for; that of any other request says `action`, has
/// the handler that runs commands, and the script, where there is one, as its command. Each has the id
/// and the name of the request, and a parameter as the last one of its name asks.
pub proof fn definitions_say_what_was_asked_for(
    req: CreateRequestView,
    program: Seq<char>,
    i: int,
    k: Seq<char>,
)
    ensures
        ({
            let fm = frontmatter_of(req, program);
            &&& fm.id == req.id
            &&& fm.name == req.name
            &&& req.agent is Some ==> {
                &&& fm.service.type_ == "agent"@
                &&& fm.service.handler == "agent."@ + program
                &&& fm.service.mode == Some(ServiceMode::Async)
                &&& fm.service.command is None
                &&& fm.service.agent == req.agent
            }
            &&& req.agent is None ==> {
                &&& fm.service.type_ == "action"@
                &&& fm.service.handler == "action.immediate"@
                &&& fm.service.mode is None
                &&& fm.service.agent is None
                &&& fm.service.command is Some <==> req.script is Some
                &&& req.script is Some ==> fm.service.command->0 == "scripts"@ + "/"@ + req.id + ".sh"@
            }
            &&& 0 <= i < req.parameters.len() && (forall|j: int|
                i < j < req.parameters.len() ==> (#[trigger] req.parameters[j]).name != req.parameters[i].name)
                ==> fm.parameters.dom().contains(req.parameters[i].name) && fm.parameters[req.parameters[i].name].type_
                == req.parameters[i].type_ && fm.parameters[req.parameters[i].name].required
                == req.parameters[i].required
            &&& fm.parameters.dom().contains(k) ==> exists|j: int|
                0 <= j < req.parameters.len() && (#[trigger] req.parameters[j]).name == k
        }),
{
    let ps = req.parameters;
    if 0 <= i < ps.len() && (forall|j: int| i < j < ps.len() ==> (#[trigger] ps[j]).name != ps[i].name) {
        last_parameter_counts(ps, i);
    }
    if parameters_by_name(ps).dom().contains(k) {
        named_parameters_were_asked_for(ps, k);
    }
}

proof fn named_parameters_were_asked_for(ps: Seq<ParameterDescriptorView>, k: Seq<char>)
    requires
        parameters_by_name(ps).dom().contains(k),
    ensures
        exists|j: int| 0 <= j < ps.len() && (#[trigger] ps[j]).name == k,
    decreases ps.len(),
{
    if ps.len() > 0 {
        if ps.last().name == k {
            assert(ps[ps.len() - 1].name == k);
        } else {
            named_parameters_were_asked_for(ps.drop_last(), k);
            let j = choose|j: int| 0 <= j < ps.drop_last().len() && (#[trigger] ps.drop_last()[j]).name == k;
            assert(ps[j].name == k);
        }
    }
}

/// What is loaded back for a request with an agent is of the type `agent` and has to be confirmed
/// before it runs, whatever the program is called; what is loaded back for any other is an action that
/// runs freely. Neither has arguments, an intent or triggers that nobody asked for.
pub proof fn written_agents_have_to_be_confirmed(
    req: CreateRequestView,
    program: Seq<char>,
    description: Seq<char>,
    path: Seq<char>,
)
    requires
        request_error(req) is None,
    ensures
        ({
            let d = loader::definition_of(as_read(frontmatter_of(req, program)), description, path)->Ok_0;
            &&& req.agent is Some ==> d.service.type_ == Some("agent"@) && crate::router::confirm_tier::tier_of(d.service)
                == crate::router::confirm_tier::ConfirmTier::ConfirmRequired
            &&& req.agent is None ==> d.service.type_ == Some("action"@) && crate::router::confirm_tier::tier_of(
                d.service,
            ) == crate::router::confirm_tier::ConfirmTier::RouteFreely
            &&& d.service.args.len() == 0
            &&& d.intent.len() == 0
            &&& d.triggers.len() == 0
        }),
{
    written_definitions_load(req, program, description, path);
    let d = loader::definition_of(as_read(frontmatter_of(req, program)), description, path)->Ok_0;
    if req.agent is Some {
        crate::router::confirm_tier::agents_are_confirmed(d.service);
    } else {
        crate::router::confirm_tier::plain_actions_run_freely(d.service);
    }
}

/// A file is a line of dashes, the YAML that was given, another line of dashes and the description. A
/// line of dashes that the YAML starts with is not repeated, and one line break is added where the YAML
/// ends without.
pub proof fn files_hold_yaml_and_description(yaml: Seq<char>, description: Seq<char>)
    ensures
        yaml.len() > 0 && yaml.last() != '\n' && !text::has_prefix(yaml.push('\n'), "---\n"@) ==> {
            &&& rendered(yaml, description) == "---\n"@ + yaml + "\n---\n"@ + description + "\n"@
            &&& rendered(yaml.push('\n'), description) == rendered(yaml, description)
            &&& rendered("---\n"@ + yaml, description) == rendered(yaml, description)
        },
{
    reveal_strlit("---\n");
    reveal_strlit("\n---\n");
    reveal_strlit("\n");
    let more = yaml.push('\n');
    if yaml.len() > 0 && yaml.last() != '\n' && !text::has_prefix(more, "---\n"@) {
        assert("\n---\n"@ =~= seq!['\n'] + "---\n"@);
        if text::has_prefix(yaml, "---\n"@) {
            assert(more.take(4) =~= yaml.take(4));
        }
        assert(rendered(yaml, description) =~= "---\n"@ + yaml + "\n---\n"@ + description + "\n"@);
        assert(rendered(more, description) =~= rendered(yaml, description));
        let led = "---\n"@ + yaml;
        assert(led.take(4) =~= "---\n"@);
        assert(led.skip(4) =~= yaml);
        assert(rendered(led, description) =~= rendered(yaml, description));
    }
}

/// A workflow that is loaded is removed from the file that it says it comes from, with the command that
/// it names; one that is not loaded by the paths that its id stands for, with the script where it is
/// there. Where there is neither, or where the id could not be one, nothing is removed.
pub proof fn removals_are_of_what_there_is(
    dir: Seq<char>,
    id: Seq<char>,
    loaded: Option<WorkflowDefinitionView>,
    definition_exists: bool,
    script_exists: bool,
    m: Map<Seq<char>, WorkflowDefinitionView>,
)
    ensures
        ({
            let r = removal_of(dir, id, loaded, definition_exists, script_exists);
            &&& id_error(id) is Some ==> r is None
            &&& id_error(id) is None ==> {
                &&& loaded matches Some(d) ==> r == Some((d.source_path, d.service.command))
                &&& loaded is None && !definition_exists ==> r is None
                &&& loaded is None && definition_exists && script_exists ==> r == Some(
                    (
                        paths::joined(dir, id + ".md"@),
                        Some(paths::joined(paths::joined(dir, "scripts"@), id + ".sh"@)),
                    ),
                )
                &&& loaded is None && definition_exists && !script_exists ==> r == Some(
                    (paths::joined(dir, id + ".md"@), None::<Seq<char>>),
                )
            }
        }),
        m.dom().contains(id) ==> registered(m, id) == Some(m[id]),
        !m.dom().contains(id) ==> registered(m, id) is None,
{
}

/// A removal goes ahead exactly where every path of it is there, and each that leads somewhere leads
/// into the workflows directory. Then the definition goes first, and the script where there is one.
pub proof fn removals_stay_within(
    dir: Seq<char>,
    definition: Seq<char>,
    at_definition: Resolution,
    script: Option<Seq<char>>,
    at_script: Resolution,
)
    ensures
        removal_error(dir, definition, at_definition, script, at_script) is None <==> leads_within(at_definition) && (
        script is Some ==> leads_within(at_script)),
        script matches Some(s) ==> removed_files(definition, script) == seq![definition, s],
        script is None ==> removed_files(definition, script) == seq![definition],
{
}

/// There is something at the path, and where it leads somewhere, it leads into the directory.
pub open spec fn leads_within(res: Resolution) -> bool {
    match res {
        Resolution::Missing { .. } => false,
        Resolution::Dangling => true,
        Resolution::Resolved { dir, candidate } => dir is Ok && candidate is Ok && paths::is_within(
            candidate->Ok_0@,
            dir->Ok_0@,
        ),
    }
}

/// What lies outside is refused by its path, and what cannot be followed by the words for that.
pub proof fn what_leads_out_is_refused(dir: Seq<char>, candidate: Seq<char>, d: String, c: String, e: String)
    ensures
        !paths::is_within(c@, d@) ==> containment_error(
            dir,
            candidate,
            Resolution::Resolved { dir: Ok(d), candidate: Ok(c) },
        ) == Some(DeleteErrorView::PathEscape { path: candidate, reason: "outside workflows dir "@ + d@ }),
        paths::is_within(c@, d@) ==> containment_error(
            dir,
            candidate,
            Resolution::Resolved { dir: Ok(d), candidate: Ok(c) },
        ) is None,
        containment_error(dir, candidate, Resolution::Resolved { dir: Err(e), candidate: Ok(c) }) == Some(
            DeleteErrorView::Io { path: dir, detail: e@ },
        ),
        containment_error(dir, candidate, Resolution::Resolved { dir: Ok(d), candidate: Err(e) }) == Some(
            DeleteErrorView::Io { path: candidate, detail: e@ },
        ),
        containment_error(dir, candidate, Resolution::Dangling) is None,
        containment_error(dir, candidate, Resolution::Missing { detail: e }) is None,
{
}

/// Two requests that look the same are the same in every field, and so are two front matters that are
/// to be written.
pub proof fn requests_are_seen_whole(a: CreateWorkflowRequest, b: CreateWorkflowRequest, x: Frontmatter, y: Frontmatter)
    ensures
        a@ == b@ ==> {
            &&& a.id@ == b.id@
            &&& a.name@ == b.name@
            &&& a.description@ == b.description@
            &&& definition::same_optional(a.script, b.script)
            &&& a.mode == b.mode
            &&& a.parameters@.len() == b.parameters@.len()
            &&& forall|i: int|
                0 <= i < a.parameters@.len() ==> (#[trigger] a.parameters@[i]).name@ == b.parameters@[i].name@
                    && a.parameters@[i].type_ == b.parameters@[i].type_ && a.parameters@[i].required
                    == b.parameters@[i].required
            &&& a.agent is Some <==> b.agent is Some
            &&& a.agent is Some ==> a.agent->0.files@.len() == b.agent->0.files@.len() && (forall|i: int|
                0 <= i < a.agent->0.files@.len() ==> (#[trigger] a.agent->0.files@[i])@ == b.agent->0.files@[i]@)
                && a.agent->0.timeout_secs == b.agent->0.timeout_secs
        },
        x@ == y@ ==> {
            &&& x.id@ == y.id@
            &&& x.name@ == y.name@
            &&& x.parameters@ == y.parameters@
            &&& x.service.type_@ == y.service.type_@
            &&& x.service.handler@ == y.service.handler@
            &&& x.service.mode == y.service.mode
            &&& definition::same_optional(x.service.command, y.service.command)
            &&& x.service.agent is Some <==> y.service.agent is Some
            &&& x.service.agent is Some ==> x.service.agent->0.files@.len() == y.service.agent->0.files@.len() && (forall|
                i: int,
            |
                0 <= i < x.service.agent->0.files@.len() ==> (#[trigger] x.service.agent->0.files@[i])@
                    == y.service.agent->0.files@[i]@) && x.service.agent->0.timeout_secs == y.service.agent->0.timeout_secs
        },
{
    if a@ == b@ {
        let (p, q) = (descriptors_view(a.parameters@), descriptors_view(b.parameters@));
        assert(p == q);
        assert(p.len() == a.parameters@.len() && q.len() == b.parameters@.len());
        assert forall|i: int| 0 <= i < a.parameters@.len() implies (#[trigger] a.parameters@[i]).name@
            == b.parameters@[i].name@ && a.parameters@[i].type_ == b.parameters@[i].type_ && a.parameters@[i].required
            == b.parameters@[i].required by {
            assert(p[i] == q[i]);
        }
        if a.agent is Some {
            assert(a@.agent->0.files == b@.agent->0.files);
            text::texts_are_seen_whole(a.agent->0.files@, b.agent->0.files@);
            assert(a@.agent->0.timeout_secs == b@.agent->0.timeout_secs);
        }
    }
    if x@ == y@ && x.service.agent is Some {
        assert(x@.service.agent->0.files == y@.service.agent->0.files);
        text::texts_are_seen_whole(x.service.agent->0.files@, y.service.agent->0.files@);
        assert(x@.service.agent->0.timeout_secs == y@.service.agent->0.timeout_secs);
    }
}

/// A request is carried out exactly where nothing is wrong with it and what is on disk allows it. What
/// is then done, how it is undone and what is written follow from the request.
pub proof fn requests_are_planned_as_asked(
    dir: &str,
    req: CreateWorkflowRequest,
    program: &str,
    facts: DiskFacts,
    r: Result<WritePlan, CreateError>,
    c: Result<(), CreateError>,
)
    requires
        call_ensures(create_workflow, (dir, &req, program, &facts), r),
        call_ensures(check_request, (&req,), c),
    ensures
        c is Ok <==> request_error(req@) is None,
        r is Ok <==> c is Ok && disk_error(dir@, req@, facts@) is None,
        c matches Err(e) ==> (r matches Err(f) && f@ == e@ && request_error(req@) == Some(e@)),
        c is Ok && r is Err ==> disk_error(dir@, req@, facts@) == Some(r->Err_0@),
        r matches Ok(plan) ==> {
            let f = plan.frontmatter@;
            &&& steps_view(plan.steps@) == steps_for(dir@, req@, facts@)
            &&& undo_view(plan.undo@) == undo_for(dir@, req@, facts@)
            &&& plan.outcome.workflow_path@ == written_path(dir@, req@, facts@.loaded_from)
            &&& plan.outcome.script_path is Some <==> req.script is Some
            &&& req.script is Some ==> plan.outcome.script_path->0@ == written_script(dir@, req@, facts@.loaded_from)
            &&& f == frontmatter_of(req@, program@)
        },
{
}

/// What is checked of a request is checked as was said, piece by piece.
pub proof fn pieces_are_checked(
    id: &str,
    a: Result<(), CreateError>,
    name: &str,
    b: Result<(), CreateError>,
    content: &str,
    max: usize,
    c: Result<(), CreateError>,
    files: Vec<String>,
    d: Result<(), CreateError>,
    i: int,
)
    requires
        call_ensures(validate_id, (id,), a),
        call_ensures(validate_name, (name,), b),
        call_ensures(validate_content_len, (content, max), c),
        call_ensures(validate_agent_files, (&files,), d),
    ensures
        a is Ok <==> id_error(id@) is None,
        b is Ok <==> text::trimmed(name@).len() > 0 && name@.len() <= 200,
        c is Ok <==> vstd::utf8::encode_utf8(content@).len() <= max,
        d is Ok && 0 <= i < files@.len() ==> files@.len() <= 50 && 1 <= files@[i]@.len() <= 512 && !files@[i]@.contains(
            '\0',
        ),
        d is Err ==> (d->Err_0 matches CreateError::InvalidAgentFile { .. }),
{
    text::trimmed_of_blank(name@);
    let fs = text::texts(files@);
    assert(fs.len() == files@.len());
    entries_are_checked(fs, 0);
    if d is Ok && 0 <= i < files@.len() {
        assert(fs[i] == files@[i]@);
    }
    if d is Err {
        entry_errors_are_of_one_kind(fs, 0);
        assert(d->Err_0@ is InvalidAgentFile);
    }
}

proof fn entry_errors_are_of_one_kind(files: Seq<Seq<char>>, from: int)
    ensures
        entries_error(files, from) is Some ==> entries_error(files, from)->0 is InvalidAgentFile,
    decreases files.len() - from,
{
    if 0 <= from < files.len() {
        entry_errors_are_of_one_kind(files, from + 1);
    }
}

/// A removal is of what is there, stays within the directory, and is undone file by file.
pub proof fn removals_are_planned_as_asked(
    dir: &str,
    id: &str,
    registry: Registry,
    definition_exists: bool,
    script_exists: bool,
    r: Result<DeleteOutcome, DeleteError>,
    found: DeleteOutcome,
    at_definition: Resolution,
    at_script: Resolution,
    s: Result<Removal, DeleteError>,
    candidate: &str,
    c: Result<(), DeleteError>,
)
    requires
        call_ensures(delete_workflow, (dir, id, &registry, definition_exists, script_exists), r),
        call_ensures(removal_steps, (dir, &found, &at_definition, &at_script), s),
        call_ensures(assert_contained, (dir, candidate, &at_definition), c),
    ensures
        ({
            let w = if registry@.dom().contains(id@) { Some(registry@[id@]) } else { None };
            let wanted = removal_of(dir@, id@, w, definition_exists, script_exists);
            &&& r is Ok <==> wanted is Some
            &&& r matches Ok(o) ==> o.workflow_path@ == (wanted->0).0 && definition::optional_text(o.script_path) == (wanted->0).1
            &&& r matches Err(e) ==> (e matches DeleteError::NotFound { id: n } && n@ == id@)
        }),
        s matches Ok(removal) ==> text::texts(removal.files@) == removed_files(
            found.workflow_path@,
            definition::optional_text(found.script_path),
        ) && removal.outcome.workflow_path@ == found.workflow_path@ && definition::same_optional(
            removal.outcome.script_path,
            found.script_path,
        ),
        s is Ok <==> removal_error(
            dir@,
            found.workflow_path@,
            at_definition,
            definition::optional_text(found.script_path),
            at_script,
        ) is None,
        s matches Err(e) ==> removal_error(
            dir@,
            found.workflow_path@,
            at_definition,
            definition::optional_text(found.script_path),
            at_script,
        ) == Some(e@),
        c is Ok <==> containment_error(dir@, candidate@, at_definition) is None,
        c matches Err(e) ==> containment_error(dir@, candidate@, at_definition) == Some(e@),
{
    if let Err(e) = r {
        assert(e@ is NotFound);
    }
}

/// The paths of a workflow are its id in the directory, and what is written of it is its front matter
/// and its description.
pub proof fn files_are_written_by_id(
    dir: &str,
    id: &str,
    d: String,
    s: String,
    program: &str,
    h: String,
    yaml: Result<String, String>,
    description: &str,
    path: &str,
    t: Result<String, CreateError>,
)
    requires
        call_ensures(definition_path_of, (dir, id), d),
        call_ensures(script_path_of, (dir, id), s),
        call_ensures(agent_handler_key, (program,), h),
        call_ensures(render_file, (yaml, description, path), t),
    ensures
        d@ == paths::joined(dir@, id@ + ".md"@),
        s@ == paths::joined(paths::joined(dir@, "scripts"@), id@ + ".sh"@),
        h@ == agent_handler(program@),
        t is Ok <==> yaml is Ok,
        t is Ok ==> t->Ok_0@ == rendered(yaml->Ok_0@, description@),
        t is Err ==> (t->Err_0@ matches CreateErrorView::Io { path: p, detail } && p == path@ && detail
            == "failed to serialize frontmatter: "@ + yaml->Err_0@),
{
}

/// What was begun of a plan is undone from the last step to the first, and no more than was begun.
pub proof fn undoing_goes_backwards(plan: WritePlan, begun: usize, r: Vec<UndoStep>, removal: Removal, n: usize, s: Vec<UndoStep>, i: int)
    requires
        call_ensures(undo_steps, (&plan, begun), r),
        call_ensures(undo_removal, (&removal, n), s),
        begun <= plan.undo@.len(),
        n <= removal.files@.len(),
    ensures
        r@.len() == begun,
        0 <= i < begun ==> r@[i]@ == plan.undo@[begun - 1 - i]@,
        s@.len() == n,
        0 <= i < n ==> s@[i]@ == (UndoStepView::Restore { path: removal.files@[n - 1 - i]@ }),
{
    assert(undo_view(r@).len() == r@.len());
    assert(undo_view(plan.undo@).len() == plan.undo@.len());
    assert(undo_view(s@).len() == s@.len());
    let fs = text::texts(removal.files@);
    assert(fs.len() == removal.files@.len());
    if 0 <= i < begun {
        assert(undo_view(r@)[i] == r@[i]@);
        assert(undo_view(plan.undo@)[begun - 1 - i] == plan.undo@[begun - 1 - i]@);
    }
    if 0 <= i < n {
        assert(undo_view(s@)[i] == s@[i]@);
        assert(fs.take(n as int)[n - 1 - i] == removal.files@[n - 1 - i]@);
    }
}

/// What is wrong with a request is told in words: of the id first, then of the name, of the length of
/// what is to be written, of a script beside an agent, and of the agent's files at last.
pub proof fn refusals_say_what_is_wrong(req: CreateRequestView, id: Seq<char>, name: Seq<char>, content: Seq<char>, max: usize)
    ensures
        id.len() == 0 ==> id_error(id) == Some(CreateErrorView::InvalidId { id, reason: "must not be empty"@ }),
        id.len() > 64 ==> id_error(id) == Some(
            CreateErrorView::InvalidId { id, reason: "must be at most 64 characters"@ },
        ),
        1 <= id.len() <= 64 && (exists|i: int|
            0 <= i < id.len() && {
                let c = #[trigger] id[i] as int;
                !(97 <= c <= 122 || 48 <= c <= 57 || c == 95 || c == 45)
            }) ==> id_error(id) == Some(
            CreateErrorView::InvalidId { id, reason: "must contain only lowercase letters, digits, `_`, and `-`"@ },
        ),
        id_error(id) matches Some(CreateErrorView::InvalidId { reason, .. }) ==> (reason
            == "must start with an alphanumeric character"@ || id.len() == 0 || id.len() > 64 || exists|i: int|
            0 <= i < id.len() && {
                let c = #[trigger] id[i] as int;
                !(97 <= c <= 122 || 48 <= c <= 57 || c == 95 || c == 45)
            }),
        text::is_blank(name) ==> name_error(name) == Some(CreateErrorView::InvalidName { reason: "must not be empty"@ }),
        !text::is_blank(name) && name.len() > 200 ==> name_error(name) == Some(
            CreateErrorView::InvalidName { reason: "must be at most 200 characters"@ },
        ),
        !text::is_blank(name) && name.len() <= 200 ==> name_error(name) is None,
        vstd::utf8::encode_utf8(content).len() <= max <==> content_error(content, max) is None,
        content_error(content, max) matches Some(e) ==> (e matches CreateErrorView::ContentTooLarge { len, max: m } && m
            == max && len == vstd::utf8::encode_utf8(content).len() as usize),
        id_error(req.id) is Some ==> request_error(req) == id_error(req.id),
        id_error(req.id) is None && name_error(req.name) is Some ==> request_error(req) == name_error(req.name),
        id_error(req.id) is None && name_error(req.name) is None ==> {
            let d = content_error(req.description, 0x10_0000);
            let s = content_error(req.script->0, 0x10_0000);
            &&& d is Some ==> request_error(req) == d
            &&& d is None && req.script is Some && s is Some ==> request_error(req) == s
            &&& d is None && req.script is Some && s is None && req.agent is Some ==> request_error(req) == Some(
                CreateErrorView::ConflictingServiceBinding { id: req.id },
            )
            &&& d is None && req.script is None && req.agent is Some ==> request_error(req) == agent_files_error(
                req.agent->0.files,
            )
        },
{
    if 1 <= id.len() <= 64 && (exists|i: int|
        0 <= i < id.len() && {
            let c = #[trigger] id[i] as int;
            !(97 <= c <= 122 || 48 <= c <= 57 || c == 95 || c == 45)
        }) {
        let i = choose|i: int|
            0 <= i < id.len() && {
                let c = #[trigger] id[i] as int;
                !(97 <= c <= 122 || 48 <= c <= 57 || c == 95 || c == 45)
            };
        assert(!id_char(id[i]));
    }
    if exists|i: int| 0 <= i < id.len() && !id_char(#[trigger] id[i]) {
        let i = choose|i: int| 0 <= i < id.len() && !id_char(#[trigger] id[i]);
        let c = id[i] as int;
        assert(!(97 <= c <= 122 || 48 <= c <= 57 || c == 95 || c == 45));
    }
}

/// Of the agent's files the first bad entry is told of: that it is empty, that it holds a zero, or
/// that it is too long. That there are too many of them is told before.
pub proof fn bad_agent_files_are_told_of(files: Seq<Seq<char>>, at: int)
    requires
        0 <= at < files.len(),
        forall|j: int|
            0 <= j < at ==> 1 <= (#[trigger] files[j]).len() <= 512 && !files[j].contains('\0'),
    ensures
        files.len() > 50 ==> agent_files_error(files) == Some(
            CreateErrorView::InvalidAgentFile {
                reason: "agent.files declares "@ + text::decimal(files.len()) + " entries, exceeding the 50 limit"@,
            },
        ),
        files.len() <= 50 && files[at].len() == 0 ==> agent_files_error(files) == Some(
            CreateErrorView::InvalidAgentFile { reason: "agent.files entry must not be empty"@ },
        ),
        files.len() <= 50 && files[at].contains('\0') ==> agent_files_error(files) == Some(
            CreateErrorView::InvalidAgentFile { reason: "agent.files entry must not contain a NUL byte"@ },
        ),
        files.len() <= 50 && files[at].len() > 512 && !files[at].contains('\0') ==> agent_files_error(files) == Some(
            CreateErrorView::InvalidAgentFile { reason: "agent.files entry exceeds the 512 character limit"@ },
        ),
{
    good_entries_are_passed(files, 0, at);
}

proof fn good_entries_are_passed(files: Seq<Seq<char>>, from: int, at: int)
    requires
        0 <= from <= at < files.len(),
        forall|j: int|
            0 <= j < at ==> 1 <= (#[trigger] files[j]).len() <= 512 && !files[j].contains('\0'),
    ensures
        agent_file_error(files[at]) is Some ==> entries_error(files, from) == agent_file_error(files[at]),
    decreases at - from,
{
    if from < at {
        assert(1 <= files[from].len() <= 512 && !files[from].contains('\0'));
        good_entries_are_passed(files, from + 1, at);
    }
}

/// The handler of an agent goes by `agent.` and the name of the program.
pub proof fn agent_handlers_are_named(program: Seq<char>)
    ensures
        agent_handler(program) == "agent."@ + program,
{
}

/// What is seen of a step, of one that takes a step back, and of what is on disk is what it is.
pub proof fn steps_are_seen_as_they_are(w: WriteStep, u: UndoStep, f: DiskFacts)
    ensures
        match w {
            WriteStep::MakeDir { path } => w@ == (WriteStepView::MakeDir { path: path@ }),
            WriteStep::WriteScript { path, content } => w@ == (WriteStepView::WriteScript { path: path@, content: content@ }),
            WriteStep::MakeExecutable { path } => w@ == (WriteStepView::MakeExecutable { path: path@ }),
            WriteStep::WriteDefinition { path } => w@ == (WriteStepView::WriteDefinition { path: path@ }),
        },
        match u {
            UndoStep::Restore { path } => u@ == (UndoStepView::Restore { path: path@ }),
            UndoStep::RemoveFile { path } => u@ == (UndoStepView::RemoveFile { path: path@ }),
            UndoStep::RemoveDir { path } => u@ == (UndoStepView::RemoveDir { path: path@ }),
        },
        f@.loaded_from == definition::optional_text(f.loaded_from),
        f@.definition_exists == f.definition_exists,
        f@.script_exists == f.script_exists,
        f@.dir_exists == f.dir_exists,
        f@.scripts_dir_exists == f.scripts_dir_exists,
{
}

} // verus!
