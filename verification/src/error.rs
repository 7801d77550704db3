//! What can go wrong, and the words in which it is reported. Every error names the path, the
//! parameter, the handler or the value that it is about.

use vstd::prelude::*;

use crate::definition::ParameterType;
use crate::text;

verus! {

// ---------------------------------------------------------------------------
// Loading definitions

/// Why a workflow file was not loaded.
#[derive(Debug, PartialEq)]
pub enum LoadError {
    Io { path: String, detail: String },
    MissingField { path: String, field: String },
    NoFrontmatter { path: String },
    ParseError { path: String, detail: String },
    DuplicateId { path: String, id: String },
    UnknownParameterType { path: String, value: String },
    UnknownServiceMode { path: String, value: String },
    ConflictingServiceBinding { path: String },
}

pub enum LoadErrorView {
    Io { path: Seq<char>, detail: Seq<char> },
    MissingField { path: Seq<char>, field: Seq<char> },
    NoFrontmatter { path: Seq<char> },
    ParseError { path: Seq<char>, detail: Seq<char> },
    DuplicateId { path: Seq<char>, id: Seq<char> },
    UnknownParameterType { path: Seq<char>, value: Seq<char> },
    UnknownServiceMode { path: Seq<char>, value: Seq<char> },
    ConflictingServiceBinding { path: Seq<char> },
}

impl View for LoadError {
    type V = LoadErrorView;

    open spec fn view(&self) -> LoadErrorView {
        match *self {
            LoadError::Io { path, detail } => LoadErrorView::Io { path: path@, detail: detail@ },
            LoadError::MissingField { path, field } => LoadErrorView::MissingField { path: path@, field: field@ },
            LoadError::NoFrontmatter { path } => LoadErrorView::NoFrontmatter { path: path@ },
            LoadError::ParseError { path, detail } => LoadErrorView::ParseError { path: path@, detail: detail@ },
            LoadError::DuplicateId { path, id } => LoadErrorView::DuplicateId { path: path@, id: id@ },
            LoadError::UnknownParameterType { path, value } => LoadErrorView::UnknownParameterType {
                path: path@,
                value: value@,
            },
            LoadError::UnknownServiceMode { path, value } => LoadErrorView::UnknownServiceMode {
                path: path@,
                value: value@,
            },
            LoadError::ConflictingServiceBinding { path } => LoadErrorView::ConflictingServiceBinding { path: path@ },
        }
    }
}

impl LoadErrorView {
    /// The words of the error.
    pub open spec fn words(self) -> Seq<char> {
        match self {
            LoadErrorView::Io { path, detail } => path + ": IO error: "@ + detail,
            LoadErrorView::MissingField { path, field } => path + ": missing required field `"@ + field + "`"@,
            LoadErrorView::NoFrontmatter { path } => path + ": no YAML frontmatter found (expected --- delimiters)"@,
            LoadErrorView::ParseError { path, detail } => path + ": YAML parse error: "@ + detail,
            LoadErrorView::DuplicateId { path, id } => path + ": duplicate workflow id `"@ + id
                + "` (already loaded from another file)"@,
            LoadErrorView::UnknownParameterType { path, value } => path + ": unknown parameter type `"@ + value
                + "` (expected one of string, int, bool)"@,
            LoadErrorView::UnknownServiceMode { path, value } => path + ": unknown service.mode `"@ + value
                + "` (expected sync or async)"@,
            LoadErrorView::ConflictingServiceBinding { path } => path
                + ": workflow declares both `service.command` and `service.agent`; a workflow binds to exactly one"@,
        }
    }
}

/// The four texts one after the other.
pub fn words4(a: &str, b: &str, c: &str, d: &str) -> (r: String)
    ensures
        r@ == a@ + b@ + c@ + d@,
{
    let mut out = text::concat3(a, b, c);
    out.append(d);
    out
}

/// The five texts one after the other.
pub fn words5(a: &str, b: &str, c: &str, d: &str, e: &str) -> (r: String)
    ensures
        r@ == a@ + b@ + c@ + d@ + e@,
{
    let mut out = words4(a, b, c, d);
    out.append(e);
    out
}

impl LoadError {
    /// The error in words.
    pub fn message(&self) -> (r: String)
        ensures
            r@ == self@.words(),
    {
        match self {
            LoadError::Io { path, detail } => text::concat3(path, ": IO error: ", detail),
            LoadError::MissingField { path, field } => words4(path, ": missing required field `", field, "`"),
            LoadError::NoFrontmatter { path } => text::concat2(
                path,
                ": no YAML frontmatter found (expected --- delimiters)",
            ),
            LoadError::ParseError { path, detail } => text::concat3(path, ": YAML parse error: ", detail),
            LoadError::DuplicateId { path, id } => words4(
                path,
                ": duplicate workflow id `",
                id,
                "` (already loaded from another file)",
            ),
            LoadError::UnknownParameterType { path, value } => words4(
                path,
                ": unknown parameter type `",
                value,
                "` (expected one of string, int, bool)",
            ),
            LoadError::UnknownServiceMode { path, value } => words4(
                path,
                ": unknown service.mode `",
                value,
                "` (expected sync or async)",
            ),
            LoadError::ConflictingServiceBinding { path } => text::concat2(
                path,
                ": workflow declares both `service.command` and `service.agent`; a workflow binds to exactly one",
            ),
        }
    }
}

// ---------------------------------------------------------------------------
// Running an agent

/// Why an agent run failed.
#[derive(Debug, PartialEq)]
pub enum RuntimeError {
    Spawn { binary: String, detail: String },
    Envelope { detail: String },
    Io { path: String, detail: String },
    /// A declared file lies outside the workflow's directory, or its copy outside the run's.
    PathEscape { path: String, reason: String },
    /// A declared file could not be copied. Never passed over in silence.
    Staging { path: String, detail: String },
    /// The run went on for longer than it was allowed and was stopped.
    Timeout { seconds: u64 },
}

pub enum RuntimeErrorView {
    Spawn { binary: Seq<char>, detail: Seq<char> },
    Envelope { detail: Seq<char> },
    Io { path: Seq<char>, detail: Seq<char> },
    PathEscape { path: Seq<char>, reason: Seq<char> },
    Staging { path: Seq<char>, detail: Seq<char> },
    Timeout { seconds: u64 },
}

impl View for RuntimeError {
    type V = RuntimeErrorView;

    open spec fn view(&self) -> RuntimeErrorView {
        match *self {
            RuntimeError::Spawn { binary, detail } => RuntimeErrorView::Spawn { binary: binary@, detail: detail@ },
            RuntimeError::Envelope { detail } => RuntimeErrorView::Envelope { detail: detail@ },
            RuntimeError::Io { path, detail } => RuntimeErrorView::Io { path: path@, detail: detail@ },
            RuntimeError::PathEscape { path, reason } => RuntimeErrorView::PathEscape { path: path@, reason: reason@ },
            RuntimeError::Staging { path, detail } => RuntimeErrorView::Staging { path: path@, detail: detail@ },
            RuntimeError::Timeout { seconds } => RuntimeErrorView::Timeout { seconds },
        }
    }
}

impl RuntimeErrorView {
    /// The words of the error.
    pub open spec fn words(self) -> Seq<char> {
        match self {
            RuntimeErrorView::Spawn { binary, detail } => "failed to spawn `"@ + binary + "`: "@ + detail,
            RuntimeErrorView::Envelope { detail } => "invalid agent envelope: "@ + detail,
            RuntimeErrorView::Io { path, detail } => path + ": IO error: "@ + detail,
            RuntimeErrorView::PathEscape { path, reason } => path
                + ": staged dependency resolves outside its allowed directory ("@ + reason + ")"@,
            RuntimeErrorView::Staging { path, detail } => path + ": could not stage dependency: "@ + detail,
            RuntimeErrorView::Timeout { seconds } => "agent run exceeded its "@ + text::decimal(seconds as nat)
                + "s ceiling and was terminated"@,
        }
    }
}

impl RuntimeError {
    /// The error in words.
    pub fn message(&self) -> (r: String)
        ensures
            r@ == self@.words(),
    {
        match self {
            RuntimeError::Spawn { binary, detail } => words4("failed to spawn `", binary, "`: ", detail),
            RuntimeError::Envelope { detail } => text::concat2("invalid agent envelope: ", detail),
            RuntimeError::Io { path, detail } => text::concat3(path, ": IO error: ", detail),
            RuntimeError::PathEscape { path, reason } => words4(
                path,
                ": staged dependency resolves outside its allowed directory (",
                reason,
                ")",
            ),
            RuntimeError::Staging { path, detail } => text::concat3(path, ": could not stage dependency: ", detail),
            RuntimeError::Timeout { seconds } => text::concat3(
                "agent run exceeded its ",
                &text::decimal_u64(*seconds),
                "s ceiling and was terminated",
            ),
        }
    }
}

// ---------------------------------------------------------------------------
// Dispatching a request

/// Why a payload was refused.
#[derive(Debug, PartialEq)]
pub enum ValidationError {
    MissingRequired { param: String },
    WrongType { param: String, expected: ParameterType },
}

pub enum ValidationErrorView {
    MissingRequired { param: Seq<char> },
    WrongType { param: Seq<char>, expected: ParameterType },
}

impl View for ValidationError {
    type V = ValidationErrorView;

    open spec fn view(&self) -> ValidationErrorView {
        match *self {
            ValidationError::MissingRequired { param } => ValidationErrorView::MissingRequired { param: param@ },
            ValidationError::WrongType { param, expected } => ValidationErrorView::WrongType { param: param@, expected },
        }
    }
}

/// The name of a parameter type as it is written in messages.
pub open spec fn type_word(t: ParameterType) -> Seq<char> {
    match t {
        ParameterType::String => "String"@,
        ParameterType::Int => "Int"@,
        ParameterType::Bool => "Bool"@,
    }
}

impl ValidationErrorView {
    /// The words of the error.
    pub open spec fn words(self) -> Seq<char> {
        match self {
            ValidationErrorView::MissingRequired { param } => "missing required parameter `"@ + param + "`"@,
            ValidationErrorView::WrongType { param, expected } => "parameter `"@ + param
                + "` has the wrong type (expected "@ + type_word(expected) + ")"@,
        }
    }
}

impl ValidationError {
    /// The error in words.
    pub fn message(&self) -> (r: String)
        ensures
            r@ == self@.words(),
    {
        match self {
            ValidationError::MissingRequired { param } => text::concat3("missing required parameter `", param, "`"),
            ValidationError::WrongType { param, expected } => {
                let word = match expected {
                    ParameterType::String => "String",
                    ParameterType::Int => "Int",
                    ParameterType::Bool => "Bool",
                };
                words5("parameter `", param, "` has the wrong type (expected ", word, ")")
            },
        }
    }
}

/// Why a request did not reach a handler.
#[derive(Debug, PartialEq)]
pub enum DispatchError {
    HandlerNotFound { handler: String },
    Validation(ValidationError),
}

pub enum DispatchErrorView {
    HandlerNotFound { handler: Seq<char> },
    Validation(ValidationErrorView),
}

impl View for DispatchError {
    type V = DispatchErrorView;

    open spec fn view(&self) -> DispatchErrorView {
        match *self {
            DispatchError::HandlerNotFound { handler } => DispatchErrorView::HandlerNotFound { handler: handler@ },
            DispatchError::Validation(e) => DispatchErrorView::Validation(e@),
        }
    }
}

impl DispatchErrorView {
    /// The words of the error.
    pub open spec fn words(self) -> Seq<char> {
        match self {
            DispatchErrorView::HandlerNotFound { handler } => "no handler registered for `"@ + handler + "`"@,
            DispatchErrorView::Validation(e) => "payload validation failed: "@ + e.words(),
        }
    }
}

impl DispatchError {
    /// The error in words.
    pub fn message(&self) -> (r: String)
        ensures
            r@ == self@.words(),
    {
        match self {
            DispatchError::HandlerNotFound { handler } => text::concat3("no handler registered for `", handler, "`"),
            DispatchError::Validation(e) => text::concat2("payload validation failed: ", &e.message()),
        }
    }
}

// ---------------------------------------------------------------------------
// Writing and removing definitions

/// Why a workflow was not written. Nothing new is on disk then.
#[derive(Debug, PartialEq)]
pub enum CreateError {
    InvalidId { id: String, reason: String },
    InvalidName { reason: String },
    ContentTooLarge { len: usize, max: usize },
    AlreadyExists { id: String, path: String },
    NotFound { id: String, path: String },
    Io { path: String, detail: String },
    /// A script and an agent in one request.
    ConflictingServiceBinding { id: String },
    InvalidAgentFile { reason: String },
}

pub enum CreateErrorView {
    InvalidId { id: Seq<char>, reason: Seq<char> },
    InvalidName { reason: Seq<char> },
    ContentTooLarge { len: usize, max: usize },
    AlreadyExists { id: Seq<char>, path: Seq<char> },
    NotFound { id: Seq<char>, path: Seq<char> },
    Io { path: Seq<char>, detail: Seq<char> },
    ConflictingServiceBinding { id: Seq<char> },
    InvalidAgentFile { reason: Seq<char> },
}

impl View for CreateError {
    type V = CreateErrorView;

    open spec fn view(&self) -> CreateErrorView {
        match *self {
            CreateError::InvalidId { id, reason } => CreateErrorView::InvalidId { id: id@, reason: reason@ },
            CreateError::InvalidName { reason } => CreateErrorView::InvalidName { reason: reason@ },
            CreateError::ContentTooLarge { len, max } => CreateErrorView::ContentTooLarge { len, max },
            CreateError::AlreadyExists { id, path } => CreateErrorView::AlreadyExists { id: id@, path: path@ },
            CreateError::NotFound { id, path } => CreateErrorView::NotFound { id: id@, path: path@ },
            CreateError::Io { path, detail } => CreateErrorView::Io { path: path@, detail: detail@ },
            CreateError::ConflictingServiceBinding { id } => CreateErrorView::ConflictingServiceBinding { id: id@ },
            CreateError::InvalidAgentFile { reason } => CreateErrorView::InvalidAgentFile { reason: reason@ },
        }
    }
}

impl CreateErrorView {
    /// The words of the error.
    pub open spec fn words(self) -> Seq<char> {
        match self {
            CreateErrorView::InvalidId { id, reason } => "invalid workflow id `"@ + id + "`: "@ + reason,
            CreateErrorView::InvalidName { reason } => "invalid workflow name: "@ + reason,
            CreateErrorView::ContentTooLarge { len, max } => "content too large: "@ + text::decimal(len as nat)
                + " bytes exceeds the "@ + text::decimal(max as nat) + " byte limit"@,
            CreateErrorView::AlreadyExists { id, path } => "workflow `"@ + id + "` already exists at "@ + path,
            CreateErrorView::NotFound { id, path } => "workflow `"@ + id + "` not found at "@ + path
                + " (use `workflow create` to add a new definition)"@,
            CreateErrorView::Io { path, detail } => path + ": IO error: "@ + detail,
            CreateErrorView::ConflictingServiceBinding { id } => "workflow `"@ + id
                + "` declares both a script and an agent block; a workflow binds to exactly one handler shape"@,
            CreateErrorView::InvalidAgentFile { reason } => "invalid agent file entry: "@ + reason,
        }
    }
}

impl CreateError {
    /// The error in words.
    pub fn message(&self) -> (r: String)
        ensures
            r@ == self@.words(),
    {
        match self {
            CreateError::InvalidId { id, reason } => words4("invalid workflow id `", id, "`: ", reason),
            CreateError::InvalidName { reason } => text::concat2("invalid workflow name: ", reason),
            CreateError::ContentTooLarge { len, max } => words5(
                "content too large: ",
                &text::decimal_u64(*len as u64),
                " bytes exceeds the ",
                &text::decimal_u64(*max as u64),
                " byte limit",
            ),
            CreateError::AlreadyExists { id, path } => words4("workflow `", id, "` already exists at ", path),
            CreateError::NotFound { id, path } => words5(
                "workflow `",
                id,
                "` not found at ",
                path,
                " (use `workflow create` to add a new definition)",
            ),
            CreateError::Io { path, detail } => text::concat3(path, ": IO error: ", detail),
            CreateError::ConflictingServiceBinding { id } => text::concat3(
                "workflow `",
                id,
                "` declares both a script and an agent block; a workflow binds to exactly one handler shape",
            ),
            CreateError::InvalidAgentFile { reason } => text::concat2("invalid agent file entry: ", reason),
        }
    }
}

/// Why a workflow was not removed. Nothing is gone from disk then.
#[derive(Debug, PartialEq)]
pub enum DeleteError {
    NotFound { id: String },
    /// What would be removed lies outside the workflows directory.
    PathEscape { path: String, reason: String },
    Io { path: String, detail: String },
}

pub enum DeleteErrorView {
    NotFound { id: Seq<char> },
    PathEscape { path: Seq<char>, reason: Seq<char> },
    Io { path: Seq<char>, detail: Seq<char> },
}

impl View for DeleteError {
    type V = DeleteErrorView;

    open spec fn view(&self) -> DeleteErrorView {
        match *self {
            DeleteError::NotFound { id } => DeleteErrorView::NotFound { id: id@ },
            DeleteError::PathEscape { path, reason } => DeleteErrorView::PathEscape { path: path@, reason: reason@ },
            DeleteError::Io { path, detail } => DeleteErrorView::Io { path: path@, detail: detail@ },
        }
    }
}

impl DeleteErrorView {
    /// The words of the error.
    pub open spec fn words(self) -> Seq<char> {
        match self {
            DeleteErrorView::NotFound { id } => "workflow `"@ + id + "` not found"@,
            DeleteErrorView::PathEscape { path, reason } => path
                + ": staged removal candidate resolves outside its allowed directory ("@ + reason + ")"@,
            DeleteErrorView::Io { path, detail } => path + ": IO error: "@ + detail,
        }
    }
}

impl DeleteError {
    /// The error in words.
    pub fn message(&self) -> (r: String)
        ensures
            r@ == self@.words(),
    {
        match self {
            DeleteError::NotFound { id } => text::concat3("workflow `", id, "` not found"),
            DeleteError::PathEscape { path, reason } => words4(
                path,
                ": staged removal candidate resolves outside its allowed directory (",
                reason,
                ")",
            ),
            DeleteError::Io { path, detail } => text::concat3(path, ": IO error: ", detail),
        }
    }
}

// ---------------------------------------------------------------------------
// Talking to clients

/// Why a frame was not served. The connection goes on.
#[derive(Debug, PartialEq)]
pub enum ServerError {
    MalformedFrame { detail: String },
    UnexpectedFrameType { got: String },
    EmptyFrame,
}

pub enum ServerErrorView {
    MalformedFrame { detail: Seq<char> },
    UnexpectedFrameType { got: Seq<char> },
    EmptyFrame,
}

impl View for ServerError {
    type V = ServerErrorView;

    open spec fn view(&self) -> ServerErrorView {
        match *self {
            ServerError::MalformedFrame { detail } => ServerErrorView::MalformedFrame { detail: detail@ },
            ServerError::UnexpectedFrameType { got } => ServerErrorView::UnexpectedFrameType { got: got@ },
            ServerError::EmptyFrame => ServerErrorView::EmptyFrame,
        }
    }
}

impl ServerErrorView {
    /// The words of the error.
    pub open spec fn words(self) -> Seq<char> {
        match self {
            ServerErrorView::MalformedFrame { detail } => "malformed frame: "@ + detail,
            ServerErrorView::UnexpectedFrameType { got } => "unexpected frame type from client: "@ + got,
            ServerErrorView::EmptyFrame => "empty frame"@,
        }
    }
}

impl ServerError {
    /// The error in words.
    pub fn message(&self) -> (r: String)
        ensures
            r@ == self@.words(),
    {
        match self {
            ServerError::MalformedFrame { detail } => text::concat2("malformed frame: ", detail),
            ServerError::UnexpectedFrameType { got } => text::concat2("unexpected frame type from client: ", got),
            ServerError::EmptyFrame => "empty frame".to_owned(),
        }
    }
}

// ---------------------------------------------------------------------------
// Routing

/// Why an utterance could not be routed, or a parameter not be extracted.
#[derive(Debug, PartialEq)]
pub enum RouterError {
    OllamaUnreachable { base_url: String, detail: String },
    Timeout { endpoint: String, seconds: u64 },
    MalformedResponse { endpoint: String, detail: String },
    ModelNotFound { model: String, detail: String },
    ExtractionRejected { workflow_id: String, detail: String },
}

pub enum RouterErrorView {
    OllamaUnreachable { base_url: Seq<char>, detail: Seq<char> },
    Timeout { endpoint: Seq<char>, seconds: u64 },
    MalformedResponse { endpoint: Seq<char>, detail: Seq<char> },
    ModelNotFound { model: Seq<char>, detail: Seq<char> },
    ExtractionRejected { workflow_id: Seq<char>, detail: Seq<char> },
}

impl View for RouterError {
    type V = RouterErrorView;

    open spec fn view(&self) -> RouterErrorView {
        match *self {
            RouterError::OllamaUnreachable { base_url, detail } => RouterErrorView::OllamaUnreachable {
                base_url: base_url@,
                detail: detail@,
            },
            RouterError::Timeout { endpoint, seconds } => RouterErrorView::Timeout { endpoint: endpoint@, seconds },
            RouterError::MalformedResponse { endpoint, detail } => RouterErrorView::MalformedResponse {
                endpoint: endpoint@,
                detail: detail@,
            },
            RouterError::ModelNotFound { model, detail } => RouterErrorView::ModelNotFound {
                model: model@,
                detail: detail@,
            },
            RouterError::ExtractionRejected { workflow_id, detail } => RouterErrorView::ExtractionRejected {
                workflow_id: workflow_id@,
                detail: detail@,
            },
        }
    }
}

impl RouterErrorView {
    /// The words of the error.
    pub open spec fn words(self) -> Seq<char> {
        match self {
            RouterErrorView::OllamaUnreachable { base_url, detail } => "cannot reach Ollama at "@ + base_url + ": "@
                + detail,
            RouterErrorView::Timeout { endpoint, seconds } => endpoint + ": no answer within "@ + text::decimal(
                seconds as nat,
            ) + " seconds"@,
            RouterErrorView::MalformedResponse { endpoint, detail } => endpoint + ": malformed response: "@ + detail,
            RouterErrorView::ModelNotFound { model, detail } => "model `"@ + model + "` not found: "@ + detail,
            RouterErrorView::ExtractionRejected { workflow_id, detail } => "parameter extraction for workflow `"@
                + workflow_id + "` rejected: "@ + detail,
        }
    }
}

impl RouterError {
    /// The error in words.
    pub fn message(&self) -> (r: String)
        ensures
            r@ == self@.words(),
    {
        match self {
            RouterError::OllamaUnreachable { base_url, detail } => words4(
                "cannot reach Ollama at ",
                base_url,
                ": ",
                detail,
            ),
            RouterError::Timeout { endpoint, seconds } => words4(
                endpoint,
                ": no answer within ",
                &text::decimal_u64(*seconds),
                " seconds",
            ),
            RouterError::MalformedResponse { endpoint, detail } => text::concat3(
                endpoint,
                ": malformed response: ",
                detail,
            ),
            RouterError::ModelNotFound { model, detail } => words4("model `", model, "` not found: ", detail),
            RouterError::ExtractionRejected { workflow_id, detail } => words4(
                "parameter extraction for workflow `",
                workflow_id,
                "` rejected: ",
                detail,
            ),
        }
    }
}

// ---------------------------------------------------------------------------
// What holds of it all

/// Every reason why a file was not loaded names the file, and the field, the id or the value that is
/// wrong.
pub proof fn load_errors_name_the_file(e: LoadError, r: String)
    requires
        call_ensures(LoadError::message, (&e,), r),
    ensures
        match e {
            LoadError::Io { path, detail } => r@ == path@ + ": IO error: "@ + detail@,
            LoadError::MissingField { path, field } => r@ == path@ + ": missing required field `"@ + field@ + "`"@,
            LoadError::NoFrontmatter { path } => r@ == path@ + ": no YAML frontmatter found (expected --- delimiters)"@,
            LoadError::ParseError { path, detail } => r@ == path@ + ": YAML parse error: "@ + detail@,
            LoadError::DuplicateId { path, id } => r@ == path@ + ": duplicate workflow id `"@ + id@
                + "` (already loaded from another file)"@,
            LoadError::UnknownParameterType { path, value } => r@ == path@ + ": unknown parameter type `"@ + value@
                + "` (expected one of string, int, bool)"@,
            LoadError::UnknownServiceMode { path, value } => r@ == path@ + ": unknown service.mode `"@ + value@
                + "` (expected sync or async)"@,
            LoadError::ConflictingServiceBinding { path } => r@ == path@
                + ": workflow declares both `service.command` and `service.agent`; a workflow binds to exactly one"@,
        },
{
}

/// Every reason why an agent run failed names the program, the path or the time that it is about.
pub proof fn run_errors_name_their_cause(e: RuntimeError, r: String)
    requires
        call_ensures(RuntimeError::message, (&e,), r),
    ensures
        match e {
            RuntimeError::Spawn { binary, detail } => r@ == "failed to spawn `"@ + binary@ + "`: "@ + detail@,
            RuntimeError::Envelope { detail } => r@ == "invalid agent envelope: "@ + detail@,
            RuntimeError::Io { path, detail } => r@ == path@ + ": IO error: "@ + detail@,
            RuntimeError::PathEscape { path, reason } => r@ == path@
                + ": staged dependency resolves outside its allowed directory ("@ + reason@ + ")"@,
            RuntimeError::Staging { path, detail } => r@ == path@ + ": could not stage dependency: "@ + detail@,
            RuntimeError::Timeout { seconds } => r@ == "agent run exceeded its "@ + text::decimal(seconds as nat)
                + "s ceiling and was terminated"@,
        },
{
}

/// A payload is refused in words that name the parameter, and the type that it should have had.
pub proof fn refusals_name_the_parameter(e: ValidationError, r: String, h: String, m: String, n: String)
    requires
        call_ensures(ValidationError::message, (&e,), r),
        call_ensures(DispatchError::message, (&DispatchError::HandlerNotFound { handler: h },), m),
        call_ensures(DispatchError::message, (&DispatchError::Validation(e),), n),
    ensures
        match e {
            ValidationError::MissingRequired { param } => r@ == "missing required parameter `"@ + param@ + "`"@,
            ValidationError::WrongType { param, expected } => r@ == "parameter `"@ + param@
                + "` has the wrong type (expected "@ + (match expected {
                ParameterType::String => "String"@,
                ParameterType::Int => "Int"@,
                ParameterType::Bool => "Bool"@,
            }) + ")"@,
        },
        m@ == "no handler registered for `"@ + h@ + "`"@,
        n@ == "payload validation failed: "@ + r@,
{
}

/// Every reason why a workflow was not written or removed names the workflow, the path or what was
/// wrong with the request.
pub proof fn write_errors_name_their_cause(e: CreateError, r: String, d: DeleteError, s: String)
    requires
        call_ensures(CreateError::message, (&e,), r),
        call_ensures(DeleteError::message, (&d,), s),
    ensures
        match e {
            CreateError::InvalidId { id, reason } => r@ == "invalid workflow id `"@ + id@ + "`: "@ + reason@,
            CreateError::InvalidName { reason } => r@ == "invalid workflow name: "@ + reason@,
            CreateError::ContentTooLarge { len, max } => r@ == "content too large: "@ + text::decimal(len as nat)
                + " bytes exceeds the "@ + text::decimal(max as nat) + " byte limit"@,
            CreateError::AlreadyExists { id, path } => r@ == "workflow `"@ + id@ + "` already exists at "@ + path@,
            CreateError::NotFound { id, path } => r@ == "workflow `"@ + id@ + "` not found at "@ + path@
                + " (use `workflow create` to add a new definition)"@,
            CreateError::Io { path, detail } => r@ == path@ + ": IO error: "@ + detail@,
            CreateError::ConflictingServiceBinding { id } => r@ == "workflow `"@ + id@
                + "` declares both a script and an agent block; a workflow binds to exactly one handler shape"@,
            CreateError::InvalidAgentFile { reason } => r@ == "invalid agent file entry: "@ + reason@,
        },
        match d {
            DeleteError::NotFound { id } => s@ == "workflow `"@ + id@ + "` not found"@,
            DeleteError::PathEscape { path, reason } => s@ == path@
                + ": staged removal candidate resolves outside its allowed directory ("@ + reason@ + ")"@,
            DeleteError::Io { path, detail } => s@ == path@ + ": IO error: "@ + detail@,
        },
{
}

/// Every reason why a frame was not served or an utterance not routed names what was wrong with it.
pub proof fn frame_and_routing_errors_name_their_cause(e: ServerError, r: String, f: RouterError, s: String)
    requires
        call_ensures(ServerError::message, (&e,), r),
        call_ensures(RouterError::message, (&f,), s),
    ensures
        match e {
            ServerError::MalformedFrame { detail } => r@ == "malformed frame: "@ + detail@,
            ServerError::UnexpectedFrameType { got } => r@ == "unexpected frame type from client: "@ + got@,
            ServerError::EmptyFrame => r@ == "empty frame"@,
        },
        match f {
            RouterError::OllamaUnreachable { base_url, detail } => s@ == "cannot reach Ollama at "@ + base_url@ + ": "@
                + detail@,
            RouterError::Timeout { endpoint, seconds } => s@ == endpoint@ + ": no answer within "@ + text::decimal(
                seconds as nat,
            ) + " seconds"@,
            RouterError::MalformedResponse { endpoint, detail } => s@ == endpoint@ + ": malformed response: "@ + detail@,
            RouterError::ModelNotFound { model, detail } => s@ == "model `"@ + model@ + "` not found: "@ + detail@,
            RouterError::ExtractionRejected { workflow_id, detail } => s@ == "parameter extraction for workflow `"@
                + workflow_id@ + "` rejected: "@ + detail@,
        },
{
}

/// Two errors that look the same are of the same kind and about the same.
pub proof fn errors_are_seen_whole(
    a: LoadError,
    b: LoadError,
    c: RuntimeError,
    d: RuntimeError,
    e: CreateError,
    f: CreateError,
    g: DeleteError,
    h: DeleteError,
)
    ensures
        a@ == b@ ==> match (a, b) {
            (LoadError::Io { path: p, detail: x }, LoadError::Io { path: q, detail: y }) => p@ == q@ && x@ == y@,
            (LoadError::MissingField { path: p, field: x }, LoadError::MissingField { path: q, field: y }) => p@ == q@
                && x@ == y@,
            (LoadError::NoFrontmatter { path: p }, LoadError::NoFrontmatter { path: q }) => p@ == q@,
            (LoadError::ParseError { path: p, detail: x }, LoadError::ParseError { path: q, detail: y }) => p@ == q@
                && x@ == y@,
            (LoadError::DuplicateId { path: p, id: x }, LoadError::DuplicateId { path: q, id: y }) => p@ == q@ && x@
                == y@,
            (
                LoadError::UnknownParameterType { path: p, value: x },
                LoadError::UnknownParameterType { path: q, value: y },
            ) => p@ == q@ && x@ == y@,
            (
                LoadError::UnknownServiceMode { path: p, value: x },
                LoadError::UnknownServiceMode { path: q, value: y },
            ) => p@ == q@ && x@ == y@,
            (LoadError::ConflictingServiceBinding { path: p }, LoadError::ConflictingServiceBinding { path: q }) => p@
                == q@,
            _ => false,
        },
        c@ == d@ ==> match (c, d) {
            (RuntimeError::Spawn { binary: p, detail: x }, RuntimeError::Spawn { binary: q, detail: y }) => p@ == q@
                && x@ == y@,
            (RuntimeError::Envelope { detail: x }, RuntimeError::Envelope { detail: y }) => x@ == y@,
            (RuntimeError::Io { path: p, detail: x }, RuntimeError::Io { path: q, detail: y }) => p@ == q@ && x@ == y@,
            (RuntimeError::PathEscape { path: p, reason: x }, RuntimeError::PathEscape { path: q, reason: y }) => p@
                == q@ && x@ == y@,
            (RuntimeError::Staging { path: p, detail: x }, RuntimeError::Staging { path: q, detail: y }) => p@ == q@
                && x@ == y@,
            (RuntimeError::Timeout { seconds: x }, RuntimeError::Timeout { seconds: y }) => x == y,
            _ => false,
        },
        e@ == f@ ==> match (e, f) {
            (CreateError::InvalidId { id: p, reason: x }, CreateError::InvalidId { id: q, reason: y }) => p@ == q@ && x@
                == y@,
            (CreateError::InvalidName { reason: x }, CreateError::InvalidName { reason: y }) => x@ == y@,
            (CreateError::ContentTooLarge { len: p, max: x }, CreateError::ContentTooLarge { len: q, max: y }) => p == q
                && x == y,
            (CreateError::AlreadyExists { id: p, path: x }, CreateError::AlreadyExists { id: q, path: y }) => p@ == q@
                && x@ == y@,
            (CreateError::NotFound { id: p, path: x }, CreateError::NotFound { id: q, path: y }) => p@ == q@ && x@ == y@,
            (CreateError::Io { path: p, detail: x }, CreateError::Io { path: q, detail: y }) => p@ == q@ && x@ == y@,
            (
                CreateError::ConflictingServiceBinding { id: p },
                CreateError::ConflictingServiceBinding { id: q },
            ) => p@ == q@,
            (CreateError::InvalidAgentFile { reason: x }, CreateError::InvalidAgentFile { reason: y }) => x@ == y@,
            _ => false,
        },
        g@ == h@ ==> match (g, h) {
            (DeleteError::NotFound { id: p }, DeleteError::NotFound { id: q }) => p@ == q@,
            (DeleteError::PathEscape { path: p, reason: x }, DeleteError::PathEscape { path: q, reason: y }) => p@ == q@
                && x@ == y@,
            (DeleteError::Io { path: p, detail: x }, DeleteError::Io { path: q, detail: y }) => p@ == q@ && x@ == y@,
            _ => false,
        },
{
}

} // verus!
