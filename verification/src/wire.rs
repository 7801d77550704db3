//! What clients and the daemon say to each other.

use vstd::prelude::*;

use crate::definition::{ParameterType, WorkflowSummary};
use crate::json::{Json, JsonNumber, JsonView};

verus! {

// ---------------------------------------------------------------------------
// Activities

/// A step in the life of a run.
#[derive(Debug, Clone, Copy, PartialEq, Eq, Structural)]
pub enum ActivityPhase {
    Invoked,
    Running,
    Completed,
    Failed,
}

/// How a run is shown.
#[derive(Debug, Clone, Copy, PartialEq, Eq, Structural)]
pub enum ActivityStatus {
    NotStarted,
    Running,
    Success,
    Failure,
}

/// What an optional value says.
pub open spec fn optional_json(v: Option<Json>) -> Option<JsonView> {
    match v {
        Some(j) => Some(j@),
        None => None,
    }
}

/// A copy of an optional value.
pub fn copy_optional_json(v: &Option<Json>) -> (r: Option<Json>)
    ensures
        optional_json(r) == optional_json(*v),
{
    match v {
        Some(j) => Some(j.copy()),
        None => None,
    }
}

/// A step that a run took.
#[derive(Debug, PartialEq)]
pub struct ActivityLogEvent {
    pub phase: ActivityPhase,
    pub at_ms: u64,
    pub detail: Option<Json>,
}

pub struct LogView {
    pub phase: ActivityPhase,
    pub at_ms: u64,
    pub detail: Option<JsonView>,
}

impl View for ActivityLogEvent {
    type V = LogView;

    open spec fn view(&self) -> LogView {
        LogView { phase: self.phase, at_ms: self.at_ms, detail: optional_json(self.detail) }
    }
}

/// What the steps say.
pub open spec fn log_view(log: Seq<ActivityLogEvent>) -> Seq<LogView> {
    log.map_values(|e: ActivityLogEvent| e@)
}

/// A run, and what became of it so far.
#[derive(Debug, PartialEq)]
pub struct ActivityEvent {
    pub run_id: String,
    pub workflow_id: String,
    pub client_name: String,
    pub session_id: String,
    pub status: ActivityStatus,
    pub started_at_ms: u64,
    pub log: Vec<ActivityLogEvent>,
}

#[verifier::ext_equal]
pub struct EventView {
    pub run_id: Seq<char>,
    pub workflow_id: Seq<char>,
    pub client_name: Seq<char>,
    pub session_id: Seq<char>,
    pub status: ActivityStatus,
    pub started_at_ms: u64,
    pub log: Seq<LogView>,
}

impl View for ActivityEvent {
    type V = EventView;

    open spec fn view(&self) -> EventView {
        EventView {
            run_id: self.run_id@,
            workflow_id: self.workflow_id@,
            client_name: self.client_name@,
            session_id: self.session_id@,
            status: self.status,
            started_at_ms: self.started_at_ms,
            log: log_view(self.log@),
        }
    }
}

impl ActivityEvent {
    /// A copy that says the same.
    pub fn copy(&self) -> (r: ActivityEvent)
        ensures
            r@ == self@,
    {
        let mut log: Vec<ActivityLogEvent> = Vec::new();
        let mut i: usize = 0;
        while i < self.log.len()
            invariant
                i <= self.log@.len(),
                log_view(log@) == log_view(self.log@).take(i as int),
            decreases self.log@.len() - i,
        {
            let e = ActivityLogEvent {
                phase: self.log[i].phase,
                at_ms: self.log[i].at_ms,
                detail: copy_optional_json(&self.log[i].detail),
            };
            let ghost before = log@;
            log.push(e);
            assert(log_view(log@) =~= log_view(before).push(e@));
            assert(log_view(self.log@).take(i + 1) =~= log_view(self.log@).take(i as int).push(self.log@[i as int]@));
            i = i + 1;
        }
        assert(log_view(self.log@).take(self.log@.len() as int) =~= log_view(self.log@));
        ActivityEvent {
            run_id: self.run_id.clone(),
            workflow_id: self.workflow_id.clone(),
            client_name: self.client_name.clone(),
            session_id: self.session_id.clone(),
            status: self.status,
            started_at_ms: self.started_at_ms,
            log,
        }
    }
}

// ---------------------------------------------------------------------------
// Requests

#[derive(Debug, PartialEq)]
pub struct ListWorkflowsRequest {}

#[derive(Debug, PartialEq)]
pub struct InvokeWorkflowRequest {
    pub workflow_id: String,
    pub payload: Json,
}

#[derive(Debug, PartialEq)]
pub struct DescribeWorkflowRequest {
    pub workflow_id: String,
}

/// A parameter as clients see it.
#[derive(Debug, PartialEq)]
pub struct ParameterDescriptor {
    pub name: String,
    pub type_: ParameterType,
    pub required: bool,
}

pub struct ParameterDescriptorView {
    pub name: Seq<char>,
    pub type_: ParameterType,
    pub required: bool,
}

impl View for ParameterDescriptor {
    type V = ParameterDescriptorView;

    open spec fn view(&self) -> ParameterDescriptorView {
        ParameterDescriptorView { name: self.name@, type_: self.type_, required: self.required }
    }
}

/// The agent that a new workflow is to be bound to.
#[derive(Debug, PartialEq)]
pub struct AgentWorkflowConfig {
    pub files: Vec<String>,
    pub timeout_secs: Option<u64>,
    pub max_budget_usd: Option<JsonNumber>,
}

/// Whether a write makes a workflow, or replaces one.
#[derive(Debug, Clone, Copy, PartialEq, Eq, Structural)]
pub enum WorkflowWriteMode {
    Create,
    Edit,
}

#[derive(Debug, PartialEq)]
pub struct CreateWorkflowRequest {
    pub id: String,
    pub name: String,
    pub description: String,
    pub script: Option<String>,
    pub agent: Option<AgentWorkflowConfig>,
    pub parameters: Vec<ParameterDescriptor>,
    pub mode: WorkflowWriteMode,
}

#[derive(Debug, PartialEq)]
pub struct DeleteWorkflowRequest {
    pub id: String,
}

#[derive(Debug, PartialEq)]
pub enum RequestPayload {
    ListWorkflows(ListWorkflowsRequest),
    InvokeWorkflow(InvokeWorkflowRequest),
    DescribeWorkflow(DescribeWorkflowRequest),
    CreateWorkflow(CreateWorkflowRequest),
    DeleteWorkflow(DeleteWorkflowRequest),
}

// ---------------------------------------------------------------------------
// Responses

#[derive(Debug, PartialEq)]
pub struct ListWorkflowsResponse {
    pub workflows: Vec<WorkflowSummary>,
    pub warnings: Vec<String>,
}

/// How a request to run a workflow was answered.
#[derive(Debug, Clone, Copy, PartialEq, Eq, Structural)]
pub enum InvokeStatus {
    Completed,
    Failed,
    Started,
}

#[derive(Debug, PartialEq)]
pub struct InvokeWorkflowResponse {
    pub status: InvokeStatus,
    pub output: Option<Json>,
    pub error: Option<String>,
    pub run_id: Option<String>,
}

pub struct InvokeResponseView {
    pub status: InvokeStatus,
    pub output: Option<JsonView>,
    pub error: Option<Seq<char>>,
    pub run_id: Option<Seq<char>>,
}

impl View for InvokeWorkflowResponse {
    type V = InvokeResponseView;

    open spec fn view(&self) -> InvokeResponseView {
        InvokeResponseView {
            status: self.status,
            output: optional_json(self.output),
            error: crate::definition::optional_text(self.error),
            run_id: crate::definition::optional_text(self.run_id),
        }
    }
}

#[derive(Debug, PartialEq)]
pub struct DescribeWorkflowResponse {
    pub found: bool,
    pub parameters: Vec<ParameterDescriptor>,
}

#[derive(Debug, PartialEq)]
pub struct CreateWorkflowResponse {
    pub created: bool,
    pub workflow_path: Option<String>,
    pub script_path: Option<String>,
    pub error: Option<String>,
}

#[derive(Debug, PartialEq)]
pub struct DeleteWorkflowResponse {
    pub deleted: bool,
    pub workflow_path: Option<String>,
    pub script_path: Option<String>,
    pub error: Option<String>,
}

#[derive(Debug, PartialEq)]
pub enum ResponsePayload {
    ListWorkflows(ListWorkflowsResponse),
    InvokeWorkflow(InvokeWorkflowResponse),
    DescribeWorkflow(DescribeWorkflowResponse),
    CreateWorkflow(CreateWorkflowResponse),
    DeleteWorkflow(DeleteWorkflowResponse),
}

/// One frame on a connection.
#[allow(inconsistent_fields)]
#[derive(Debug, PartialEq)]
pub enum Envelope {
    Hello { client_name: String },
    /// Tells a client its session.
    Welcome { session_id: String },
    Req { id: u64, payload: RequestPayload },
    Res { id: u64, payload: ResponsePayload },
    Event { id: u64, payload: ResponsePayload },
    Activity { event: ActivityEvent },
}

// ---------------------------------------------------------------------------
// What holds of it all

/// Two optional values say the same.
pub open spec fn same_json(a: Option<Json>, b: Option<Json>) -> bool {
    match (a, b) {
        (Some(x), Some(y)) => x@ == y@,
        (None, None) => true,
        _ => false,
    }
}

/// Two answers or descriptions that look the same are the same in every field, and a copy of a run
/// looks the same.
pub proof fn answers_are_seen_whole(
    a: InvokeWorkflowResponse,
    b: InvokeWorkflowResponse,
    x: ParameterDescriptor,
    y: ParameterDescriptor,
    e: ActivityEvent,
    c: ActivityEvent,
    o: Option<Json>,
    p: Option<Json>,
)
    requires
        call_ensures(ActivityEvent::copy, (&e,), c),
        call_ensures(copy_optional_json, (&o,), p),
    ensures
        a@ == b@ ==> a.status == b.status && same_json(a.output, b.output) && crate::definition::same_optional(
            a.error,
            b.error,
        ) && crate::definition::same_optional(a.run_id, b.run_id),
        x@ == y@ ==> x.name@ == y.name@ && x.type_ == y.type_ && x.required == y.required,
        c@ == e@,
        same_json(o, p),
{
}

} // verus!
