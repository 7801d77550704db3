//! Requests about workflows, and their answers.

use vstd::prelude::*;

use crate::definition;
use crate::definition::{ParameterSpecView, ServiceMode, WorkflowDefinition, WorkflowDefinitionView};
use crate::dispatch;
use crate::dispatch::InvokeOutcome;
use crate::error::{CreateError, DeleteError, DispatchErrorView, LoadError};
use crate::json;
use crate::json::serde_text;
use crate::json::{Json, JsonView};
use crate::registry;
use crate::registry::writer::{CreateOutcome, DeleteOutcome};
use crate::registry::Registry;
use crate::service::RunStatus;
use crate::table;
use crate::table::Table;
use crate::text;
use crate::wire;
use crate::wire::{
    CreateWorkflowResponse, DeleteWorkflowResponse, DescribeWorkflowResponse, InvokeResponseView, InvokeStatus,
    InvokeWorkflowRequest, InvokeWorkflowResponse, ListWorkflowsResponse, ParameterDescriptor, ParameterDescriptorView,
};

verus! {

broadcast use crate::json::group_json;

/// The name of a workflow and the file that it comes from, for the log.
#[derive(Debug, Clone, PartialEq)]
pub struct WorkflowLogInfo {
    pub name: String,
    pub source_path: String,
}

/// How a run that came to an end is reported.
pub open spec fn reported_as(status: RunStatus) -> InvokeStatus {
    match status {
        RunStatus::Completed => InvokeStatus::Completed,
        _ => InvokeStatus::Failed,
    }
}

/// How a run that came to an end is reported.
pub fn invoke_status(status: RunStatus) -> (r: InvokeStatus)
    requires
        status != RunStatus::Running,
    ensures
        r == reported_as(status),
{
    match status {
        RunStatus::Completed => InvokeStatus::Completed,
        _ => InvokeStatus::Failed,
    }
}

/// The answer to a request that failed for the reason.
pub open spec fn refused(reason: Seq<char>) -> InvokeResponseView {
    InvokeResponseView { status: InvokeStatus::Failed, output: None, error: Some(reason), run_id: None }
}

fn failure(reason: String) -> (r: InvokeWorkflowResponse)
    ensures
        r@ == refused(reason@),
{
    InvokeWorkflowResponse { status: InvokeStatus::Failed, output: None, error: Some(reason), run_id: None }
}

/// The parameters in a payload: none where it is null.
pub open spec fn payload_parameters(payload: JsonView) -> Option<Map<Seq<char>, JsonView>> {
    match payload {
        JsonView::Object(m) => Some(m),
        JsonView::Null => Some(Map::empty()),
        _ => None,
    }
}

/// Why a request to run a workflow is answered without running it.
pub open spec fn invoke_fault(
    workflows: Map<Seq<char>, WorkflowDefinitionView>,
    handlers: Set<Seq<char>>,
    workflow_id: Seq<char>,
    payload: JsonView,
) -> Option<Seq<char>> {
    if !workflows.dom().contains(workflow_id) {
        Some("unknown workflow `"@ + workflow_id + "`"@)
    } else {
        match payload_parameters(payload) {
            None => Some(
                "payload for workflow `"@ + workflow_id + "` must be a JSON object, got: "@ + serde_text::json_text(
                    payload,
                ),
            ),
            Some(m) => match dispatch::payload_fault(m, workflows[workflow_id].parameters) {
                Some(e) => Some(DispatchErrorView::Validation(e).words()),
                None => if handlers.contains(workflows[workflow_id].service.handler) {
                    None
                } else {
                    Some(
                        DispatchErrorView::HandlerNotFound {
                            handler: workflows[workflow_id].service.handler,
                        }.words(),
                    )
                },
            },
        }
    }
}

/// A run that is to be started: the handler, and what it gets.
#[derive(Debug)]
pub struct Start {
    pub handler: String,
    pub input: Json,
}

/// Answers requests about the workflows in a directory. It knows which handlers there are.
pub struct InProcessOrchestrator {
    pub workflows_dir: String,
    pub handlers: Vec<String>,
}

/// A parameter as clients see it.
pub open spec fn descriptor_of(name: Seq<char>, p: ParameterSpecView) -> ParameterDescriptorView {
    ParameterDescriptorView { name, type_: p.type_, required: p.required }
}

/// The parameters of a workflow as clients see them, in the order of their names.
pub open spec fn descriptors_of(params: Map<Seq<char>, ParameterSpecView>) -> Seq<ParameterDescriptorView> {
    table::listed(params.dom()).map_values(|k: Seq<char>| descriptor_of(k, params[k]))
}

/// The errors in words.
pub open spec fn warnings_of(errors: Seq<LoadError>) -> Seq<Seq<char>> {
    errors.map_values(|e: LoadError| e@.words())
}

impl InProcessOrchestrator {
    /// The handlers that there are.
    pub open spec fn known_handlers(self) -> Set<Seq<char>> {
        text::texts(self.handlers@).to_set()
    }

    /// One without handlers.
    pub fn new(workflows_dir: String) -> (r: Self)
        ensures
            r.workflows_dir@ == workflows_dir@,
            r.known_handlers() == Set::<Seq<char>>::empty(),
    {
        let r = InProcessOrchestrator { workflows_dir, handlers: Vec::new() };
        assert(r.known_handlers() =~= Set::<Seq<char>>::empty());
        r
    }

    /// One with the handlers.
    pub fn with_handlers(workflows_dir: String, handlers: Vec<String>) -> (r: Self)
        ensures
            r.workflows_dir@ == workflows_dir@,
            r.known_handlers() == text::texts(handlers@).to_set(),
    {
        InProcessOrchestrator { workflows_dir, handlers }
    }

    /// Whether there is the handler.
    pub fn handles(&self, handler: &str) -> (r: bool)
        ensures
            r == self.known_handlers().contains(handler@),
    {
        let mut i: usize = 0;
        while i < self.handlers.len()
            invariant
                i <= self.handlers@.len(),
                forall|j: int| 0 <= j < i ==> text::texts(self.handlers@)[j] != handler@,
            decreases self.handlers@.len() - i,
        {
            if text::same_text(&self.handlers[i], handler) {
                assert(text::texts(self.handlers@)[i as int] == handler@);
                return true;
            }
            i = i + 1;
        }
        false
    }

    /// Whether a request for the workflow waits for its run. One that is not known does, as it is
    /// answered at once.
    pub fn resolve_service_mode(&self, registry: &Registry, workflow_id: &str) -> (r: ServiceMode)
        ensures
            r == (if registry@.dom().contains(workflow_id@) {
                registry@[workflow_id@].service.mode
            } else {
                ServiceMode::Sync
            }),
    {
        match registry.lookup(workflow_id) {
            Some(d) => d.service.mode,
            None => ServiceMode::Sync,
        }
    }

    /// What the log says of the workflow.
    pub fn workflow_log_info(&self, registry: &Registry, workflow_id: &str) -> (r: Option<WorkflowLogInfo>)
        ensures
            match r {
                Some(info) => {
                    &&& registry@.dom().contains(workflow_id@)
                    &&& info.name@ == registry@[workflow_id@].name
                    &&& info.source_path@ == registry@[workflow_id@].source_path
                },
                None => !registry@.dom().contains(workflow_id@),
            },
    {
        match registry.lookup(workflow_id) {
            Some(d) => Some(WorkflowLogInfo { name: d.name.clone(), source_path: d.source_path.clone() }),
            None => None,
        }
    }

    /// The workflows that there are, and what is wrong with those that could not be loaded.
    pub fn list_workflows(&self, registry: &Registry, errors: &Vec<LoadError>) -> (r: ListWorkflowsResponse)
        ensures
            registry::summaries_view(r.workflows@) == registry::summaries_of(registry@),
            text::texts(r.warnings@) == warnings_of(errors@),
    {
        let mut warnings: Vec<String> = Vec::new();
        let mut i: usize = 0;
        assert(text::texts(warnings@) =~= warnings_of(errors@).take(0));
        while i < errors.len()
            invariant
                i <= errors@.len(),
                text::texts(warnings@) == warnings_of(errors@).take(i as int),
            decreases errors@.len() - i,
        {
            let w = errors[i].message();
            proof {
                text::texts_push(warnings@, w);
                assert(warnings_of(errors@).take(i + 1) =~= warnings_of(errors@).take(i as int).push(w@));
            }
            warnings.push(w);
            i = i + 1;
        }
        assert(warnings_of(errors@).take(errors@.len() as int) =~= warnings_of(errors@));
        ListWorkflowsResponse { workflows: registry.enumerate(), warnings }
    }

    /// What is to be started for a request, or the answer where nothing is. The workflow has to be
    /// known, its payload has to be an object that fits, and there has to be its handler.
    pub fn begin_invoke(&self, registry: &Registry, req: InvokeWorkflowRequest) -> (r: Result<
        Start,
        InvokeWorkflowResponse,
    >)
        ensures
            ({
                let fault = invoke_fault(registry@, self.known_handlers(), req.workflow_id@, req.payload@);
                match r {
                    Ok(start) => {
                        let d = registry@[req.workflow_id@];
                        &&& fault is None
                        &&& start.handler@ == d.service.handler
                        &&& start.input@ == dispatch::handler_input(d, payload_parameters(req.payload@)->0)
                    },
                    Err(answer) => fault is Some && answer@ == refused(fault->0),
                }
            }),
    {
        let def = match registry.lookup(&req.workflow_id) {
            Some(d) => d,
            None => return Err(failure(text::concat3("unknown workflow `", &req.workflow_id, "`"))),
        };
        let payload: Table<Json> = match req.payload {
            Json::Object(t) => t,
            Json::Null => Table::new(),
            other => {
                return Err(
                    failure(
                        crate::error::words4(
                            "payload for workflow `",
                            &req.workflow_id,
                            "` must be a JSON object, got: ",
                            &serde_text::write_json(&other),
                        ),
                    ),
                );
            },
        };
        match dispatch::dispatch(def, payload, self.handles(&def.service.handler)) {
            Ok(input) => Ok(Start { handler: def.service.handler.clone(), input }),
            Err(e) => Err(failure(e.message())),
        }
    }

    /// The parameters of the workflow.
    pub fn describe_workflow(&self, registry: &Registry, workflow_id: &str) -> (r: DescribeWorkflowResponse)
        ensures
            r.found == registry@.dom().contains(workflow_id@),
            registry::writer::descriptors_view(r.parameters@) == if r.found {
                descriptors_of(registry@[workflow_id@].parameters)
            } else {
                Seq::empty()
            },
    {
        match registry.lookup(workflow_id) {
            Some(d) => DescribeWorkflowResponse { found: true, parameters: descriptors(d) },
            None => {
                let parameters: Vec<ParameterDescriptor> = Vec::new();
                assert(registry::writer::descriptors_view(parameters@) =~= Seq::<ParameterDescriptorView>::empty());
                DescribeWorkflowResponse { found: false, parameters }
            },
        }
    }
}

fn descriptors(d: &WorkflowDefinition) -> (r: Vec<ParameterDescriptor>)
    ensures
        registry::writer::descriptors_view(r@) == descriptors_of(d@.parameters),
{
    let ghost p = d@.parameters;
    let ghost rows = d.parameters.rows();
    let n = d.parameters.len();
    let mut out: Vec<ParameterDescriptor> = Vec::new();
    let mut i: usize = 0;
    while i < n
        invariant
            i <= n,
            n == rows.len(),
            rows == d.parameters.rows(),
            out@.len() == i,
            forall|j: int| 0 <= j < i ==> (#[trigger] out@[j])@ == descriptor_of(rows[j].0, rows[j].1@),
        decreases n - i,
    {
        let name = d.parameters.key_at(i);
        let spec_ = d.parameters.value_at(i);
        out.push(ParameterDescriptor { name: name.clone(), type_: spec_.type_, required: spec_.required });
        i = i + 1;
    }
    proof {
        let names = Seq::new(rows.len(), |i: int| rows[i].0);
        assert forall|a: int, b: int| 0 <= a < b < names.len() implies text::text_lt(
            #[trigger] names[a],
            #[trigger] names[b],
        ) by {
            assert(text::text_lt(rows[a].0, rows[b].0));
        }
        assert forall|k: Seq<char>| #[trigger] names.contains(k) <==> p.dom().contains(k) by {
            if names.contains(k) {
                let i = choose|i: int| 0 <= i < names.len() && names[i] == k;
                table::row_is_unique(rows, i);
            }
            if p.dom().contains(k) {
                assert(table::has_key(rows, k));
                assert(names[table::row_of(rows, k)] == k);
            }
        }
        table::listed_is(names, p.dom());
        assert forall|i: int| 0 <= i < out@.len() implies registry::writer::descriptors_view(out@)[i] == descriptors_of(
            p,
        )[i] by {
            table::row_is_unique(rows, i);
            assert(out@[i]@ == descriptor_of(rows[i].0, rows[i].1@));
            assert(names[i] == rows[i].0);
        }
        assert(registry::writer::descriptors_view(out@) =~= descriptors_of(p));
    }
    out
}

/// The answer that an outcome makes.
pub fn finish_invoke(outcome: InvokeOutcome) -> (r: InvokeWorkflowResponse)
    requires
        outcome.status != RunStatus::Running,
    ensures
        r@ == (InvokeResponseView {
            status: reported_as(outcome@.status),
            output: outcome@.output,
            error: outcome@.error,
            run_id: None,
        }),
{
    InvokeWorkflowResponse {
        status: invoke_status(outcome.status),
        output: outcome.output,
        error: outcome.error,
        run_id: None,
    }
}

/// The answer to a request to write a workflow.
pub fn create_response(written: Result<CreateOutcome, CreateError>) -> (r: CreateWorkflowResponse)
    ensures
        r.created == written is Ok,
        match written {
            Ok(o) => {
                &&& definition::optional_text(r.workflow_path) == Some(o.workflow_path@)
                &&& definition::optional_text(r.script_path) == definition::optional_text(o.script_path)
                &&& r.error is None
            },
            Err(e) => {
                &&& r.workflow_path is None
                &&& r.script_path is None
                &&& definition::optional_text(r.error) == Some(e@.words())
            },
        },
{
    match written {
        Ok(o) => CreateWorkflowResponse {
            created: true,
            workflow_path: Some(o.workflow_path),
            script_path: o.script_path,
            error: None,
        },
        Err(e) => CreateWorkflowResponse {
            created: false,
            workflow_path: None,
            script_path: None,
            error: Some(e.message()),
        },
    }
}

/// The answer to a request to remove a workflow.
pub fn delete_response(removed: Result<DeleteOutcome, DeleteError>) -> (r: DeleteWorkflowResponse)
    ensures
        r.deleted == removed is Ok,
        match removed {
            Ok(o) => {
                &&& definition::optional_text(r.workflow_path) == Some(o.workflow_path@)
                &&& definition::optional_text(r.script_path) == definition::optional_text(o.script_path)
                &&& r.error is None
            },
            Err(e) => {
                &&& r.workflow_path is None
                &&& r.script_path is None
                &&& definition::optional_text(r.error) == Some(e@.words())
            },
        },
{
    match removed {
        Ok(o) => DeleteWorkflowResponse {
            deleted: true,
            workflow_path: Some(o.workflow_path),
            script_path: o.script_path,
            error: None,
        },
        Err(e) => DeleteWorkflowResponse {
            deleted: false,
            workflow_path: None,
            script_path: None,
            error: Some(e.message()),
        },
    }
}

// ---------------------------------------------------------------------------
// What holds of it all

/// A request is answered without running anything exactly where the workflow is not known, where its
/// payload is neither an object nor null, where the payload does not fit the parameters, or where
/// there is no handler for the workflow. The first of these is the reason that is given.
pub proof fn requests_that_can_be_run_are(
    workflows: Map<Seq<char>, WorkflowDefinitionView>,
    handlers: Set<Seq<char>>,
    id: Seq<char>,
    payload: JsonView,
)
    ensures
        ({
            let fault = invoke_fault(workflows, handlers, id, payload);
            let sent = match payload {
                JsonView::Object(m) => m,
                _ => Map::<Seq<char>, JsonView>::empty(),
            };
            let w = workflows[id];
            &&& fault is None <==> workflows.dom().contains(id) && (payload is Object || payload is Null)
                && dispatch::payload_fault(sent, w.parameters) is None && handlers.contains(w.service.handler)
            &&& !workflows.dom().contains(id) ==> fault == Some("unknown workflow `"@ + id + "`"@)
            &&& workflows.dom().contains(id) && !(payload is Object || payload is Null) ==> fault == Some(
                "payload for workflow `"@ + id + "` must be a JSON object, got: "@ + serde_text::json_text(payload),
            )
            &&& workflows.dom().contains(id) && (payload is Object || payload is Null) ==> {
                &&& dispatch::payload_fault(sent, w.parameters) matches Some(e) ==> fault == Some(
                    DispatchErrorView::Validation(e).words(),
                )
                &&& dispatch::payload_fault(sent, w.parameters) is None && !handlers.contains(w.service.handler)
                    ==> fault == Some(DispatchErrorView::HandlerNotFound { handler: w.service.handler }.words())
            }
            &&& payload is Object || payload is Null <==> payload_parameters(payload) is Some
            &&& payload_parameters(payload) is Some ==> payload_parameters(payload)->0 == sent
        }),
{
}

/// An answer says that a run is complete only where it is, and a refusal that it failed, with the
/// reason and nothing else.
pub proof fn answers_report_the_end(status: RunStatus, reason: Seq<char>)
    ensures
        reported_as(status) == InvokeStatus::Completed <==> status == RunStatus::Completed,
        status != RunStatus::Completed ==> reported_as(status) == InvokeStatus::Failed,
        refused(reason).status == InvokeStatus::Failed,
        refused(reason).error == Some(reason),
        refused(reason).output is None,
        refused(reason).run_id is None,
{
}

/// Clients see each parameter of a workflow once, in the order of the names, with its type and with
/// whether it is required. Of the files that could not be loaded they see the words, one for one.
pub proof fn clients_see_every_parameter(
    params: Map<Seq<char>, ParameterSpecView>,
    names: Seq<Seq<char>>,
    errors: Seq<LoadError>,
)
    requires
        forall|i: int, j: int| 0 <= i < j < names.len() ==> text::text_lt(#[trigger] names[i], #[trigger] names[j]),
        forall|n: Seq<char>| #[trigger] names.contains(n) <==> params.dom().contains(n),
    ensures
        descriptors_of(params).len() == names.len(),
        forall|i: int|
            0 <= i < names.len() ==> {
                let p = #[trigger] descriptors_of(params)[i];
                &&& p.name == names[i]
                &&& p.type_ == params[names[i]].type_
                &&& p.required == params[names[i]].required
            },
        warnings_of(errors).len() == errors.len(),
        forall|i: int| 0 <= i < errors.len() ==> #[trigger] warnings_of(errors)[i] == errors[i]@.words(),
{
    assert(table::is_list_of(names, params.dom()));
    table::listed_is(names, params.dom());
}

/// A request is run, by the handler of its workflow and with the input that is due to it, exactly where
/// nothing is wrong with it; else it is answered as failed, with what is wrong.
pub proof fn requests_are_run_or_refused(
    o: InProcessOrchestrator,
    registry: Registry,
    req: InvokeWorkflowRequest,
    r: Result<Start, InvokeWorkflowResponse>,
)
    requires
        call_ensures(InProcessOrchestrator::begin_invoke, (&o, &registry, req), r),
    ensures
        ({
            let fault = invoke_fault(registry@, o.known_handlers(), req.workflow_id@, req.payload@);
            &&& r is Ok <==> fault is None
            &&& r matches Ok(start) ==> start.handler@ == registry@[req.workflow_id@].service.handler && start.input@
                == dispatch::handler_input(registry@[req.workflow_id@], payload_parameters(req.payload@)->0)
            &&& r matches Err(answer) ==> answer.status == InvokeStatus::Failed && answer.output is None
                && answer.run_id is None && (answer.error matches Some(e) && e@ == fault->0)
        }),
{
    if let Err(answer) = r {
        let fault = invoke_fault(registry@, o.known_handlers(), req.workflow_id@, req.payload@);
        assert(answer@ == refused(fault->0));
        assert(answer@.output is None && answer@.run_id is None && answer@.error == Some(fault->0));
    }
}

/// A workflow that is known is run as it says, described with its parameters, and logged under its name
/// and its file; one that is not known is waited for, and not found.
pub proof fn known_workflows_are_told_of(
    o: InProcessOrchestrator,
    registry: Registry,
    id: &str,
    mode: ServiceMode,
    info: Option<WorkflowLogInfo>,
    d: DescribeWorkflowResponse,
    i: int,
)
    requires
        call_ensures(InProcessOrchestrator::resolve_service_mode, (&o, &registry, id), mode),
        call_ensures(InProcessOrchestrator::workflow_log_info, (&o, &registry, id), info),
        call_ensures(InProcessOrchestrator::describe_workflow, (&o, &registry, id), d),
    ensures
        registry@.dom().contains(id@) ==> {
            let w = registry@[id@];
            &&& mode == w.service.mode
            &&& info matches Some(x) && x.name@ == w.name && x.source_path@ == w.source_path
            &&& d.found
            &&& d.parameters@.len() == descriptors_of(w.parameters).len()
            &&& 0 <= i < d.parameters@.len() ==> d.parameters@[i].name@ == descriptors_of(w.parameters)[i].name
                && d.parameters@[i].type_ == descriptors_of(w.parameters)[i].type_ && d.parameters@[i].required
                == descriptors_of(w.parameters)[i].required
        },
        !registry@.dom().contains(id@) ==> mode == ServiceMode::Sync && info is None && !d.found && d.parameters@.len() == 0,
{
    let views = registry::writer::descriptors_view(d.parameters@);
    assert(views.len() == d.parameters@.len());
    if 0 <= i < d.parameters@.len() {
        assert(views[i] == d.parameters@[i]@);
    }
}

/// Every workflow is listed, and every file that could not be loaded is warned of in its words.
pub proof fn everything_is_listed(
    o: InProcessOrchestrator,
    registry: Registry,
    errors: Vec<LoadError>,
    r: ListWorkflowsResponse,
    i: int,
)
    requires
        call_ensures(InProcessOrchestrator::list_workflows, (&o, &registry, &errors), r),
    ensures
        registry::summaries_view(r.workflows@) == registry::summaries_of(registry@),
        r.warnings@.len() == errors@.len(),
        0 <= i < errors@.len() ==> r.warnings@[i]@ == errors@[i]@.words(),
{
    assert(text::texts(r.warnings@).len() == r.warnings@.len());
    if 0 <= i < errors@.len() {
        assert(text::texts(r.warnings@)[i] == r.warnings@[i]@);
    }
}

/// The answer to a run is how it ended, with what it gave and why it failed. An answer to a request to
/// write or remove a workflow says whether it was done: where it was with the paths, where it was not
/// with the reason.
pub proof fn answers_say_what_was_done(
    outcome: InvokeOutcome,
    a: InvokeWorkflowResponse,
    status: RunStatus,
    s: InvokeStatus,
    written: Result<CreateOutcome, CreateError>,
    c: CreateWorkflowResponse,
    removed: Result<DeleteOutcome, DeleteError>,
    d: DeleteWorkflowResponse,
)
    requires
        call_ensures(finish_invoke, (outcome,), a),
        call_ensures(invoke_status, (status,), s),
        call_ensures(create_response, (written,), c),
        call_ensures(delete_response, (removed,), d),
    ensures
        s == InvokeStatus::Completed <==> status == RunStatus::Completed,
        !(s is Started),
        a.status == InvokeStatus::Completed <==> outcome.status == RunStatus::Completed,
        !(a.status is Started),
        crate::wire::same_json(a.output, outcome.output),
        definition::same_optional(a.error, outcome.error),
        a.run_id is None,
        c.created <==> written is Ok,
        written matches Ok(w) ==> (c.workflow_path matches Some(p) && p@ == w.workflow_path@)
            && definition::same_optional(c.script_path, w.script_path) && c.error is None,
        written matches Err(e) ==> c.workflow_path is None && c.script_path is None && (c.error matches Some(t) && t@
            == e@.words()),
        d.deleted <==> removed is Ok,
        removed matches Ok(w) ==> (d.workflow_path matches Some(p) && p@ == w.workflow_path@)
            && definition::same_optional(d.script_path, w.script_path) && d.error is None,
        removed matches Err(e) ==> d.workflow_path is None && d.script_path is None && (d.error matches Some(t) && t@
            == e@.words()),
{
    assert(a@.status == reported_as(outcome@.status));
    assert(a@.run_id is None);
}

/// The handlers are those that the orchestrator was made with.
pub proof fn handlers_are_those_given(
    dir: String,
    none: InProcessOrchestrator,
    handlers: Vec<String>,
    o: InProcessOrchestrator,
    h: &str,
    r: bool,
    n: bool,
)
    requires
        call_ensures(InProcessOrchestrator::new, (dir,), none),
        call_ensures(InProcessOrchestrator::with_handlers, (dir, handlers), o),
        call_ensures(InProcessOrchestrator::handles, (&o, h), r),
        call_ensures(InProcessOrchestrator::handles, (&none, h), n),
    ensures
        none.workflows_dir@ == dir@,
        o.workflows_dir@ == dir@,
        !n,
        r <==> exists|i: int| 0 <= i < handlers@.len() && (#[trigger] handlers@[i])@ == h@,
{
    let ts = text::texts(handlers@);
    assert(ts.len() == handlers@.len());
    if r {
        assert(ts.contains(h@));
        let i = choose|i: int| 0 <= i < ts.len() && ts[i] == h@;
        assert(handlers@[i]@ == h@);
    }
    if exists|i: int| 0 <= i < handlers@.len() && (#[trigger] handlers@[i])@ == h@ {
        let i = choose|i: int| 0 <= i < handlers@.len() && (#[trigger] handlers@[i])@ == h@;
        assert(ts[i] == h@);
        assert(ts.to_set().contains(h@));
    }
}

} // verus!
