//! From a request to a handler and back: the payload is checked, the handler gets its input, and
//! what it reports becomes the outcome.

use vstd::prelude::*;

use crate::definition;
use crate::definition::{
    ParameterSpec, ParameterSpecView, ParameterType, WorkflowDefinition, WorkflowDefinitionView,
};
use crate::error::{DispatchError, ValidationError, ValidationErrorView};
use crate::json;
use crate::json::{Json, JsonNumber, JsonView, NumberView};
use crate::paths;
use crate::service::{RunStatus, ServiceError};
use crate::table;
use crate::table::Table;
use crate::text;
use crate::wire;

verus! {

broadcast use crate::json::group_json;

/// The milliseconds between two looks at a run that goes on.
pub const POLL_INTERVAL_MS: u64 = 100;

/// Carries the command of the workflow to the handler. Only the dispatcher sets it.
pub const ENVELOPE_COMMAND_KEY: &'static str = "__command";

/// Carries the arguments of the command to the handler. Only the dispatcher sets it.
pub const ENVELOPE_ARGS_KEY: &'static str = "__args";

/// Carries the agent of the workflow to the handler. Only the dispatcher sets it.
pub const ENVELOPE_AGENT_KEY: &'static str = "__agent";

/// The outcome of a request, whatever handler it went to.
#[derive(Debug, PartialEq)]
pub struct InvokeOutcome {
    pub status: RunStatus,
    pub output: Option<Json>,
    pub error: Option<String>,
}

pub struct OutcomeView {
    pub status: RunStatus,
    pub output: Option<JsonView>,
    pub error: Option<Seq<char>>,
}

impl View for InvokeOutcome {
    type V = OutcomeView;

    open spec fn view(&self) -> OutcomeView {
        OutcomeView {
            status: self.status,
            output: wire::optional_json(self.output),
            error: definition::optional_text(self.error),
        }
    }
}

// ---------------------------------------------------------------------------
// Checking the payload

/// Whether a value has the type. A number with a fraction is no integer.
pub open spec fn has_type(v: JsonView, t: ParameterType) -> bool {
    match t {
        ParameterType::String => v is Str,
        ParameterType::Int => json::int_between(v, i64::MIN as int, u64::MAX as int) is Some,
        ParameterType::Bool => v is Bool,
    }
}

/// What is wrong with the payload in the matter of one parameter.
pub open spec fn parameter_fault(
    payload: Map<Seq<char>, JsonView>,
    name: Seq<char>,
    spec_: ParameterSpecView,
) -> Option<ValidationErrorView> {
    if !payload.dom().contains(name) {
        if spec_.required {
            Some(ValidationErrorView::MissingRequired { param: name })
        } else {
            None
        }
    } else if has_type(payload[name], spec_.type_) {
        None
    } else {
        Some(ValidationErrorView::WrongType { param: name, expected: spec_.type_ })
    }
}

/// The parameters in the matter of which something is wrong.
pub open spec fn faults(payload: Map<Seq<char>, JsonView>, specs: Map<Seq<char>, ParameterSpecView>) -> Set<Seq<char>> {
    Set::new(|k: Seq<char>| specs.dom().contains(k) && parameter_fault(payload, k, specs[k]) is Some)
}

/// What is wrong with the payload: the fault of the first parameter that has one.
pub open spec fn payload_fault(
    payload: Map<Seq<char>, JsonView>,
    specs: Map<Seq<char>, ParameterSpecView>,
) -> Option<ValidationErrorView> {
    let bad = faults(payload, specs);
    if exists|k: Seq<char>| bad.contains(k) {
        let k = text::least(bad);
        Some(parameter_fault(payload, k, specs[k])->0)
    } else {
        None
    }
}

fn type_fits(v: &Json, t: ParameterType) -> (r: bool)
    ensures
        r == has_type(v@, t),
{
    match t {
        ParameterType::String => v.as_str().is_some(),
        ParameterType::Int => v.as_i64().is_some() || v.as_u64().is_some(),
        ParameterType::Bool => v.as_bool().is_some(),
    }
}

/// Checks a payload against what the workflow asks for.
pub fn validate_payload(payload: &Table<Json>, specs: &Table<ParameterSpec>) -> (r: Result<(), ValidationError>)
    ensures
        match r {
            Ok(_) => payload_fault(json::fields_view(payload@), definition::parameters_view(specs@)) is None,
            Err(e) => payload_fault(json::fields_view(payload@), definition::parameters_view(specs@)) == Some(e@),
        },
{
    let ghost p = json::fields_view(payload@);
    let ghost s = definition::parameters_view(specs@);
    let ghost bad = faults(p, s);
    let ghost rows = specs.rows();
    let n = specs.len();
    let mut i: usize = 0;
    while i < n
        invariant
            i <= n,
            n == rows.len(),
            rows == specs.rows(),
            p == json::fields_view(payload@),
            s == definition::parameters_view(specs@),
            bad == faults(p, s),
            table::in_key_order(rows),
            forall|j: int| 0 <= j < i ==> !bad.contains(#[trigger] rows[j].0),
        decreases n - i,
    {
        let name = specs.key_at(i);
        let spec_ = specs.value_at(i);
        proof {
            table::row_is_unique(rows, i as int);
            assert(s[name@] == spec_@);
        }
        let fault = match payload.get(name) {
            None => if spec_.required {
                Some(ValidationError::MissingRequired { param: name.clone() })
            } else {
                None
            },
            Some(v) => if type_fits(v, spec_.type_) {
                None
            } else {
                Some(ValidationError::WrongType { param: name.clone(), expected: spec_.type_ })
            },
        };
        if let Some(e) = fault {
            proof {
                assert(bad.contains(name@));
                assert forall|j: Seq<char>| #[trigger] bad.contains(j) && j != name@ implies text::text_lt(name@, j) by {
                    assert(table::has_key(rows, j));
                    let at = table::row_of(rows, j);
                    assert(rows[at].0 == j);
                    assert(at > i);
                }
                text::least_is(bad, name@);
            }
            return Err(e);
        }
        i = i + 1;
    }
    proof {
        assert forall|k: Seq<char>| !bad.contains(k) by {
            if s.dom().contains(k) {
                assert(table::has_key(rows, k));
                let at = table::row_of(rows, k);
                assert(rows[at].0 == k);
            }
        }
    }
    Ok(())
}

// ---------------------------------------------------------------------------
// The input of the handler

/// The caller's payload without the keys that only the dispatcher sets.
pub open spec fn without_reserved(payload: Map<Seq<char>, JsonView>) -> Map<Seq<char>, JsonView> {
    payload.remove("__command"@).remove("__args"@).remove("__agent"@)
}

/// An optional text as a value.
pub open spec fn text_or_null(t: Option<Seq<char>>) -> JsonView {
    match t {
        Some(s) => JsonView::Str(s),
        None => JsonView::Null,
    }
}

/// An optional number as a value. A double that is not finite has none.
pub open spec fn number_or_null(n: Option<NumberView>) -> JsonView {
    match n {
        Some(NumberView::Float(t)) => if t == "inf"@ || t == "-inf"@ || t == "NaN"@ {
            JsonView::Null
        } else {
            JsonView::Number(NumberView::Float(t))
        },
        Some(n) => JsonView::Number(n),
        None => JsonView::Null,
    }
}

/// A list of texts as a value.
pub open spec fn text_array(ts: Seq<Seq<char>>) -> JsonView {
    JsonView::Array(ts.map_values(|t: Seq<char>| JsonView::Str(t)))
}

/// The directory of the workflow's file.
pub open spec fn workflow_dir(d: WorkflowDefinitionView) -> Seq<char> {
    match paths::parent(d.source_path) {
        Some(p) => p,
        None => Seq::empty(),
    }
}

/// What the handler of an agent is told. All of it comes from the definition.
pub open spec fn agent_envelope(d: WorkflowDefinitionView, agent: definition::AgentSpecView) -> JsonView {
    JsonView::Object(
        Map::<Seq<char>, JsonView>::empty().insert("workflow_id"@, JsonView::Str(d.id)).insert(
            "body"@,
            JsonView::Str(d.description),
        ).insert("workflow_dir"@, JsonView::Str(workflow_dir(d))).insert("files"@, text_array(agent.files)).insert(
            "model"@,
            text_or_null(agent.model),
        ).insert("max_budget_usd"@, number_or_null(agent.max_budget_usd)).insert(
            "timeout_secs"@,
            match agent.timeout_secs {
                Some(n) => JsonView::Number(NumberView::Int(n as int)),
                None => JsonView::Null,
            },
        ),
    )
}

/// What the handler gets: the payload as it is, or below `params` next to the agent or the command
/// of the workflow.
pub open spec fn handler_input(d: WorkflowDefinitionView, payload: Map<Seq<char>, JsonView>) -> JsonView {
    let params = JsonView::Object(without_reserved(payload));
    match d.service.agent {
        Some(agent) => JsonView::Object(
            Map::<Seq<char>, JsonView>::empty().insert("__agent"@, agent_envelope(d, agent)).insert("params"@, params),
        ),
        None => match d.service.command {
            Some(command) => JsonView::Object(
                Map::<Seq<char>, JsonView>::empty().insert("__command"@, JsonView::Str(command)).insert(
                    "__args"@,
                    text_array(d.service.args),
                ).insert("params"@, params),
            ),
            None => params,
        },
    }
}

fn texts_json(ts: &Vec<String>) -> (r: Json)
    ensures
        r@ == text_array(text::texts(ts@)),
{
    let ghost want = text::texts(ts@).map_values(|t: Seq<char>| JsonView::Str(t));
    let mut items: Vec<Json> = Vec::new();
    let mut i: usize = 0;
    assert(json::items_view(items@) =~= want.take(0));
    while i < ts.len()
        invariant
            want == text::texts(ts@).map_values(|t: Seq<char>| JsonView::Str(t)),
            i <= ts@.len(),
            json::items_view(items@) == want.take(i as int),
        decreases ts@.len() - i,
    {
        assert(want.take(i + 1) =~= want.take(i as int).push(want[i as int]));
        items.push(Json::Str(ts[i].clone()));
        i = i + 1;
    }
    assert(want.take(want.len() as int) =~= want);
    Json::Array(items)
}

fn optional_text_json(t: &Option<String>) -> (r: Json)
    ensures
        r@ == text_or_null(definition::optional_text(*t)),
{
    match t {
        Some(s) => Json::Str(s.clone()),
        None => Json::Null,
    }
}

fn optional_number_json(n: &Option<JsonNumber>) -> (r: Json)
    ensures
        r@ == number_or_null(crate::agent_log::store::optional_number(*n)),
{
    match n {
        Some(JsonNumber::Float(t)) => if text::same_text(t, "inf") || text::same_text(t, "-inf") || text::same_text(t, "NaN") {
            Json::Null
        } else {
            Json::Number(JsonNumber::Float(t.clone()))
        },
        Some(n) => Json::Number(n.copy()),
        None => Json::Null,
    }
}

/// What the handler of an agent is told.
pub fn agent_envelope_for(d: &WorkflowDefinition, agent: &definition::AgentSpec) -> (r: Json)
    ensures
        r@ == agent_envelope(d@, agent@),
{
    let dir = match paths::parent_of(&d.source_path) {
        Some(p) => p,
        None => String::new(),
    };
    let mut t: Table<Json> = Table::new();
    t.insert("workflow_id".to_owned(), Json::Str(d.id.clone()));
    t.insert("body".to_owned(), Json::Str(d.description.clone()));
    t.insert("workflow_dir".to_owned(), Json::Str(dir));
    t.insert("files".to_owned(), texts_json(&agent.files));
    t.insert("model".to_owned(), optional_text_json(&agent.model));
    t.insert("max_budget_usd".to_owned(), optional_number_json(&agent.max_budget_usd));
    t.insert(
        "timeout_secs".to_owned(),
        match agent.timeout_secs {
            Some(n) => Json::Number(JsonNumber::PosInt(n)),
            None => Json::Null,
        },
    );
    Json::Object(t)
}

/// What the handler gets.
pub fn build_handler_input(d: &WorkflowDefinition, payload: Table<Json>) -> (r: Json)
    ensures
        r@ == handler_input(d@, json::fields_view(payload@)),
{
    let mut stripped = payload;
    let _command = stripped.remove(ENVELOPE_COMMAND_KEY);
    let _args = stripped.remove(ENVELOPE_ARGS_KEY);
    let _agent = stripped.remove(ENVELOPE_AGENT_KEY);
    let mut envelope: Table<Json> = Table::new();
    match &d.service.agent {
        Some(agent) => {
            envelope.insert(ENVELOPE_AGENT_KEY.to_owned(), agent_envelope_for(d, agent));
            envelope.insert("params".to_owned(), Json::Object(stripped));
            Json::Object(envelope)
        },
        None => match &d.service.command {
            Some(command) => {
                envelope.insert(ENVELOPE_COMMAND_KEY.to_owned(), Json::Str(command.clone()));
                envelope.insert(ENVELOPE_ARGS_KEY.to_owned(), texts_json(&d.service.args));
                envelope.insert("params".to_owned(), Json::Object(stripped));
                Json::Object(envelope)
            },
            None => Json::Object(stripped),
        },
    }
}

/// The first step of a dispatch: the input for the handler. The payload is checked before the
/// handler is looked for, and a handler never gets a payload that did not pass.
pub fn dispatch(d: &WorkflowDefinition, payload: Table<Json>, handler_registered: bool) -> (r: Result<Json, DispatchError>)
    ensures
        match r {
            Ok(input) => {
                &&& payload_fault(json::fields_view(payload@), d@.parameters) is None
                &&& handler_registered
                &&& input@ == handler_input(d@, json::fields_view(payload@))
            },
            Err(DispatchError::Validation(e)) => payload_fault(json::fields_view(payload@), d@.parameters) == Some(e@),
            Err(DispatchError::HandlerNotFound { handler }) => {
                &&& payload_fault(json::fields_view(payload@), d@.parameters) is None
                &&& !handler_registered
                &&& handler@ == d@.service.handler
            },
        },
{
    match validate_payload(&payload, &d.parameters) {
        Err(e) => Err(DispatchError::Validation(e)),
        Ok(_) => if handler_registered {
            Ok(build_handler_input(d, payload))
        } else {
            Err(DispatchError::HandlerNotFound { handler: d.service.handler.clone() })
        },
    }
}

// ---------------------------------------------------------------------------
// Following the run

/// What the handler answered.
#[derive(Debug, PartialEq)]
pub enum DispatchEvent {
    /// To the request to start.
    Invoked(Result<(), ServiceError>),
    /// To the question where the run is.
    Status(Result<RunStatus, ServiceError>),
    /// To the request for the result.
    Produced(Result<Option<Json>, ServiceError>),
}

/// What is to be done next.
#[derive(Debug, PartialEq)]
pub enum DispatchStep {
    /// Ask where the run is.
    Poll,
    /// Wait for the poll interval, then ask where the run is.
    WaitThenPoll,
    /// Ask for the result.
    Fetch,
    Finish(InvokeOutcome),
}

pub enum DispatchStepView {
    Poll,
    WaitThenPoll,
    Fetch,
    Finish(OutcomeView),
}

impl View for DispatchStep {
    type V = DispatchStepView;

    open spec fn view(&self) -> DispatchStepView {
        match *self {
            DispatchStep::Poll => DispatchStepView::Poll,
            DispatchStep::WaitThenPoll => DispatchStepView::WaitThenPoll,
            DispatchStep::Fetch => DispatchStepView::Fetch,
            DispatchStep::Finish(o) => DispatchStepView::Finish(o@),
        }
    }
}

/// A run that failed for the reason.
pub open spec fn failed(reason: Seq<char>) -> OutcomeView {
    OutcomeView { status: RunStatus::Failed, output: None, error: Some(reason) }
}

/// What is to be done after an answer.
pub open spec fn step_after(handler: Seq<char>, event: DispatchEvent) -> DispatchStepView {
    match event {
        DispatchEvent::Invoked(Ok(_)) => DispatchStepView::Poll,
        DispatchEvent::Invoked(Err(e)) => DispatchStepView::Finish(failed(e@)),
        DispatchEvent::Status(Ok(RunStatus::Running)) => DispatchStepView::WaitThenPoll,
        DispatchEvent::Status(Ok(RunStatus::Completed)) => DispatchStepView::Fetch,
        DispatchEvent::Status(Ok(RunStatus::Failed)) => DispatchStepView::Finish(
            failed("handler `"@ + handler + "` reported a failed run"@),
        ),
        DispatchEvent::Status(Err(e)) => DispatchStepView::Finish(failed(e@)),
        DispatchEvent::Produced(Ok(output)) => DispatchStepView::Finish(
            OutcomeView { status: RunStatus::Completed, output: wire::optional_json(output), error: None },
        ),
        DispatchEvent::Produced(Err(e)) => DispatchStepView::Finish(failed(e@)),
    }
}

fn failure(reason: String) -> (r: InvokeOutcome)
    ensures
        r@ == failed(reason@),
{
    InvokeOutcome { status: RunStatus::Failed, output: None, error: Some(reason) }
}

/// What is to be done after an answer of the handler. An outcome is never that of a run that goes
/// on, and its output is what the handler produced.
pub fn next_step(handler: &str, event: DispatchEvent) -> (r: DispatchStep)
    ensures
        r@ == step_after(handler@, event),
        r matches DispatchStep::Finish(o) ==> o.status != RunStatus::Running,
{
    match event {
        DispatchEvent::Invoked(Ok(_)) => DispatchStep::Poll,
        DispatchEvent::Invoked(Err(e)) => DispatchStep::Finish(failure(e.detail)),
        DispatchEvent::Status(Ok(RunStatus::Running)) => DispatchStep::WaitThenPoll,
        DispatchEvent::Status(Ok(RunStatus::Completed)) => DispatchStep::Fetch,
        DispatchEvent::Status(Ok(RunStatus::Failed)) => DispatchStep::Finish(
            failure(text::concat3("handler `", handler, "` reported a failed run")),
        ),
        DispatchEvent::Status(Err(e)) => DispatchStep::Finish(failure(e.detail)),
        DispatchEvent::Produced(Ok(output)) => DispatchStep::Finish(
            InvokeOutcome { status: RunStatus::Completed, output, error: None },
        ),
        DispatchEvent::Produced(Err(e)) => DispatchStep::Finish(failure(e.detail)),
    }
}

// ---------------------------------------------------------------------------
// What holds of it all

proof fn reserved_keys_differ()
    ensures
        "__command"@ != "__args"@,
        "__command"@ != "__agent"@,
        "__args"@ != "__agent"@,
        "params"@ != "__command"@,
        "params"@ != "__args"@,
        "params"@ != "__agent"@,
{
    reveal_strlit("__command");
    reveal_strlit("__args");
    reveal_strlit("__agent");
    reveal_strlit("params");
    assert("__command"@.len() == 9);
    assert("__args"@.len() == 6);
    assert("__agent"@.len() == 7);
    assert("params"@.len() == 6);
    assert("params"@[0] == 'p');
    assert("__args"@[0] == '_');
}

/// The value of the key in what a handler gets.
pub open spec fn given(d: WorkflowDefinitionView, payload: Map<Seq<char>, JsonView>, k: Seq<char>) -> Option<JsonView> {
    json::field(handler_input(d, payload), k)
}

/// A caller can neither set nor change what only the dispatcher sets: whatever the payload, a
/// handler finds the command, the arguments and the agent of the definition there, and nothing
/// where the definition has none. What the caller sent reaches it without those keys.
pub proof fn callers_cannot_forge(d: WorkflowDefinitionView, payload: Map<Seq<char>, JsonView>)
    ensures
        given(d, payload, "__agent"@) == match d.service.agent {
            Some(a) => Some(agent_envelope(d, a)),
            None => None,
        },
        given(d, payload, "__command"@) == if d.service.agent is Some {
            None
        } else {
            match d.service.command {
                Some(c) => Some(JsonView::Str(c)),
                None => None,
            }
        },
        given(d, payload, "__args"@) == if d.service.agent is None && d.service.command is Some {
            Some(text_array(d.service.args))
        } else {
            None
        },
        d.service.agent is Some || d.service.command is Some ==> given(d, payload, "params"@) == Some(
            JsonView::Object(without_reserved(payload)),
        ),
        forall|k: Seq<char>| #[trigger]
            without_reserved(payload).dom().contains(k) <==> payload.dom().contains(k) && k != "__command"@ && k
                != "__args"@ && k != "__agent"@,
        forall|k: Seq<char>| #[trigger]
            without_reserved(payload).dom().contains(k) ==> without_reserved(payload)[k] == payload[k],
{
    reserved_keys_differ();
}

/// A payload that passes holds every required parameter, and every parameter that it holds has its
/// type.
pub proof fn passed_payloads_fit(
    payload: Map<Seq<char>, JsonView>,
    specs: Map<Seq<char>, ParameterSpecView>,
    k: Seq<char>,
)
    requires
        payload_fault(payload, specs) is None,
        specs.dom().contains(k),
    ensures
        specs[k].required ==> payload.dom().contains(k),
        payload.dom().contains(k) ==> has_type(payload[k], specs[k].type_),
{
    assert(!faults(payload, specs).contains(k));
}

/// A parameter of type string takes the JSON strings, all of them and nothing else; one of type int
/// the integers that fit in 64 bits, with a sign or without; and one of type bool `true` and `false`.
pub proof fn values_fit_their_types(v: JsonView)
    ensures
        has_type(v, ParameterType::String) <==> exists|s: Seq<char>| v == JsonView::Str(s),
        has_type(v, ParameterType::Int) <==> exists|n: int|
            v == JsonView::Number(NumberView::Int(n)) && -0x8000_0000_0000_0000 <= n <= 0xffff_ffff_ffff_ffff,
        has_type(v, ParameterType::Bool) <==> v == JsonView::Bool(true) || v == JsonView::Bool(false),
{
    if let JsonView::Str(s) = v {
        assert(v == JsonView::Str(s));
    }
    if let JsonView::Number(NumberView::Int(n)) = v {
        assert(v == JsonView::Number(NumberView::Int(n)));
    }
}

/// A payload is accepted exactly where every required parameter is in it and every declared parameter
/// that is in it holds a string, an integer or a truth value, as its type says. What it holds besides
/// makes no difference.
pub proof fn payloads_that_fit_are_accepted(payload: Map<Seq<char>, JsonView>, specs: Map<Seq<char>, ParameterSpecView>)
    ensures
        payload_fault(payload, specs) is None <==> forall|k: Seq<char>| #[trigger]
            specs.dom().contains(k) ==> {
                &&& specs[k].required ==> payload.dom().contains(k)
                &&& payload.dom().contains(k) ==> match specs[k].type_ {
                    ParameterType::String => payload[k] is Str,
                    ParameterType::Int => payload[k] matches JsonView::Number(NumberView::Int(n))
                        && -0x8000_0000_0000_0000 <= n <= 0xffff_ffff_ffff_ffff,
                    ParameterType::Bool => payload[k] is Bool,
                }
            },
{
    let bad = faults(payload, specs);
    if payload_fault(payload, specs) is None {
        assert forall|k: Seq<char>| #[trigger] specs.dom().contains(k) implies {
            &&& specs[k].required ==> payload.dom().contains(k)
            &&& payload.dom().contains(k) ==> match specs[k].type_ {
                ParameterType::String => payload[k] is Str,
                ParameterType::Int => payload[k] matches JsonView::Number(NumberView::Int(n))
                    && -0x8000_0000_0000_0000 <= n <= 0xffff_ffff_ffff_ffff,
                ParameterType::Bool => payload[k] is Bool,
            }
        } by {
            assert(!bad.contains(k));
        }
    } else {
        let k = choose|k: Seq<char>| bad.contains(k);
        assert(specs.dom().contains(k));
    }
}

/// A payload that is refused is refused for the first parameter, in the order of the names, that is
/// at fault: a required one that is not there, or one that holds a value of another type. The answer
/// names the parameter, and the type that it should have.
pub proof fn the_first_fault_is_named(
    payload: Map<Seq<char>, JsonView>,
    specs: Map<Seq<char>, ParameterSpecView>,
    name: Seq<char>,
)
    requires
        specs.dom().contains(name),
        forall|k: Seq<char>| #[trigger]
            specs.dom().contains(k) && k != name && !text::text_lt(name, k) ==> if payload.dom().contains(k) {
                has_type(payload[k], specs[k].type_)
            } else {
                !specs[k].required
            },
    ensures
        !payload.dom().contains(name) && specs[name].required ==> payload_fault(payload, specs) == Some(
            ValidationErrorView::MissingRequired { param: name },
        ),
        payload.dom().contains(name) && !has_type(payload[name], specs[name].type_) ==> payload_fault(payload, specs)
            == Some(ValidationErrorView::WrongType { param: name, expected: specs[name].type_ }),
{
    let bad = faults(payload, specs);
    if parameter_fault(payload, name, specs[name]) is Some {
        assert(bad.contains(name));
        assert forall|j: Seq<char>| #[trigger] bad.contains(j) && j != name implies text::text_lt(name, j) by {
            assert(specs.dom().contains(j));
        }
        text::least_is(bad, name);
    }
}

/// A handler that has neither a command nor an agent to run gets what the caller sent, but for the
/// three keys that only the dispatcher sets.
pub proof fn plain_handlers_get_the_payload(d: WorkflowDefinitionView, payload: Map<Seq<char>, JsonView>)
    requires
        d.service.agent is None,
        d.service.command is None,
    ensures
        handler_input(d, payload) matches JsonView::Object(m) && (forall|k: Seq<char>| #[trigger]
            m.dom().contains(k) <==> payload.dom().contains(k) && k != "__command"@ && k != "__args"@ && k != "__agent"@)
            && (forall|k: Seq<char>| #[trigger] m.dom().contains(k) ==> m[k] == payload[k]),
{
}

/// A handler with a command gets it as a text, its arguments as texts in their order, and the caller's
/// payload; one with an agent gets the agent and the caller's payload. Neither gets anything else.
pub proof fn handlers_get_what_they_run(d: WorkflowDefinitionView, payload: Map<Seq<char>, JsonView>)
    ensures
        ({
            let input = handler_input(d, payload);
            &&& d.service.agent is None && d.service.command is Some ==> (input matches JsonView::Object(m) && m.dom()
                == set!["__command"@, "__args"@, "params"@] && m["__command"@] == JsonView::Str(d.service.command->0)
                && (m["__args"@] matches JsonView::Array(items) && items.len() == d.service.args.len() && forall|i: int|
                0 <= i < items.len() ==> #[trigger] items[i] == JsonView::Str(d.service.args[i])) && m["params"@]
                == JsonView::Object(without_reserved(payload)))
            &&& d.service.agent is Some ==> (input matches JsonView::Object(m) && m.dom() == set!["__agent"@, "params"@]
                && m["params"@] == JsonView::Object(without_reserved(payload)) && (m["__agent"@] matches JsonView::Object(
                a,
            ) && tells_of_agent(a, d, d.service.agent->0)))
        }),
{
    reserved_keys_differ();
    if d.service.agent is Some {
        assert(handler_input(d, payload)->Object_0.dom() =~= set!["__agent"@, "params"@]);
        agents_are_told_of(d, d.service.agent->0);
    } else if d.service.command is Some {
        assert(handler_input(d, payload)->Object_0.dom() =~= set!["__command"@, "__args"@, "params"@]);
    }
}

/// The fields are those that tell a handler of the workflow and of its agent.
pub open spec fn tells_of_agent(
    a: Map<Seq<char>, JsonView>,
    d: WorkflowDefinitionView,
    agent: definition::AgentSpecView,
) -> bool {
    &&& a.dom() == set![
        "workflow_id"@,
        "body"@,
        "workflow_dir"@,
        "files"@,
        "model"@,
        "max_budget_usd"@,
        "timeout_secs"@,
    ]
    &&& a["workflow_id"@] == JsonView::Str(d.id)
    &&& a["body"@] == JsonView::Str(d.description)
    &&& a["workflow_dir"@] == JsonView::Str(
        match paths::parent(d.source_path) {
            Some(dir) => dir,
            None => Seq::empty(),
        },
    )
    &&& a["files"@] matches JsonView::Array(items) && items.len() == agent.files.len() && forall|i: int|
        0 <= i < items.len() ==> #[trigger] items[i] == JsonView::Str(agent.files[i])
    &&& a["model"@] == match agent.model {
        Some(m) => JsonView::Str(m),
        None => JsonView::Null,
    }
    &&& a["timeout_secs"@] == match agent.timeout_secs {
        Some(n) => JsonView::Number(NumberView::Int(n as int)),
        None => JsonView::Null,
    }
    &&& agent.max_budget_usd is None ==> a["max_budget_usd"@] == JsonView::Null
    &&& agent.max_budget_usd matches Some(NumberView::Int(n)) ==> a["max_budget_usd"@] == JsonView::Number(
        NumberView::Int(n),
    )
    &&& agent.max_budget_usd matches Some(NumberView::Float(t)) ==> a["max_budget_usd"@] == if t == "inf"@ || t
        == "-inf"@ || t == "NaN"@ {
        JsonView::Null
    } else {
        JsonView::Number(NumberView::Float(t))
    }
}

proof fn agents_are_told_of(d: WorkflowDefinitionView, agent: definition::AgentSpecView)
    ensures
        agent_envelope(d, agent) matches JsonView::Object(a) && tells_of_agent(a, d, agent),
{
    reveal_strlit("workflow_id");
    reveal_strlit("body");
    reveal_strlit("workflow_dir");
    reveal_strlit("files");
    reveal_strlit("model");
    reveal_strlit("max_budget_usd");
    reveal_strlit("timeout_secs");
    assert("workflow_id"@.len() == 11 && "body"@.len() == 4 && "max_budget_usd"@.len() == 14);
    assert("workflow_dir"@.len() == 12 && "workflow_dir"@[0] == 'w' && "timeout_secs"@.len() == 12 && "timeout_secs"@[0]
        == 't');
    assert("files"@.len() == 5 && "files"@[0] == 'f' && "model"@.len() == 5 && "model"@[0] == 'm');
    let a = agent_envelope(d, agent)->Object_0;
    assert(a.dom() =~= set![
        "workflow_id"@,
        "body"@,
        "workflow_dir"@,
        "files"@,
        "model"@,
        "max_budget_usd"@,
        "timeout_secs"@,
    ]);
}

/// A run is asked after until it is over: a start is followed by the question where the run is, and so
/// is a run that goes on, after a while. A run that is complete is asked for its result, which is the
/// output. Everything else ends in a failure that has no output and says why.
pub proof fn runs_are_followed_to_their_end(handler: Seq<char>, event: DispatchEvent)
    ensures
        match step_after(handler, event) {
            DispatchStepView::Poll => event matches DispatchEvent::Invoked(Ok(_)),
            DispatchStepView::WaitThenPoll => event == DispatchEvent::Status(Ok(RunStatus::Running)),
            DispatchStepView::Fetch => event == DispatchEvent::Status(Ok(RunStatus::Completed)),
            DispatchStepView::Finish(o) => match event {
                DispatchEvent::Produced(Ok(output)) => {
                    &&& o.status == RunStatus::Completed
                    &&& o.error is None
                    &&& o.output is Some <==> output is Some
                    &&& output is Some ==> o.output == Some(output->0@)
                },
                DispatchEvent::Produced(Err(e)) => o.status == RunStatus::Failed && o.output is None && o.error == Some(
                    e.detail@,
                ),
                DispatchEvent::Status(Err(e)) => o.status == RunStatus::Failed && o.output is None && o.error == Some(
                    e.detail@,
                ),
                DispatchEvent::Invoked(Err(e)) => o.status == RunStatus::Failed && o.output is None && o.error == Some(
                    e.detail@,
                ),
                DispatchEvent::Status(Ok(s)) => s == RunStatus::Failed && o.status == RunStatus::Failed && o.output is None
                    && o.error == Some("handler `"@ + handler + "` reported a failed run"@),
                DispatchEvent::Invoked(Ok(_)) => false,
            },
        },
{
}

/// A payload with a value of the wrong type for one of its parameters, or without one that is required,
/// never reaches a handler; one that fits reaches it, where there is one, as the input that is due.
pub proof fn payloads_are_held_against_their_parameters(
    d: WorkflowDefinition,
    payload: Table<Json>,
    registered: bool,
    r: Result<Json, DispatchError>,
    v: Result<(), ValidationError>,
    input: Json,
    name: Seq<char>,
)
    requires
        call_ensures(dispatch, (&d, payload, registered), r),
        call_ensures(validate_payload, (&payload, &d.parameters), v),
        call_ensures(build_handler_input, (&d, payload), input),
    ensures
        r is Ok <==> v is Ok && registered,
        r is Ok ==> r->Ok_0@ == input@,
        input@ == handler_input(d@, json::fields_view(payload@)),
        v is Err ==> (r matches Err(DispatchError::Validation(e)) && e@ == v->Err_0@),
        v is Ok && !registered ==> (r matches Err(DispatchError::HandlerNotFound { handler }) && handler@
            == d@.service.handler),
        v is Ok && d@.parameters.dom().contains(name) && d@.parameters[name].required ==> payload@.dom().contains(name),
        v is Ok && d@.parameters.dom().contains(name) && payload@.dom().contains(name) ==> {
            let value = payload@[name]@;
            &&& d@.parameters[name].type_ == ParameterType::String ==> value is Str
            &&& d@.parameters[name].type_ == ParameterType::Bool ==> value is Bool
            &&& d@.parameters[name].type_ == ParameterType::Int ==> (value matches JsonView::Number(
                crate::json::NumberView::Int(_),
            ))
        },
{
    let p = json::fields_view(payload@);
    assert(d@.parameters == definition::parameters_view(d.parameters@));
    assert(p.dom() =~= payload@.dom());
    if v is Ok && d@.parameters.dom().contains(name) {
        assert(payload_fault(p, d@.parameters) is None);
        payloads_that_fit_are_accepted(p, d@.parameters);
        if payload@.dom().contains(name) {
            assert(p[name] == payload@[name]@);
        }
    }
}

/// What is seen of a step and of an outcome is what it is, and an answer of the handler leads to the
/// step that is due.
pub proof fn steps_are_seen_as_they_are(handler: &str, event: DispatchEvent, r: DispatchStep, o: InvokeOutcome)
    requires
        call_ensures(next_step, (handler, event), r),
    ensures
        r is Poll <==> event matches DispatchEvent::Invoked(Ok(_)),
        r is WaitThenPoll <==> event == DispatchEvent::Status(Ok(RunStatus::Running)),
        r is Fetch <==> event == DispatchEvent::Status(Ok(RunStatus::Completed)),
        r matches DispatchStep::Finish(x) ==> step_after(handler@, event) == DispatchStepView::Finish(x@),
        o@.status == o.status,
        o@.output == wire::optional_json(o.output),
        o@.error == definition::optional_text(o.error),
{
}

} // verus!
