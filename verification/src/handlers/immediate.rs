//! The handler that runs a workflow at once: its command, where it has one; else it gives the
//! payload back.

use vstd::prelude::*;

use crate::definition;
use crate::dispatch;
use crate::dispatch::{ENVELOPE_ARGS_KEY, ENVELOPE_COMMAND_KEY};
use crate::handlers::child;
use crate::handlers::child::{ChildEvent, FinishedRuns, FinishedRunsView, Outcome, OutcomeView};
use crate::json;
use crate::json::serde_text;
use crate::json::{Json, JsonView};
use crate::service::{RunHandle, RunStatus, ServiceError};
use crate::table::Table;
use crate::text;

verus! {

broadcast use crate::json::group_json;

/// What is said of a handle that is not known.
pub const UNKNOWN_HANDLE: &'static str = "unknown immediate handle";

/// What a run has to do.
#[derive(Debug, PartialEq)]
pub enum ImmediateTask {
    /// Start the command with the arguments, each as it is, and write `stdin` to it.
    Spawn { command: String, args: Vec<String>, stdin: String },
    /// Nothing: the outcome is known.
    Echo { outcome: Outcome },
}

pub enum ImmediateTaskView {
    Spawn { command: Seq<char>, args: Seq<Seq<char>>, stdin: Seq<char> },
    Echo { outcome: OutcomeView },
}

impl View for ImmediateTask {
    type V = ImmediateTaskView;

    open spec fn view(&self) -> ImmediateTaskView {
        match *self {
            ImmediateTask::Spawn { command, args, stdin } => ImmediateTaskView::Spawn {
                command: command@,
                args: text::texts(args@),
                stdin: stdin@,
            },
            ImmediateTask::Echo { outcome } => ImmediateTaskView::Echo { outcome: outcome@ },
        }
    }
}

/// The texts in an array; anything else in it is passed over.
pub open spec fn texts_in(items: Seq<JsonView>) -> Seq<Seq<char>>
    decreases items.len(),
{
    if items.len() == 0 {
        Seq::empty()
    } else {
        match items.last() {
            JsonView::Str(t) => texts_in(items.drop_last()).push(t),
            _ => texts_in(items.drop_last()),
        }
    }
}

/// The texts of an optional array.
pub open spec fn texts_of_field(v: Option<JsonView>) -> Seq<Seq<char>> {
    match v {
        Some(JsonView::Array(items)) => texts_in(items),
        _ => Seq::empty(),
    }
}

/// What a run has to do for its input. `written` is how the parameters are written.
pub open spec fn task_of(input: JsonView, written: Seq<char>) -> ImmediateTaskView {
    match json::field(input, "__command"@) {
        Some(JsonView::Str(command)) => ImmediateTaskView::Spawn {
            command,
            args: texts_of_field(json::field(input, "__args"@)),
            stdin: written,
        },
        _ => ImmediateTaskView::Echo {
            outcome: OutcomeView::Success(
                JsonView::Object(
                    Map::<Seq<char>, JsonView>::empty().insert("status"@, JsonView::Str("completed"@)).insert(
                        "params"@,
                        input,
                    ),
                ),
            ),
        },
    }
}

/// The parameters that the command is given.
pub open spec fn params_of(input: JsonView) -> JsonView {
    match json::field(input, "params"@) {
        Some(v) => v,
        None => JsonView::Object(Map::empty()),
    }
}

/// The texts of an optional array.
pub fn read_texts(v: Option<&Json>) -> (r: Vec<String>)
    ensures
        text::texts(r@) == texts_of_field(
            match v {
                Some(j) => Some(j@),
                None => None,
            },
        ),
{
    let mut out: Vec<String> = Vec::new();
    assert(text::texts(out@) =~= Seq::<Seq<char>>::empty());
    let items = match v {
        Some(j) => j.as_array(),
        None => None,
    };
    if let Some(items) = items {
        let ghost all = json::items_view(items@);
        let mut i: usize = 0;
        assert(all.take(0) =~= Seq::<JsonView>::empty());
        while i < items.len()
            invariant
                all == json::items_view(items@),
                i <= items@.len(),
                text::texts(out@) == texts_in(all.take(i as int)),
            decreases items@.len() - i,
        {
            proof {
                assert(all.take(i + 1).drop_last() =~= all.take(i as int));
                assert(all.take(i + 1).last() == items@[i as int]@);
            }
            if let Some(t) = items[i].as_str() {
                let t = t.clone();
                proof {
                    text::texts_push(out@, t);
                }
                out.push(t);
            }
            i = i + 1;
        }
        assert(all.take(items@.len() as int) =~= all);
    }
    out
}

/// What a run has to do, given how the parameters are written.
pub fn plan(input: Json, written: String) -> (r: ImmediateTask)
    ensures
        r@ == task_of(input@, written@),
{
    let command = match input.get(ENVELOPE_COMMAND_KEY) {
        Some(v) => match v.as_str() {
            Some(c) => Some(c.clone()),
            None => None,
        },
        None => None,
    };
    match command {
        Some(command) => {
            let args = read_texts(input.get(ENVELOPE_ARGS_KEY));
            ImmediateTask::Spawn { command, args, stdin: written }
        },
        None => {
            let mut t: Table<Json> = Table::new();
            t.insert("status".to_owned(), Json::Str("completed".to_owned()));
            t.insert("params".to_owned(), input);
            ImmediateTask::Echo { outcome: Outcome::Success(Json::Object(t)) }
        },
    }
}

/// The handler.
pub struct ImmediateService {
    pub runs: FinishedRuns,
}

impl View for ImmediateService {
    type V = FinishedRunsView;

    open spec fn view(&self) -> FinishedRunsView {
        self.runs@
    }
}

impl ImmediateService {
    /// The handler, without runs.
    pub fn new() -> (r: Self)
        ensures
            r@.next_id == 0,
            r@.outcomes == Map::<Seq<char>, OutcomeView>::empty(),
    {
        ImmediateService { runs: FinishedRuns::new() }
    }

    /// Starts a run: its handle, and what it has to do. The run is not known until it is finished.
    pub fn invoke(&mut self, input: Json) -> (r: (RunHandle, ImmediateTask))
        requires
            old(self)@.next_id < u64::MAX,
        ensures
            r.0@ == "immediate-"@ + text::decimal(old(self)@.next_id as nat),
            r.1@ == task_of(input@, serde_text::json_text(params_of(input@))),
            final(self)@.next_id == old(self)@.next_id + 1,
            final(self)@.outcomes == old(self)@.outcomes,
    {
        let handle = self.runs.mint("immediate-");
        let written = match input.get("params") {
            Some(v) => serde_text::write_json(v),
            None => serde_text::write_json(&Json::Object(Table::new())),
        };
        (handle, plan(input, written))
    }

    /// Finishes a run whose command was started, from what became of the child.
    pub fn finish_command(&mut self, handle: &RunHandle, command: &str, event: ChildEvent)
        ensures
            final(self)@.outcomes == old(self)@.outcomes.insert(handle@, child::outcome_of(command@, event)),
            final(self)@.next_id == old(self)@.next_id,
    {
        let outcome = child::child_outcome(command, event);
        self.runs.finish(handle, outcome);
    }

    /// Finishes a run that had nothing to start.
    pub fn finish(&mut self, handle: &RunHandle, outcome: Outcome)
        ensures
            final(self)@.outcomes == old(self)@.outcomes.insert(handle@, outcome@),
            final(self)@.next_id == old(self)@.next_id,
    {
        self.runs.finish(handle, outcome);
    }

    /// A run that is known is over.
    pub fn status(&self, handle: &RunHandle) -> (r: Result<RunStatus, ServiceError>)
        ensures
            match r {
                Ok(s) => self@.outcomes.dom().contains(handle@) && s == RunStatus::Completed,
                Err(e) => !self@.outcomes.dom().contains(handle@) && e@ == "unknown immediate handle"@,
            },
    {
        self.runs.status(handle, UNKNOWN_HANDLE)
    }

    /// What became of a run.
    pub fn result(&self, handle: &RunHandle) -> (r: Result<Option<Json>, ServiceError>)
        ensures
            match r {
                Ok(v) => self@.outcomes.dom().contains(handle@) && v is Some && self@.outcomes[handle@]
                    == OutcomeView::Success(v->0@),
                Err(e) => if self@.outcomes.dom().contains(handle@) {
                    self@.outcomes[handle@] == OutcomeView::Failure(e@)
                } else {
                    e@ == "unknown immediate handle"@
                },
            },
    {
        self.runs.result(handle, UNKNOWN_HANDLE)
    }
}

impl Default for ImmediateService {
    fn default() -> (r: Self)
        ensures
            r@.next_id == 0,
            r@.outcomes == Map::<Seq<char>, OutcomeView>::empty(),
    {
        ImmediateService::new()
    }
}

/// A list of texts is read back as it was written.
pub proof fn text_arrays_are_read_back(ts: Seq<Seq<char>>)
    ensures
        texts_of_field(Some(dispatch::text_array(ts))) == ts,
    decreases ts.len(),
{
    let items = ts.map_values(|t: Seq<char>| JsonView::Str(t));
    if ts.len() > 0 {
        text_arrays_are_read_back(ts.drop_last());
        assert(items.drop_last() =~= ts.drop_last().map_values(|t: Seq<char>| JsonView::Str(t)));
        assert(texts_in(items) == ts.drop_last().push(ts.last()));
        assert(ts.drop_last().push(ts.last()) =~= ts);
    } else {
        assert(texts_in(items) =~= ts);
    }
}

/// Only a definition starts a command: whatever the caller sends, what is started is the command of
/// the workflow with its arguments, and nothing where the workflow has no command.
pub proof fn only_definitions_start_commands(
    d: definition::WorkflowDefinitionView,
    payload: Map<Seq<char>, JsonView>,
    written: Seq<char>,
)
    ensures
        match task_of(dispatch::handler_input(d, payload), written) {
            ImmediateTaskView::Spawn { command, args, stdin } => {
                &&& d.service.agent is None
                &&& d.service.command == Some(command)
                &&& args == d.service.args
                &&& stdin == written
            },
            ImmediateTaskView::Echo { .. } => d.service.agent is Some || d.service.command is None,
        },
        d.service.agent is None && d.service.command is Some ==> params_of(dispatch::handler_input(d, payload))
            == JsonView::Object(dispatch::without_reserved(payload)),
{
    dispatch::callers_cannot_forge(d, payload);
    text_arrays_are_read_back(d.service.args);
}

/// The texts of an array are its strings in their order; what is no string is passed over. What is no
/// array has none.
pub proof fn strings_are_read_in_order(items: Seq<JsonView>, v: JsonView, t: Seq<char>, other: Option<JsonView>)
    ensures
        texts_of_field(Some(JsonView::Array(Seq::empty()))).len() == 0,
        texts_of_field(Some(JsonView::Array(items.push(JsonView::Str(t))))) == texts_of_field(
            Some(JsonView::Array(items)),
        ).push(t),
        !(v is Str) ==> texts_of_field(Some(JsonView::Array(items.push(v)))) == texts_of_field(
            Some(JsonView::Array(items)),
        ),
        !(other matches Some(JsonView::Array(_))) ==> texts_of_field(other).len() == 0,
{
    assert(items.push(JsonView::Str(t)).drop_last() =~= items);
    assert(items.push(v).drop_last() =~= items);
}

/// An input with a command has it started, with its arguments and with the parameters on its standard
/// input. An input without one is complete at once, and is handed back as the parameters.
pub proof fn inputs_are_run_or_echoed(m: Map<Seq<char>, JsonView>, c: Seq<char>, written: Seq<char>, input: JsonView)
    ensures
        m.dom().contains("__command"@) && m["__command"@] == JsonView::Str(c) ==> (task_of(JsonView::Object(m), written) matches ImmediateTaskView::Spawn {
            command,
            args,
            stdin,
        } && command == c && stdin == written && (m.dom().contains("__args"@) ==> args == texts_of_field(
            Some(m["__args"@]),
        )) && (!m.dom().contains("__args"@) ==> args.len() == 0)),
        !(json::field(input, "__command"@) matches Some(JsonView::Str(_))) ==> (task_of(input, written) matches ImmediateTaskView::Echo {
            outcome: OutcomeView::Success(JsonView::Object(e)),
        } && e.dom() == set!["status"@, "params"@] && e["status"@] == JsonView::Str("completed"@) && e["params"@] == input),
        m.dom().contains("params"@) ==> params_of(JsonView::Object(m)) == m["params"@],
        !m.dom().contains("params"@) ==> params_of(JsonView::Object(m)) == JsonView::Object(Map::empty()),
{
    reveal_strlit("status");
    reveal_strlit("params");
    assert("status"@[0] == 's' && "params"@[0] == 'p');
    if let ImmediateTaskView::Echo { outcome: OutcomeView::Success(JsonView::Object(e)) } = task_of(input, written) {
        assert(e.dom() =~= set!["status"@, "params"@]);
    }
}

/// A run that is asked for gets the next handle, and what it has to do from its input, with the
/// parameters as they are written for its command. It is known once it is finished, and its result is
/// what it was finished with.
pub proof fn runs_are_known_once_finished(
    before: ImmediateService,
    started: ImmediateService,
    input: Json,
    r: (RunHandle, ImmediateTask),
    command: &str,
    event: ChildEvent,
    after: ImmediateService,
    s: Result<RunStatus, ServiceError>,
    v: Result<Option<Json>, ServiceError>,
)
    requires
        exists|t: &mut ImmediateService|
            #![trigger call_ensures(ImmediateService::invoke, (t, input), r)]
            *t == before && *final(t) == started && call_ensures(ImmediateService::invoke, (t, input), r),
        exists|t: &mut ImmediateService|
            #![trigger call_ensures(ImmediateService::finish_command, (t, &r.0, command, event), ())]
            *t == started && *final(t) == after && call_ensures(
                ImmediateService::finish_command,
                (t, &r.0, command, event),
                (),
            ),
        call_ensures(ImmediateService::status, (&after, &r.0), s),
        call_ensures(ImmediateService::result, (&after, &r.0), v),
    ensures
        r.0@ == "immediate-"@ + text::decimal(before.runs.next_id as nat),
        r.1@ == task_of(input@, serde_text::json_text(params_of(input@))),
        started@.outcomes == before@.outcomes,
        s == Ok::<RunStatus, ServiceError>(RunStatus::Completed),
        match child::outcome_of(command@, event) {
            OutcomeView::Success(j) => v matches Ok(Some(w)) && w@ == j,
            OutcomeView::Failure(why) => v matches Err(e) && e.detail@ == why,
        },
{
}

/// A run that has nothing to start is finished with the outcome that it was given.
pub proof fn runs_without_a_command_are_finished(
    before: ImmediateService,
    h: RunHandle,
    outcome: Outcome,
    after: ImmediateService,
    s: Result<RunStatus, ServiceError>,
    v: Result<Option<Json>, ServiceError>,
)
    requires
        exists|t: &mut ImmediateService|
            #![trigger call_ensures(ImmediateService::finish, (t, &h, outcome), ())]
            *t == before && *final(t) == after && call_ensures(ImmediateService::finish, (t, &h, outcome), ()),
        call_ensures(ImmediateService::status, (&after, &h), s),
        call_ensures(ImmediateService::result, (&after, &h), v),
    ensures
        s == Ok::<RunStatus, ServiceError>(RunStatus::Completed),
        match outcome {
            Outcome::Success(j) => v matches Ok(Some(w)) && w@ == j@,
            Outcome::Failure(why) => v matches Err(e) && e.detail@ == why@,
        },
{
}

/// Two tasks that look the same ask for the same.
pub proof fn tasks_are_seen_whole(a: ImmediateTask, b: ImmediateTask)
    requires
        a@ == b@,
    ensures
        match (a, b) {
            (
                ImmediateTask::Spawn { command, args, stdin },
                ImmediateTask::Spawn { command: c, args: d, stdin: e },
            ) => command@ == c@ && text::texts(args@) == text::texts(d@) && stdin@ == e@,
            (ImmediateTask::Echo { outcome: x }, ImmediateTask::Echo { outcome: y }) => match (x, y) {
                (Outcome::Success(i), Outcome::Success(j)) => i@ == j@,
                (Outcome::Failure(i), Outcome::Failure(j)) => i@ == j@,
                _ => false,
            },
            _ => false,
        },
{
}

} // verus!
