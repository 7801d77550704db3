//! The handler that runs one configured command, whatever the payload is.

use vstd::prelude::*;

use crate::handlers::child;
use crate::handlers::child::{ChildEvent, FinishedRuns, FinishedRunsView, OutcomeView};
use crate::json::Json;
use crate::service::{RunHandle, RunStatus, ServiceError};
use crate::text;

verus! {

/// What is said of a handle that is not known.
pub const UNKNOWN_HANDLE: &'static str = "unknown process handle";

/// The handler. The command and its arguments are set when it is made, and never by a payload.
pub struct ProcessService {
    pub command: String,
    pub args: Vec<String>,
    pub runs: FinishedRuns,
}

pub struct ProcessServiceView {
    pub command: Seq<char>,
    pub args: Seq<Seq<char>>,
    pub runs: FinishedRunsView,
}

impl View for ProcessService {
    type V = ProcessServiceView;

    open spec fn view(&self) -> ProcessServiceView {
        ProcessServiceView { command: self.command@, args: text::texts(self.args@), runs: self.runs@ }
    }
}

impl ProcessService {
    /// The handler for the command.
    pub fn new(command: String, args: Vec<String>) -> (r: Self)
        ensures
            r@ == (ProcessServiceView {
                command: command@,
                args: text::texts(args@),
                runs: FinishedRunsView { outcomes: Map::empty(), next_id: 0 },
            }),
    {
        ProcessService { command, args, runs: FinishedRuns::new() }
    }

    /// Starts a run: the command is to be started with the arguments, each as it is. The payload
    /// does not come into it.
    pub fn invoke(&mut self) -> (r: RunHandle)
        requires
            old(self)@.runs.next_id < u64::MAX,
        ensures
            r@ == "process-"@ + text::decimal(old(self)@.runs.next_id as nat),
            final(self)@ == (ProcessServiceView {
                runs: FinishedRunsView { next_id: (old(self)@.runs.next_id + 1) as u64, ..old(self)@.runs },
                ..old(self)@
            }),
    {
        self.runs.mint("process-")
    }

    /// Finishes a run, from what became of the child.
    pub fn finish(&mut self, handle: &RunHandle, event: ChildEvent)
        ensures
            final(self)@ == (ProcessServiceView {
                runs: FinishedRunsView {
                    outcomes: old(self)@.runs.outcomes.insert(
                        handle@,
                        child::outcome_of(old(self)@.command, event),
                    ),
                    ..old(self)@.runs
                },
                ..old(self)@
            }),
    {
        let outcome = child::child_outcome(&self.command, event);
        self.runs.finish(handle, outcome);
    }

    /// A run that is known is over.
    pub fn status(&self, handle: &RunHandle) -> (r: Result<RunStatus, ServiceError>)
        ensures
            match r {
                Ok(s) => self@.runs.outcomes.dom().contains(handle@) && s == RunStatus::Completed,
                Err(e) => !self@.runs.outcomes.dom().contains(handle@) && e@ == "unknown process handle"@,
            },
    {
        self.runs.status(handle, UNKNOWN_HANDLE)
    }

    /// What became of a run.
    pub fn result(&self, handle: &RunHandle) -> (r: Result<Option<Json>, ServiceError>)
        ensures
            match r {
                Ok(v) => self@.runs.outcomes.dom().contains(handle@) && v is Some && self@.runs.outcomes[handle@]
                    == OutcomeView::Success(v->0@),
                Err(e) => if self@.runs.outcomes.dom().contains(handle@) {
                    self@.runs.outcomes[handle@] == OutcomeView::Failure(e@)
                } else {
                    e@ == "unknown process handle"@
                },
            },
    {
        self.runs.result(handle, UNKNOWN_HANDLE)
    }
}

/// The command and its arguments are those that the handler was made with, whatever it is asked; a run
/// is known once it is finished, and its result follows from what became of the child.
pub proof fn the_command_is_the_configured_one(
    made: ProcessService,
    command: String,
    args: Vec<String>,
    before: ProcessService,
    started: ProcessService,
    h: RunHandle,
    event: ChildEvent,
    after: ProcessService,
    s: Result<RunStatus, ServiceError>,
    v: Result<Option<Json>, ServiceError>,
)
    requires
        call_ensures(ProcessService::new, (command, args), made),
        exists|t: &mut ProcessService|
            #![trigger call_ensures(ProcessService::invoke, (t,), h)]
            *t == before && *final(t) == started && call_ensures(ProcessService::invoke, (t,), h),
        exists|t: &mut ProcessService|
            #![trigger call_ensures(ProcessService::finish, (t, &h, event), ())]
            *t == started && *final(t) == after && call_ensures(ProcessService::finish, (t, &h, event), ()),
        call_ensures(ProcessService::status, (&after, &h), s),
        call_ensures(ProcessService::result, (&after, &h), v),
    ensures
        made.command@ == command@,
        text::texts(made.args@) == text::texts(args@),
        made.runs.next_id == 0,
        h@ == "process-"@ + text::decimal(before.runs.next_id as nat),
        after.command@ == before.command@,
        text::texts(after.args@) == text::texts(before.args@),
        s == Ok::<RunStatus, ServiceError>(RunStatus::Completed),
        match child::outcome_of(before.command@, event) {
            OutcomeView::Success(j) => v matches Ok(Some(w)) && w@ == j,
            OutcomeView::Failure(why) => v matches Err(e) && e.detail@ == why,
        },
{
    assert(made@.command == command@);
    assert(started@.command == before@.command);
}

} // verus!
