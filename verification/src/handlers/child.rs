//! What came of a child process, and the runs that were one.

use vstd::prelude::*;

use crate::bytes;
use crate::error;
use crate::json::serde_text;
use crate::json::{Json, JsonView};
use crate::service::{RunHandle, RunStatus, ServiceError};
use crate::table::Table;
use crate::text;

verus! {

/// What became of a run.
#[derive(Debug, PartialEq)]
pub enum Outcome {
    Success(Json),
    Failure(String),
}

pub enum OutcomeView {
    Success(JsonView),
    Failure(Seq<char>),
}

impl View for Outcome {
    type V = OutcomeView;

    open spec fn view(&self) -> OutcomeView {
        match *self {
            Outcome::Success(j) => OutcomeView::Success(j@),
            Outcome::Failure(s) => OutcomeView::Failure(s@),
        }
    }
}

/// What became of a child.
#[derive(Debug, PartialEq)]
pub enum ChildEvent {
    NotStarted { detail: String },
    NotAwaited { detail: String },
    /// `status` is the exit status in words.
    Exited { success: bool, status: String, stdout: Vec<u8>, stderr: Vec<u8> },
}

/// What was written, without the white space around it.
pub open spec fn written(output: Seq<u8>) -> Seq<char> {
    text::trimmed(bytes::lossy(output))
}

/// A text as a value: what it was read as, or the text itself where it could not be read.
pub open spec fn value_or_text(parsed: Result<JsonView, Seq<char>>, t: Seq<char>) -> JsonView {
    match parsed {
        Ok(v) => v,
        Err(_) => JsonView::Str(t),
    }
}

/// What became of the run, from what became of the child.
pub open spec fn outcome_of(command: Seq<char>, event: ChildEvent) -> OutcomeView {
    match event {
        ChildEvent::NotStarted { detail } => OutcomeView::Failure(
            "failed to spawn command `"@ + command + "`: "@ + detail@,
        ),
        ChildEvent::NotAwaited { detail } => OutcomeView::Failure(
            "failed to await command `"@ + command + "`: "@ + detail@,
        ),
        ChildEvent::Exited { success, status, stdout, stderr } => if success {
            OutcomeView::Success(value_or_text(serde_text::parsed_json(written(stdout@)), written(stdout@)))
        } else {
            OutcomeView::Failure("command `"@ + command + "` exited with "@ + status@ + ": "@ + written(stderr@))
        },
    }
}

/// A text as a value, given what it was read as.
pub fn choose_value(parsed: Result<Json, String>, t: String) -> (r: Json)
    ensures
        r@ == value_or_text(
            match parsed {
                Ok(j) => Ok(j@),
                Err(e) => Err(e@),
            },
            t@,
        ),
{
    broadcast use crate::json::group_json;

    match parsed {
        Ok(j) => j,
        Err(_) => Json::Str(t),
    }
}

/// What became of the run, from what became of the child.
pub fn child_outcome(command: &str, event: ChildEvent) -> (r: Outcome)
    ensures
        r@ == outcome_of(command@, event),
{
    match event {
        ChildEvent::NotStarted { detail } => Outcome::Failure(
            error::words4("failed to spawn command `", command, "`: ", &detail),
        ),
        ChildEvent::NotAwaited { detail } => Outcome::Failure(
            error::words4("failed to await command `", command, "`: ", &detail),
        ),
        ChildEvent::Exited { success, status, stdout, stderr } => if success {
            let t = text::trim(&bytes::lossy_text(&stdout));
            let parsed = serde_text::parse_json(&t);
            Outcome::Success(choose_value(parsed, t))
        } else {
            let t = text::trim(&bytes::lossy_text(&stderr));
            let mut words = error::words5("command `", command, "` exited with ", &status, ": ");
            words.append(&t);
            Outcome::Failure(words)
        },
    }
}

// ---------------------------------------------------------------------------
// Runs that are over when they are known

/// What the outcomes say, by handle.
pub open spec fn outcomes_view(m: Map<Seq<char>, Outcome>) -> Map<Seq<char>, OutcomeView> {
    m.map_values(|o: Outcome| o@)
}

/// Runs that are over, and the number for the next.
pub struct FinishedRuns {
    pub outcomes: Table<Outcome>,
    pub next_id: u64,
}

pub struct FinishedRunsView {
    pub outcomes: Map<Seq<char>, OutcomeView>,
    pub next_id: u64,
}

impl View for FinishedRuns {
    type V = FinishedRunsView;

    open spec fn view(&self) -> FinishedRunsView {
        FinishedRunsView { outcomes: outcomes_view(self.outcomes@), next_id: self.next_id }
    }
}

impl FinishedRuns {
    /// No runs.
    pub fn new() -> (r: Self)
        ensures
            r@.next_id == 0,
            r@.outcomes == Map::<Seq<char>, OutcomeView>::empty(),
    {
        let r = FinishedRuns { outcomes: Table::new(), next_id: 0 };
        assert(r@.outcomes =~= Map::<Seq<char>, OutcomeView>::empty());
        r
    }

    /// A handle with the next number.
    pub fn mint(&mut self, prefix: &str) -> (r: RunHandle)
        requires
            old(self).next_id < u64::MAX,
        ensures
            r@ == prefix@ + text::decimal(old(self).next_id as nat),
            final(self)@.next_id == old(self)@.next_id + 1,
            final(self)@.outcomes == old(self)@.outcomes,
    {
        let id = text::concat2(prefix, &text::decimal_u64(self.next_id));
        self.next_id = self.next_id + 1;
        RunHandle::new(id)
    }

    /// Enters what became of a run.
    pub fn finish(&mut self, handle: &RunHandle, outcome: Outcome)
        ensures
            final(self)@.outcomes == old(self)@.outcomes.insert(handle@, outcome@),
            final(self)@.next_id == old(self)@.next_id,
    {
        let ghost before = self.outcomes@;
        self.outcomes.insert(handle.id().clone(), outcome);
        assert(outcomes_view(self.outcomes@) =~= outcomes_view(before).insert(handle@, outcome@));
    }

    /// A run that is known is over.
    pub fn status(&self, handle: &RunHandle, unknown: &str) -> (r: Result<RunStatus, ServiceError>)
        ensures
            match r {
                Ok(s) => self@.outcomes.dom().contains(handle@) && s == RunStatus::Completed,
                Err(e) => !self@.outcomes.dom().contains(handle@) && e@ == unknown@,
            },
    {
        if self.outcomes.contains_key(handle.id()) {
            Ok(RunStatus::Completed)
        } else {
            Err(ServiceError { detail: unknown.to_owned() })
        }
    }

    /// What became of a run: what it produced, or why it failed.
    pub fn result(&self, handle: &RunHandle, unknown: &str) -> (r: Result<Option<Json>, ServiceError>)
        ensures
            match r {
                Ok(v) => self@.outcomes.dom().contains(handle@) && v is Some && self@.outcomes[handle@]
                    == OutcomeView::Success(v->0@),
                Err(e) => if self@.outcomes.dom().contains(handle@) {
                    self@.outcomes[handle@] == OutcomeView::Failure(e@)
                } else {
                    e@ == unknown@
                },
            },
    {
        match self.outcomes.get(handle.id()) {
            Some(Outcome::Success(v)) => Ok(Some(v.copy())),
            Some(Outcome::Failure(d)) => Err(ServiceError { detail: d.clone() }),
            None => Err(ServiceError { detail: unknown.to_owned() }),
        }
    }
}

// ---------------------------------------------------------------------------
// What holds of it all

/// A child that ended well makes a success of what it wrote to its standard output, without the white
/// space around it: as the JSON that it is, or as a text where it is none. Whatever else became of it
/// is a failure that names the command, and, where it ran, its status and what it wrote to its standard
/// error.
pub proof fn children_make_outcomes(
    command: Seq<char>,
    detail: String,
    status: String,
    stdout: Vec<u8>,
    stderr: Vec<u8>,
)
    ensures
        ({
            let out = text::trimmed(bytes::lossy(stdout@));
            let err = text::trimmed(bytes::lossy(stderr@));
            let well = outcome_of(command, ChildEvent::Exited { success: true, status, stdout, stderr });
            let badly = outcome_of(command, ChildEvent::Exited { success: false, status, stdout, stderr });
            &&& serde_text::parsed_json(out) matches Ok(v) ==> well == OutcomeView::Success(v)
            &&& serde_text::parsed_json(out) is Err ==> well == OutcomeView::Success(JsonView::Str(out))
            &&& badly == OutcomeView::Failure("command `"@ + command + "` exited with "@ + status@ + ": "@ + err)
        }),
        outcome_of(command, ChildEvent::NotStarted { detail }) == OutcomeView::Failure(
            "failed to spawn command `"@ + command + "`: "@ + detail@,
        ),
        outcome_of(command, ChildEvent::NotAwaited { detail }) == OutcomeView::Failure(
            "failed to await command `"@ + command + "`: "@ + detail@,
        ),
{
}

/// A run is known once it is finished, and from then on: it is complete, and its result is what it was
/// finished with, a value or a failure. Of a run that was not finished nothing is known.
pub proof fn finished_runs_are_known(
    before: FinishedRuns,
    after: FinishedRuns,
    h: RunHandle,
    outcome: Outcome,
    other: RunHandle,
    unknown: &str,
    s: Result<RunStatus, ServiceError>,
    v: Result<Option<Json>, ServiceError>,
)
    requires
        exists|t: &mut FinishedRuns|
            #![trigger call_ensures(FinishedRuns::finish, (t, &h, outcome), ())]
            *t == before && *final(t) == after && call_ensures(FinishedRuns::finish, (t, &h, outcome), ()),
        call_ensures(FinishedRuns::status, (&after, &other, unknown), s),
        call_ensures(FinishedRuns::result, (&after, &other, unknown), v),
    ensures
        after.next_id == before.next_id,
        other@ == h@ ==> s == Ok::<RunStatus, ServiceError>(RunStatus::Completed),
        other@ == h@ ==> match outcome {
            Outcome::Success(j) => v matches Ok(Some(w)) && w@ == j@,
            Outcome::Failure(why) => v matches Err(e) && e.detail@ == why@,
        },
        other@ != h@ ==> (s is Ok <==> before@.outcomes.dom().contains(other@)),
        other@ != h@ && !before@.outcomes.dom().contains(other@) ==> s is Err && v is Err && s->Err_0.detail@
            == unknown@ && v->Err_0.detail@ == unknown@,
        other@ != h@ && before@.outcomes.dom().contains(other@) ==> match before@.outcomes[other@] {
            OutcomeView::Success(j) => v matches Ok(Some(w)) && w@ == j,
            OutcomeView::Failure(why) => v matches Err(e) && e.detail@ == why,
        },
{
}

/// Handles are numbered from nothing on, each by the number after the one before.
pub proof fn handles_are_numbered(fresh: FinishedRuns, before: FinishedRuns, after: FinishedRuns, prefix: &str, h: RunHandle)
    requires
        call_ensures(FinishedRuns::new, (), fresh),
        exists|t: &mut FinishedRuns|
            #![trigger call_ensures(FinishedRuns::mint, (t, prefix), h)]
            *t == before && *final(t) == after && call_ensures(FinishedRuns::mint, (t, prefix), h),
    ensures
        fresh.next_id == 0,
        fresh.outcomes@.dom() == Set::<Seq<char>>::empty(),
        h@ == prefix@ + text::decimal(before.next_id as nat),
        after.next_id == before.next_id + 1,
        after@.outcomes == before@.outcomes,
{
    assert(fresh@.outcomes.dom() =~= fresh.outcomes@.dom());
}

/// What is seen of an outcome is what it is.
pub proof fn outcomes_are_seen_as_they_are(o: Outcome, m: Map<Seq<char>, Outcome>, k: Seq<char>)
    ensures
        o matches Outcome::Success(j) ==> o@ == OutcomeView::Success(j@),
        o matches Outcome::Failure(why) ==> o@ == OutcomeView::Failure(why@),
        outcomes_view(m).dom().contains(k) <==> m.dom().contains(k),
        m.dom().contains(k) ==> outcomes_view(m)[k] == m[k]@,
{
}

} // verus!
