//! The runs that the daemon knows of, each with the steps it took.

pub mod run_id;
pub mod store;

use vstd::prelude::*;

use crate::activity::run_id::RunIdMinter;
use crate::activity::store::{ActivityRecord, RecordView};
use crate::json::Json;
use crate::json::JsonView;
use crate::table;
use crate::table::Table;
use crate::wire;
use crate::wire::{ActivityEvent, ActivityLogEvent, ActivityPhase, ActivityStatus, Envelope, EventView, LogView};

verus! {

/// How a run is shown after a step.
pub open spec fn status_of_phase(phase: ActivityPhase) -> ActivityStatus {
    match phase {
        ActivityPhase::Invoked => ActivityStatus::NotStarted,
        ActivityPhase::Running => ActivityStatus::Running,
        ActivityPhase::Completed => ActivityStatus::Success,
        ActivityPhase::Failed => ActivityStatus::Failure,
    }
}

/// How a run is shown after a step.
pub fn status_for_phase(phase: ActivityPhase) -> (r: ActivityStatus)
    ensures
        r == status_of_phase(phase),
{
    match phase {
        ActivityPhase::Invoked => ActivityStatus::NotStarted,
        ActivityPhase::Running => ActivityStatus::Running,
        ActivityPhase::Completed => ActivityStatus::Success,
        ActivityPhase::Failed => ActivityStatus::Failure,
    }
}

/// What the runs say, by id.
pub open spec fn events_view(m: Map<Seq<char>, ActivityEvent>) -> Map<Seq<char>, EventView> {
    m.map_values(|e: ActivityEvent| e@)
}

/// A run of which no step is known yet.
pub open spec fn blank_event(r: RecordView) -> EventView {
    EventView {
        run_id: r.run_id,
        workflow_id: r.workflow_id,
        client_name: r.client_name,
        session_id: r.session_id,
        status: ActivityStatus::NotStarted,
        started_at_ms: r.at_ms,
        log: Seq::empty(),
    }
}

/// A run after one step more.
pub open spec fn with_step(e: EventView, phase: ActivityPhase, at_ms: u64, detail: Option<JsonView>) -> EventView {
    EventView { status: status_of_phase(phase), log: e.log.push(LogView { phase, at_ms, detail }), ..e }
}

/// The runs after one record more.
pub open spec fn after_record(m: Map<Seq<char>, EventView>, r: RecordView) -> Map<Seq<char>, EventView> {
    let e = if m.dom().contains(r.run_id) {
        m[r.run_id]
    } else {
        blank_event(r)
    };
    m.insert(r.run_id, with_step(e, r.phase, r.at_ms, r.detail))
}

/// The runs that the records tell of.
pub open spec fn after_records(rs: Seq<RecordView>) -> Map<Seq<char>, EventView>
    decreases rs.len(),
{
    if rs.len() == 0 {
        Map::empty()
    } else {
        after_record(after_records(rs.drop_last()), rs.last())
    }
}

/// The first number that is larger than that of any run in the records.
pub open spec fn next_number(rs: Seq<RecordView>) -> nat
    decreases rs.len(),
{
    if rs.len() == 0 {
        0
    } else {
        let n = next_number(rs.drop_last());
        match run_id::run_number(rs.last().run_id) {
            Some(k) => if k + 1 > n {
                k + 1
            } else {
                n
            },
            None => n,
        }
    }
}

/// No run in the records has the largest number there is: there is one to go on with.
pub open spec fn numbers_left(rs: Seq<RecordView>) -> bool {
    forall|i: int| 0 <= i < rs.len() ==> run_id::run_number(#[trigger] rs[i].run_id) != Some(u64::MAX as nat)
}

/// The runs that the daemon knows of, by id: never merged by workflow.
pub struct ActivityRegistry {
    pub minter: RunIdMinter,
    pub activities: Table<ActivityEvent>,
    pub store_dir: Option<String>,
}

pub struct RegistryView {
    pub next: u64,
    pub activities: Map<Seq<char>, EventView>,
    pub store_dir: Option<Seq<char>>,
}

impl View for ActivityRegistry {
    type V = RegistryView;

    open spec fn view(&self) -> RegistryView {
        RegistryView {
            next: self.minter.next,
            activities: events_view(self.activities@),
            store_dir: crate::definition::optional_text(self.store_dir),
        }
    }
}

impl RegistryView {
    /// The registry is what a daemon makes of the records when it starts.
    pub open spec fn is_replay_of(self, rs: Seq<RecordView>) -> bool {
        self.activities == after_records(rs) && self.next == next_number(rs)
    }
}

/// The runs in the order of their ids.
pub open spec fn runs_listed(m: Map<Seq<char>, EventView>) -> Seq<EventView> {
    table::listed(m.dom()).map_values(|id: Seq<char>| m[id])
}

proof fn rows_are_the_runs(r: ActivityRegistry)
    requires
        table::in_key_order(r.activities.rows()),
    ensures
        runs_listed(r@.activities) == Seq::new(r.activities.rows().len(), |i: int| r.activities.rows()[i].1@),
{
    let rows = r.activities.rows();
    table::keys_are_listed(rows);
    assert(r@.activities.dom() =~= r.activities@.dom());
    assert forall|i: int| 0 <= i < rows.len() implies r@.activities[#[trigger] rows[i].0] == rows[i].1@ by {
        table::row_is_unique(rows, i);
    }
    assert(runs_listed(r@.activities) =~= Seq::new(rows.len(), |i: int| rows[i].1@));
}

/// What the records say.
pub open spec fn records_view(rs: Seq<ActivityRecord>) -> Seq<RecordView> {
    rs.map_values(|r: ActivityRecord| r@)
}

/// Whether there is a number left after those in the records.
pub fn has_numbers_left(records: &Vec<ActivityRecord>) -> (r: bool)
    ensures
        r == numbers_left(records_view(records@)),
{
    let mut i: usize = 0;
    while i < records.len()
        invariant
            i <= records@.len(),
            forall|j: int|
                0 <= j < i ==> run_id::run_number(#[trigger] records_view(records@)[j].run_id) != Some(u64::MAX as nat),
        decreases records@.len() - i,
    {
        if let Some(n) = run_id::number_in("run-", &records[i].run_id) {
            if n == u64::MAX {
                assert(run_id::run_number(records_view(records@)[i as int].run_id) == Some(u64::MAX as nat));
                return false;
            }
        }
        i = i + 1;
    }
    true
}

proof fn known_runs_are_below(rs: Seq<RecordView>, id: Seq<char>)
    requires
        after_records(rs).dom().contains(id),
    ensures
        match run_id::run_number(id) {
            Some(k) => k < next_number(rs),
            None => true,
        },
    decreases rs.len(),
{
    if rs.len() > 0 && id != rs.last().run_id {
        known_runs_are_below(rs.drop_last(), id);
    }
}

impl ActivityRegistry {
    /// A registry that knows of no runs and keeps nothing on disk.
    pub fn new() -> (r: Self)
        ensures
            r@.next == 0,
            r@.activities == Map::<Seq<char>, EventView>::empty(),
            r@.store_dir is None,
            r@.is_replay_of(Seq::empty()),
    {
        let r = ActivityRegistry { minter: RunIdMinter::new(), activities: Table::new(), store_dir: None };
        assert(r@.activities =~= Map::<Seq<char>, EventView>::empty());
        r
    }

    /// The registry that the records tell of, which goes on where they end: no id among them is
    /// minted again.
    pub fn from_records(dir: String, records: Vec<ActivityRecord>) -> (r: Self)
        requires
            numbers_left(records_view(records@)),
        ensures
            r@.store_dir == Some(dir@),
            r@.is_replay_of(records_view(records@)),
    {
        let ghost all = records_view(records@);
        let mut activities: Table<ActivityEvent> = Table::new();
        let mut max_seen: u64 = 0;
        assert(all.take(0) =~= Seq::<RecordView>::empty());
        assert(events_view(activities@) =~= Map::<Seq<char>, EventView>::empty());
        for record in it: records
            invariant
                all == records_view(it.seq()),
                numbers_left(all),
                events_view(activities@) == after_records(all.take(it.index())),
                max_seen == next_number(all.take(it.index())),
        {
            let ghost i = it.index();
            let ghost r = all[i];
            proof {
                assert(record@ == r);
                assert(all.take(i + 1).drop_last() =~= all.take(i));
                assert(all.take(i + 1).last() == r);
                assert(run_id::run_number(all[i].run_id) != Some(u64::MAX as nat));
            }
            if let Some(k) = run_id::number_in("run-", &record.run_id) {
                if k + 1 > max_seen {
                    max_seen = k + 1;
                }
            }
            let ghost before = activities@;
            let entry = match activities.remove(&record.run_id) {
                Some(e) => e,
                None => ActivityEvent {
                    run_id: record.run_id.clone(),
                    workflow_id: record.workflow_id,
                    client_name: record.client_name,
                    session_id: record.session_id,
                    status: ActivityStatus::NotStarted,
                    started_at_ms: record.at_ms,
                    log: Vec::new(),
                },
            };
            let mut log = entry.log;
            let ghost old_log = log@;
            let step = ActivityLogEvent { phase: record.phase, at_ms: record.at_ms, detail: record.detail };
            log.push(step);
            let e = ActivityEvent {
                run_id: entry.run_id,
                workflow_id: entry.workflow_id,
                client_name: entry.client_name,
                session_id: entry.session_id,
                status: status_for_phase(record.phase),
                started_at_ms: entry.started_at_ms,
                log,
            };
            let ghost key = record.run_id@;
            activities.insert(record.run_id, e);
            proof {
                assert(wire::log_view(log@) =~= wire::log_view(old_log).push(step@));
                assert(wire::log_view(Seq::<ActivityLogEvent>::empty()) =~= Seq::<LogView>::empty());
                assert(events_view(activities@) =~= after_record(events_view(before), r));
            }
        }
        assert(all.take(all.len() as int) =~= all);
        ActivityRegistry { minter: RunIdMinter::with_start(max_seen), activities, store_dir: Some(dir) }
    }

    /// Mints an id for a run that starts now, and enters the run. Also gives the record to keep.
    pub fn mint_run_id(
        &mut self,
        workflow_id: &str,
        client_name: &str,
        session_id: &str,
        now_ms: u64,
    ) -> (r: (String, ActivityRecord))
        ensures
            r.0@ == run_id::run_id(old(self)@.next as nat),
            r.1@ == (RecordView {
                run_id: r.0@,
                workflow_id: workflow_id@,
                client_name: client_name@,
                session_id: session_id@,
                phase: ActivityPhase::Invoked,
                at_ms: now_ms,
                detail: None,
            }),
            final(self)@.activities == old(self)@.activities.insert(
                r.0@,
                with_step(blank_event(r.1@), ActivityPhase::Invoked, now_ms, None),
            ),
            final(self)@.next == if old(self)@.next < u64::MAX {
                (old(self)@.next + 1) as u64
            } else {
                0
            },
            final(self)@.store_dir == old(self)@.store_dir,
            forall|rs: Seq<RecordView>| #[trigger]
                old(self)@.is_replay_of(rs) && old(self)@.next < u64::MAX ==> !old(self)@.activities.dom().contains(
                    r.0@,
                ) && final(self)@.is_replay_of(rs.push(r.1@)),
    {
        let ghost before = *self;
        let run_id = self.minter.mint();
        let step = ActivityLogEvent { phase: ActivityPhase::Invoked, at_ms: now_ms, detail: None };
        let mut log: Vec<ActivityLogEvent> = Vec::new();
        log.push(step);
        let event = ActivityEvent {
            run_id: run_id.clone(),
            workflow_id: workflow_id.to_owned(),
            client_name: client_name.to_owned(),
            session_id: session_id.to_owned(),
            status: status_for_phase(ActivityPhase::Invoked),
            started_at_ms: now_ms,
            log,
        };
        self.activities.insert(run_id.clone(), event);
        let record = ActivityRecord {
            run_id: run_id.clone(),
            workflow_id: workflow_id.to_owned(),
            client_name: client_name.to_owned(),
            session_id: session_id.to_owned(),
            phase: ActivityPhase::Invoked,
            at_ms: now_ms,
            detail: None,
        };
        proof {
            assert(wire::log_view(log@) =~= Seq::<LogView>::empty().push(step@));
            assert(self@.activities =~= before@.activities.insert(
                run_id@,
                with_step(blank_event(record@), ActivityPhase::Invoked, now_ms, None),
            ));
            assert forall|rs: Seq<RecordView>| #[trigger] before@.is_replay_of(rs) && before@.next
                < u64::MAX implies !before@.activities.dom().contains(run_id@) && self@.is_replay_of(
                rs.push(record@),
            ) by {
                run_id::number_read_back("run-"@, before@.next as nat);
                if before@.activities.dom().contains(run_id@) {
                    known_runs_are_below(rs, run_id@);
                }
                assert(rs.push(record@).drop_last() =~= rs);
            }
        }
        (run_id, record)
    }

    /// Enters a step of a known run, and gives the record to keep. A run that is not known is
    /// left alone.
    pub fn record_transition(&mut self, run_id: &str, phase: ActivityPhase, detail: Option<Json>, now_ms: u64) -> (r:
        Option<ActivityRecord>)
        ensures
            final(self)@.next == old(self)@.next,
            final(self)@.store_dir == old(self)@.store_dir,
            match r {
                None => !old(self)@.activities.dom().contains(run_id@) && final(self)@.activities
                    == old(self)@.activities,
                Some(record) => {
                    let e = old(self)@.activities[run_id@];
                    &&& old(self)@.activities.dom().contains(run_id@)
                    &&& final(self)@.activities == old(self)@.activities.insert(
                        run_id@,
                        with_step(e, phase, now_ms, wire::optional_json(detail)),
                    )
                    &&& record@ == (RecordView {
                        run_id: run_id@,
                        workflow_id: e.workflow_id,
                        client_name: e.client_name,
                        session_id: e.session_id,
                        phase,
                        at_ms: now_ms,
                        detail: wire::optional_json(detail),
                    })
                    &&& forall|rs: Seq<RecordView>| #[trigger]
                        old(self)@.is_replay_of(rs) ==> final(self)@.is_replay_of(rs.push(record@))
                },
            },
    {
        let ghost before = *self;
        match self.activities.remove(run_id) {
            Some(event) => {
                let mut log = event.log;
                let ghost old_log = log@;
                let step = ActivityLogEvent { phase, at_ms: now_ms, detail: wire::copy_optional_json(&detail) };
                log.push(step);
                let record = ActivityRecord {
                    run_id: run_id.to_owned(),
                    workflow_id: event.workflow_id.clone(),
                    client_name: event.client_name.clone(),
                    session_id: event.session_id.clone(),
                    phase,
                    at_ms: now_ms,
                    detail,
                };
                let e = ActivityEvent {
                    run_id: event.run_id,
                    workflow_id: event.workflow_id,
                    client_name: event.client_name,
                    session_id: event.session_id,
                    status: status_for_phase(phase),
                    started_at_ms: event.started_at_ms,
                    log,
                };
                self.activities.insert(run_id.to_owned(), e);
                proof {
                    assert(wire::log_view(log@) =~= wire::log_view(old_log).push(step@));
                    let old_e = before@.activities[run_id@];
                    assert(old_e == event@);
                    assert(e@ == with_step(old_e, phase, now_ms, wire::optional_json(detail)));
                    assert(self@.activities =~= before@.activities.insert(run_id@, e@));
                    assert forall|rs: Seq<RecordView>| #[trigger]
                        before@.is_replay_of(rs) implies self@.is_replay_of(rs.push(record@)) by {
                        known_runs_are_below(rs, run_id@);
                        assert(rs.push(record@).drop_last() =~= rs);
                    }
                }
                Some(record)
            },
            None => {
                assert(self@.activities =~= before@.activities);
                None
            },
        }
    }

    /// Every run, in the order of the ids.
    pub fn snapshot(&self) -> (r: Vec<ActivityEvent>)
        ensures
            r@.map_values(|e: ActivityEvent| e@) == runs_listed(self@.activities),
    {
        let ghost rows = self.activities.rows();
        let mut out: Vec<ActivityEvent> = Vec::new();
        let n = self.activities.len();
        let mut i: usize = 0;
        while i < n
            invariant
                i <= n,
                rows == self.activities.rows(),
                n == rows.len(),
                out@.len() == i,
                forall|j: int| 0 <= j < i ==> (#[trigger] out@[j])@ == rows[j].1@,
            decreases n - i,
        {
            out.push(self.activities.value_at(i).copy());
            i = i + 1;
        }
        proof {
            rows_are_the_runs(*self);
            assert(out@.map_values(|e: ActivityEvent| e@) =~= runs_listed(self@.activities));
        }
        out
    }

    /// Every run as a frame for a client.
    pub fn snapshot_as_events(&self) -> (r: Vec<Envelope>)
        ensures
            r@.len() == runs_listed(self@.activities).len(),
            forall|i: int|
                0 <= i < r@.len() ==> (#[trigger] r@[i] matches Envelope::Activity { event } && event@ == runs_listed(
                    self@.activities,
                )[i]),
    {
        let ghost rows = self.activities.rows();
        let mut out: Vec<Envelope> = Vec::new();
        let n = self.activities.len();
        let mut i: usize = 0;
        while i < n
            invariant
                i <= n,
                rows == self.activities.rows(),
                n == rows.len(),
                out@.len() == i,
                forall|j: int|
                    0 <= j < i ==> (#[trigger] out@[j] matches Envelope::Activity { event } && event@ == rows[j].1@),
            decreases n - i,
        {
            out.push(Envelope::Activity { event: self.activities.value_at(i).copy() });
            i = i + 1;
        }
        proof {
            rows_are_the_runs(*self);
        }
        out
    }

    /// The run with the id, where it is known.
    pub fn get(&self, run_id: &str) -> (r: Option<ActivityEvent>)
        ensures
            match r {
                Some(e) => self@.activities.dom().contains(run_id@) && self@.activities[run_id@] == e@,
                None => !self@.activities.dom().contains(run_id@),
            },
    {
        match self.activities.get(run_id) {
            Some(e) => Some(e.copy()),
            None => None,
        }
    }
}

impl Default for ActivityRegistry {
    fn default() -> (r: Self)
        ensures
            r@.is_replay_of(Seq::empty()),
            r@.store_dir is None,
    {
        ActivityRegistry::new()
    }
}

// ---------------------------------------------------------------------------
// What holds of it all

/// A run is shown as not started, running, a success or a failure, by the last step that it took.
pub proof fn runs_are_shown_by_their_last_step(phase: ActivityPhase, r: ActivityStatus)
    requires
        call_ensures(status_for_phase, (phase,), r),
    ensures
        r == ActivityStatus::NotStarted <==> phase == ActivityPhase::Invoked,
        r == ActivityStatus::Running <==> phase == ActivityPhase::Running,
        r == ActivityStatus::Success <==> phase == ActivityPhase::Completed,
        r == ActivityStatus::Failure <==> phase == ActivityPhase::Failed,
{
}

/// A run that is entered is known under the next id, with who asked for it, from when on, and its
/// first step; every other run is as it was. The record that is kept says the same.
pub proof fn entered_runs_are_known(
    before: ActivityRegistry,
    after: ActivityRegistry,
    workflow_id: &str,
    client_name: &str,
    session_id: &str,
    now_ms: u64,
    r: (String, ActivityRecord),
    id: &str,
    e: Option<ActivityEvent>,
)
    requires
        exists|t: &mut ActivityRegistry|
            #![trigger call_ensures(ActivityRegistry::mint_run_id, (t, workflow_id, client_name, session_id, now_ms), r)]
            *t == before && *final(t) == after && call_ensures(
                ActivityRegistry::mint_run_id,
                (t, workflow_id, client_name, session_id, now_ms),
                r,
            ),
        call_ensures(ActivityRegistry::get, (&after, id), e),
    ensures
        r.0@ == "run-"@ + crate::text::decimal(before.minter.next as nat),
        before.minter.next < u64::MAX ==> after.minter.next == before.minter.next + 1,
        id@ == r.0@ ==> (e matches Some(run) && run.run_id@ == r.0@ && run.workflow_id@ == workflow_id@
            && run.client_name@ == client_name@ && run.session_id@ == session_id@ && run.status
            == ActivityStatus::NotStarted && run.started_at_ms == now_ms && run.log@.len() == 1 && run.log@[0].phase
            == ActivityPhase::Invoked && run.log@[0].at_ms == now_ms && run.log@[0].detail is None),
        id@ != r.0@ ==> (e is Some <==> before@.activities.dom().contains(id@)),
        id@ != r.0@ && e is Some ==> e->0@ == before@.activities[id@],
        r.1.run_id@ == r.0@,
        r.1.workflow_id@ == workflow_id@,
        r.1.client_name@ == client_name@,
        r.1.session_id@ == session_id@,
        r.1.phase == ActivityPhase::Invoked,
        r.1.at_ms == now_ms,
        r.1.detail is None,
{
    let shown = with_step(blank_event(r.1@), ActivityPhase::Invoked, now_ms, None);
    assert(r.1@.detail is None);
    if id@ == r.0@ {
        let run = e->0;
        assert(run@ == shown);
        assert(wire::log_view(run.log@).len() == run.log@.len());
        assert(shown.log.len() == 1);
        assert(wire::log_view(run.log@)[0] == run.log@[0]@);
    }
}

/// A step of a known run is added at the end of its steps and shows it anew; what was known of the run,
/// and every other run, stays as it was. A step of a run that is not known changes nothing.
pub proof fn steps_are_added_at_the_end(
    before: ActivityRegistry,
    after: ActivityRegistry,
    run_id: &str,
    phase: ActivityPhase,
    detail: Option<Json>,
    now_ms: u64,
    r: Option<ActivityRecord>,
    id: &str,
    e: Option<ActivityEvent>,
    i: int,
)
    requires
        exists|t: &mut ActivityRegistry|
            #![trigger call_ensures(ActivityRegistry::record_transition, (t, run_id, phase, detail, now_ms), r)]
            *t == before && *final(t) == after && call_ensures(
                ActivityRegistry::record_transition,
                (t, run_id, phase, detail, now_ms),
                r,
            ),
        call_ensures(ActivityRegistry::get, (&after, id), e),
    ensures
        r is Some <==> before@.activities.dom().contains(run_id@),
        e is Some <==> before@.activities.dom().contains(id@),
        after.minter.next == before.minter.next,
        e is Some && (id@ != run_id@ || r is None) ==> e->0@ == before@.activities[id@],
        e is Some && id@ == run_id@ ==> {
            let run = e->0@;
            let was = before@.activities[id@];
            &&& run.run_id == was.run_id && run.workflow_id == was.workflow_id && run.client_name == was.client_name
            &&& run.session_id == was.session_id && run.started_at_ms == was.started_at_ms
            &&& run.log.len() == was.log.len() + 1
            &&& 0 <= i < was.log.len() ==> run.log[i] == was.log[i]
            &&& run.log.last().phase == phase && run.log.last().at_ms == now_ms && run.log.last().detail
                == wire::optional_json(detail)
            &&& phase == ActivityPhase::Invoked ==> run.status == ActivityStatus::NotStarted
            &&& phase == ActivityPhase::Running ==> run.status == ActivityStatus::Running
            &&& phase == ActivityPhase::Completed ==> run.status == ActivityStatus::Success
            &&& phase == ActivityPhase::Failed ==> run.status == ActivityStatus::Failure
        },
        r is Some ==> {
            let was = before@.activities[run_id@];
            let kept = r->0@;
            &&& kept.run_id == run_id@ && kept.workflow_id == was.workflow_id && kept.client_name == was.client_name
            &&& kept.session_id == was.session_id && kept.phase == phase && kept.at_ms == now_ms && kept.detail
                == wire::optional_json(detail)
        },
{
}

/// What is read back of a record: the run with its steps before, and this one; a run that is told of
/// for the first time has the name, the client, the session and the time of that record.
pub proof fn records_are_read_in_order(rs: Seq<RecordView>, r: RecordView, id: Seq<char>)
    ensures
        after_records(Seq::empty()).dom() == Set::<Seq<char>>::empty(),
        after_records(rs.push(r)).dom() == after_records(rs).dom().insert(r.run_id),
        id != r.run_id && after_records(rs).dom().contains(id) ==> after_records(rs.push(r))[id] == after_records(rs)[id],
        ({
            let run = after_records(rs.push(r))[r.run_id];
            let known = after_records(rs).dom().contains(r.run_id);
            let was = after_records(rs)[r.run_id];
            &&& known ==> run.run_id == was.run_id && run.workflow_id == was.workflow_id && run.client_name
                == was.client_name && run.session_id == was.session_id && run.started_at_ms == was.started_at_ms
                && run.log.drop_last() == was.log
            &&& !known ==> run.run_id == r.run_id && run.workflow_id == r.workflow_id && run.client_name
                == r.client_name && run.session_id == r.session_id && run.started_at_ms == r.at_ms && run.log.len() == 1
            &&& run.log.last().phase == r.phase && run.log.last().at_ms == r.at_ms && run.log.last().detail == r.detail
            &&& r.phase == ActivityPhase::Invoked ==> run.status == ActivityStatus::NotStarted
            &&& r.phase == ActivityPhase::Running ==> run.status == ActivityStatus::Running
            &&& r.phase == ActivityPhase::Completed ==> run.status == ActivityStatus::Success
            &&& r.phase == ActivityPhase::Failed ==> run.status == ActivityStatus::Failure
        }),
{
    assert(rs.push(r).drop_last() =~= rs);
    let run = after_records(rs.push(r))[r.run_id];
    let was = after_records(rs)[r.run_id];
    if after_records(rs).dom().contains(r.run_id) {
        assert(run.log.drop_last() =~= was.log);
    }
    assert(after_records(rs.push(r)).dom() =~= after_records(rs).dom().insert(r.run_id));
    assert(after_records(Seq::empty()).dom() =~= Set::<Seq<char>>::empty());
}

/// The registry of a daemon that starts knows the runs of the records it found, and goes on with a
/// number that is larger than that of any of them, the least such number.
pub proof fn registries_go_on_where_the_records_end(
    dir: String,
    records: Vec<ActivityRecord>,
    r: ActivityRegistry,
    fresh: ActivityRegistry,
    at: int,
)
    requires
        call_ensures(ActivityRegistry::from_records, (dir, records), r),
        call_ensures(ActivityRegistry::new, (), fresh),
        0 <= at < records@.len(),
    ensures
        r@.activities == after_records(records_view(records@)),
        r.store_dir is Some && r.store_dir->0@ == dir@,
        fresh.minter.next == 0 && fresh.store_dir is None && fresh@.activities.dom() == Set::<Seq<char>>::empty(),
        run_id::run_number(records@[at].run_id@) matches Some(k) ==> k < r.minter.next,
        r.minter.next > 0 ==> exists|j: int|
            0 <= j < records@.len() && run_id::run_number((#[trigger] records@[j]).run_id@) == Some(
                (r.minter.next - 1) as nat,
            ),
{
    let rs = records_view(records@);
    assert(rs[at].run_id == records@[at].run_id@);
    numbers_stay_below(rs, at);
    if r.minter.next > 0 {
        let j = next_number_was_reached(rs);
        assert(rs[j].run_id == records@[j].run_id@);
    }
    assert(fresh@.activities.dom() =~= Set::<Seq<char>>::empty());
}

proof fn numbers_stay_below(rs: Seq<RecordView>, at: int)
    requires
        0 <= at < rs.len(),
    ensures
        match run_id::run_number(rs[at].run_id) {
            Some(k) => k < next_number(rs),
            None => true,
        },
    decreases rs.len(),
{
    if at < rs.len() - 1 {
        numbers_stay_below(rs.drop_last(), at);
    }
}

proof fn next_number_was_reached(rs: Seq<RecordView>) -> (j: int)
    requires
        next_number(rs) > 0,
    ensures
        0 <= j < rs.len(),
        run_id::run_number(rs[j].run_id) == Some((next_number(rs) - 1) as nat),
    decreases rs.len(),
{
    match run_id::run_number(rs.last().run_id) {
        Some(k) => if k + 1 > next_number(rs.drop_last()) {
            rs.len() - 1
        } else {
            next_number_was_reached(rs.drop_last())
        },
        None => next_number_was_reached(rs.drop_last()),
    }
}

/// A snapshot holds every run once, as it is known, in the order of the ids; as frames for a client
/// it holds the same runs in the same order.
pub proof fn snapshots_hold_every_run(r: ActivityRegistry, runs: Vec<ActivityEvent>, frames: Vec<Envelope>, i: int)
    requires
        call_ensures(ActivityRegistry::snapshot, (&r,), runs),
        call_ensures(ActivityRegistry::snapshot_as_events, (&r,), frames),
        0 <= i < runs@.len(),
    ensures
        frames@.len() == runs@.len(),
        frames@[i] matches Envelope::Activity { event } && event@ == runs@[i]@,
        runs_listed(r@.activities).len() == runs@.len(),
        runs@[i]@ == r@.activities[table::listed(r@.activities.dom())[i]],
{
    let views = runs@.map_values(|e: ActivityEvent| e@);
    assert(views[i] == runs@[i]@);
    assert(views.len() == runs@.len());
}

/// Two runs, records or steps that look the same are the same in every field.
pub proof fn runs_are_seen_whole(
    a: ActivityEvent,
    b: ActivityEvent,
    x: ActivityRecord,
    y: ActivityRecord,
    p: ActivityLogEvent,
    q: ActivityLogEvent,
    i: int,
)
    ensures
        a@ == b@ ==> a.run_id@ == b.run_id@ && a.workflow_id@ == b.workflow_id@ && a.client_name@ == b.client_name@
            && a.session_id@ == b.session_id@ && a.status == b.status && a.started_at_ms == b.started_at_ms
            && a.log@.len() == b.log@.len() && (0 <= i < a.log@.len() ==> a.log@[i]@ == b.log@[i]@),
        x@ == y@ ==> x.run_id@ == y.run_id@ && x.workflow_id@ == y.workflow_id@ && x.client_name@ == y.client_name@
            && x.session_id@ == y.session_id@ && x.phase == y.phase && x.at_ms == y.at_ms && wire::same_json(
            x.detail,
            y.detail,
        ),
        p@ == q@ ==> p.phase == q.phase && p.at_ms == q.at_ms && wire::same_json(p.detail, q.detail),
{
    if a@ == b@ {
        assert(wire::log_view(a.log@).len() == a.log@.len());
        assert(wire::log_view(b.log@).len() == b.log@.len());
        if 0 <= i < a.log@.len() {
            assert(wire::log_view(a.log@)[i] == a.log@[i]@);
            assert(wire::log_view(b.log@)[i] == b.log@[i]@);
        }
    }
}

/// There is a number left for the next run unless some run has the largest that there is.
pub proof fn numbers_run_out_at_the_largest(records: Vec<ActivityRecord>, left: bool)
    requires
        call_ensures(has_numbers_left, (&records,), left),
    ensures
        left <==> forall|i: int|
            0 <= i < records@.len() ==> run_id::numbered("run-"@, (#[trigger] records@[i]).run_id@) != Some(
                0xffff_ffff_ffff_ffff as nat,
            ),
{
    let rs = records_view(records@);
    assert(rs.len() == records@.len());
    assert forall|i: int| 0 <= i < records@.len() implies (#[trigger] records@[i]).run_id@ == rs[i].run_id by {}
    if left {
        assert forall|i: int| 0 <= i < records@.len() implies run_id::numbered("run-"@, (#[trigger] records@[i]).run_id@)
            != Some(0xffff_ffff_ffff_ffff as nat) by {
            assert(run_id::run_number(rs[i].run_id) != Some(u64::MAX as nat));
        }
    } else {
        let i = choose|i: int|
            0 <= i < rs.len() && run_id::run_number(#[trigger] rs[i].run_id) == Some(u64::MAX as nat);
        assert(records@[i].run_id@ == rs[i].run_id);
    }
}

} // verus!
