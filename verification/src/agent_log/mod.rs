//! The agent runs that the log tells of.

pub mod store;

use vstd::prelude::*;

use crate::activity::run_id;
use crate::agent_log::store::{AgentRunPhase, AgentRunRecord, RunRecordView};
use crate::definition;
use crate::json::{Json, JsonView};
use crate::table;
use crate::table::Table;
use crate::wire;

verus! {

/// The days for which the log is kept.
pub const AGENT_LOG_RETENTION_DAYS: u64 = 7;

/// What is reported of a run that was cut off by a restart.
pub const INTERRUPTED_DETAIL: &'static str = "interrupted: the daemon restarted while this run was still in flight";

/// How an agent run ended, as far as the log tells.
#[derive(Debug, PartialEq)]
pub struct ReplayedRun {
    pub phase: AgentRunPhase,
    pub envelope: Option<Json>,
    pub detail: Option<String>,
}

pub struct ReplayedRunView {
    pub phase: AgentRunPhase,
    pub envelope: Option<JsonView>,
    pub detail: Option<Seq<char>>,
}

impl View for ReplayedRun {
    type V = ReplayedRunView;

    open spec fn view(&self) -> ReplayedRunView {
        ReplayedRunView {
            phase: self.phase,
            envelope: wire::optional_json(self.envelope),
            detail: definition::optional_text(self.detail),
        }
    }
}

/// What a record says of its run once nothing follows it: a start without an end was cut off.
pub open spec fn outcome_of(r: RunRecordView) -> ReplayedRunView {
    if r.phase == AgentRunPhase::Started {
        ReplayedRunView {
            phase: AgentRunPhase::Interrupted,
            envelope: r.envelope,
            detail: Some("interrupted: the daemon restarted while this run was still in flight"@),
        }
    } else {
        ReplayedRunView { phase: r.phase, envelope: r.envelope, detail: r.detail }
    }
}

/// The runs that the records tell of, each as its last record leaves it.
pub open spec fn runs_in(rs: Seq<RunRecordView>) -> Map<Seq<char>, ReplayedRunView>
    decreases rs.len(),
{
    if rs.len() == 0 {
        Map::empty()
    } else {
        runs_in(rs.drop_last()).insert(rs.last().run_id, outcome_of(rs.last()))
    }
}

/// The number in the id of an agent run.
pub open spec fn agent_number(id: Seq<char>) -> Option<nat> {
    run_id::numbered("agent-"@, id)
}

/// The first number that is larger than that of any run in the records.
pub open spec fn next_agent_number(rs: Seq<RunRecordView>) -> nat
    decreases rs.len(),
{
    if rs.len() == 0 {
        0
    } else {
        let n = next_agent_number(rs.drop_last());
        match agent_number(rs.last().run_id) {
            Some(k) => if k + 1 > n {
                k + 1
            } else {
                n
            },
            None => n,
        }
    }
}

/// No run in the records has the largest number there is: there is one to go on with.
pub open spec fn agent_numbers_left(rs: Seq<RunRecordView>) -> bool {
    forall|i: int| 0 <= i < rs.len() ==> agent_number(#[trigger] rs[i].run_id) != Some(u64::MAX as nat)
}

/// What the records say.
pub open spec fn run_records_view(rs: Seq<AgentRunRecord>) -> Seq<RunRecordView> {
    rs.map_values(|r: AgentRunRecord| r@)
}

/// What the runs say, by id.
pub open spec fn replayed_view(m: Map<Seq<char>, ReplayedRun>) -> Map<Seq<char>, ReplayedRunView> {
    m.map_values(|r: ReplayedRun| r@)
}

/// Whether there is a number left after those in the records.
pub fn has_agent_numbers_left(records: &Vec<AgentRunRecord>) -> (r: bool)
    ensures
        r == agent_numbers_left(run_records_view(records@)),
{
    let mut i: usize = 0;
    while i < records.len()
        invariant
            i <= records@.len(),
            forall|j: int|
                0 <= j < i ==> agent_number(#[trigger] run_records_view(records@)[j].run_id) != Some(u64::MAX as nat),
        decreases records@.len() - i,
    {
        if let Some(n) = run_id::number_in("agent-", &records[i].run_id) {
            if n == u64::MAX {
                assert(agent_number(run_records_view(records@)[i as int].run_id) == Some(u64::MAX as nat));
                return false;
            }
        }
        i = i + 1;
    }
    true
}

/// The runs that the records tell of, and the number to go on with: no id among them is used
/// again.
pub fn replay_runs(records: Vec<AgentRunRecord>) -> (r: (Table<ReplayedRun>, u64))
    requires
        agent_numbers_left(run_records_view(records@)),
    ensures
        replayed_view(r.0@) == runs_in(run_records_view(records@)),
        r.1 == next_agent_number(run_records_view(records@)),
{
    let ghost all = run_records_view(records@);
    let mut runs: Table<ReplayedRun> = Table::new();
    let mut max_seen: u64 = 0;
    assert(all.take(0) =~= Seq::<RunRecordView>::empty());
    assert(replayed_view(runs@) =~= Map::<Seq<char>, ReplayedRunView>::empty());
    for record in it: records
        invariant
            all == run_records_view(it.seq()),
            agent_numbers_left(all),
            replayed_view(runs@) == runs_in(all.take(it.index())),
            max_seen == next_agent_number(all.take(it.index())),
    {
        let ghost i = it.index();
        let ghost r = all[i];
        proof {
            assert(record@ == r);
            assert(all.take(i + 1).drop_last() =~= all.take(i));
            assert(all.take(i + 1).last() == r);
            assert(agent_number(all[i].run_id) != Some(u64::MAX as nat));
        }
        if let Some(k) = run_id::number_in("agent-", &record.run_id) {
            if k + 1 > max_seen {
                max_seen = k + 1;
            }
        }
        let run = if record.phase == AgentRunPhase::Started {
            ReplayedRun {
                phase: AgentRunPhase::Interrupted,
                envelope: record.envelope,
                detail: Some(INTERRUPTED_DETAIL.to_owned()),
            }
        } else {
            ReplayedRun { phase: record.phase, envelope: record.envelope, detail: record.detail }
        };
        let ghost before = runs@;
        runs.insert(record.run_id, run);
        proof {
            assert(replayed_view(runs@) =~= replayed_view(before).insert(r.run_id, outcome_of(r)));
        }
    }
    assert(all.take(all.len() as int) =~= all);
    (runs, max_seen)
}

/// No run is left as started: what had no end in the log is reported as interrupted.
pub proof fn no_run_is_left_started(rs: Seq<RunRecordView>, id: Seq<char>)
    requires
        runs_in(rs).dom().contains(id),
    ensures
        runs_in(rs)[id].phase != AgentRunPhase::Started,
    decreases rs.len(),
{
    if rs.len() > 0 && rs.last().run_id != id {
        no_run_is_left_started(rs.drop_last(), id);
    }
}

/// A run is as its last record leaves it.
pub proof fn last_record_counts(rs: Seq<RunRecordView>, at: int)
    requires
        0 <= at < rs.len(),
        forall|j: int| at < j < rs.len() ==> (#[trigger] rs[j]).run_id != rs[at].run_id,
    ensures
        runs_in(rs).dom().contains(rs[at].run_id),
        runs_in(rs)[rs[at].run_id] == outcome_of(rs[at]),
    decreases rs.len(),
{
    if at < rs.len() - 1 {
        assert(rs[rs.len() - 1].run_id != rs[at].run_id);
        last_record_counts(rs.drop_last(), at);
    }
}

/// The number to go on with is in no id that the log holds.
pub proof fn next_number_is_free(rs: Seq<RunRecordView>, at: int)
    requires
        0 <= at < rs.len(),
        next_agent_number(rs) <= u64::MAX,
    ensures
        rs[at].run_id != "agent-"@ + crate::text::decimal(next_agent_number(rs)),
    decreases rs.len(),
{
    numbers_are_below(rs, at);
    run_id::number_read_back("agent-"@, next_agent_number(rs));
}

proof fn numbers_are_below(rs: Seq<RunRecordView>, at: int)
    requires
        0 <= at < rs.len(),
    ensures
        match agent_number(rs[at].run_id) {
            Some(k) => k < next_agent_number(rs),
            None => true,
        },
    decreases rs.len(),
{
    if at < rs.len() - 1 {
        numbers_are_below(rs.drop_last(), at);
    }
}

/// A run whose last record is a start was cut off, and is reported so; any other is as that record
/// says. The envelope that was kept stays with it.
pub proof fn unfinished_runs_were_cut_off(rs: Seq<RunRecordView>, r: RunRecordView, id: Seq<char>)
    ensures
        runs_in(Seq::empty()).dom() == Set::<Seq<char>>::empty(),
        runs_in(rs.push(r)).dom() == runs_in(rs).dom().insert(r.run_id),
        id != r.run_id && runs_in(rs).dom().contains(id) ==> runs_in(rs.push(r))[id] == runs_in(rs)[id],
        ({
            let run = runs_in(rs.push(r))[r.run_id];
            &&& run.envelope == r.envelope
            &&& r.phase == AgentRunPhase::Started ==> run.phase == AgentRunPhase::Interrupted && run.detail == Some(
                "interrupted: the daemon restarted while this run was still in flight"@,
            )
            &&& r.phase != AgentRunPhase::Started ==> run.phase == r.phase && run.detail == r.detail
        }),
{
    assert(rs.push(r).drop_last() =~= rs);
    assert(runs_in(rs.push(r)).dom() =~= runs_in(rs).dom().insert(r.run_id));
    assert(runs_in(Seq::empty()).dom() =~= Set::<Seq<char>>::empty());
}

/// The number to go on with is larger than that of any run in the records, and is the least such
/// number.
pub proof fn next_number_is_the_least(rs: Seq<RunRecordView>, at: int)
    requires
        0 <= at < rs.len(),
    ensures
        run_id::numbered("agent-"@, rs[at].run_id) matches Some(k) ==> k < next_agent_number(rs),
        next_agent_number(rs) > 0 ==> exists|j: int|
            0 <= j < rs.len() && run_id::numbered("agent-"@, (#[trigger] rs[j]).run_id) == Some(
                (next_agent_number(rs) - 1) as nat,
            ),
        next_agent_number(Seq::empty()) == 0,
{
    numbers_are_below(rs, at);
    if next_agent_number(rs) > 0 {
        let j = next_number_was_reached(rs);
        assert(run_id::numbered("agent-"@, rs[j].run_id) == Some((next_agent_number(rs) - 1) as nat));
    }
}

proof fn next_number_was_reached(rs: Seq<RunRecordView>) -> (j: int)
    requires
        next_agent_number(rs) > 0,
    ensures
        0 <= j < rs.len(),
        agent_number(rs[j].run_id) == Some((next_agent_number(rs) - 1) as nat),
    decreases rs.len(),
{
    match agent_number(rs.last().run_id) {
        Some(k) => if k + 1 > next_agent_number(rs.drop_last()) {
            rs.len() - 1
        } else {
            next_number_was_reached(rs.drop_last())
        },
        None => next_number_was_reached(rs.drop_last()),
    }
}

/// What is replayed of the records is what they tell of, run for run, and two runs that look the same
/// are the same.
pub proof fn replays_are_what_the_records_tell(
    records: Vec<AgentRunRecord>,
    r: (Table<ReplayedRun>, u64),
    id: Seq<char>,
    a: ReplayedRun,
    b: ReplayedRun,
    left: bool,
)
    requires
        call_ensures(replay_runs, (records,), r),
        call_ensures(has_agent_numbers_left, (&records,), left),
    ensures
        r.0@.dom() == runs_in(run_records_view(records@)).dom(),
        r.0@.dom().contains(id) ==> r.0@[id]@ == runs_in(run_records_view(records@))[id],
        r.1 == next_agent_number(run_records_view(records@)),
        left <==> forall|i: int|
            0 <= i < records@.len() ==> run_id::numbered("agent-"@, (#[trigger] records@[i]).run_id@) != Some(
                0xffff_ffff_ffff_ffff as nat,
            ),
        a@ == b@ ==> a.phase == b.phase && wire::same_json(a.envelope, b.envelope) && definition::same_optional(
            a.detail,
            b.detail,
        ),
{
    let rs = run_records_view(records@);
    assert(replayed_view(r.0@).dom() =~= r.0@.dom());
    assert forall|i: int| 0 <= i < records@.len() implies (#[trigger] records@[i]).run_id@ == rs[i].run_id by {}
    assert(rs.len() == records@.len());
    if left {
        assert forall|i: int| 0 <= i < records@.len() implies run_id::numbered(
            "agent-"@,
            (#[trigger] records@[i]).run_id@,
        ) != Some(0xffff_ffff_ffff_ffff as nat) by {
            assert(agent_number(rs[i].run_id) != Some(u64::MAX as nat));
        }
    } else {
        let i = choose|i: int| 0 <= i < rs.len() && agent_number(#[trigger] rs[i].run_id) == Some(u64::MAX as nat);
        assert(records@[i].run_id@ == rs[i].run_id);
    }
}

} // verus!
