//! What holds of all agent runs together, whatever they do and in whatever order: what is seen of a
//! run is in the log, and an end is final.

use vstd::prelude::*;

use crate::activity::run_id;
use crate::agent_log;
use crate::agent_log::store::RunRecordView;
use crate::agent_log::ReplayedRunView;
use crate::handlers::agent_run;
use crate::handlers::agent_run::{AgentActionView, AgentEvent, AgentServiceView, EndingView, RunStateView, StageView};
use crate::handlers::ai_agent;
use crate::handlers::ai_agent::JobView;

verus! {

/// A run in progress: what it waits for, and the record that it has asked to be put in the log, as
/// long as it is not there.
pub struct RunInProgress {
    pub job: JobView,
    pub stage: StageView,
    pub pending: Option<RunRecordView>,
}

/// The handler, the runs that it was asked for, and the log.
pub struct History {
    pub service: AgentServiceView,
    pub runs: Map<Seq<char>, RunInProgress>,
    pub log: Seq<RunRecordView>,
}

/// What can happen.
pub enum Move {
    /// A run is asked for.
    Invoke { job: JobView, now_ms: u64 },
    /// The record that a run waits for is put in the log.
    Append { id: Seq<char> },
    /// A run goes on after an event.
    Advance { id: Seq<char>, event: AgentEvent, now_ms: u64, next: StageView, action: AgentActionView },
}

/// The move can come next. Every record that is to be put in the log is put there: the log says so
/// only once the record is in it.
pub open spec fn can_come(h: History, m: Move) -> bool {
    match m {
        Move::Invoke { job, .. } => h.service.next_id < u64::MAX && job.run_id == ai_agent::agent_id(
            h.service.next_id as nat,
        ),
        Move::Append { id } => h.runs.dom().contains(id) && h.runs[id].pending is Some,
        Move::Advance { id, event, now_ms, next, action } => {
            &&& h.runs.dom().contains(id)
            &&& agent_run::awaited(h.runs[id].stage, event)
            &&& event is Logged ==> h.runs[id].pending is None
            &&& agent_run::followed_by(h.runs[id].job, h.runs[id].stage, event, now_ms, next, action)
        },
    }
}

/// Everything after the move: of the handler what `invoke` and `advance` say, and of the runs what
/// they return.
pub open spec fn after(h: History, m: Move) -> History {
    match m {
        Move::Invoke { job, now_ms } => History {
            service: AgentServiceView { next_id: (h.service.next_id + 1) as u64, ..h.service },
            runs: h.runs.insert(
                job.run_id,
                RunInProgress {
                    job,
                    stage: StageView::LogStart,
                    pending: Some(agent_run::start_record(job, now_ms)),
                },
            ),
            log: h.log,
        },
        Move::Append { id } => History {
            runs: h.runs.insert(id, RunInProgress { pending: None, ..h.runs[id] }),
            log: h.log.push(h.runs[id].pending->0),
            ..h
        },
        Move::Advance { id, event, next, action, .. } => History {
            service: AgentServiceView {
                states: agent_run::seen_after(h.service.states, h.runs[id].job, h.runs[id].stage, event),
                ..h.service
            },
            runs: h.runs.insert(
                id,
                RunInProgress {
                    stage: next,
                    pending: match action {
                        AgentActionView::Append(record) => Some(record),
                        _ => None,
                    },
                    ..h.runs[id]
                },
            ),
            log: h.log,
        },
    }
}

/// The moves can come one after another.
pub open spec fn can_all_come(h: History, moves: Seq<Move>) -> bool
    decreases moves.len(),
{
    moves.len() > 0 ==> can_come(h, moves[0]) && can_all_come(after(h, moves[0]), moves.drop_first())
}

/// Everything after the moves.
pub open spec fn after_all(h: History, moves: Seq<Move>) -> History
    decreases moves.len(),
{
    if moves.len() == 0 {
        h
    } else {
        after_all(after(h, moves[0]), moves.drop_first())
    }
}

// ---------------------------------------------------------------------------
// What the log tells of a run

/// The records of a run, in the order of the log.
pub open spec fn records_of(log: Seq<RunRecordView>, id: Seq<char>) -> Seq<RunRecordView>
    decreases log.len(),
{
    if log.len() == 0 {
        Seq::empty()
    } else if log.last().run_id == id {
        records_of(log.drop_last(), id).push(log.last())
    } else {
        records_of(log.drop_last(), id)
    }
}

/// The record is that of the start of the run.
pub open spec fn is_start(r: RunRecordView, job: JobView) -> bool {
    exists|at_ms: u64| r == #[trigger] agent_run::start_record(job, at_ms)
}

/// The record is that of the end of the run, where the run is seen so afterwards.
pub open spec fn is_end(r: RunRecordView, job: JobView, state: RunStateView) -> bool {
    &&& !(state is Running)
    &&& exists|ending: EndingView, at_ms: u64|
        ending.state == state && r == #[trigger] agent_run::end_record(job, ending, at_ms)
}

/// The log holds the start of the run, and nothing else of it.
pub open spec fn only_started(rs: Seq<RunRecordView>, job: JobView) -> bool {
    rs.len() == 1 && is_start(rs[0], job)
}

/// The log holds the start of the run and then its end, and nothing else of it.
pub open spec fn started_and_ended(rs: Seq<RunRecordView>, job: JobView, state: RunStateView) -> bool {
    rs.len() == 2 && is_start(rs[0], job) && is_end(rs[1], job, state)
}

/// What is seen of a run.
pub open spec fn seen(states: Map<Seq<char>, RunStateView>, id: Seq<char>) -> Option<RunStateView> {
    if states.dom().contains(id) {
        Some(states[id])
    } else {
        None
    }
}

/// What the log tells of a run, and what is seen of it, is right for what the run waits for.
pub open spec fn fits(run: RunInProgress, told: Seq<RunRecordView>, sight: Option<RunStateView>) -> bool {
    match run.stage {
        StageView::LogStart => {
            &&& sight is None
            &&& match run.pending {
                Some(r) => told.len() == 0 && is_start(r, run.job),
                None => only_started(told, run.job),
            }
        },
        StageView::Prepare | StageView::Try { .. } => run.pending is None && only_started(told, run.job) && sight
            == Some(RunStateView::Running),
        StageView::Tidy { ending } => run.pending is None && only_started(told, run.job) && sight == Some(
            RunStateView::Running,
        ) && !(ending.state is Running),
        StageView::LogEnd { ending } => {
            &&& sight == Some(RunStateView::Running)
            &&& match run.pending {
                Some(r) => only_started(told, run.job) && is_end(r, run.job, ending.state),
                None => started_and_ended(told, run.job, ending.state),
            }
        },
        StageView::Over => run.pending is None && sight is Some && started_and_ended(told, run.job, sight->0),
    }
}

/// What holds of everything at any time: each run is as it should be, and the numbers that are still
/// to be given out are used nowhere.
pub open spec fn in_order(h: History) -> bool {
    &&& forall|id: Seq<char>| #[trigger]
        h.runs.dom().contains(id) ==> h.runs[id].job.run_id == id && fits(
            h.runs[id],
            records_of(h.log, id),
            seen(h.service.states, id),
        )
    &&& forall|n: nat|
        h.service.next_id <= n <= u64::MAX ==> is_unused(h, #[trigger] ai_agent::agent_id(n))
}

/// Nothing has the id.
pub open spec fn is_unused(h: History, id: Seq<char>) -> bool {
    !h.runs.dom().contains(id) && !h.service.states.dom().contains(id) && records_of(h.log, id).len() == 0
}

// ---------------------------------------------------------------------------
// What holds of it all

proof fn one_record_more(log: Seq<RunRecordView>, r: RunRecordView, id: Seq<char>)
    ensures
        records_of(log.push(r), id) == if r.run_id == id {
            records_of(log, id).push(r)
        } else {
            records_of(log, id)
        },
{
    assert(log.push(r).drop_last() =~= log);
}

proof fn ids_differ(m: nat, n: nat)
    requires
        m <= u64::MAX,
        n <= u64::MAX,
        m != n,
    ensures
        ai_agent::agent_id(m) != ai_agent::agent_id(n),
{
    run_id::number_read_back("agent-"@, m);
    run_id::number_read_back("agent-"@, n);
}

/// All is in order at the start, where the log holds nothing.
pub proof fn new_services_are_in_order(service: AgentServiceView)
    requires
        service.states == Map::<Seq<char>, RunStateView>::empty(),
        service.next_id == 0,
    ensures
        in_order(History { service, runs: Map::empty(), log: Seq::empty() }),
{
}

/// All is in order after a restart, whatever the log tells.
pub proof fn restored_services_are_in_order(service: AgentServiceView, rs: Seq<RunRecordView>)
    requires
        service.states == agent_log::runs_in(rs).map_values(|run: ReplayedRunView| agent_run::restored(run)),
        service.next_id == agent_log::next_agent_number(rs),
    ensures
        in_order(History { service, runs: Map::empty(), log: rs }),
{
    let h = History { service, runs: Map::empty(), log: rs };
    assert forall|n: nat| h.service.next_id <= n <= u64::MAX implies is_unused(h, #[trigger] ai_agent::agent_id(n)) by {
        unused_after(rs, n);
    }
}

proof fn unused_after(rs: Seq<RunRecordView>, n: nat)
    requires
        agent_log::next_agent_number(rs) <= n <= u64::MAX,
    ensures
        records_of(rs, ai_agent::agent_id(n)).len() == 0,
        !agent_log::runs_in(rs).dom().contains(ai_agent::agent_id(n)),
    decreases rs.len(),
{
    if rs.len() > 0 {
        run_id::number_read_back("agent-"@, n);
        unused_after(rs.drop_last(), n);
    }
}

/// All stays in order, whatever happens.
pub proof fn moves_keep_order(h: History, m: Move)
    requires
        in_order(h),
        can_come(h, m),
    ensures
        in_order(after(h, m)),
{
    let a = after(h, m);
    assert forall|id: Seq<char>| #[trigger] a.runs.dom().contains(id) implies a.runs[id].job.run_id == id && fits(
        a.runs[id],
        records_of(a.log, id),
        seen(a.service.states, id),
    ) by {
        match m {
            Move::Invoke { job, now_ms } => {
                assert(is_unused(h, ai_agent::agent_id(h.service.next_id as nat)));
                if id != job.run_id {
                    assert(h.runs.dom().contains(id));
                }
            },
            Move::Append { id: other } => {
                assert(h.runs.dom().contains(id));
                assert(h.runs.dom().contains(other));
                one_record_more(h.log, h.runs[other].pending->0, id);
            },
            Move::Advance { id: other, event, now_ms, next, action } => {
                assert(h.runs.dom().contains(id));
                assert(h.runs.dom().contains(other));
            },
        }
    }
    assert forall|n: nat| a.service.next_id <= n <= u64::MAX implies is_unused(a, #[trigger] ai_agent::agent_id(n)) by {
        assert(is_unused(h, ai_agent::agent_id(n)));
        match m {
            Move::Invoke { job, now_ms } => {
                ids_differ(n, h.service.next_id as nat);
            },
            Move::Append { id } => {
                one_record_more(h.log, h.runs[id].pending->0, ai_agent::agent_id(n));
            },
            Move::Advance { id, event, now_ms, next, action } => {},
        }
    }
}

/// All stays in order, however much happens.
pub proof fn order_is_kept(h: History, moves: Seq<Move>)
    requires
        in_order(h),
        can_all_come(h, moves),
    ensures
        in_order(after_all(h, moves)),
    decreases moves.len(),
{
    if moves.len() > 0 {
        moves_keep_order(h, moves[0]);
        order_is_kept(after(h, moves[0]), moves.drop_first());
    }
}

/// What is seen of a run that was asked for is in the log, as long as the log takes the records it
/// is given: a run that is seen as running has its start there, and one that is seen as ended has
/// that end. The records of one run are its start and then at most its end.
pub proof fn what_is_seen_is_logged(h: History, moves: Seq<Move>, id: Seq<char>)
    requires
        in_order(h),
        can_all_come(h, moves),
        after_all(h, moves).runs.dom().contains(id),
    ensures
        ({
            let a = after_all(h, moves);
            let job = a.runs[id].job;
            let told = records_of(a.log, id);
            &&& match seen(a.service.states, id) {
                Some(RunStateView::Running) => told.len() >= 1 && is_start(told[0], job),
                Some(state) => started_and_ended(told, job, state),
                None => told.len() <= 1,
            }
            &&& told.len() == 0 || only_started(told, job) || exists|state: RunStateView| #[trigger]
                started_and_ended(told, job, state)
        }),
{
    order_is_kept(h, moves);
    let a = after_all(h, moves);
    let told = records_of(a.log, id);
    match a.runs[id].stage {
        StageView::LogEnd { ending } => {
            if a.runs[id].pending is None {
                assert(started_and_ended(told, a.runs[id].job, ending.state));
            }
        },
        _ => {},
    }
}

/// An end is final: once a run is seen as ended, it is seen so for ever, whatever it and the other
/// runs do.
pub proof fn ends_are_final(h: History, moves: Seq<Move>, id: Seq<char>)
    requires
        in_order(h),
        can_all_come(h, moves),
        h.service.states.dom().contains(id),
        !(h.service.states[id] is Running),
    ensures
        after_all(h, moves).service.states.dom().contains(id),
        after_all(h, moves).service.states[id] == h.service.states[id],
    decreases moves.len(),
{
    if moves.len() > 0 {
        let a = after(h, moves[0]);
        moves_keep_order(h, moves[0]);
        assert(a.service.states.dom().contains(id) && a.service.states[id] == h.service.states[id]) by {
            if let Move::Advance { id: other, .. } = moves[0] {
                assert(h.runs.dom().contains(other));
            }
        }
        ends_are_final(a, moves.drop_first(), id);
    }
}

} // verus!
