//! The life of an agent run, from the request to its end, and what is said of it meanwhile.
//!
//! Whatever has to be done outside is an action; what came of it is an event. A run is followed by
//! doing the action and handing the event back, until there is nothing left to do.

use vstd::prelude::*;

use crate::agent_log;
use crate::agent_log::store;
use crate::agent_log::store::{AgentRunPhase, AgentRunRecord, RunRecordView};
use crate::agent_log::{ReplayedRun, ReplayedRunView};
use crate::definition;
use crate::error::{RuntimeError, RuntimeErrorView};
use crate::handlers::ai_agent;
use crate::handlers::ai_agent::{AgentJob, Classification, ClassificationView, JobView};
use crate::json;
use crate::json::serde_text;
use crate::json::{Json, JsonNumber, JsonView};
use crate::runtime::{PreparedRun, RequestView, RuntimeOutcome, RuntimeOutcomeView, RuntimeRequest};
use crate::service::{RunHandle, RunStatus, ServiceError};
use crate::table;
use crate::table::Table;
use crate::text;
use crate::wire;

verus! {

broadcast use crate::json::group_json;

/// Where a run is, as far as it can be seen.
#[derive(Debug, PartialEq)]
pub enum RunState {
    Running,
    Completed(Json),
    Failed(String),
}

pub enum RunStateView {
    Running,
    Completed(JsonView),
    Failed(Seq<char>),
}

impl View for RunState {
    type V = RunStateView;

    open spec fn view(&self) -> RunStateView {
        match *self {
            RunState::Running => RunStateView::Running,
            RunState::Completed(j) => RunStateView::Completed(j@),
            RunState::Failed(s) => RunStateView::Failed(s@),
        }
    }
}

/// What the runs say, by handle.
pub open spec fn states_view(m: Map<Seq<char>, RunState>) -> Map<Seq<char>, RunStateView> {
    m.map_values(|s: RunState| s@)
}

/// How a run ended, and what the log is told of it.
#[derive(Debug, PartialEq)]
pub struct Ending {
    pub state: RunState,
    pub scratch_dir: Option<String>,
    pub envelope: Option<Json>,
    pub detail: Option<String>,
    pub claude_version: Option<String>,
}

pub struct EndingView {
    pub state: RunStateView,
    pub scratch_dir: Option<Seq<char>>,
    pub envelope: Option<JsonView>,
    pub detail: Option<Seq<char>>,
    pub claude_version: Option<Seq<char>>,
}

impl View for Ending {
    type V = EndingView;

    open spec fn view(&self) -> EndingView {
        EndingView {
            state: self.state@,
            scratch_dir: definition::optional_text(self.scratch_dir),
            envelope: wire::optional_json(self.envelope),
            detail: definition::optional_text(self.detail),
            claude_version: definition::optional_text(self.claude_version),
        }
    }
}

/// What a run waits for.
#[derive(Debug, PartialEq)]
pub enum Stage {
    /// That its start is in the log.
    LogStart,
    /// That its directory is there.
    Prepare,
    /// That it comes to an end, the first time or the second.
    Try { second: bool, working_dir: String },
    /// That its directory is tidied.
    Tidy { ending: Ending },
    /// That its end is in the log.
    LogEnd { ending: Ending },
    /// Nothing.
    Over,
}

pub enum StageView {
    LogStart,
    Prepare,
    Try { second: bool, working_dir: Seq<char> },
    Tidy { ending: EndingView },
    LogEnd { ending: EndingView },
    Over,
}

impl View for Stage {
    type V = StageView;

    open spec fn view(&self) -> StageView {
        match *self {
            Stage::LogStart => StageView::LogStart,
            Stage::Prepare => StageView::Prepare,
            Stage::Try { second, working_dir } => StageView::Try { second, working_dir: working_dir@ },
            Stage::Tidy { ending } => StageView::Tidy { ending: ending@ },
            Stage::LogEnd { ending } => StageView::LogEnd { ending: ending@ },
            Stage::Over => StageView::Over,
        }
    }
}

/// A run.
#[derive(Debug, PartialEq)]
pub struct AgentRun {
    pub job: AgentJob,
    pub stage: Stage,
}

/// What came of an action.
#[derive(Debug, PartialEq)]
pub enum AgentEvent {
    /// The record is in the log, or could not be put there: the run goes on either way.
    Logged,
    Prepared(Result<PreparedRun, RuntimeError>),
    Ran(Result<RuntimeOutcome, RuntimeError>),
    Tidied,
}

/// What is to be done for a run.
#[derive(Debug, PartialEq)]
pub enum AgentAction {
    Append(AgentRunRecord),
    Prepare { run_id: String, workflow_dir: String, files: Vec<String> },
    Run { working_dir: String, request: RuntimeRequest },
    Tidy { working_dir: String, failed: bool },
    Nothing,
}

pub enum AgentActionView {
    Append(RunRecordView),
    Prepare { run_id: Seq<char>, workflow_dir: Seq<char>, files: Seq<Seq<char>> },
    Run { working_dir: Seq<char>, request: RequestView },
    Tidy { working_dir: Seq<char>, failed: bool },
    Nothing,
}

impl View for AgentAction {
    type V = AgentActionView;

    open spec fn view(&self) -> AgentActionView {
        match *self {
            AgentAction::Append(r) => AgentActionView::Append(r@),
            AgentAction::Prepare { run_id, workflow_dir, files } => AgentActionView::Prepare {
                run_id: run_id@,
                workflow_dir: workflow_dir@,
                files: text::texts(files@),
            },
            AgentAction::Run { working_dir, request } => AgentActionView::Run {
                working_dir: working_dir@,
                request: request@,
            },
            AgentAction::Tidy { working_dir, failed } => AgentActionView::Tidy { working_dir: working_dir@, failed },
            AgentAction::Nothing => AgentActionView::Nothing,
        }
    }
}

// ---------------------------------------------------------------------------
// Records and requests

/// What the log is told when a run starts.
pub open spec fn start_record(job: JobView, at_ms: u64) -> RunRecordView {
    RunRecordView {
        run_id: job.run_id,
        workflow_id: job.workflow_id,
        phase: AgentRunPhase::Started,
        at_ms,
        claude_version: None,
        model: job.model,
        max_budget_usd: job.max_budget_usd,
        scratch_dir: None,
        staged_files: job.staged_files,
        prompt_digest: job.prompt_digest,
        prompt_bytes: job.prompt_bytes,
        params: Some(job.params),
        envelope: None,
        detail: None,
    }
}

/// The phase that a run ends in.
pub open spec fn end_phase(state: RunStateView) -> AgentRunPhase {
    match state {
        RunStateView::Completed(_) => AgentRunPhase::Completed,
        _ => AgentRunPhase::Failed,
    }
}

/// What the log is told when a run ends.
pub open spec fn end_record(job: JobView, ending: EndingView, at_ms: u64) -> RunRecordView {
    RunRecordView {
        phase: end_phase(ending.state),
        claude_version: ending.claude_version,
        scratch_dir: ending.scratch_dir,
        envelope: ending.envelope,
        detail: ending.detail,
        ..start_record(job, at_ms)
    }
}

/// What a run is asked to do, the first time and the second.
pub open spec fn request_of(job: JobView) -> RequestView {
    RequestView {
        prompt: job.prompt,
        model: job.model,
        max_budget_usd: job.max_budget_usd,
        timeout_secs: job.timeout_secs,
    }
}

fn copy_number(n: &Option<JsonNumber>) -> (r: Option<JsonNumber>)
    ensures
        store::optional_number(r) == store::optional_number(*n),
{
    match n {
        Some(n) => Some(n.copy()),
        None => None,
    }
}

fn start_record_for(job: &AgentJob, at_ms: u64) -> (r: AgentRunRecord)
    ensures
        r@ == start_record(job@, at_ms),
{
    AgentRunRecord {
        run_id: job.run_id.clone(),
        workflow_id: job.workflow_id.clone(),
        phase: AgentRunPhase::Started,
        at_ms,
        claude_version: None,
        model: definition::copy_optional(&job.model),
        max_budget_usd: copy_number(&job.max_budget_usd),
        scratch_dir: None,
        staged_files: text::copy_texts(&job.staged_files),
        prompt_digest: job.prompt_digest.clone(),
        prompt_bytes: job.prompt_bytes,
        params: Some(job.params.copy()),
        envelope: None,
        detail: None,
    }
}

fn end_record_for(job: &AgentJob, ending: &Ending, at_ms: u64) -> (r: AgentRunRecord)
    ensures
        r@ == end_record(job@, ending@, at_ms),
{
    let start = start_record_for(job, at_ms);
    AgentRunRecord {
        phase: match &ending.state {
            RunState::Completed(_) => AgentRunPhase::Completed,
            _ => AgentRunPhase::Failed,
        },
        claude_version: definition::copy_optional(&ending.claude_version),
        scratch_dir: definition::copy_optional(&ending.scratch_dir),
        envelope: wire::copy_optional_json(&ending.envelope),
        detail: definition::copy_optional(&ending.detail),
        ..start
    }
}

fn request_for(job: &AgentJob) -> (r: RuntimeRequest)
    ensures
        r@ == request_of(job@),
{
    RuntimeRequest {
        prompt: job.prompt.clone(),
        model: definition::copy_optional(&job.model),
        max_budget_usd: copy_number(&job.max_budget_usd),
        timeout_secs: job.timeout_secs,
    }
}

// ---------------------------------------------------------------------------
// How a run ends

/// A run that ended with an error, and was not judged.
pub open spec fn ends_with_error(words: Seq<char>, scratch_dir: Option<Seq<char>>) -> EndingView {
    EndingView {
        state: RunStateView::Failed(words),
        scratch_dir,
        envelope: None,
        detail: Some(words),
        claude_version: None,
    }
}

/// What is kept in place of a report where the run was stopped for its time.
pub open spec fn timeout_envelope() -> JsonView {
    JsonView::Object(
        Map::<Seq<char>, JsonView>::empty().insert("terminal_reason"@, JsonView::Str("handler_timeout"@)),
    )
}

/// The ending follows from what the run reported. The log gets the agent's words in full; the
/// caller gets the report as it is handed out, or why the run counts as failed.
pub open spec fn ending_follows(
    ending: EndingView,
    working_dir: Seq<char>,
    report: Result<RuntimeOutcomeView, RuntimeErrorView>,
) -> bool {
    match report {
        Ok(o) => {
            &&& ending.scratch_dir == Some(working_dir)
            &&& ending.envelope == Some(ai_agent::subset_of(o.raw_json))
            &&& ending.detail == Some(o.result_text)
            &&& ending.claude_version == o.claude_version
            &&& match ai_agent::judgement(o) {
                ClassificationView::Completed => ending.state matches RunStateView::Completed(v)
                    && ai_agent::is_clamped_report(o.raw_json, v),
                ClassificationView::Failed(reason) => ending.state == RunStateView::Failed(reason),
            }
        },
        Err(RuntimeErrorView::Timeout { seconds }) => ending == (EndingView {
            envelope: Some(timeout_envelope()),
            ..ends_with_error(RuntimeErrorView::Timeout { seconds }.words(), Some(working_dir))
        }),
        Err(e) => ending == ends_with_error(e.words(), Some(working_dir)),
    }
}

fn conclude(working_dir: String, report: Result<RuntimeOutcome, RuntimeError>) -> (r: Ending)
    ensures
        ending_follows(r@, working_dir@, crate::runtime::local::report_view(report)),
        !(r@.state is Running),
{
    match report {
        Ok(o) => {
            let envelope = ai_agent::envelope_subset(&o.raw_json);
            let judgement = ai_agent::classify_outcome(&o);
            let state = match judgement {
                Classification::Completed => RunState::Completed(ai_agent::clamp_result_text(o.raw_json)),
                Classification::Failed(reason) => RunState::Failed(reason),
            };
            Ending {
                state,
                scratch_dir: Some(working_dir),
                envelope: Some(envelope),
                detail: Some(o.result_text),
                claude_version: o.claude_version,
            }
        },
        Err(RuntimeError::Timeout { seconds }) => {
            let words = RuntimeError::Timeout { seconds }.message();
            let mut t: Table<Json> = Table::new();
            t.insert("terminal_reason".to_owned(), Json::Str(ai_agent::HANDLER_TIMEOUT_REASON.to_owned()));
            Ending {
                state: RunState::Failed(words.clone()),
                scratch_dir: Some(working_dir),
                envelope: Some(Json::Object(t)),
                detail: Some(words),
                claude_version: None,
            }
        },
        Err(e) => {
            let words = e.message();
            Ending {
                state: RunState::Failed(words.clone()),
                scratch_dir: Some(working_dir),
                envelope: None,
                detail: Some(words),
                claude_version: None,
            }
        },
    }
}

// ---------------------------------------------------------------------------
// The handler

/// The handler.
pub struct AiAgentService {
    pub states: Table<RunState>,
    pub next_id: u64,
    pub log_dir: String,
    pub retention_days: u64,
}

pub struct AgentServiceView {
    pub states: Map<Seq<char>, RunStateView>,
    pub next_id: u64,
    pub log_dir: Seq<char>,
    pub retention_days: u64,
}

impl View for AiAgentService {
    type V = AgentServiceView;

    open spec fn view(&self) -> AgentServiceView {
        AgentServiceView {
            states: states_view(self.states@),
            next_id: self.next_id,
            log_dir: self.log_dir@,
            retention_days: self.retention_days,
        }
    }
}

/// How a run that the log tells of is seen after a restart.
pub open spec fn restored(run: ReplayedRunView) -> RunStateView {
    match run.phase {
        AgentRunPhase::Completed => RunStateView::Completed(
            match run.envelope {
                Some(v) => v,
                None => JsonView::Null,
            },
        ),
        AgentRunPhase::Failed | AgentRunPhase::Interrupted => RunStateView::Failed(
            match run.detail {
                Some(d) => d,
                None => "agent run failed"@,
            },
        ),
        AgentRunPhase::Started => RunStateView::Failed("agent run left in an unexpected Started state after replay"@),
    }
}

fn restore(run: &ReplayedRun) -> (r: RunState)
    ensures
        r@ == restored(run@),
{
    match run.phase {
        AgentRunPhase::Completed => RunState::Completed(
            match &run.envelope {
                Some(v) => v.copy(),
                None => Json::Null,
            },
        ),
        AgentRunPhase::Failed => RunState::Failed(
            match &run.detail {
                Some(d) => d.clone(),
                None => "agent run failed".to_owned(),
            },
        ),
        AgentRunPhase::Interrupted => RunState::Failed(
            match &run.detail {
                Some(d) => d.clone(),
                None => "agent run failed".to_owned(),
            },
        ),
        AgentRunPhase::Started => RunState::Failed(
            "agent run left in an unexpected Started state after replay".to_owned(),
        ),
    }
}

/// What is done for a run next, and what it waits for then. A first report that cannot be read is
/// answered by asking once more, with the same request; a second one is not.
pub open spec fn followed_by(
    job: JobView,
    stage: StageView,
    event: AgentEvent,
    now_ms: u64,
    next: StageView,
    action: AgentActionView,
) -> bool {
    match (stage, event) {
        (StageView::LogStart, AgentEvent::Logged) => {
            &&& next == StageView::Prepare
            &&& action == (AgentActionView::Prepare {
                run_id: job.run_id,
                workflow_dir: job.workflow_dir,
                files: job.files,
            })
        },
        (StageView::Prepare, AgentEvent::Prepared(Ok(p))) => {
            &&& next == (StageView::Try { second: false, working_dir: p.working_dir@ })
            &&& action == (AgentActionView::Run { working_dir: p.working_dir@, request: request_of(job) })
        },
        (StageView::Prepare, AgentEvent::Prepared(Err(e))) => {
            let ending = ends_with_error(e@.words(), None);
            &&& next == (StageView::LogEnd { ending })
            &&& action == AgentActionView::Append(end_record(job, ending, now_ms))
        },
        (StageView::Try { second: false, working_dir }, AgentEvent::Ran(Err(RuntimeError::Envelope { .. }))) => {
            &&& next == (StageView::Try { second: true, working_dir })
            &&& action == (AgentActionView::Run { working_dir, request: request_of(job) })
        },
        (StageView::Try { working_dir, .. }, AgentEvent::Ran(report)) => {
            &&& next matches StageView::Tidy { ending } && ending_follows(
                ending,
                working_dir,
                crate::runtime::local::report_view(report),
            ) && !(ending.state is Running) && action == (AgentActionView::Tidy {
                working_dir,
                failed: ending.state is Failed,
            })
        },
        (StageView::Tidy { ending }, AgentEvent::Tidied) => {
            &&& next == (StageView::LogEnd { ending })
            &&& action == AgentActionView::Append(end_record(job, ending, now_ms))
        },
        (StageView::LogEnd { .. }, AgentEvent::Logged) => {
            &&& next == StageView::Over
            &&& action == AgentActionView::Nothing
        },
        _ => false,
    }
}

/// What is seen of the runs after an event: only what is in the log becomes visible.
pub open spec fn seen_after(
    states: Map<Seq<char>, RunStateView>,
    job: JobView,
    stage: StageView,
    event: AgentEvent,
) -> Map<Seq<char>, RunStateView> {
    match (stage, event) {
        (StageView::LogStart, AgentEvent::Logged) => states.insert(job.run_id, RunStateView::Running),
        (StageView::LogEnd { ending }, AgentEvent::Logged) => states.insert(job.run_id, ending.state),
        _ => states,
    }
}

/// The event is one that the stage waits for.
pub open spec fn awaited(stage: StageView, event: AgentEvent) -> bool {
    match stage {
        StageView::LogStart => event is Logged,
        StageView::Prepare => event is Prepared,
        StageView::Try { .. } => event is Ran,
        StageView::Tidy { .. } => event is Tidied,
        StageView::LogEnd { .. } => event is Logged,
        StageView::Over => false,
    }
}

impl AiAgentService {
    /// The handler, with a log that holds nothing yet.
    pub fn new(log_dir: String) -> (r: Self)
        ensures
            r@ == (AgentServiceView {
                states: Map::empty(),
                next_id: 0,
                log_dir: log_dir@,
                retention_days: agent_log::AGENT_LOG_RETENTION_DAYS,
            }),
    {
        let r = AiAgentService {
            states: Table::new(),
            next_id: 0,
            log_dir,
            retention_days: agent_log::AGENT_LOG_RETENTION_DAYS,
        };
        assert(r@.states =~= Map::<Seq<char>, RunStateView>::empty());
        r
    }

    /// The handler as it is after a restart, from what the log tells. Nothing is started for that.
    pub fn from_records(log_dir: String, retention_days: u64, records: Vec<AgentRunRecord>) -> (r: Self)
        requires
            agent_log::agent_numbers_left(agent_log::run_records_view(records@)),
        ensures
            r@.states == agent_log::runs_in(agent_log::run_records_view(records@)).map_values(
                |run: ReplayedRunView| restored(run),
            ),
            r@.next_id == agent_log::next_agent_number(agent_log::run_records_view(records@)),
            r@.log_dir == log_dir@,
            r@.retention_days == retention_days,
    {
        let (runs, next_id) = agent_log::replay_runs(records);
        let ghost told = agent_log::replayed_view(runs@);
        let mut states: Table<RunState> = Table::new();
        let n = runs.len();
        let ghost rows = runs.rows();
        let mut i: usize = 0;
        assert(states_view(states@) =~= agent_log::replayed_view(table::map_of_rows(rows.take(0))).map_values(
            |run: ReplayedRunView| restored(run),
        ));
        while i < n
            invariant
                i <= n,
                n == rows.len(),
                rows == runs.rows(),
                table::in_key_order(rows),
                states_view(states@) == agent_log::replayed_view(
                    table::map_of_rows(rows.take(i as int)),
                ).map_values(|run: ReplayedRunView| restored(run)),
            decreases n - i,
        {
            let state = restore(runs.value_at(i));
            let ghost before = states@;
            let ghost k = rows[i as int].0;
            let ghost v = rows[i as int].1;
            states.insert(runs.key_at(i).clone(), state);
            proof {
                table::rows_one_more(rows, i as int);
                let short = agent_log::replayed_view(table::map_of_rows(rows.take(i as int)));
                let long = agent_log::replayed_view(table::map_of_rows(rows.take(i + 1)));
                assert(long =~= short.insert(k, v@));
                assert(long.map_values(|run: ReplayedRunView| restored(run)) =~= short.map_values(
                    |run: ReplayedRunView| restored(run),
                ).insert(k, restored(v@)));
                assert(states_view(states@) =~= states_view(before).insert(k, restored(v@)));
            }
            i = i + 1;
        }
        assert(rows.take(n as int) =~= rows);
        AiAgentService { states, next_id, log_dir, retention_days }
    }

    /// The days for which the log is kept.
    pub fn retention_days(&self) -> (r: u64)
        ensures
            r == self@.retention_days,
    {
        self.retention_days
    }

    /// Starts a run: its handle, the run, and the first thing to do. Nobody sees the run yet. The
    /// parameters in its prompt are on one line.
    pub fn invoke(&mut self, input: &Json, now_ms: u64) -> (r: Result<(RunHandle, AgentRun, AgentAction), ServiceError>)
        requires
            old(self)@.next_id < u64::MAX,
        ensures
            match (r, json::field(input@, "__agent"@)) {
                (Ok((handle, run, action)), Some(envelope)) => {
                    &&& run.job@ == ai_agent::job_of(
                        envelope,
                        ai_agent::params_of(input@),
                        serde_text::json_text(ai_agent::params_of(input@)),
                        old(self)@.next_id as nat,
                    )
                    &&& !serde_text::json_text(ai_agent::params_of(input@)).contains('\n')
                    &&& handle@ == run.job@.run_id
                    &&& run.stage@ == StageView::LogStart
                    &&& action@ == AgentActionView::Append(start_record(run.job@, now_ms))
                    &&& final(self)@ == (AgentServiceView {
                        next_id: (old(self)@.next_id + 1) as u64,
                        ..old(self)@
                    })
                },
                (Err(e), None) => {
                    &&& e@ == "missing `__agent` envelope -- dispatch() must build it from service.agent"@
                    &&& final(self)@ == old(self)@
                },
                _ => false,
            },
    {
        let envelope = match input.get("__agent") {
            Some(v) => v,
            None => {
                return Err(
                    ServiceError {
                        detail: "missing `__agent` envelope -- dispatch() must build it from service.agent".to_owned(),
                    },
                );
            },
        };
        let params = match input.get("params") {
            Some(v) => v.copy(),
            None => Json::Null,
        };
        let written = serde_text::write_json(&params);
        let job = ai_agent::job_with(envelope, params, &written, self.next_id);
        self.next_id = self.next_id + 1;
        let action = AgentAction::Append(start_record_for(&job, now_ms));
        Ok((RunHandle::new(job.run_id.clone()), AgentRun { job, stage: Stage::LogStart }, action))
    }

    /// Goes on with a run after an event: the run, and the next thing to do.
    pub fn advance(&mut self, run: AgentRun, event: AgentEvent, now_ms: u64) -> (r: (AgentRun, AgentAction))
        requires
            awaited(run.stage@, event),
        ensures
            r.0.job == run.job,
            followed_by(run.job@, run.stage@, event, now_ms, r.0.stage@, r.1@),
            final(self)@ == (AgentServiceView {
                states: seen_after(old(self)@.states, run.job@, run.stage@, event),
                ..old(self)@
            }),
    {
        let job = run.job;
        match run.stage {
            Stage::LogStart => {
                self.see(job.run_id.clone(), RunState::Running);
                let action = AgentAction::Prepare {
                    run_id: job.run_id.clone(),
                    workflow_dir: job.workflow_dir.clone(),
                    files: text::copy_texts(&job.files),
                };
                (AgentRun { job, stage: Stage::Prepare }, action)
            },
            Stage::Prepare => match event {
                AgentEvent::Prepared(Ok(p)) => {
                    let action = AgentAction::Run { working_dir: p.working_dir.clone(), request: request_for(&job) };
                    (AgentRun { job, stage: Stage::Try { second: false, working_dir: p.working_dir } }, action)
                },
                AgentEvent::Prepared(Err(e)) => {
                    let words = e.message();
                    let ending = Ending {
                        state: RunState::Failed(words.clone()),
                        scratch_dir: None,
                        envelope: None,
                        detail: Some(words),
                        claude_version: None,
                    };
                    let action = AgentAction::Append(end_record_for(&job, &ending, now_ms));
                    (AgentRun { job, stage: Stage::LogEnd { ending } }, action)
                },
                _ => (AgentRun { job, stage: Stage::Prepare }, AgentAction::Nothing),
            },
            Stage::Try { second, working_dir } => match event {
                AgentEvent::Ran(report) => {
                    let unreadable = match &report {
                        Err(RuntimeError::Envelope { .. }) => true,
                        _ => false,
                    };
                    if unreadable && !second {
                        let action = AgentAction::Run { working_dir: working_dir.clone(), request: request_for(&job) };
                        (AgentRun { job, stage: Stage::Try { second: true, working_dir } }, action)
                    } else {
                        let ending = conclude(working_dir.clone(), report);
                        let failed = match &ending.state {
                            RunState::Failed(_) => true,
                            _ => false,
                        };
                        (AgentRun { job, stage: Stage::Tidy { ending } }, AgentAction::Tidy { working_dir, failed })
                    }
                },
                _ => (AgentRun { job, stage: Stage::Try { second, working_dir } }, AgentAction::Nothing),
            },
            Stage::Tidy { ending } => {
                let action = AgentAction::Append(end_record_for(&job, &ending, now_ms));
                (AgentRun { job, stage: Stage::LogEnd { ending } }, action)
            },
            Stage::LogEnd { ending } => {
                self.see(job.run_id.clone(), ending.state);
                (AgentRun { job, stage: Stage::Over }, AgentAction::Nothing)
            },
            Stage::Over => (AgentRun { job, stage: Stage::Over }, AgentAction::Nothing),
        }
    }

    fn see(&mut self, run_id: String, state: RunState)
        ensures
            final(self)@ == (AgentServiceView { states: old(self)@.states.insert(run_id@, state@), ..old(self)@ }),
    {
        let ghost before = self.states@;
        self.states.insert(run_id, state);
        assert(states_view(self.states@) =~= states_view(before).insert(run_id@, state@));
    }

    /// Where a run is.
    pub fn status(&self, handle: &RunHandle) -> (r: Result<RunStatus, ServiceError>)
        ensures
            match r {
                Ok(s) => self@.states.dom().contains(handle@) && s == status_of(self@.states[handle@]),
                Err(e) => !self@.states.dom().contains(handle@) && e@ == "unknown agent run handle"@,
            },
    {
        match self.states.get(handle.id()) {
            Some(RunState::Running) => Ok(RunStatus::Running),
            Some(RunState::Completed(_)) => Ok(RunStatus::Completed),
            Some(RunState::Failed(_)) => Ok(RunStatus::Failed),
            None => Err(ServiceError { detail: "unknown agent run handle".to_owned() }),
        }
    }

    /// What became of a run.
    pub fn result(&self, handle: &RunHandle) -> (r: Result<Option<Json>, ServiceError>)
        ensures
            match r {
                Ok(v) => self@.states.dom().contains(handle@) && v is Some && self@.states[handle@]
                    == RunStateView::Completed(v->0@),
                Err(e) => if self@.states.dom().contains(handle@) {
                    match self@.states[handle@] {
                        RunStateView::Completed(_) => false,
                        RunStateView::Failed(d) => e@ == d,
                        RunStateView::Running => e@ == "agent run still in progress"@,
                    }
                } else {
                    e@ == "unknown agent run handle"@
                },
            },
    {
        match self.states.get(handle.id()) {
            Some(RunState::Completed(v)) => Ok(Some(v.copy())),
            Some(RunState::Failed(d)) => Err(ServiceError { detail: d.clone() }),
            Some(RunState::Running) => Err(ServiceError { detail: "agent run still in progress".to_owned() }),
            None => Err(ServiceError { detail: "unknown agent run handle".to_owned() }),
        }
    }
}

/// The status of a run that is seen so.
pub open spec fn status_of(s: RunStateView) -> RunStatus {
    match s {
        RunStateView::Running => RunStatus::Running,
        RunStateView::Completed(_) => RunStatus::Completed,
        RunStateView::Failed(_) => RunStatus::Failed,
    }
}

// ---------------------------------------------------------------------------
// What holds of it all

/// What is seen of the runs changes only when a record was put in the log, and only for the run
/// that the record is of.
pub proof fn log_comes_before_sight(
    states: Map<Seq<char>, RunStateView>,
    job: JobView,
    stage: StageView,
    event: AgentEvent,
)
    ensures
        seen_after(states, job, stage, event) != states ==> event is Logged && (stage is LogStart || stage is LogEnd),
        forall|id: Seq<char>| #[trigger]
            seen_after(states, job, stage, event).dom().contains(id) && id != job.run_id ==> states.dom().contains(id)
                && seen_after(states, job, stage, event)[id] == states[id],
{
}

/// The record says what is seen of the run.
pub open spec fn tells(record: RunRecordView, id: Seq<char>, state: RunStateView) -> bool {
    &&& record.run_id == id
    &&& record.phase == if state is Running {
        AgentRunPhase::Started
    } else {
        end_phase(state)
    }
}

/// Whatever is seen of a run, the log tells it too.
pub open spec fn backed_by(states: Map<Seq<char>, RunStateView>, log: Seq<RunRecordView>) -> bool {
    forall|id: Seq<char>| #[trigger]
        states.dom().contains(id) ==> exists|i: int| 0 <= i < log.len() && #[trigger] tells(log[i], id, states[id])
}

/// The record that the run waits for is in the log.
pub open spec fn is_logged(job: JobView, stage: StageView, log: Seq<RunRecordView>) -> bool {
    match stage {
        StageView::LogStart => exists|i: int|
            0 <= i < log.len() && exists|at_ms: u64| #[trigger] log[i] == start_record(job, at_ms),
        StageView::LogEnd { ending } => !(ending.state is Running) && exists|i: int|
            0 <= i < log.len() && exists|at_ms: u64| #[trigger] log[i] == end_record(job, ending, at_ms),
        _ => true,
    }
}

/// Nothing is ever seen of a run that the log does not tell, as long as the log takes the records
/// it is given: that is so of no runs, it stays so as the log grows, and it stays so when a run
/// goes on.
pub proof fn sight_is_backed_by_the_log(
    states: Map<Seq<char>, RunStateView>,
    log: Seq<RunRecordView>,
    more: RunRecordView,
    job: JobView,
    stage: StageView,
    event: AgentEvent,
)
    requires
        backed_by(states, log),
        is_logged(job, stage, log),
    ensures
        backed_by(Map::empty(), log),
        backed_by(states, log.push(more)),
        backed_by(seen_after(states, job, stage, event), log),
{
    let grown = log.push(more);
    assert forall|id: Seq<char>| #[trigger] states.dom().contains(id) implies exists|i: int|
        0 <= i < grown.len() && #[trigger] tells(grown[i], id, states[id]) by {
        let i = choose|i: int| 0 <= i < log.len() && #[trigger] tells(log[i], id, states[id]);
        assert(tells(grown[i], id, states[id]));
    }
    let after = seen_after(states, job, stage, event);
    assert forall|id: Seq<char>| #[trigger] after.dom().contains(id) implies exists|i: int|
        0 <= i < log.len() && #[trigger] tells(log[i], id, after[id]) by {
        if after != states && id == job.run_id {
            match stage {
                StageView::LogStart => {
                    let i = choose|i: int|
                        0 <= i < log.len() && exists|at_ms: u64| #[trigger] log[i] == start_record(job, at_ms);
                    assert(tells(log[i], id, after[id]));
                },
                StageView::LogEnd { ending } => {
                    let i = choose|i: int|
                        0 <= i < log.len() && exists|at_ms: u64| #[trigger] log[i] == end_record(job, ending, at_ms);
                    assert(tells(log[i], id, after[id]));
                },
                _ => {},
            }
        } else {
            assert(states.dom().contains(id));
        }
    }
}

/// A run is tried at most twice, both times with the same request: the second time only after a
/// first report that could not be read, and never a third time.
pub proof fn one_retry_and_no_more(
    job: JobView,
    stage: StageView,
    event: AgentEvent,
    now_ms: u64,
    next: StageView,
    action: AgentActionView,
)
    requires
        followed_by(job, stage, event, now_ms, next, action),
    ensures
        action matches AgentActionView::Run { request, .. } ==> request == request_of(job),
        action is Run ==> stage is Prepare || (stage matches StageView::Try { second, .. } && !second && (event matches AgentEvent::Ran(
            Err(RuntimeError::Envelope { .. }),
        ))),
        action is Run && stage is Try ==> (next matches StageView::Try { second, .. } && second),
{
}

/// The log of a run holds its start and its end and nothing between: whatever happens, an end is
/// written once there is one, and not before.
pub proof fn log_holds_start_and_end(
    job: JobView,
    stage: StageView,
    event: AgentEvent,
    now_ms: u64,
    next: StageView,
    action: AgentActionView,
)
    requires
        followed_by(job, stage, event, now_ms, next, action),
    ensures
        action matches AgentActionView::Append(record) ==> record.phase != AgentRunPhase::Started && record.phase
            != AgentRunPhase::Interrupted && (next matches StageView::LogEnd { ending } && record == end_record(
            job,
            ending,
            now_ms,
        )),
        next is LogEnd ==> action is Append,
{
}

/// A run that is cut off after its start was written, and before its end was, is seen as failed
/// after a restart: it is reported as interrupted.
pub proof fn cut_off_runs_are_interrupted(rs: Seq<RunRecordView>, at: int)
    requires
        0 <= at < rs.len(),
        rs[at].phase == AgentRunPhase::Started,
        forall|j: int| at < j < rs.len() ==> (#[trigger] rs[j]).run_id != rs[at].run_id,
    ensures
        agent_log::runs_in(rs).dom().contains(rs[at].run_id),
        restored(agent_log::runs_in(rs)[rs[at].run_id]) == RunStateView::Failed(
            "interrupted: the daemon restarted while this run was still in flight"@,
        ),
{
    agent_log::last_record_counts(rs, at);
}

/// A run that ended has the same status after a restart as before.
pub proof fn ended_runs_keep_their_status(
    rs: Seq<RunRecordView>,
    at: int,
    job: JobView,
    ending: EndingView,
    at_ms: u64,
)
    requires
        0 <= at < rs.len(),
        rs[at] == end_record(job, ending, at_ms),
        !(ending.state is Running),
        forall|j: int| at < j < rs.len() ==> (#[trigger] rs[j]).run_id != rs[at].run_id,
    ensures
        agent_log::runs_in(rs).dom().contains(job.run_id),
        status_of(restored(agent_log::runs_in(rs)[job.run_id])) == status_of(ending.state),
{
    agent_log::last_record_counts(rs, at);
}

/// A run counts as complete only where it reports no error, no denial and the expected end.
pub proof fn only_clean_runs_complete(o: RuntimeOutcomeView)
    ensures
        ai_agent::judgement(o) is Completed <==> !o.is_error && ai_agent::is_clean(o.raw_json),
{
}

/// The record of a start says so, and names the run, its workflow, the time, its budget, its model, its
/// files and its prompt; of an end it says nothing. The record of an end says the same of the run, and
/// how it ended: as complete exactly where it did so.
pub proof fn records_say_what_happened(job: JobView, ending: EndingView, at_ms: u64)
    ensures
        ({
            let s = start_record(job, at_ms);
            let e = end_record(job, ending, at_ms);
            &&& s.phase == AgentRunPhase::Started
            &&& s.run_id == job.run_id && s.workflow_id == job.workflow_id && s.at_ms == at_ms
            &&& s.model == job.model && s.max_budget_usd == job.max_budget_usd && s.staged_files == job.staged_files
            &&& s.prompt_digest == job.prompt_digest && s.prompt_bytes == job.prompt_bytes && s.params == Some(job.params)
            &&& s.envelope is None && s.detail is None && s.scratch_dir is None && s.claude_version is None
            &&& e.phase == AgentRunPhase::Completed <==> ending.state is Completed
            &&& e.phase == AgentRunPhase::Failed <==> !(ending.state is Completed)
            &&& e.run_id == job.run_id && e.workflow_id == job.workflow_id && e.at_ms == at_ms
            &&& e.model == job.model && e.max_budget_usd == job.max_budget_usd && e.staged_files == job.staged_files
            &&& e.prompt_digest == job.prompt_digest && e.prompt_bytes == job.prompt_bytes && e.params == Some(job.params)
            &&& e.envelope == ending.envelope && e.detail == ending.detail && e.scratch_dir == ending.scratch_dir
                && e.claude_version == ending.claude_version
        }),
{
}

/// An agent is asked for what the job says: its prompt, its model, its budget and its time.
pub proof fn agents_are_asked_for_the_job(job: JobView)
    ensures
        request_of(job).prompt == job.prompt,
        request_of(job).model == job.model,
        request_of(job).max_budget_usd == job.max_budget_usd,
        request_of(job).timeout_secs == job.timeout_secs,
{
}

/// A run goes from stage to stage: its start is logged, its directory prepared, the agent run, its
/// directory tidied and its end logged. What is done at each stage is done for this run, and a run that
/// could not be prepared is logged as failed, in the words of the error, without having run.
pub proof fn runs_go_from_stage_to_stage(
    job: JobView,
    stage: StageView,
    event: AgentEvent,
    now_ms: u64,
    next: StageView,
    action: AgentActionView,
)
    requires
        followed_by(job, stage, event, now_ms, next, action),
    ensures
        stage is LogStart ==> next is Prepare && action == (AgentActionView::Prepare {
            run_id: job.run_id,
            workflow_dir: job.workflow_dir,
            files: job.files,
        }),
        stage is Prepare ==> match event {
            AgentEvent::Prepared(Ok(p)) => {
                &&& next == (StageView::Try { second: false, working_dir: p.working_dir@ })
                &&& action matches AgentActionView::Run { working_dir, request } && working_dir == p.working_dir@
                    && request.prompt == job.prompt && request.timeout_secs == job.timeout_secs
            },
            AgentEvent::Prepared(Err(e)) => {
                &&& next matches StageView::LogEnd { ending } && ending.state == RunStateView::Failed(e@.words())
                    && ending.detail == Some(e@.words()) && ending.envelope is None && ending.scratch_dir is None
                    && action == AgentActionView::Append(end_record(job, ending, now_ms))
            },
            _ => false,
        },
        stage is Try ==> next is Try || next is Tidy,
        stage matches StageView::Try { second, working_dir } ==> (next is Tidy ==> (
        action matches AgentActionView::Tidy { working_dir: dir, failed } && dir == working_dir && (failed
            <==> next->Tidy_ending.state is Failed))),
        stage matches StageView::Tidy { ending } ==> next == (StageView::LogEnd { ending }) && action
            == AgentActionView::Append(end_record(job, ending, now_ms)),
        stage is LogEnd ==> next is Over && action is Nothing,
        !(stage is Over),
{
}

/// A run that reported ends as its report is judged: as complete, with the report as a caller gets it,
/// or as failed, for the reason of the judgement. The log gets the agent's words and the fields of the
/// report that are kept.
pub proof fn runs_end_as_they_are_judged(
    ending: EndingView,
    working_dir: Seq<char>,
    o: RuntimeOutcomeView,
)
    requires
        ending_follows(ending, working_dir, Ok(o)),
    ensures
        ending.state is Completed <==> ai_agent::judgement(o) == ClassificationView::Completed,
        ending.state matches RunStateView::Completed(v) ==> ai_agent::is_clamped_report(o.raw_json, v),
        ai_agent::judgement(o) matches ClassificationView::Failed(why) ==> ending.state == RunStateView::Failed(why),
        o.is_error ==> ending.state == RunStateView::Failed(o.result_text),
        ending.detail == Some(o.result_text),
        ending.envelope == Some(ai_agent::subset_of(o.raw_json)),
        ending.scratch_dir == Some(working_dir),
        ending.claude_version == o.claude_version,
{
}

/// A run that ended with an error failed in the words of that error. One that took too long keeps that
/// as the reason of its end, and any other keeps nothing in the place of a report.
pub proof fn errors_end_runs(ending: EndingView, working_dir: Seq<char>, e: RuntimeErrorView)
    requires
        ending_follows(ending, working_dir, Err(e)),
    ensures
        ending.state == RunStateView::Failed(e.words()),
        ending.detail == Some(e.words()),
        ending.scratch_dir == Some(working_dir),
        ending.claude_version is None,
        e is Timeout ==> (ending.envelope matches Some(JsonView::Object(m)) && m.dom().contains("terminal_reason"@)
            && m["terminal_reason"@] == JsonView::Str("handler_timeout"@)),
        !(e is Timeout) ==> ending.envelope is None,
{
}

/// What is seen of a run changes twice: it runs once its start is logged, and it is as it ended once
/// its end is. At any other time, and of any other run, nothing changes.
pub proof fn sight_follows_the_log(
    states: Map<Seq<char>, RunStateView>,
    job: JobView,
    stage: StageView,
    event: AgentEvent,
)
    ensures
        stage is LogStart && event is Logged ==> seen_after(states, job, stage, event) == states.insert(
            job.run_id,
            RunStateView::Running,
        ),
        stage matches StageView::LogEnd { ending } ==> (event is Logged ==> seen_after(states, job, stage, event)
            == states.insert(job.run_id, ending.state)),
        !(event is Logged) || !(stage is LogStart || stage is LogEnd) ==> seen_after(states, job, stage, event) == states,
{
}

/// A stage waits for one kind of event: what was asked for last.
pub proof fn stages_wait_for_what_was_asked(stage: StageView, event: AgentEvent)
    ensures
        awaited(stage, event) <==> {
            ||| (stage is LogStart || stage is LogEnd) && event is Logged
            ||| stage is Prepare && event is Prepared
            ||| stage is Try && event is Ran
            ||| stage is Tidy && event is Tidied
        },
{
}

/// After a restart a run that was complete is complete, with what was kept of its report; one that
/// failed or was cut off is failed, for the reason that was kept.
pub proof fn restarts_keep_the_ends(run: ReplayedRunView)
    ensures
        run.phase == AgentRunPhase::Completed ==> restored(run) == RunStateView::Completed(
            if run.envelope is Some {
                run.envelope->0
            } else {
                JsonView::Null
            },
        ),
        run.phase != AgentRunPhase::Completed ==> restored(run) is Failed,
        (run.phase == AgentRunPhase::Failed || run.phase == AgentRunPhase::Interrupted) && run.detail is Some ==> restored(
            run,
        ) == RunStateView::Failed(run.detail->0),
        status_of(RunStateView::Running) == RunStatus::Running,
        status_of(restored(run)) == RunStatus::Completed <==> run.phase == AgentRunPhase::Completed,
        status_of(restored(run)) == RunStatus::Failed <==> run.phase != AgentRunPhase::Completed,
{
}

/// A run that is asked for gets the next number and the job that its envelope describes; its start is
/// to be logged first, and nothing is known of it yet. Without an envelope nothing happens.
pub proof fn runs_start_with_their_log(
    before: AiAgentService,
    after: AiAgentService,
    input: Json,
    now_ms: u64,
    r: Result<(RunHandle, AgentRun, AgentAction), ServiceError>,
    s: Result<RunStatus, ServiceError>,
    h: RunHandle,
)
    requires
        exists|t: &mut AiAgentService|
            #![trigger call_ensures(AiAgentService::invoke, (t, &input, now_ms), r)]
            *t == before && *final(t) == after && call_ensures(AiAgentService::invoke, (t, &input, now_ms), r),
        call_ensures(AiAgentService::status, (&after, &h), s),
        before@.next_id < u64::MAX,
    ensures
        r is Ok <==> json::field(input@, "__agent"@) is Some,
        r is Err ==> after@ == before@ && r->Err_0.detail@
            == "missing `__agent` envelope -- dispatch() must build it from service.agent"@,
        s is Ok <==> before@.states.dom().contains(h@),
        s is Err ==> s->Err_0.detail@ == "unknown agent run handle"@,
        r matches Ok((handle, run, action)) ==> {
            &&& handle@ == "agent-"@ + text::decimal(before@.next_id as nat)
            &&& run.job.run_id@ == handle@
            &&& run.job@ == ai_agent::job_of(
                json::field(input@, "__agent"@)->0,
                ai_agent::params_of(input@),
                serde_text::json_text(ai_agent::params_of(input@)),
                before@.next_id as nat,
            )
            &&& run.stage is LogStart
            &&& action matches AgentAction::Append(k) && k.phase == AgentRunPhase::Started && k.run_id@ == handle@
                && k.at_ms == now_ms
            &&& after@.next_id == before@.next_id + 1
            &&& after@.states == before@.states
        },
{
    if let Ok((handle, run, action)) = r {
        assert(run.job@.run_id == run.job.run_id@);
        assert(action@ is Append);
        assert(action is Append);
        assert(action->Append_0@ == start_record(run.job@, now_ms));
    }
}

/// A run whose end is logged is known to be as it ended: complete, with what a caller gets, or failed,
/// with the reason. A run whose start is logged is known to run, and has no result yet.
pub proof fn ends_are_known_once_logged(
    before: AiAgentService,
    after: AiAgentService,
    run: AgentRun,
    event: AgentEvent,
    now_ms: u64,
    r: (AgentRun, AgentAction),
    h: RunHandle,
    s: Result<RunStatus, ServiceError>,
    v: Result<Option<Json>, ServiceError>,
)
    requires
        exists|t: &mut AiAgentService|
            #![trigger call_ensures(AiAgentService::advance, (t, run, event, now_ms), r)]
            *t == before && *final(t) == after && call_ensures(AiAgentService::advance, (t, run, event, now_ms), r),
        call_ensures(AiAgentService::status, (&after, &h), s),
        call_ensures(AiAgentService::result, (&after, &h), v),
        h@ == run.job@.run_id,
        event is Logged,
    ensures
        run.stage@ is LogStart ==> s == Ok::<RunStatus, ServiceError>(RunStatus::Running) && (v matches Err(e) && e.detail@
            == "agent run still in progress"@),
        run.stage@ matches StageView::LogEnd { ending } ==> match ending.state {
            RunStateView::Completed(j) => s == Ok::<RunStatus, ServiceError>(RunStatus::Completed) && (v matches Ok(Some(w))
                && w@ == j),
            RunStateView::Failed(why) => s == Ok::<RunStatus, ServiceError>(RunStatus::Failed) && (v matches Err(e)
                && e.detail@ == why),
            RunStateView::Running => s == Ok::<RunStatus, ServiceError>(RunStatus::Running),
        },
        followed_by(run.job@, run.stage@, event, now_ms, r.0.stage@, r.1@),
        r.0.job == run.job,
        after@.next_id == before@.next_id,
{
}

/// A handler starts without runs, or with those that the records tell of, and keeps the log for seven
/// days unless it is told otherwise.
pub proof fn handlers_start_where_the_log_ends(
    dir: String,
    fresh: AiAgentService,
    days: u64,
    records: Vec<AgentRunRecord>,
    again: AiAgentService,
    d: u64,
    id: Seq<char>,
)
    requires
        call_ensures(AiAgentService::new, (dir,), fresh),
        call_ensures(AiAgentService::from_records, (dir, days, records), again),
        call_ensures(AiAgentService::retention_days, (&again,), d),
    ensures
        fresh@.next_id == 0,
        fresh@.states.dom() == Set::<Seq<char>>::empty(),
        fresh@.retention_days == 7,
        fresh@.log_dir == dir@,
        d == days,
        again@.log_dir == dir@,
        again@.next_id == agent_log::next_agent_number(agent_log::run_records_view(records@)),
        again@.states.dom() == agent_log::runs_in(agent_log::run_records_view(records@)).dom(),
        again@.states.dom().contains(id) ==> again@.states[id] == restored(
            agent_log::runs_in(agent_log::run_records_view(records@))[id],
        ),
{
    assert(fresh@.states.dom() =~= Set::<Seq<char>>::empty());
    assert(again@.states.dom() =~= agent_log::runs_in(agent_log::run_records_view(records@)).dom());
}

/// A first report that cannot be read is answered by asking once more, in the same directory and for
/// the same; whatever else a try brings ends it, as the report or the error says.
pub proof fn tries_are_ended_by_their_reports(
    job: JobView,
    second: bool,
    dir: Seq<char>,
    report: Result<crate::runtime::RuntimeOutcome, RuntimeError>,
    now_ms: u64,
    next: StageView,
    action: AgentActionView,
)
    requires
        followed_by(job, StageView::Try { second, working_dir: dir }, AgentEvent::Ran(report), now_ms, next, action),
    ensures
        !second && (report matches Err(RuntimeError::Envelope { .. })) ==> next == (StageView::Try {
            second: true,
            working_dir: dir,
        }) && action == (AgentActionView::Run { working_dir: dir, request: request_of(job) }),
        second || !(report matches Err(RuntimeError::Envelope { .. })) ==> (next matches StageView::Tidy { ending }
            && ending_follows(
            ending,
            dir,
            match report {
                Ok(o) => Ok(o@),
                Err(e) => Err(e@),
            },
        ) && (report matches Ok(o) ==> (o.is_error ==> ending.state == RunStateView::Failed(o.result_text@)))),
{
    if let Ok(o) = report {
        assert(crate::runtime::local::report_view(report) == Ok::<RuntimeOutcomeView, RuntimeErrorView>(o@));
        assert(o@.is_error == o.is_error && o@.result_text == o.result_text@);
    }
}

/// Where the log kept no reason, a run that failed says just that, and one that took too long keeps
/// that as the only thing known of its end.
pub proof fn ends_without_words(run: ReplayedRunView, ending: EndingView, dir: Seq<char>, seconds: u64)
    requires
        ending_follows(ending, dir, Err(RuntimeErrorView::Timeout { seconds })),
    ensures
        (run.phase == AgentRunPhase::Failed || run.phase == AgentRunPhase::Interrupted) && run.detail is None ==> restored(
            run,
        ) == RunStateView::Failed("agent run failed"@),
        run.phase == AgentRunPhase::Started ==> restored(run) == RunStateView::Failed(
            "agent run left in an unexpected Started state after replay"@,
        ),
        ending.envelope matches Some(JsonView::Object(m)) && m.dom() == set!["terminal_reason"@],
{
    assert(ending.envelope->0->Object_0.dom() =~= set!["terminal_reason"@]);
}

/// What is seen of an ending, of a stage and of what is to be done is all of it.
pub proof fn endings_are_seen_whole(a: Ending, b: Ending, x: RunState, y: RunState)
    ensures
        a@ == b@ ==> a.state@ == b.state@ && definition::same_optional(a.scratch_dir, b.scratch_dir) && wire::same_json(
            a.envelope,
            b.envelope,
        ) && definition::same_optional(a.detail, b.detail) && definition::same_optional(
            a.claude_version,
            b.claude_version,
        ),
        x@ == y@ ==> match (x, y) {
            (RunState::Running, RunState::Running) => true,
            (RunState::Completed(i), RunState::Completed(j)) => i@ == j@,
            (RunState::Failed(i), RunState::Failed(j)) => i@ == j@,
            _ => false,
        },
{
}

/// What is seen of a stage and of what is to be done is what it is.
pub proof fn stages_are_seen_as_they_are(s: Stage, a: AgentAction, r: RunState)
    ensures
        match s {
            Stage::LogStart => s@ is LogStart,
            Stage::Prepare => s@ is Prepare,
            Stage::Try { second, working_dir } => s@ == (StageView::Try { second, working_dir: working_dir@ }),
            Stage::Tidy { ending } => s@ == (StageView::Tidy { ending: ending@ }),
            Stage::LogEnd { ending } => s@ == (StageView::LogEnd { ending: ending@ }),
            Stage::Over => s@ is Over,
        },
        match a {
            AgentAction::Append(k) => a@ == AgentActionView::Append(k@),
            AgentAction::Prepare { run_id, workflow_dir, files } => a@ == (AgentActionView::Prepare {
                run_id: run_id@,
                workflow_dir: workflow_dir@,
                files: text::texts(files@),
            }),
            AgentAction::Run { working_dir, request } => a@ == (AgentActionView::Run {
                working_dir: working_dir@,
                request: request@,
            }),
            AgentAction::Tidy { working_dir, failed } => a@ == (AgentActionView::Tidy { working_dir: working_dir@, failed }),
            AgentAction::Nothing => a@ is Nothing,
        },
        match r {
            RunState::Running => r@ is Running,
            RunState::Completed(j) => r@ == RunStateView::Completed(j@),
            RunState::Failed(why) => r@ == RunStateView::Failed(why@),
        },
{
}

} // verus!
