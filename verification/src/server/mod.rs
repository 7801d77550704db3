//! What the daemon makes of what clients send: who they are, what a frame means, and what is done
//! about a request to run a workflow.

pub mod connection_registry;
pub mod session_id;

use vstd::prelude::*;

use crate::activity;
use crate::activity::store::{ActivityRecord, RecordView};
use crate::activity::ActivityRegistry;
use crate::bytes;
use crate::client;
use crate::client::WorkflowLogInfo;
use crate::definition;
use crate::definition::ServiceMode;
use crate::error::{ServerError, ServerErrorView};
use crate::json::{Json, JsonView};
use crate::table::Table;
use crate::text;
use crate::wire;
use crate::wire::{
    ActivityEvent, ActivityPhase, Envelope, EventView, InvokeResponseView, InvokeStatus, InvokeWorkflowResponse,
    RequestPayload,
};

verus! {

broadcast use crate::json::group_json;

/// The most characters that the name of a client may have.
pub const MAX_CLIENT_NAME_LEN: usize = 256;

/// The name of a client that has not given one.
pub const UNKNOWN_CLIENT: &'static str = "unknown";

// ---------------------------------------------------------------------------
// Frames

/// The name of a client, unless it is too long.
pub fn bound_client_name(client_name: String) -> (r: Option<String>)
    ensures
        definition::optional_text(r) == if client_name@.len() <= MAX_CLIENT_NAME_LEN {
            Some(client_name@)
        } else {
            None
        },
{
    if text::chars_of(&client_name).len() > MAX_CLIENT_NAME_LEN {
        None
    } else {
        Some(client_name)
    }
}

/// What a client is called by its first frame.
pub open spec fn greeted_name(first: Option<Envelope>) -> Seq<char> {
    match first {
        Some(Envelope::Hello { client_name }) => if client_name@.len() <= MAX_CLIENT_NAME_LEN {
            client_name@
        } else {
            UNKNOWN_CLIENT@
        },
        _ => UNKNOWN_CLIENT@,
    }
}

/// What a client is called by its first frame, and the frame itself where it is no greeting: it is
/// then served like any other. There is no first frame where none came or none could be read.
pub fn read_hello(first: Option<Envelope>) -> (r: (String, Option<Envelope>))
    ensures
        r.0@ == greeted_name(first),
        r.1 == match first {
            Some(Envelope::Hello { .. }) => None,
            other => other,
        },
{
    match first {
        Some(Envelope::Hello { client_name }) => match bound_client_name(client_name) {
            Some(name) => (name, None),
            None => (UNKNOWN_CLIENT.to_owned(), None),
        },
        other => (UNKNOWN_CLIENT.to_owned(), other),
    }
}

/// The answer to a frame that is not served.
pub open spec fn frame_refused(e: ServerErrorView) -> InvokeResponseView {
    client::refused(e.words())
}

fn refuse(e: ServerError) -> (r: InvokeWorkflowResponse)
    ensures
        r@ == frame_refused(e@),
{
    InvokeWorkflowResponse { status: InvokeStatus::Failed, output: None, error: Some(e.message()), run_id: None }
}

/// What came over a connection.
#[derive(Debug)]
pub enum Frame {
    /// Nothing more: the connection is broken or at its end.
    Broken,
    Closed,
    /// Bytes that are no text.
    NotText,
    /// A text, and the envelope in it or why there is none.
    Text(String, Result<Envelope, String>),
}

/// The envelope in a frame, where there is one.
pub open spec fn envelope_in(frame: Frame) -> Option<Envelope> {
    match frame {
        Frame::Text(_, Ok(envelope)) => Some(envelope),
        _ => None,
    }
}

/// What is done when a client has come, one thing after the other.
#[derive(Debug)]
pub enum GreetStep {
    /// Send the envelope to the client.
    Send(Envelope),
    /// Enter the connection: from now on the client gets what happens.
    Register,
    Serve(Envelope),
}

/// The step tells the client its session.
pub open spec fn welcomes(step: GreetStep, session_id: Seq<char>) -> bool {
    step matches GreetStep::Send(Envelope::Welcome { session_id: told }) && told@ == session_id
}

/// What is done for a client once it knows its session: it is shown what has happened, then it is
/// entered, and then its first frame is served where it is no greeting.
pub open spec fn greeting_steps(history: Seq<Envelope>, first: Option<Envelope>) -> Seq<GreetStep> {
    let entered = history.map_values(|e: Envelope| GreetStep::Send(e)).push(GreetStep::Register);
    match first {
        None => entered,
        Some(Envelope::Hello { .. }) => entered,
        Some(envelope) => entered.push(GreetStep::Serve(envelope)),
    }
}

/// What a client is called that came with the frame, and what is done then. `session_id` is the
/// session that it was given, whatever the frame says, and `history` is what has happened.
pub fn greet(first: Frame, session_id: &str, history: Vec<Envelope>) -> (r: (String, Vec<GreetStep>))
    ensures
        r.0@ == greeted_name(envelope_in(first)),
        r.1@.len() > 0,
        welcomes(r.1@[0], session_id@),
        r.1@.skip(1) == greeting_steps(history@, envelope_in(first)),
{
    let first = match first {
        Frame::Text(_, Ok(envelope)) => Some(envelope),
        _ => None,
    };
    let (client_name, pending) = read_hello(first);
    let ghost sends = history@.map_values(|e: Envelope| GreetStep::Send(e));
    let mut steps: Vec<GreetStep> = Vec::new();
    steps.push(GreetStep::Send(Envelope::Welcome { session_id: session_id.to_owned() }));
    assert(steps@.skip(1) =~= sends.take(0));
    for event in it: history
        invariant
            sends == it.seq().map_values(|e: Envelope| GreetStep::Send(e)),
            steps@.len() == it.index() + 1,
            welcomes(steps@[0], session_id@),
            steps@.skip(1) == sends.take(it.index()),
    {
        let ghost before = steps@;
        assert(sends.take(it.index() + 1) =~= sends.take(it.index()).push(GreetStep::Send(event)));
        steps.push(GreetStep::Send(event));
        assert(steps@.skip(1) =~= before.skip(1).push(GreetStep::Send(event)));
    }
    assert(sends.take(sends.len() as int) =~= sends);
    let ghost shown = steps@;
    steps.push(GreetStep::Register);
    assert(steps@.skip(1) =~= shown.skip(1).push(GreetStep::Register));
    let ghost entered = steps@;
    if let Some(envelope) = pending {
        steps.push(GreetStep::Serve(envelope));
        assert(steps@.skip(1) =~= entered.skip(1).push(GreetStep::Serve(envelope)));
    }
    (client_name, steps)
}

/// What is done about a frame.
#[derive(Debug)]
pub enum FrameStep {
    /// The connection is done.
    Stop,
    Ignore,
    /// Answer that it cannot be served, and go on.
    Answer { id: u64, response: InvokeWorkflowResponse },
    Serve(Envelope),
}

/// The step answers the request with the id.
pub open spec fn answers(step: FrameStep, to: u64, with: InvokeResponseView) -> bool {
    step matches FrameStep::Answer { id, response } && id == to && response@ == with
}

/// What is done about a frame. One that cannot be read is answered, and the connection goes on.
pub fn next_frame(frame: Frame) -> (r: FrameStep)
    ensures
        match frame {
            Frame::Broken => r is Stop,
            Frame::Closed => r is Stop,
            Frame::NotText => r is Ignore,
            Frame::Text(t, decoded) => if text::is_blank(t@) {
                answers(r, 0, frame_refused(ServerErrorView::EmptyFrame))
            } else {
                match decoded {
                    Ok(envelope) => r == FrameStep::Serve(envelope),
                    Err(e) => answers(r, 0, frame_refused(ServerErrorView::MalformedFrame { detail: e@ })),
                }
            },
        },
{
    match frame {
        Frame::Broken => FrameStep::Stop,
        Frame::Closed => FrameStep::Stop,
        Frame::NotText => FrameStep::Ignore,
        Frame::Text(t, decoded) => {
            if text::blank(&t) {
                return FrameStep::Answer { id: 0, response: refuse(ServerError::EmptyFrame) };
            }
            match decoded {
                Ok(envelope) => FrameStep::Serve(envelope),
                Err(detail) => FrameStep::Answer { id: 0, response: refuse(ServerError::MalformedFrame { detail }) },
            }
        },
    }
}

/// What is done about an envelope.
#[derive(Debug)]
pub enum EnvelopeStep {
    Request { id: u64, payload: RequestPayload },
    /// Answer that clients send no such thing.
    Answer { id: u64, response: InvokeWorkflowResponse },
}

/// The step answers that clients send no such thing.
pub open spec fn is_misuse(step: EnvelopeStep, to: u64, got: Seq<char>) -> bool {
    step matches EnvelopeStep::Answer { id, response } && id == to && response@ == frame_refused(
        ServerErrorView::UnexpectedFrameType { got },
    )
}

fn misuse(id: u64, got: &str) -> (r: EnvelopeStep)
    ensures
        is_misuse(r, id, got@),
{
    EnvelopeStep::Answer { id, response: refuse(ServerError::UnexpectedFrameType { got: got.to_owned() }) }
}

/// What is done about an envelope: only requests are served.
pub fn dispatch_envelope(envelope: Envelope) -> (r: EnvelopeStep)
    ensures
        match envelope {
            Envelope::Req { id, payload } => r == (EnvelopeStep::Request { id, payload }),
            Envelope::Res { id, .. } => is_misuse(r, id, "res"@),
            Envelope::Event { id, .. } => is_misuse(r, id, "event"@),
            Envelope::Hello { .. } => is_misuse(r, 0, "hello"@),
            Envelope::Welcome { .. } => is_misuse(r, 0, "welcome"@),
            Envelope::Activity { .. } => is_misuse(r, 0, "activity"@),
        },
{
    match envelope {
        Envelope::Req { id, payload } => EnvelopeStep::Request { id, payload },
        Envelope::Res { id, .. } => misuse(id, "res"),
        Envelope::Event { id, .. } => misuse(id, "event"),
        Envelope::Hello { .. } => misuse(0, "hello"),
        Envelope::Welcome { .. } => misuse(0, "welcome"),
        Envelope::Activity { .. } => misuse(0, "activity"),
    }
}

// ---------------------------------------------------------------------------
// The log of runs

/// The line for a run.
pub open spec fn run_log_line(
    name: Seq<char>,
    success: bool,
    start_ms: u64,
    end_ms: u64,
    source: Seq<char>,
    run_id: Seq<char>,
) -> Seq<char> {
    "orchestratord run_id="@ + run_id + " workflow="@ + bytes::quoted(name) + " success="@ + (if success {
        "true"@
    } else {
        "false"@
    }) + " start_ms="@ + text::decimal(start_ms as nat) + " end_ms="@ + text::decimal(end_ms as nat) + " source="@
        + bytes::quoted(source)
}

/// The line for a run. The name and the source are quoted: whatever they are, it stays one line.
pub fn format_run_log_line(name: &str, success: bool, start_ms: u64, end_ms: u64, source: &str, run_id: &str) -> (r:
    String)
    ensures
        r@ == run_log_line(name@, success, start_ms, end_ms, source@, run_id@),
        !run_id@.contains('\n') ==> !r@.contains('\n'),
{
    let name = bytes::quoted_text(name);
    let source = bytes::quoted_text(source);
    let flag = if success {
        "true"
    } else {
        "false"
    };
    let start = text::decimal_u64(start_ms);
    let end = text::decimal_u64(end_ms);
    let mut line = text::concat2("orchestratord run_id=", run_id);
    line.append(" workflow=");
    line.append(&name);
    line.append(" success=");
    line.append(flag);
    line.append(" start_ms=");
    line.append(&start);
    line.append(" end_ms=");
    line.append(&end);
    line.append(" source=");
    line.append(&source);
    proof {
        if !run_id@.contains('\n') {
            reveal_strlit("orchestratord run_id=");
            reveal_strlit(" workflow=");
            reveal_strlit(" success=");
            reveal_strlit("true");
            reveal_strlit("false");
            reveal_strlit(" start_ms=");
            reveal_strlit(" end_ms=");
            reveal_strlit(" source=");
            text::decimal_read_back(start_ms as nat);
            text::decimal_read_back(end_ms as nat);
            let a = "orchestratord run_id="@ + run_id@;
            let b = a + " workflow="@ + name@;
            let c = b + " success="@ + flag@;
            let d = c + " start_ms="@ + start@;
            let e = d + " end_ms="@ + end@;
            stays_one_line("orchestratord run_id="@, run_id@, Seq::empty());
            assert("orchestratord run_id="@ + run_id@ + Seq::<char>::empty() =~= a);
            stays_one_line(a, " workflow="@, name@);
            stays_one_line(b, " success="@, flag@);
            stays_one_line(c, " start_ms="@, start@);
            stays_one_line(d, " end_ms="@, end@);
            stays_one_line(e, " source="@, source@);
        }
    }
    line
}

proof fn stays_one_line(a: Seq<char>, b: Seq<char>, c: Seq<char>)
    requires
        !a.contains('\n'),
        !b.contains('\n'),
        !c.contains('\n'),
    ensures
        !(a + b + c).contains('\n'),
{
    let s = a + b + c;
    if s.contains('\n') {
        let i = choose|i: int| 0 <= i < s.len() && s[i] == '\n';
        if i < a.len() {
            assert(a[i] == '\n');
        } else if i < a.len() + b.len() {
            assert(b[i - a.len()] == '\n');
        } else {
            assert(c[i - a.len() - b.len()] == '\n');
        }
    }
}

// ---------------------------------------------------------------------------
// Running a workflow for a client

/// What is done about a run, one thing after the other.
#[derive(Debug)]
pub enum ServerAction {
    /// Keep the record on disk.
    Append(ActivityRecord),
    /// Show the run to every client.
    Show(ActivityEvent),
    /// Answer the client that asked.
    Reply { id: u64, response: InvokeWorkflowResponse },
    /// Tell every client of the result.
    Announce { id: u64, response: InvokeWorkflowResponse },
    /// Write the line to the log.
    Log(String),
}

pub enum ActionView {
    Append(RecordView),
    Show(EventView),
    Reply { id: u64, response: InvokeResponseView },
    Announce { id: u64, response: InvokeResponseView },
    Log(Seq<char>),
}

impl View for ServerAction {
    type V = ActionView;

    open spec fn view(&self) -> ActionView {
        match *self {
            ServerAction::Append(r) => ActionView::Append(r@),
            ServerAction::Show(e) => ActionView::Show(e@),
            ServerAction::Reply { id, response } => ActionView::Reply { id, response: response@ },
            ServerAction::Announce { id, response } => ActionView::Announce { id, response: response@ },
            ServerAction::Log(line) => ActionView::Log(line@),
        }
    }
}

/// What the actions are.
pub open spec fn actions_view(v: Seq<ServerAction>) -> Seq<ActionView> {
    v.map_values(|a: ServerAction| a@)
}

proof fn actions_push(v: Seq<ServerAction>, a: ServerAction)
    ensures
        actions_view(v.push(a)) == actions_view(v).push(a@),
{
    assert(actions_view(v.push(a)) =~= actions_view(v).push(a@));
}

/// A run that a client asked for.
#[derive(Debug)]
pub struct Invocation {
    /// The id of the request.
    pub request_id: u64,
    pub run_id: String,
    pub workflow_id: String,
    pub mode: ServiceMode,
}

/// The answer that a run has started.
pub open spec fn started_response(run_id: Seq<char>) -> InvokeResponseView {
    InvokeResponseView { status: InvokeStatus::Started, output: None, error: None, run_id: Some(run_id) }
}

/// What is done when a run is asked for. A client that does not wait is answered at once.
pub open spec fn actions_at_start(mode: ServiceMode, request_id: u64, record: RecordView, event: EventView) -> Seq<
    ActionView,
> {
    let shown = seq![ActionView::Append(record), ActionView::Show(event)];
    match mode {
        ServiceMode::Sync => shown,
        ServiceMode::Async => shown.push(
            ActionView::Reply { id: request_id, response: started_response(record.run_id) },
        ),
    }
}

/// Enters a run that a client asks for.
pub fn begin_run(
    activities: &mut ActivityRegistry,
    request_id: u64,
    workflow_id: &str,
    mode: ServiceMode,
    client_name: &str,
    session_id: &str,
    now_ms: u64,
) -> (r: (Invocation, Vec<ServerAction>))
    ensures
        r.0.request_id == request_id,
        r.0.workflow_id@ == workflow_id@,
        r.0.mode == mode,
        r.0.run_id@ == activity::run_id::run_id(old(activities)@.next as nat),
        final(activities)@.next == session_id::number_after(old(activities)@.next),
        final(activities)@.store_dir == old(activities)@.store_dir,
        ({
            let record = RecordView {
                run_id: r.0.run_id@,
                workflow_id: workflow_id@,
                client_name: client_name@,
                session_id: session_id@,
                phase: ActivityPhase::Invoked,
                at_ms: now_ms,
                detail: None,
            };
            let event = activity::with_step(activity::blank_event(record), ActivityPhase::Invoked, now_ms, None);
            &&& final(activities)@.activities == old(activities)@.activities.insert(r.0.run_id@, event)
            &&& actions_view(r.1@) == actions_at_start(mode, request_id, record, event)
            &&& forall|rs: Seq<RecordView>| #[trigger]
                old(activities)@.is_replay_of(rs) && old(activities)@.next < u64::MAX
                    ==> final(activities)@.is_replay_of(rs.push(record))
        }),
{
    let (run_id, record) = activities.mint_run_id(workflow_id, client_name, session_id, now_ms);
    let mut actions: Vec<ServerAction> = Vec::new();
    let ghost rec = record@;
    let ghost event = activities@.activities[run_id@];
    actions.push(ServerAction::Append(record));
    match activities.get(&run_id) {
        Some(e) => {
            actions.push(ServerAction::Show(e));
        },
        None => {
            assert(false);
        },
    }
    assert(actions_view(actions@) =~= seq![ActionView::Append(rec), ActionView::Show(event)]);
    if let ServiceMode::Async = mode {
        let response = InvokeWorkflowResponse {
            status: InvokeStatus::Started,
            output: None,
            error: None,
            run_id: Some(run_id.clone()),
        };
        let reply = ServerAction::Reply { id: request_id, response };
        proof {
            actions_push(actions@, reply);
        }
        actions.push(reply);
    }
    (Invocation { request_id, run_id, workflow_id: workflow_id.to_owned(), mode }, actions)
}

/// What is done about a step of a run: nothing where the run is not known.
pub open spec fn actions_at_step(
    runs: Map<Seq<char>, EventView>,
    run_id: Seq<char>,
    phase: ActivityPhase,
    detail: Option<JsonView>,
    now_ms: u64,
) -> Seq<ActionView> {
    if runs.dom().contains(run_id) {
        let e = runs[run_id];
        seq![
            ActionView::Append(
                RecordView {
                    run_id,
                    workflow_id: e.workflow_id,
                    client_name: e.client_name,
                    session_id: e.session_id,
                    phase,
                    at_ms: now_ms,
                    detail,
                },
            ),
            ActionView::Show(activity::with_step(e, phase, now_ms, detail)),
        ]
    } else {
        Seq::empty()
    }
}

/// The runs after a step of one.
pub open spec fn runs_after(
    runs: Map<Seq<char>, EventView>,
    run_id: Seq<char>,
    phase: ActivityPhase,
    detail: Option<JsonView>,
    now_ms: u64,
) -> Map<Seq<char>, EventView> {
    if runs.dom().contains(run_id) {
        runs.insert(run_id, activity::with_step(runs[run_id], phase, now_ms, detail))
    } else {
        runs
    }
}

/// Enters a step of a run.
fn step_run(activities: &mut ActivityRegistry, run_id: &str, phase: ActivityPhase, detail: Option<Json>, now_ms: u64)
 -> (r: Vec<ServerAction>)
    ensures
        final(activities)@.next == old(activities)@.next,
        final(activities)@.store_dir == old(activities)@.store_dir,
        final(activities)@.activities == runs_after(
            old(activities)@.activities,
            run_id@,
            phase,
            wire::optional_json(detail),
            now_ms,
        ),
        actions_view(r@) == actions_at_step(
            old(activities)@.activities,
            run_id@,
            phase,
            wire::optional_json(detail),
            now_ms,
        ),
        old(activities)@.activities.dom().contains(run_id@) ==> forall|rs: Seq<RecordView>| #[trigger]
            old(activities)@.is_replay_of(rs) ==> final(activities)@.is_replay_of(
                rs.push(actions_view(r@)[0]->Append_0),
            ),
{
    let ghost d = wire::optional_json(detail);
    let ghost expected = actions_at_step(activities@.activities, run_id@, phase, d, now_ms);
    let mut actions: Vec<ServerAction> = Vec::new();
    match activities.record_transition(run_id, phase, detail, now_ms) {
        Some(record) => {
            let ghost rec = record@;
            actions.push(ServerAction::Append(record));
            match activities.get(run_id) {
                Some(e) => {
                    actions.push(ServerAction::Show(e));
                },
                None => {
                    assert(false);
                },
            }
        },
        None => {},
    }
    assert(actions_view(actions@) =~= expected);
    actions
}

/// Enters that a run for a client that does not wait goes off.
pub fn run_starts(activities: &mut ActivityRegistry, inv: &Invocation, now_ms: u64) -> (r: Vec<ServerAction>)
    ensures
        final(activities)@.next == old(activities)@.next,
        final(activities)@.store_dir == old(activities)@.store_dir,
        final(activities)@.activities == runs_after(
            old(activities)@.activities,
            inv.run_id@,
            ActivityPhase::Running,
            None,
            now_ms,
        ),
        actions_view(r@) == actions_at_step(
            old(activities)@.activities,
            inv.run_id@,
            ActivityPhase::Running,
            None,
            now_ms,
        ),
        old(activities)@.activities.dom().contains(inv.run_id@) ==> forall|rs: Seq<RecordView>| #[trigger]
            old(activities)@.is_replay_of(rs) ==> final(activities)@.is_replay_of(
                rs.push(actions_view(r@)[0]->Append_0),
            ),
{
    step_run(activities, &inv.run_id, ActivityPhase::Running, None, now_ms)
}

/// The step that an answer stands for, and what is kept of it: the output of a run that completed,
/// or the error of one that failed.
pub open spec fn ending_of(resp: InvokeResponseView) -> (ActivityPhase, Option<JsonView>) {
    match resp.status {
        InvokeStatus::Completed => (ActivityPhase::Completed, resp.output),
        InvokeStatus::Failed => (
            ActivityPhase::Failed,
            match resp.error {
                Some(e) => Some(
                    JsonView::Object(Map::<Seq<char>, JsonView>::empty().insert("error"@, JsonView::Str(e))),
                ),
                None => None,
            },
        ),
        InvokeStatus::Started => (ActivityPhase::Running, None),
    }
}

/// The step that an answer stands for, and what is kept of it.
pub fn phase_and_detail_for(resp: &InvokeWorkflowResponse) -> (r: (ActivityPhase, Option<Json>))
    ensures
        (r.0, wire::optional_json(r.1)) == ending_of(resp@),
{
    match resp.status {
        InvokeStatus::Completed => (ActivityPhase::Completed, wire::copy_optional_json(&resp.output)),
        InvokeStatus::Failed => match &resp.error {
            Some(e) => {
                let mut t: Table<Json> = Table::new();
                t.insert("error".to_owned(), Json::Str(e.clone()));
                (ActivityPhase::Failed, Some(Json::Object(t)))
            },
            None => (ActivityPhase::Failed, None),
        },
        InvokeStatus::Started => (ActivityPhase::Running, None),
    }
}

/// The name and the source that the log gives a workflow: its id and a dash where it is not known.
pub open spec fn log_names(info: Option<WorkflowLogInfo>, workflow_id: Seq<char>) -> (Seq<char>, Seq<char>) {
    match info {
        Some(i) => (i.name@, i.source_path@),
        None => (workflow_id, "-"@),
    }
}

/// The line that the log gets when a run has come to its end: none where the run is not known.
pub open spec fn log_at_end(
    runs: Map<Seq<char>, EventView>,
    run_id: Seq<char>,
    workflow_id: Seq<char>,
    info: Option<WorkflowLogInfo>,
    phase: ActivityPhase,
    now_ms: u64,
) -> Seq<ActionView> {
    if runs.dom().contains(run_id) {
        let (name, source) = log_names(info, workflow_id);
        seq![
            ActionView::Log(
                run_log_line(
                    name,
                    phase == ActivityPhase::Completed,
                    runs[run_id].started_at_ms,
                    now_ms,
                    source,
                    run_id,
                ),
            ),
        ]
    } else {
        Seq::empty()
    }
}

/// The answer to a client that waits has the id of its run; what all are told of has the result
/// alone.
pub open spec fn answer_at_end(mode: ServiceMode, request_id: u64, run_id: Seq<char>, resp: InvokeResponseView) -> ActionView {
    match mode {
        ServiceMode::Sync => ActionView::Reply {
            id: request_id,
            response: InvokeResponseView { run_id: Some(run_id), ..resp },
        },
        ServiceMode::Async => ActionView::Announce { id: request_id, response: resp },
    }
}

/// Enters the end of a run: its record is kept and shown, a line goes to the log, and then the
/// result is told.
pub fn run_ends(
    activities: &mut ActivityRegistry,
    inv: Invocation,
    resp: InvokeWorkflowResponse,
    info: Option<WorkflowLogInfo>,
    now_ms: u64,
) -> (r: Vec<ServerAction>)
    ensures
        final(activities)@.next == old(activities)@.next,
        final(activities)@.store_dir == old(activities)@.store_dir,
        ({
            let (phase, detail) = ending_of(resp@);
            let runs = old(activities)@.activities;
            &&& final(activities)@.activities == runs_after(runs, inv.run_id@, phase, detail, now_ms)
            &&& actions_view(r@) == (actions_at_step(runs, inv.run_id@, phase, detail, now_ms) + log_at_end(
                runs,
                inv.run_id@,
                inv.workflow_id@,
                info,
                phase,
                now_ms,
            )).push(answer_at_end(inv.mode, inv.request_id, inv.run_id@, resp@))
        }),
        old(activities)@.activities.dom().contains(inv.run_id@) ==> forall|rs: Seq<RecordView>| #[trigger]
            old(activities)@.is_replay_of(rs) ==> final(activities)@.is_replay_of(
                rs.push(actions_view(r@)[0]->Append_0),
            ),
{
    let ghost runs = activities@.activities;
    let (phase, detail) = phase_and_detail_for(&resp);
    let ghost ending = ending_of(resp@);
    let mut actions = step_run(activities, &inv.run_id, phase, detail, now_ms);
    let ghost stepped = actions_view(actions@);
    let ghost logged = log_at_end(runs, inv.run_id@, inv.workflow_id@, info, phase, now_ms);
    if let Some(event) = activities.get(&inv.run_id) {
        let success = match phase {
            ActivityPhase::Completed => true,
            _ => false,
        };
        let (name, source) = match info {
            Some(i) => (i.name, i.source_path),
            None => (inv.workflow_id, "-".to_owned()),
        };
        let line = format_run_log_line(&name, success, event.started_at_ms, now_ms, &source, &inv.run_id);
        let log = ServerAction::Log(line);
        proof {
            actions_push(actions@, log);
            assert(stepped.push(log@) =~= stepped + logged);
        }
        actions.push(log);
    } else {
        assert(stepped + logged =~= stepped);
    }
    assert(actions_view(actions@) == stepped + logged);
    let answer = match inv.mode {
        ServiceMode::Sync => {
            let response = InvokeWorkflowResponse {
                status: resp.status,
                output: resp.output,
                error: resp.error,
                run_id: Some(inv.run_id),
            };
            ServerAction::Reply { id: inv.request_id, response }
        },
        ServiceMode::Async => ServerAction::Announce { id: inv.request_id, response: resp },
    };
    proof {
        actions_push(actions@, answer);
    }
    actions.push(answer);
    actions
}

// ---------------------------------------------------------------------------
// What holds of it all

/// Whatever is done about a run, nothing of it is shown, answered or told before its record was
/// kept, and the client that asked is the last to hear of the end.
pub proof fn records_come_first(
    runs: Map<Seq<char>, EventView>,
    inv: (ServiceMode, u64, Seq<char>, Seq<char>),
    resp: InvokeResponseView,
    info: Option<WorkflowLogInfo>,
    now_ms: u64,
)
    requires
        runs.dom().contains(inv.2),
    ensures
        ({
            let (phase, detail) = ending_of(resp);
            let all = (actions_at_step(runs, inv.2, phase, detail, now_ms) + log_at_end(
                runs,
                inv.2,
                inv.3,
                info,
                phase,
                now_ms,
            )).push(answer_at_end(inv.0, inv.1, inv.2, resp));
            &&& all.len() == 4
            &&& all[0] is Append
            &&& all[1] is Show
            &&& all[2] is Log
            &&& all[3] is Reply || all[3] is Announce
            &&& all[0]->Append_0.run_id == inv.2
            &&& all[1]->Show_0.log.len() == runs[inv.2].log.len() + 1
        }),
{
}

/// A run id has no line break, so that the line for a run has none.
pub proof fn run_ids_are_one_line(n: nat)
    ensures
        !activity::run_id::run_id(n).contains('\n'),
{
    reveal_strlit("run-");
    text::decimal_read_back(n);
    stays_one_line("run-"@, text::decimal(n), Seq::empty());
    assert("run-"@ + text::decimal(n) + Seq::<char>::empty() =~= activity::run_id::run_id(n));
}

/// A client is shown all that has happened before it gets anything new, and it is entered before
/// anything it asked for is done: it sees the run that it asks for from the start.
pub proof fn history_comes_first(history: Seq<Envelope>, first: Option<Envelope>)
    ensures
        ({
            let steps = greeting_steps(history, first);
            let entered = history.len() as int;
            &&& entered < steps.len() <= entered + 2
            &&& forall|i: int| 0 <= i < entered ==> #[trigger] steps[i] == GreetStep::Send(history[i])
            &&& steps[entered] is Register
            &&& entered + 1 < steps.len() ==> steps[entered + 1] is Serve
        }),
{
}

/// A client is called what it calls itself where that has at most 256 characters, and `unknown` in any
/// other case. Its first frame is served where it is no greeting.
pub proof fn clients_are_called_what_they_say(
    name: String,
    bounded: Option<String>,
    first: Option<Envelope>,
    r: (String, Option<Envelope>),
)
    requires
        call_ensures(bound_client_name, (name,), bounded),
        call_ensures(read_hello, (first,), r),
    ensures
        name@.len() <= 256 ==> (bounded matches Some(n) && n@ == name@),
        name@.len() > 256 ==> bounded is None,
        first matches Some(Envelope::Hello { client_name }) ==> r.1 is None && (client_name@.len() <= 256 ==> r.0@
            == client_name@) && (client_name@.len() > 256 ==> r.0@ == "unknown"@),
        !(first matches Some(Envelope::Hello { .. })) ==> r.0@ == "unknown"@ && r.1 == first,
{
}

/// A client that comes is told the session it was given before anything else, whatever it said, and its
/// first frame is served last, unless it was a greeting.
pub proof fn clients_are_told_their_session(
    first: Frame,
    session: &str,
    history: Vec<Envelope>,
    r: (String, Vec<GreetStep>),
    i: int,
)
    requires
        call_ensures(greet, (first, session, history), r),
    ensures
        r.1@.len() >= history@.len() + 2,
        r.1@[0] matches GreetStep::Send(Envelope::Welcome { session_id: told }) && told@ == session@,
        0 <= i < history@.len() ==> r.1@[i + 1] == GreetStep::Send(history@[i]),
        r.1@[history@.len() as int + 1] is Register,
        first matches Frame::Text(_, Ok(Envelope::Hello { client_name })) ==> r.1@.len() == history@.len() + 2 && (
        client_name@.len() <= 256 ==> r.0@ == client_name@),
        match first {
            Frame::Text(_, Ok(Envelope::Hello { .. })) => true,
            Frame::Text(_, Ok(e)) => r.0@ == "unknown"@ && r.1@.len() == history@.len() + 3 && r.1@[history@.len() as int + 2]
                == GreetStep::Serve(e),
            _ => r.0@ == "unknown"@ && r.1@.len() == history@.len() + 2,
        },
{
    let steps = r.1@;
    let rest = steps.skip(1);
    assert(rest.len() == steps.len() - 1);
    if 0 <= i < history@.len() {
        assert(rest[i] == steps[i + 1]);
    }
    assert(rest[history@.len() as int] == steps[history@.len() as int + 1]);
    if steps.len() == history@.len() + 3 {
        assert(rest[history@.len() as int + 1] == steps[history@.len() as int + 2]);
    }
}

/// A connection goes on until it is broken or closed. A text that holds an envelope is served, one that
/// is empty or holds none is answered as failed, in words that tell why, and bytes are passed over.
pub proof fn frames_are_served_or_answered(frame: Frame, r: FrameStep)
    requires
        call_ensures(next_frame, (frame,), r),
    ensures
        r is Stop <==> frame is Broken || frame is Closed,
        r is Ignore <==> frame is NotText,
        frame matches Frame::Text(t, Ok(e)) ==> (!text::is_blank(t@) ==> r == FrameStep::Serve(e)),
        frame matches Frame::Text(t, Err(why)) ==> (!text::is_blank(t@) ==> (r matches FrameStep::Answer { id, response }
            && id == 0 && response.status == InvokeStatus::Failed && response.output is None && response.run_id is None
            && response.error is Some && response.error->0@ == (ServerErrorView::MalformedFrame {
            detail: why@,
        }).words())),
        frame matches Frame::Text(t, _) ==> (text::is_blank(t@) ==> (r matches FrameStep::Answer { id, response } && id
            == 0 && response.status == InvokeStatus::Failed && response.output is None && response.run_id is None
            && response.error is Some && response.error->0@ == ServerErrorView::EmptyFrame.words())),
{
    if let FrameStep::Answer { id, response } = r {
        assert(response@.status == InvokeStatus::Failed);
    }
}

/// Only requests are served. Any other envelope is answered as failed, under its own id where it has
/// one, in words that name it.
pub proof fn only_requests_are_served(envelope: Envelope, r: EnvelopeStep)
    requires
        call_ensures(dispatch_envelope, (envelope,), r),
    ensures
        r is Request <==> envelope is Req,
        envelope matches Envelope::Req { id, payload } ==> r == (EnvelopeStep::Request { id, payload }),
        r matches EnvelopeStep::Answer { id, response } ==> {
            let got = match envelope {
                Envelope::Res { .. } => "res"@,
                Envelope::Event { .. } => "event"@,
                Envelope::Hello { .. } => "hello"@,
                Envelope::Welcome { .. } => "welcome"@,
                _ => "activity"@,
            };
            let to: u64 = match envelope {
                Envelope::Res { id, .. } => id,
                Envelope::Event { id, .. } => id,
                _ => 0,
            };
            &&& id == to
            &&& response.status == InvokeStatus::Failed && response.output is None && response.run_id is None
            &&& response.error is Some && response.error->0@ == (ServerErrorView::UnexpectedFrameType { got }).words()
        },
{
    if let EnvelopeStep::Answer { id, response } = r {
        assert(response@.status == InvokeStatus::Failed);
    }
}

/// The line for a run tells its id, its workflow, whether it was a success, when it was and from where
/// the workflow is.
pub proof fn log_lines_tell_of_runs(
    name: &str,
    success: bool,
    start_ms: u64,
    end_ms: u64,
    source: &str,
    run_id: &str,
    r: String,
)
    requires
        call_ensures(format_run_log_line, (name, success, start_ms, end_ms, source, run_id), r),
    ensures
        success ==> r@ == "orchestratord run_id="@ + run_id@ + " workflow="@ + bytes::quoted(name@) + " success="@ + "true"@
            + " start_ms="@ + text::decimal(start_ms as nat) + " end_ms="@ + text::decimal(end_ms as nat) + " source="@
            + bytes::quoted(source@),
        !success ==> r@ == "orchestratord run_id="@ + run_id@ + " workflow="@ + bytes::quoted(name@) + " success="@
            + "false"@ + " start_ms="@ + text::decimal(start_ms as nat) + " end_ms="@ + text::decimal(end_ms as nat)
            + " source="@ + bytes::quoted(source@),
{
}

/// What an answer stands for: a run that completed, with what it gave; one that failed, with why; or
/// one that goes on.
pub proof fn answers_stand_for_steps(resp: InvokeWorkflowResponse, r: (ActivityPhase, Option<Json>))
    requires
        call_ensures(phase_and_detail_for, (&resp,), r),
    ensures
        resp.status == InvokeStatus::Completed ==> r.0 == ActivityPhase::Completed && wire::same_json(r.1, resp.output),
        resp.status == InvokeStatus::Started ==> r.0 == ActivityPhase::Running && r.1 is None,
        resp.status == InvokeStatus::Failed ==> r.0 == ActivityPhase::Failed && (r.1 is Some <==> resp.error is Some),
        resp.status == InvokeStatus::Failed && resp.error is Some ==> (r.1->0@ matches JsonView::Object(m) && m.dom()
            == set!["error"@] && m["error"@] == JsonView::Str(resp.error->0@)),
{
    if resp.status == InvokeStatus::Failed && resp.error is Some {
        assert(r.1->0@->Object_0.dom() =~= set!["error"@]);
    }
}

/// A run that is asked for is entered as not started, under the next id, for the client that asked; it
/// is kept and then shown. A client that does not wait is answered with that id, and one that waits is
/// not answered yet.
pub proof fn runs_are_entered_when_asked_for(
    before: ActivityRegistry,
    after: ActivityRegistry,
    request_id: u64,
    workflow_id: &str,
    mode: ServiceMode,
    client_name: &str,
    session_id: &str,
    now_ms: u64,
    r: (Invocation, Vec<ServerAction>),
)
    requires
        exists|t: &mut ActivityRegistry|
            #![trigger call_ensures(begin_run, (t, request_id, workflow_id, mode, client_name, session_id, now_ms), r)]
            *t == before && *final(t) == after && call_ensures(
                begin_run,
                (t, request_id, workflow_id, mode, client_name, session_id, now_ms),
                r,
            ),
    ensures
        r.0.request_id == request_id,
        r.0.workflow_id@ == workflow_id@,
        r.0.mode == mode,
        r.0.run_id@ == "run-"@ + text::decimal(before.minter.next as nat),
        r.1@.len() == if mode == ServiceMode::Sync { 2nat } else { 3 },
        r.1@[0] matches ServerAction::Append(k) && k.run_id@ == r.0.run_id@ && k.workflow_id@ == workflow_id@
            && k.client_name@ == client_name@ && k.session_id@ == session_id@ && k.phase == ActivityPhase::Invoked
            && k.at_ms == now_ms && k.detail is None,
        r.1@[1] matches ServerAction::Show(e) && e@ == after@.activities[r.0.run_id@] && e.status
            == crate::wire::ActivityStatus::NotStarted && e.workflow_id@ == workflow_id@ && e.client_name@
            == client_name@ && e.session_id@ == session_id@ && e.started_at_ms == now_ms,
        mode == ServiceMode::Async ==> (r.1@[2] matches ServerAction::Reply { id, response } && id == request_id
            && response.status == InvokeStatus::Started && response.output is None && response.error is None
            && response.run_id is Some && response.run_id->0@ == r.0.run_id@),
{
    let acts = actions_view(r.1@);
    assert(acts.len() == r.1@.len());
    assert(acts[0] == r.1@[0]@);
    assert(acts[1] == r.1@[1]@);
    let kept = acts[0]->Append_0;
    assert(kept.detail is None);
    if mode == ServiceMode::Async {
        assert(acts[2] == r.1@[2]@);
        let told = acts[2]->Reply_response;
        assert(told.status == InvokeStatus::Started && told.output is None && told.error is None);
    }
}

/// A run that goes off is shown as running: the step is kept and then shown.
pub proof fn runs_are_shown_as_running(
    before: ActivityRegistry,
    after: ActivityRegistry,
    inv: Invocation,
    now_ms: u64,
    r: Vec<ServerAction>,
)
    requires
        exists|t: &mut ActivityRegistry|
            #![trigger call_ensures(run_starts, (t, &inv, now_ms), r)]
            *t == before && *final(t) == after && call_ensures(run_starts, (t, &inv, now_ms), r),
    ensures
        !before@.activities.dom().contains(inv.run_id@) ==> r@.len() == 0 && after@.activities == before@.activities,
        before@.activities.dom().contains(inv.run_id@) ==> {
            let was = before@.activities[inv.run_id@];
            let is = after@.activities[inv.run_id@];
            &&& r@.len() == 2
            &&& r@[0] matches ServerAction::Append(k) && k.run_id@ == inv.run_id@ && k.phase == ActivityPhase::Running
                && k.at_ms == now_ms && k.detail is None && k.workflow_id@ == was.workflow_id && k.client_name@
                == was.client_name && k.session_id@ == was.session_id
            &&& r@[1] matches ServerAction::Show(e) && e@ == is
            &&& is.status == crate::wire::ActivityStatus::Running && is.log.drop_last() == was.log && is.log.last().phase
                == ActivityPhase::Running
        },
{
    let acts = actions_view(r@);
    assert(acts.len() == r@.len());
    if before@.activities.dom().contains(inv.run_id@) {
        assert(acts[0] == r@[0]@);
        assert(acts[1] == r@[1]@);
        assert(acts[0]->Append_0.detail is None);
        assert(after@.activities[inv.run_id@].log.drop_last() =~= before@.activities[inv.run_id@].log);
    }
}

/// The end of a known run is kept, shown, logged and told, in this order: as a success exactly where it
/// completed. A client that waits gets the answer with the id of the run, and else every client is told.
pub proof fn ends_are_kept_shown_logged_and_told(
    before: ActivityRegistry,
    after: ActivityRegistry,
    inv: Invocation,
    resp: InvokeWorkflowResponse,
    info: Option<WorkflowLogInfo>,
    now_ms: u64,
    r: Vec<ServerAction>,
)
    requires
        exists|t: &mut ActivityRegistry|
            #![trigger call_ensures(run_ends, (t, inv, resp, info, now_ms), r)]
            *t == before && *final(t) == after && call_ensures(run_ends, (t, inv, resp, info, now_ms), r),
        before@.activities.dom().contains(inv.run_id@),
        resp.status != InvokeStatus::Started,
    ensures
        ({
            let was = before@.activities[inv.run_id@];
            let is = after@.activities[inv.run_id@];
            let done = resp.status == InvokeStatus::Completed;
            &&& r@.len() == 4
            &&& r@[0] matches ServerAction::Append(k) && k.run_id@ == inv.run_id@ && k.phase == (if done {
                ActivityPhase::Completed
            } else {
                ActivityPhase::Failed
            }) && k.at_ms == now_ms && k.workflow_id@ == was.workflow_id && k.client_name@ == was.client_name
                && k.session_id@ == was.session_id && wire::optional_json(k.detail) == is.log.last().detail
            &&& r@[1] matches ServerAction::Show(e) && e@ == is
            &&& is.status == (if done {
                crate::wire::ActivityStatus::Success
            } else {
                crate::wire::ActivityStatus::Failure
            })
            &&& is.log.drop_last() == was.log
            &&& done ==> is.log.last().detail == wire::optional_json(resp.output)
            &&& r@[2] matches ServerAction::Log(line) && line@ == run_log_line(
                if info is Some { info->0.name@ } else { inv.workflow_id@ },
                done,
                was.started_at_ms,
                now_ms,
                if info is Some { info->0.source_path@ } else { "-"@ },
                inv.run_id@,
            )
            &&& inv.mode == ServiceMode::Sync ==> (r@[3] matches ServerAction::Reply { id, response } && id
                == inv.request_id && response.status == resp.status && wire::optional_json(response.output)
                == wire::optional_json(resp.output) && definition::optional_text(response.error)
                == definition::optional_text(resp.error) && definition::optional_text(response.run_id) == Some(
                inv.run_id@,
            ))
            &&& inv.mode == ServiceMode::Async ==> (r@[3] matches ServerAction::Announce { id, response } && id
                == inv.request_id && response@ == resp@)
        }),
{
    let acts = actions_view(r@);
    assert(acts.len() == r@.len());
    assert(acts[0] == r@[0]@);
    assert(acts[1] == r@[1]@);
    assert(acts[2] == r@[2]@);
    assert(acts[3] == r@[3]@);
    assert(after@.activities[inv.run_id@].log.drop_last() =~= before@.activities[inv.run_id@].log);
    if inv.mode == ServiceMode::Sync {
        let told = acts[3]->Reply_response;
        assert(told.status == resp.status && told.output == resp@.output && told.error == resp@.error && told.run_id
            == Some(inv.run_id@));
    }
}

/// Whatever is done about the end of a run that is not known, the client that asked is told.
pub proof fn askers_are_told_of_unknown_runs(
    before: ActivityRegistry,
    after: ActivityRegistry,
    inv: Invocation,
    resp: InvokeWorkflowResponse,
    info: Option<WorkflowLogInfo>,
    now_ms: u64,
    r: Vec<ServerAction>,
)
    requires
        exists|t: &mut ActivityRegistry|
            #![trigger call_ensures(run_ends, (t, inv, resp, info, now_ms), r)]
            *t == before && *final(t) == after && call_ensures(run_ends, (t, inv, resp, info, now_ms), r),
        !before@.activities.dom().contains(inv.run_id@),
    ensures
        after@.activities == before@.activities,
        r@.len() == 1,
        inv.mode == ServiceMode::Sync ==> r@[0] is Reply,
        inv.mode == ServiceMode::Async ==> r@[0] is Announce,
{
    let acts = actions_view(r@);
    assert(acts.len() == r@.len());
    assert(acts[0] == r@[0]@);
}

/// Two actions that look the same do the same.
pub proof fn actions_are_seen_whole(a: ServerAction, b: ServerAction)
    requires
        a@ == b@,
    ensures
        match (a, b) {
            (ServerAction::Append(x), ServerAction::Append(y)) => x@ == y@,
            (ServerAction::Show(x), ServerAction::Show(y)) => x@ == y@,
            (ServerAction::Reply { id: i, response: x }, ServerAction::Reply { id: j, response: y }) => i == j && x@
                == y@,
            (ServerAction::Announce { id: i, response: x }, ServerAction::Announce { id: j, response: y }) => i == j
                && x@ == y@,
            (ServerAction::Log(x), ServerAction::Log(y)) => x@ == y@,
            _ => false,
        },
{
}

} // verus!
