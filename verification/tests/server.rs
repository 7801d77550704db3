//! Connections, frames and runs for clients.

use orchestrator::activity::ActivityRegistry;
use orchestrator::client::WorkflowLogInfo;
use orchestrator::definition::ServiceMode;
use orchestrator::json::serde_text::read_json;
use orchestrator::json::Json;
use orchestrator::server::connection_registry::{next_conn_id, ConnectionRegistry};
use orchestrator::server::session_id::{next_session_id, SessionIdMinter};
use orchestrator::server::{
    begin_run, bound_client_name, dispatch_envelope, format_run_log_line, greet, next_frame, phase_and_detail_for,
    read_hello, run_ends, run_starts, EnvelopeStep, Frame, FrameStep, GreetStep, ServerAction,
};
use orchestrator::wire::{
    ActivityPhase, ActivityStatus, Envelope, InvokeStatus, InvokeWorkflowResponse, ListWorkflowsRequest,
    RequestPayload, ResponsePayload,
};

#[test]
fn next_conn_id_is_monotonically_increasing() {
    let mut counter = 0;
    let first = next_conn_id(&mut counter);
    let second = next_conn_id(&mut counter);
    assert!(second > first, "expected next_conn_id to strictly increase");
}

#[test]
fn completed_run_line_has_all_required_fields_and_no_embedded_newline() {
    let line = format_run_log_line("Set Timer", true, 1_000, 1_500, "workflows/set_timer.md", "run-1");

    assert!(!line.contains('\n'), "log line must be single-line, got: {line:?}");
    assert!(line.contains("success=true"), "expected success=true, got: {line}");
    assert!(line.contains("start_ms=1000"), "expected start_ms=1000, got: {line}");
    assert!(line.contains("end_ms=1500"), "expected end_ms=1500, got: {line}");
    assert!(line.contains("run_id=run-1"), "expected run_id=run-1, got: {line}");
    assert!(line.contains("Set Timer"), "expected the workflow name, got: {line}");
    assert!(line.contains("workflows/set_timer.md"), "expected the source path, got: {line}");
}

#[test]
fn failed_run_line_has_success_false() {
    let line = format_run_log_line("Set Timer", false, 1_000, 1_200, "workflows/set_timer.md", "run-2");

    assert!(line.contains("success=false"), "expected success=false, got: {line}");
}

#[test]
fn embedded_newline_in_name_is_escaped_not_emitted_as_a_real_line_break() {
    let line = format_run_log_line("evil\nname", true, 1_000, 1_100, "workflows/evil.md", "run-3");

    assert!(
        !line.contains('\n'),
        "a crafted workflow name with an embedded newline must never forge an extra log line, got: {line:?}"
    );
    assert!(
        line.contains("\\n"),
        "expected the embedded newline to be escaped via debug quoting, got: {line:?}"
    );
}

#[test]
fn the_line_of_a_run_is_exact() {
    assert_eq!(
        format_run_log_line("A \"b\"", true, 1, 2, "w.md", "run-0"),
        "orchestratord run_id=run-0 workflow=\"A \\\"b\\\"\" success=true start_ms=1 end_ms=2 source=\"w.md\""
    );
}

#[test]
fn session_id_sequential_mints_differ() {
    let mut minter = SessionIdMinter::new();
    let first = minter.mint();
    let second = minter.mint();
    assert_ne!(first, second, "sequential mints must produce distinct session ids");
}

#[test]
fn mints_are_strictly_increasing() {
    let mut minter = SessionIdMinter::new();
    let first = minter.mint();
    let second = minter.mint();
    let first_n: u64 = first
        .strip_prefix("sess-")
        .expect("mint() should produce a sess- prefixed id")
        .parse()
        .expect("suffix should be numeric");
    let second_n: u64 = second
        .strip_prefix("sess-")
        .expect("mint() should produce a sess- prefixed id")
        .parse()
        .expect("suffix should be numeric");
    assert!(second_n > first_n, "expected mints to strictly increase");
}

#[test]
fn next_session_id_is_monotonically_increasing() {
    let mut counter = 0;
    let first = next_session_id(&mut counter);
    let second = next_session_id(&mut counter);
    assert!(second > first, "expected next_session_id to strictly increase");
}

#[test]
fn session_id_is_never_derived_from_an_external_value() {
    let mut counter = 0;
    let id = next_session_id(&mut counter);
    assert!(id.starts_with("sess-"), "session id format should remain stable");
}

#[test]
fn the_counters_start_again_after_the_largest_number() {
    let mut counter = u64::MAX;
    assert_eq!(next_session_id(&mut counter), "sess-18446744073709551615");
    assert_eq!(next_session_id(&mut counter), "sess-0");
    assert_eq!(next_conn_id(&mut counter), 1);
    assert_eq!(SessionIdMinter::default().mint(), "sess-0");
}

#[test]
fn a_broadcast_goes_to_every_open_connection_and_to_no_other() {
    let mut registry = ConnectionRegistry::default();
    registry.register(1, "a".to_string(), "sess-1".to_string());
    registry.register(2, "b".to_string(), "sess-2".to_string());
    let mut targets = registry.targets();
    targets.sort();
    assert_eq!(targets, vec![1, 2]);
    registry.deregister(1);
    assert_eq!(registry.targets(), vec![2]);
    registry.deregister(7);
    assert_eq!(registry.targets(), vec![2]);
    assert_eq!(registry.client_name(1), None);
    registry.set_client_name(2, "c".to_string());
    registry.set_client_name(1, "d".to_string());
    assert_eq!(registry.client_name(2).as_deref(), Some("c"));
    assert_eq!(registry.session_id(2).as_deref(), Some("sess-2"), "a name is no session");
    assert_eq!(registry.session_id(1), None);
    assert_eq!(registry.client_name(1), None);
    registry.register(2, "e".to_string(), "sess-2".to_string());
    assert_eq!(registry.client_name(2).as_deref(), Some("e"));
    assert_eq!(registry.targets().len(), 1);
}

#[test]
fn names_are_bounded_by_characters() {
    let fits = "ä".repeat(256);
    assert_eq!(bound_client_name(fits.clone()), Some(fits));
    assert_eq!(bound_client_name("ä".repeat(257)), None);
}

fn hello(name: &str) -> Envelope {
    Envelope::Hello { client_name: name.to_string() }
}

fn list(id: u64) -> Envelope {
    Envelope::Req { id, payload: RequestPayload::ListWorkflows(ListWorkflowsRequest {}) }
}

#[test]
fn a_client_without_a_greeting_is_unknown_and_served() {
    assert_eq!(read_hello(Some(hello("cli"))), ("cli".to_string(), None));
    assert_eq!(read_hello(Some(hello(&"x".repeat(257)))), ("unknown".to_string(), None));
    assert_eq!(read_hello(None), ("unknown".to_string(), None));
    assert_eq!(read_hello(Some(list(3))), ("unknown".to_string(), Some(list(3))));
}

#[test]
fn a_client_sees_what_has_happened_before_it_is_served() {
    let mut activities = ActivityRegistry::new();
    begin_run(&mut activities, 1, "set_timer", ServiceMode::Sync, "cli", "sess-0", 5);
    begin_run(&mut activities, 2, "set_timer", ServiceMode::Sync, "cli", "sess-0", 6);

    let first = Frame::Text("...".to_string(), Ok(list(3)));
    let (name, steps) = greet(first, "sess-4", activities.snapshot_as_events());
    assert_eq!(name, "unknown");
    match steps.as_slice() {
        [
            GreetStep::Send(Envelope::Welcome { session_id }),
            GreetStep::Send(Envelope::Activity { .. }),
            GreetStep::Send(Envelope::Activity { .. }),
            GreetStep::Register,
            GreetStep::Serve(envelope),
        ] => {
            assert_eq!(session_id, "sess-4");
            assert_eq!(*envelope, list(3));
        }
        other => panic!("unexpected steps {other:?}"),
    }

    let (name, steps) = greet(Frame::Text("...".to_string(), Ok(hello("cli"))), "sess-5", Vec::new());
    assert_eq!(name, "cli");
    assert!(matches!(steps.as_slice(), [GreetStep::Send(Envelope::Welcome { .. }), GreetStep::Register]));
    for frame in [Frame::Broken, Frame::NotText, Frame::Text("{".to_string(), Err("bad".to_string()))] {
        let (name, steps) = greet(frame, "sess-6", Vec::new());
        assert_eq!(name, "unknown");
        assert!(matches!(steps.as_slice(), [GreetStep::Send(Envelope::Welcome { .. }), GreetStep::Register]));
    }
}

fn refusal(step: FrameStep) -> (u64, String) {
    match step {
        FrameStep::Answer { id, response } => {
            assert_eq!(response.status, InvokeStatus::Failed);
            (id, response.error.expect("a refusal has words"))
        }
        other => panic!("expected an answer, got {other:?}"),
    }
}

#[test]
fn frames_that_cannot_be_read_are_answered() {
    assert!(matches!(next_frame(Frame::Broken), FrameStep::Stop));
    assert!(matches!(next_frame(Frame::Closed), FrameStep::Stop));
    assert!(matches!(next_frame(Frame::NotText), FrameStep::Ignore));
    assert_eq!(
        refusal(next_frame(Frame::Text(" \n".to_string(), Err("x".to_string())))),
        (0, "empty frame".to_string())
    );
    assert_eq!(
        refusal(next_frame(Frame::Text("{".to_string(), Err("eof".to_string())))),
        (0, "malformed frame: eof".to_string())
    );
    assert!(matches!(next_frame(Frame::Text("{}".to_string(), Ok(hello("a")))), FrameStep::Serve(_)));
}

fn misuse(envelope: Envelope) -> (u64, String) {
    match dispatch_envelope(envelope) {
        EnvelopeStep::Answer { id, response } => (id, response.error.expect("a refusal has words")),
        other => panic!("expected an answer, got {other:?}"),
    }
}

fn response(status: InvokeStatus) -> InvokeWorkflowResponse {
    InvokeWorkflowResponse { status, output: None, error: None, run_id: None }
}

#[test]
fn clients_send_requests_alone() {
    assert!(matches!(dispatch_envelope(list(4)), EnvelopeStep::Request { id: 4, .. }));
    let payload = || ResponsePayload::InvokeWorkflow(response(InvokeStatus::Completed));
    let words = |got: &str| format!("unexpected frame type from client: {got}");
    assert_eq!(misuse(Envelope::Res { id: 5, payload: payload() }), (5, words("res")));
    assert_eq!(misuse(Envelope::Event { id: 6, payload: payload() }), (6, words("event")));
    assert_eq!(misuse(hello("a")), (0, words("hello")));
    assert_eq!(misuse(Envelope::Welcome { session_id: "sess-0".to_string() }), (0, words("welcome")));
    let mut activities = ActivityRegistry::new();
    activities.mint_run_id("w", "c", "s", 1);
    assert_eq!(misuse(activities.snapshot_as_events().remove(0)), (0, words("activity")));
}

#[test]
fn the_end_of_a_run_is_kept_with_its_output_or_its_error() {
    let mut done = response(InvokeStatus::Completed);
    done.output = Some(Json::Bool(true));
    assert_eq!(phase_and_detail_for(&done), (ActivityPhase::Completed, Some(Json::Bool(true))));
    let mut failed = response(InvokeStatus::Failed);
    failed.error = Some("boom".to_string());
    assert_eq!(
        phase_and_detail_for(&failed),
        (ActivityPhase::Failed, Some(read_json(r#"{"error": "boom"}"#).expect("JSON")))
    );
    assert_eq!(phase_and_detail_for(&response(InvokeStatus::Failed)), (ActivityPhase::Failed, None));
    assert_eq!(phase_and_detail_for(&response(InvokeStatus::Started)), (ActivityPhase::Running, None));
}

#[test]
fn a_client_that_waits_is_answered_last() {
    let mut activities = ActivityRegistry::new();
    let (inv, actions) = begin_run(&mut activities, 7, "set_timer", ServiceMode::Sync, "cli", "sess-3", 100);
    assert_eq!(actions.len(), 2);
    match (&actions[0], &actions[1]) {
        (ServerAction::Append(record), ServerAction::Show(event)) => {
            assert_eq!(record.run_id, "run-0");
            assert_eq!(record.session_id, "sess-3");
            assert_eq!(event.status, ActivityStatus::NotStarted);
        }
        other => panic!("unexpected actions {other:?}"),
    }
    let info = Some(WorkflowLogInfo { name: "Set Timer".to_string(), source_path: "w.md".to_string() });
    let actions = run_ends(&mut activities, inv, response(InvokeStatus::Completed), info, 150);
    assert_eq!(actions.len(), 4);
    match (&actions[1], &actions[2], &actions[3]) {
        (ServerAction::Show(event), ServerAction::Log(line), ServerAction::Reply { id, response }) => {
            assert_eq!(event.status, ActivityStatus::Success);
            assert_eq!(
                line,
                "orchestratord run_id=run-0 workflow=\"Set Timer\" success=true start_ms=100 end_ms=150 source=\"w.md\""
            );
            assert_eq!(*id, 7);
            assert_eq!(response.run_id.as_deref(), Some("run-0"));
        }
        other => panic!("unexpected actions {other:?}"),
    }
}

#[test]
fn a_client_that_does_not_wait_is_answered_at_once_and_all_are_told_of_the_end() {
    let mut activities = ActivityRegistry::new();
    let (inv, actions) = begin_run(&mut activities, 8, "gone", ServiceMode::Async, "cli", "sess-0", 1);
    match &actions[2] {
        ServerAction::Reply { id, response } => {
            assert_eq!(*id, 8);
            assert_eq!(response.status, InvokeStatus::Started);
            assert_eq!(response.run_id.as_deref(), Some("run-0"));
        }
        other => panic!("expected a reply, got {other:?}"),
    }
    let actions = run_starts(&mut activities, &inv, 2);
    assert_eq!(actions.len(), 2);
    let actions = run_ends(&mut activities, inv, response(InvokeStatus::Failed), None, 3);
    match (&actions[2], &actions[3]) {
        (ServerAction::Log(line), ServerAction::Announce { id, response }) => {
            assert_eq!(
                line,
                "orchestratord run_id=run-0 workflow=\"gone\" success=false start_ms=1 end_ms=3 source=\"-\""
            );
            assert_eq!(*id, 8);
            assert_eq!(response.run_id, None);
        }
        other => panic!("unexpected actions {other:?}"),
    }
    assert_eq!(activities.get("run-0").expect("known").log.len(), 3);
}
