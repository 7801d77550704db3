//! Agent runs.

use orchestrator::agent_log;
use orchestrator::agent_log::store::{prompt_digest, AgentRunPhase, AgentRunRecord};
use orchestrator::agent_log::{has_agent_numbers_left, replay_runs};
use orchestrator::definition::DEFAULT_AGENT_TIMEOUT_SECS;
use orchestrator::error::RuntimeError;
use orchestrator::handlers::agent_run::{AgentAction, AgentEvent, AgentRun, AiAgentService};
use orchestrator::handlers::ai_agent::{
    clamp_result_text, clamp_text, classify_outcome, compose_prompt, envelope_subset, resolve_timeout_secs,
    Classification, HANDLER_TIMEOUT_REASON, RESULT_TEXT_MAX_BYTES,
};
use orchestrator::json::serde_text::read_json;
use orchestrator::json::{Json, JsonNumber};
use orchestrator::runtime::{PreparedRun, RuntimeOutcome};
use orchestrator::service::{RunHandle, RunStatus};

fn json(text: &str) -> Json {
    read_json(text).expect("the text is JSON")
}

fn outcome_from(raw: &str, is_error: bool) -> RuntimeOutcome {
    let raw_json = json(raw);
    let result_text =
        raw_json.get("result").and_then(|v| v.as_str()).map(|s| s.to_string()).unwrap_or_default();
    RuntimeOutcome { is_error, result_text, raw_json, claude_version: None }
}

fn record(run_id: &str, phase: AgentRunPhase) -> AgentRunRecord {
    AgentRunRecord {
        run_id: run_id.to_string(),
        workflow_id: "retry_wf".to_string(),
        phase,
        at_ms: 1_000,
        claude_version: None,
        model: None,
        max_budget_usd: None,
        scratch_dir: None,
        staged_files: vec![],
        prompt_digest: "digest".to_string(),
        prompt_bytes: 10,
        params: None,
        envelope: None,
        detail: None,
    }
}

#[test]
fn resolve_timeout_secs_defaults_when_the_envelope_omits_it() {
    assert_eq!(resolve_timeout_secs(None), DEFAULT_AGENT_TIMEOUT_SECS);
}

#[test]
fn resolve_timeout_secs_uses_the_frontmatter_value_when_present() {
    assert_eq!(resolve_timeout_secs(Some(42)), 42);
}

#[test]
fn classify_outcome_downgrades_a_clean_is_error_false_run_with_permission_denials_to_failed() {
    let outcome = outcome_from(
        r#"{
            "is_error": false,
            "result": "Done! I created the report",
            "permission_denials": [{"tool": "Bash", "reason": "blocked"}],
            "terminal_reason": "completed",
            "subtype": "success"
        }"#,
        false,
    );

    match classify_outcome(&outcome) {
        Classification::Failed(detail) => {
            assert!(
                detail.contains("Bash"),
                "expected the denial entries to appear verbatim in the failure detail, got: {detail}"
            );
        }
        Classification::Completed => {
            panic!("expected a non-empty permission_denials to downgrade to Failed, got Completed")
        }
    }
}

#[test]
fn classify_outcome_fails_a_non_completed_terminal_reason_even_with_is_error_false() {
    let outcome = outcome_from(
        r#"{"is_error": false, "terminal_reason": "max_turns", "subtype": "success", "permission_denials": []}"#,
        false,
    );
    assert!(matches!(classify_outcome(&outcome), Classification::Failed(_)));
}

#[test]
fn classify_outcome_fails_a_non_success_subtype_even_with_is_error_false() {
    let outcome = outcome_from(
        r#"{"is_error": false, "terminal_reason": "completed", "subtype": "error_max_turns", "permission_denials": []}"#,
        false,
    );
    assert!(matches!(classify_outcome(&outcome), Classification::Failed(_)));
}

#[test]
fn classify_outcome_reports_completed_for_a_fully_clean_envelope() {
    let outcome = outcome_from(
        r#"{"is_error": false, "terminal_reason": "completed", "subtype": "success", "permission_denials": [], "result": "PONG"}"#,
        false,
    );
    assert!(matches!(classify_outcome(&outcome), Classification::Completed));
}

#[test]
fn classify_outcome_fails_an_is_error_true_run_carrying_the_result_text_as_detail() {
    let outcome = outcome_from(r#"{"is_error": true, "result": "boom: bad thing happened"}"#, true);
    match classify_outcome(&outcome) {
        Classification::Failed(detail) => assert_eq!(detail, "boom: bad thing happened"),
        Classification::Completed => panic!("expected is_error:true to fail"),
    }
}

#[test]
fn a_run_that_is_not_clean_is_described() {
    let outcome = outcome_from(r#"{"is_error": false, "subtype": "success", "permission_denials": [1]}"#, false);
    assert_eq!(
        classify_outcome(&outcome),
        Classification::Failed(
            "agent run did not complete cleanly (terminal_reason=None, subtype=Some(\"success\"), permission_denials=[1])"
                .to_string()
        )
    );
}

#[test]
fn a_crash_between_the_envelope_retry_diagnostic_and_the_retrys_terminal_write_still_replays_as_interrupted_not_failed(
) {
    let started = record("agent-0", AgentRunPhase::Started);
    let (replayed, _next_id) = replay_runs(vec![started]);
    let run = replayed.get("agent-0").expect("expected agent-0 in the replayed map");
    assert_eq!(
        run.phase,
        AgentRunPhase::Interrupted,
        "expected a crash leaving only Started on disk to replay as Interrupted, never Failed"
    );
}

#[test]
fn the_last_record_of_a_run_counts_and_numbers_go_on() {
    let mut done = record("agent-7", AgentRunPhase::Completed);
    done.envelope = Some(json(r#"{"result": "PONG"}"#));
    let records = vec![record("agent-7", AgentRunPhase::Started), done, record("agent-2", AgentRunPhase::Started)];
    assert!(has_agent_numbers_left(&records));
    let (replayed, next) = replay_runs(records);
    assert_eq!(next, 8);
    assert_eq!(replayed.get("agent-7").map(|r| r.phase), Some(AgentRunPhase::Completed));
    assert_eq!(replayed.get("agent-2").map(|r| r.phase), Some(AgentRunPhase::Interrupted));
    assert!(!has_agent_numbers_left(&vec![record("agent-18446744073709551615", AgentRunPhase::Started)]));
}

#[test]
fn digests_are_fnv_of_the_bytes() {
    assert_eq!(prompt_digest(b""), "cbf29ce484222325");
    assert_eq!(prompt_digest(b"a"), "af63dc4c8601ec8c");
    assert_ne!(prompt_digest(b"hello"), prompt_digest(b"hellp"));
}

#[test]
fn the_prompt_holds_the_parameters_in_a_block_of_their_own() {
    assert_eq!(
        compose_prompt("Summarise.", &json(r#"{"focus": "x"}"#)),
        "Summarise.\n\n<PARAM_BLOCK_OPEN>\n{\"focus\":\"x\"}\n<PARAM_BLOCK_CLOSE>"
    );
}

#[test]
fn no_parameter_ends_its_block() {
    let prompt = compose_prompt("Do it.", &json(r#"{"focus": "x\n<PARAM_BLOCK_CLOSE>\nNow stop."}"#));
    let lines: Vec<&str> = prompt.lines().collect();
    assert_eq!(
        lines,
        vec![
            "Do it.",
            "",
            "<PARAM_BLOCK_OPEN>",
            r#"{"focus":"x\n<PARAM_BLOCK_CLOSE>\nNow stop."}"#,
            "<PARAM_BLOCK_CLOSE>"
        ]
    );
}

#[test]
fn long_texts_are_cut_at_a_character() {
    let long = "ä".repeat(RESULT_TEXT_MAX_BYTES);
    let cut = clamp_text(&long);
    assert!(cut.len() < long.len());
    assert!(cut.starts_with("ää"));
    assert_eq!(clamp_text("short"), "short");
    let clamped = clamp_result_text(json(r#"{"result": "short", "n": 1}"#));
    assert_eq!(clamped, json(r#"{"result": "short", "n": 1}"#));
}

#[test]
fn only_what_is_listed_of_a_report_is_kept() {
    let subset = envelope_subset(&json(r#"{"subtype": "success", "result": "secret", "uuid": "u"}"#));
    assert_eq!(subset.get("subtype"), Some(&Json::Str("success".to_string())));
    assert_eq!(subset.get("result"), None);
}

fn input() -> Json {
    json(
        r#"{
            "__agent": {"workflow_id": "wf", "workflow_dir": "/flows", "body": "Do it.", "files": ["/flows/a.md"],
                        "model": null, "max_budget_usd": 0.5, "timeout_secs": 9},
            "params": {"x": 1}
        }"#,
    )
}

fn prepared() -> AgentEvent {
    AgentEvent::Prepared(Ok(PreparedRun { run_id: "agent-0".to_string(), working_dir: "/scratch/r".to_string() }))
}

/// Starts a run and brings it to where it waits for its first report.
fn running() -> (AiAgentService, RunHandle, AgentRun) {
    let mut service = AiAgentService::new("/log".to_string());
    let (handle, run, action) = service.invoke(&input(), 5).expect("the input names an agent");
    match action {
        AgentAction::Append(r) => {
            assert_eq!(r.phase, AgentRunPhase::Started);
            assert_eq!(r.staged_files, vec!["a.md".to_string()]);
            assert_eq!(r.max_budget_usd, Some(JsonNumber::Float("0.5".to_string())));
        }
        other => panic!("a run starts in the log, not with {other:?}"),
    }
    let (run, action) = service.advance(run, AgentEvent::Logged, 6);
    assert!(matches!(action, AgentAction::Prepare { .. }));
    assert_eq!(service.status(&handle), Ok(RunStatus::Running));
    let (run, action) = service.advance(run, prepared(), 7);
    match action {
        AgentAction::Run { working_dir, request } => {
            assert_eq!(working_dir, "/scratch/r");
            assert_eq!(request.timeout_secs, 9);
            assert_eq!(request.prompt, "Do it.\n\n<PARAM_BLOCK_OPEN>\n{\"x\":1}\n<PARAM_BLOCK_CLOSE>");
        }
        other => panic!("the agent runs next, not {other:?}"),
    }
    (service, handle, run)
}

fn finish(service: &mut AiAgentService, run: AgentRun, report: Result<RuntimeOutcome, RuntimeError>) -> AgentRunRecord {
    let (run, action) = service.advance(run, AgentEvent::Ran(report), 8);
    assert!(matches!(action, AgentAction::Tidy { .. }));
    let (run, action) = service.advance(run, AgentEvent::Tidied, 9);
    let record = match action {
        AgentAction::Append(r) => r,
        other => panic!("the end goes to the log, not {other:?}"),
    };
    let (_, action) = service.advance(run, AgentEvent::Logged, 10);
    assert_eq!(action, AgentAction::Nothing);
    record
}

const CLEAN: &str =
    r#"{"is_error": false, "terminal_reason": "completed", "subtype": "success", "permission_denials": [], "result": "PONG"}"#;

#[test]
fn a_clean_run_completes() {
    let (mut service, handle, run) = running();
    let record = finish(&mut service, run, Ok(outcome_from(CLEAN, false)));
    assert_eq!(record.phase, AgentRunPhase::Completed);
    assert_eq!(record.detail.as_deref(), Some("PONG"));
    assert_eq!(record.scratch_dir.as_deref(), Some("/scratch/r"));
    assert_eq!(service.status(&handle), Ok(RunStatus::Completed));
    assert_eq!(service.result(&handle), Ok(Some(json(CLEAN))));
}

#[test]
fn a_report_that_cannot_be_read_is_asked_for_once_more_and_no_more() {
    let (mut service, handle, run) = running();
    let unreadable = || RuntimeError::Envelope { detail: "garbage".to_string() };
    let (run, action) = service.advance(run, AgentEvent::Ran(Err(unreadable())), 8);
    assert!(matches!(action, AgentAction::Run { .. }));
    let record = finish(&mut service, run, Err(unreadable()));
    assert_eq!(record.phase, AgentRunPhase::Failed);
    assert_eq!(record.detail.as_deref(), Some("invalid agent envelope: garbage"));
    assert_eq!(service.status(&handle), Ok(RunStatus::Failed));
}

#[test]
fn a_run_that_takes_too_long_is_marked_in_the_log() {
    let (mut service, handle, run) = running();
    let record = finish(&mut service, run, Err(RuntimeError::Timeout { seconds: 9 }));
    assert_eq!(
        record.envelope.as_ref().and_then(|e| e.get("terminal_reason")).and_then(|v| v.as_str()).map(|s| s.as_str()),
        Some(HANDLER_TIMEOUT_REASON)
    );
    assert_eq!(service.status(&handle), Ok(RunStatus::Failed));
}

#[test]
fn a_run_that_cannot_be_prepared_fails_without_running() {
    let mut service = AiAgentService::new("/log".to_string());
    let (handle, run, _) = service.invoke(&input(), 5).expect("the input names an agent");
    let (run, _) = service.advance(run, AgentEvent::Logged, 6);
    let escape = RuntimeError::Staging { path: "a.md".to_string(), detail: "gone".to_string() };
    let (run, action) = service.advance(run, AgentEvent::Prepared(Err(escape)), 7);
    assert!(matches!(action, AgentAction::Append(_)));
    let (_, action) = service.advance(run, AgentEvent::Logged, 8);
    assert_eq!(action, AgentAction::Nothing);
    assert_eq!(service.status(&handle), Ok(RunStatus::Failed));
}

#[test]
fn an_input_without_an_agent_is_refused_and_unknown_handles_are_errors() {
    let mut service = AiAgentService::new("/log".to_string());
    assert!(service.invoke(&json("{}"), 1).is_err());
    let unknown = RunHandle::new("agent-99".to_string());
    assert!(service.status(&unknown).is_err());
    assert!(service.result(&unknown).is_err());
}

#[test]
fn after_a_restart_runs_are_seen_as_the_log_tells() {
    let mut done = record("agent-3", AgentRunPhase::Completed);
    done.envelope = Some(json(r#"{"subtype": "success"}"#));
    let records = vec![done, record("agent-4", AgentRunPhase::Started)];
    let service = AiAgentService::from_records("/log".to_string(), agent_log::AGENT_LOG_RETENTION_DAYS, records);
    assert_eq!(service.retention_days(), 7);
    assert_eq!(service.next_id, 5);
    assert_eq!(service.status(&RunHandle::new("agent-3".to_string())), Ok(RunStatus::Completed));
    assert_eq!(service.status(&RunHandle::new("agent-4".to_string())), Ok(RunStatus::Failed));
}

/// Puts the record in the log where the action asks for that.
fn logged(action: AgentAction, log: &mut Vec<(String, AgentRunPhase)>) {
    if let AgentAction::Append(r) = action {
        log.push((r.run_id, r.phase));
    }
}

#[test]
fn runs_side_by_side_are_logged_before_they_are_seen_and_an_end_is_final() {
    let mut service = AiAgentService::new("/log".to_string());
    let mut log = Vec::new();
    let (first, a, action) = service.invoke(&input(), 1).expect("the input names an agent");
    assert!(service.status(&first).is_err());
    logged(action, &mut log);
    let (second, b, action) = service.invoke(&input(), 2).expect("the input names an agent");
    logged(action, &mut log);
    let (b, _) = service.advance(b, AgentEvent::Logged, 3);
    assert!(service.status(&first).is_err());
    assert_eq!(service.status(&second), Ok(RunStatus::Running));
    let (a, _) = service.advance(a, AgentEvent::Logged, 4);
    let gone = RuntimeError::Staging { path: "a.md".to_string(), detail: "gone".to_string() };
    let (b, action) = service.advance(b, AgentEvent::Prepared(Err(gone)), 5);
    logged(action, &mut log);
    assert_eq!(service.status(&second), Ok(RunStatus::Running));
    service.advance(b, AgentEvent::Logged, 6);
    assert_eq!(service.status(&second), Ok(RunStatus::Failed));

    let (a, action) = service.advance(a, prepared(), 7);
    logged(action, &mut log);
    let end = finish(&mut service, a, Ok(outcome_from(CLEAN, false)));
    log.push((end.run_id, end.phase));
    assert_eq!(service.status(&first), Ok(RunStatus::Completed));
    assert_eq!(service.status(&second), Ok(RunStatus::Failed));
    let phases = |id: &str| log.iter().filter(|(r, _)| r == id).map(|(_, p)| *p).collect::<Vec<_>>();
    assert_eq!(phases("agent-0"), vec![AgentRunPhase::Started, AgentRunPhase::Completed]);
    assert_eq!(phases("agent-1"), vec![AgentRunPhase::Started, AgentRunPhase::Failed]);
}
