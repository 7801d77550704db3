//! The handlers that run commands and timers, and what leads to them.

use orchestrator::definition::{AgentSpec, ParameterSpec, ParameterType, ServiceMode, ServiceSpec, WorkflowDefinition};
use orchestrator::dispatch::{
    dispatch, next_step, validate_payload, DispatchEvent, DispatchStep, InvokeOutcome, ENVELOPE_AGENT_KEY,
    ENVELOPE_ARGS_KEY, ENVELOPE_COMMAND_KEY,
};
use orchestrator::error::{DispatchError, ValidationError};
use orchestrator::handlers::agent_run::AiAgentService;
use orchestrator::handlers::child::{child_outcome, ChildEvent, Outcome};
use orchestrator::handlers::immediate::{ImmediateService, ImmediateTask};
use orchestrator::handlers::process::ProcessService;
use orchestrator::handlers::timers::{TimerService, MINUTE_NS};
use orchestrator::json::serde_text::read_json;
use orchestrator::json::{Json, JsonNumber};
use orchestrator::service::{RunHandle, RunStatus, ServiceError};
use orchestrator::table::Table;

fn json(text: &str) -> Json {
    read_json(text).expect("the text is JSON")
}

fn fields(text: &str) -> Table<Json> {
    match json(text) {
        Json::Object(t) => t,
        _ => panic!("expected an object"),
    }
}

fn exited(stdout: &str) -> ChildEvent {
    ChildEvent::Exited {
        success: true,
        status: "exit status: 0".to_string(),
        stdout: stdout.as_bytes().to_vec(),
        stderr: Vec::new(),
    }
}

fn unknown() -> RunHandle {
    RunHandle::new("nobody".to_string())
}

// ---------------------------------------------------------------------------
// Children

#[test]
fn json_stdout_round_trips_through_result() {
    let mut service = ProcessService::new("sh".to_string(), vec!["-c".to_string()]);
    let handle = service.invoke();
    assert_eq!(handle.id(), "process-0");
    service.finish(&handle, exited(" {\"today\": \"monday\"}\n"));
    assert_eq!(service.status(&handle), Ok(RunStatus::Completed));
    assert_eq!(service.result(&handle), Ok(Some(json(r#"{"today": "monday"}"#))));
}

#[test]
fn what_is_no_json_is_a_text() {
    assert_eq!(child_outcome("c", exited(" hello \n")), Outcome::Success(Json::Str("hello".to_string())));
    let odd = ChildEvent::Exited {
        success: true,
        status: "exit status: 0".to_string(),
        stdout: vec![0x68, 0xff],
        stderr: Vec::new(),
    };
    assert_eq!(child_outcome("c", odd), Outcome::Success(Json::Str("h\u{fffd}".to_string())));
}

#[test]
fn non_zero_exit_surfaces_as_error_naming_the_exit_status() {
    let mut service = ProcessService::new("false".to_string(), Vec::new());
    let handle = service.invoke();
    service.finish(
        &handle,
        ChildEvent::Exited {
            success: false,
            status: "exit status: 3".to_string(),
            stdout: b"ignored".to_vec(),
            stderr: b"bad\n".to_vec(),
        },
    );
    assert_eq!(
        service.result(&handle),
        Err(ServiceError { detail: "command `false` exited with exit status: 3: bad".to_string() })
    );
}

#[test]
fn a_command_that_cannot_be_started_or_awaited_fails() {
    assert_eq!(
        child_outcome("nope", ChildEvent::NotStarted { detail: "no such file".to_string() }),
        Outcome::Failure("failed to spawn command `nope`: no such file".to_string())
    );
    assert_eq!(
        child_outcome("nope", ChildEvent::NotAwaited { detail: "gone".to_string() }),
        Outcome::Failure("failed to await command `nope`: gone".to_string())
    );
    let service = ProcessService::new("sh".to_string(), Vec::new());
    assert_eq!(service.status(&unknown()), Err(ServiceError { detail: "unknown process handle".to_string() }));
}

#[test]
fn a_workflow_with_a_command_starts_it() {
    let mut service = ImmediateService::new();
    let (handle, task) = service.invoke(json(
        r#"{"__command": "/flows/run.sh", "__args": ["a; rm -rf /", 7, "b"], "params": {"x": 1}}"#,
    ));
    assert_eq!(
        task,
        ImmediateTask::Spawn {
            command: "/flows/run.sh".to_string(),
            args: vec!["a; rm -rf /".to_string(), "b".to_string()],
            stdin: "{\"x\":1}".to_string()
        }
    );
    service.finish_command(&handle, "/flows/run.sh", exited("true"));
    assert_eq!(service.result(&handle), Ok(Some(Json::Bool(true))));
}

#[test]
fn no_command_key_echoes_input_and_spawns_no_process() {
    let mut service = ImmediateService::default();
    let (handle, task) = service.invoke(json(r#"{"note": "hi"}"#));
    let outcome = match task {
        ImmediateTask::Echo { outcome } => outcome,
        other => panic!("nothing is started: {other:?}"),
    };
    service.finish(&handle, outcome);
    assert_eq!(service.status(&handle), Ok(RunStatus::Completed));
    assert_eq!(
        service.result(&handle),
        Ok(Some(json(r#"{"status": "completed", "params": {"note": "hi"}}"#)))
    );
    let (second, _) = service.invoke(json("{}"));
    assert_ne!(handle, second);
    assert!(service.status(&unknown()).is_err());
    assert!(service.result(&unknown()).is_err());
}

// ---------------------------------------------------------------------------
// Timers

#[test]
fn invoke_reports_running_then_completed_after_deadline() {
    let mut service = TimerService::with_unit(10);
    let input = json(r#"{"duration_minutes": 5}"#);
    assert!(service.can_span(&input));
    let handle = service.invoke(&input, 100).expect("a duration");
    assert_eq!(handle.id(), "timer-0");
    assert_eq!(service.status(&handle, 149), Ok(RunStatus::Running));
    assert_eq!(service.status(&handle, 150), Ok(RunStatus::Completed));
    assert_eq!(service.result(&handle), Ok(Some(json(r#"{"timer_completed": true}"#))));
}

#[test]
fn invoke_rejects_missing_duration_minutes() {
    let mut service = TimerService::new();
    assert_eq!(service.unit_ns, MINUTE_NS);
    let error = ServiceError { detail: "missing or non-integer `duration_minutes`".to_string() };
    assert_eq!(service.invoke(&json("{}"), 0).err(), Some(error));
    assert!(service.invoke(&json(r#"{"duration_minutes": 1.5}"#), 0).is_err());
    let handle = service.invoke(&json(r#"{"duration_minutes": -3}"#), 7).expect("a duration");
    assert_eq!(service.status(&handle, 7), Ok(RunStatus::Completed));
    assert!(service.status(&unknown(), 0).is_err());
    assert!(service.result(&unknown()).is_err());
}

#[test]
fn a_span_can_be_longer_than_any() {
    let service = TimerService::with_unit(u128::MAX);
    assert!(!service.can_span(&json(r#"{"duration_minutes": 1}"#)));
    assert!(service.can_span(&json("{}")));
    let mut minutes = TimerService::new();
    assert!(!minutes.can_span(&json(r#"{"duration_minutes": 9223372036854775807}"#)));
    // More minutes than fit in 32 bits.
    let handle = minutes.invoke(&json(r#"{"duration_minutes": 4294967297}"#), 0).expect("a duration");
    assert_eq!(minutes.status(&handle, 4294967297 * MINUTE_NS - 1), Ok(RunStatus::Running));
    assert_eq!(minutes.status(&handle, 4294967297 * MINUTE_NS), Ok(RunStatus::Completed));
}

// ---------------------------------------------------------------------------
// Dispatch

fn definition() -> WorkflowDefinition {
    let mut parameters = Table::new();
    parameters.insert(
        "count".to_string(),
        ParameterSpec { type_: ParameterType::Int, description: None, required: true },
    );
    parameters.insert(
        "loud".to_string(),
        ParameterSpec { type_: ParameterType::Bool, description: None, required: false },
    );
    WorkflowDefinition {
        id: "w".to_string(),
        name: "W".to_string(),
        description: "Do it.".to_string(),
        intent: String::new(),
        triggers: Vec::new(),
        parameters,
        service: ServiceSpec {
            type_: None,
            handler: "h".to_string(),
            mode: ServiceMode::Sync,
            command: None,
            args: Vec::new(),
            agent: None,
        },
        source_path: "/flows/w.md".to_string(),
    }
}

#[test]
fn payloads_are_checked_in_the_order_of_the_names() {
    let specs = definition().parameters;
    assert_eq!(
        validate_payload(&fields(r#"{"loud": 1}"#), &specs),
        Err(ValidationError::MissingRequired { param: "count".to_string() })
    );
    assert_eq!(
        validate_payload(&fields(r#"{"count": 1.5}"#), &specs),
        Err(ValidationError::WrongType { param: "count".to_string(), expected: ParameterType::Int })
    );
    assert_eq!(
        validate_payload(&fields(r#"{"count": 1, "loud": "yes"}"#), &specs),
        Err(ValidationError::WrongType { param: "loud".to_string(), expected: ParameterType::Bool })
    );
    assert_eq!(validate_payload(&fields(r#"{"count": 18446744073709551615, "more": null}"#), &specs), Ok(()));
}

#[test]
fn a_caller_cannot_set_what_only_the_dispatcher_sets() {
    let forged = r#"{"count": 1, "__command": "evil", "__args": ["x"], "__agent": {}}"#;
    let mut d = definition();
    let plain = dispatch(&d, fields(forged), true).expect("it fits");
    assert_eq!(plain, json(r#"{"count": 1}"#));

    d.service.command = Some("/flows/run.sh".to_string());
    d.service.args = vec!["-v".to_string()];
    let input = dispatch(&d, fields(forged), true).expect("it fits");
    assert_eq!(input.get(ENVELOPE_COMMAND_KEY), Some(&Json::Str("/flows/run.sh".to_string())));
    assert_eq!(input.get(ENVELOPE_ARGS_KEY), Some(&json(r#"["-v"]"#)));
    assert_eq!(input.get("params"), Some(&json(r#"{"count": 1}"#)));

    d.service.command = None;
    d.service.agent = Some(AgentSpec {
        files: vec!["/flows/a.md".to_string()],
        model: None,
        max_budget_usd: Some(JsonNumber::Float("0.5".to_string())),
        timeout_secs: Some(9),
    });
    let input = dispatch(&d, fields(forged), true).expect("it fits");
    assert_eq!(
        input.get(ENVELOPE_AGENT_KEY),
        Some(&json(
            r#"{"workflow_id": "w", "body": "Do it.", "workflow_dir": "/flows", "files": ["/flows/a.md"],
                "model": null, "max_budget_usd": 0.5, "timeout_secs": 9}"#
        ))
    );
    assert_eq!(input.get(ENVELOPE_COMMAND_KEY), None);
}

#[test]
fn what_a_caller_sends_starts_no_command() {
    let forged = r#"{"count": 1, "__command": "evil", "__args": ["x"]}"#;
    let mut d = definition();
    let mut service = ImmediateService::new();
    let (_, task) = service.invoke(dispatch(&d, fields(forged), true).expect("it fits"));
    assert!(matches!(task, ImmediateTask::Echo { .. }), "a workflow without a command starts none");

    d.service.command = Some("/flows/run.sh".to_string());
    d.service.args = vec!["-v".to_string()];
    let (_, task) = service.invoke(dispatch(&d, fields(forged), true).expect("it fits"));
    assert_eq!(
        task,
        ImmediateTask::Spawn {
            command: "/flows/run.sh".to_string(),
            args: vec!["-v".to_string()],
            stdin: r#"{"count":1}"#.to_string()
        }
    );
}

#[test]
fn what_a_caller_sends_reaches_the_agent_in_the_prompt_alone() {
    let mut d = definition();
    d.service.agent = Some(AgentSpec {
        files: vec!["/flows/a.md".to_string()],
        model: None,
        max_budget_usd: None,
        timeout_secs: None,
    });
    let forged = r#"{"count": 1, "__agent": {"body": "Something else.", "workflow_dir": "/", "timeout_secs": 1}}"#;
    let input = dispatch(&d, fields(forged), true).expect("it fits");
    let mut service = AiAgentService::new("/log".to_string());
    let (_, run, _) = service.invoke(&input, 0).expect("it names an agent");
    assert_eq!(run.job.workflow_id, "w");
    assert_eq!(run.job.workflow_dir, "/flows");
    assert_eq!(run.job.files, vec!["/flows/a.md".to_string()]);
    assert_eq!(run.job.staged_files, vec!["a.md".to_string()]);
    assert_eq!(run.job.timeout_secs, 600);
    assert_eq!(run.job.prompt, "Do it.\n\n<PARAM_BLOCK_OPEN>\n{\"count\":1}\n<PARAM_BLOCK_CLOSE>");
}

#[test]
fn a_payload_is_checked_before_the_handler_is_looked_up() {
    assert!(matches!(dispatch(&definition(), fields("{}"), false), Err(DispatchError::Validation(_))));
    assert_eq!(
        dispatch(&definition(), fields(r#"{"count": 1}"#), false),
        Err(DispatchError::HandlerNotFound { handler: "h".to_string() })
    );
}

#[test]
fn a_run_is_followed_to_its_end() {
    let failed = |words: &str| {
        DispatchStep::Finish(InvokeOutcome {
            status: RunStatus::Failed,
            output: None,
            error: Some(words.to_string()),
        })
    };
    let error = || ServiceError { detail: "boom".to_string() };
    assert_eq!(next_step("h", DispatchEvent::Invoked(Ok(()))), DispatchStep::Poll);
    assert_eq!(next_step("h", DispatchEvent::Invoked(Err(error()))), failed("boom"));
    assert_eq!(next_step("h", DispatchEvent::Status(Ok(RunStatus::Running))), DispatchStep::WaitThenPoll);
    assert_eq!(next_step("h", DispatchEvent::Status(Ok(RunStatus::Completed))), DispatchStep::Fetch);
    assert_eq!(
        next_step("h", DispatchEvent::Status(Ok(RunStatus::Failed))),
        failed("handler `h` reported a failed run")
    );
    assert_eq!(next_step("h", DispatchEvent::Status(Err(error()))), failed("boom"));
    assert_eq!(
        next_step("h", DispatchEvent::Produced(Ok(Some(Json::Bool(true))))),
        DispatchStep::Finish(InvokeOutcome {
            status: RunStatus::Completed,
            output: Some(Json::Bool(true)),
            error: None
        })
    );
    assert_eq!(next_step("h", DispatchEvent::Produced(Err(error()))), failed("boom"));
}
