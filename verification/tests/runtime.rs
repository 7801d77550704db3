//! Agents as child processes.

use orchestrator::error::RuntimeError;
use orchestrator::json::{Json, JsonNumber};
use orchestrator::runtime::local::{
    check_staged, child_arguments, child_command, child_environment, claude_version, run_outcome, stage_plan, to_sweep,
    ChildCommand, ChildEvent, LocalRuntime, StagePlan, SCRATCH_RETAIN_HOURS,
};
use orchestrator::runtime::RuntimeRequest;

fn runtime() -> LocalRuntime {
    LocalRuntime {
        program: "runner".to_string(),
        claude_bin: "/bin/agent".to_string(),
        api_key: "k".to_string(),
        scratch_root: "/scratch".to_string(),
        claude_version: Some("1.2.3".to_string()),
    }
}

fn request(budget: Option<JsonNumber>, model: Option<&str>) -> RuntimeRequest {
    RuntimeRequest {
        prompt: "do --it".to_string(),
        model: model.map(|m| m.to_string()),
        max_budget_usd: budget,
        timeout_secs: 9,
    }
}

#[test]
fn the_arguments_are_fixed_but_for_the_prompt_the_budget_and_the_model() {
    assert_eq!(
        child_arguments(&request(Some(JsonNumber::Float("0.5".to_string())), Some("m"))),
        vec![
            "-p",
            "do --it",
            "--bare",
            "--output-format",
            "json",
            "--permission-mode",
            "bypassPermissions",
            "--max-budget-usd",
            "0.5",
            "--model",
            "m"
        ]
    );
    assert_eq!(child_arguments(&request(None, None))[8], "1");
    assert_eq!(child_arguments(&request(Some(JsonNumber::PosInt(2)), None)).len(), 9);
}

#[test]
fn a_budget_is_written_as_a_double() {
    let written = |n: JsonNumber| child_arguments(&request(Some(n), None))[8].clone();
    assert_eq!(written(JsonNumber::PosInt(2)), "2");
    assert_eq!(written(JsonNumber::NegInt(-3)), "-3");
    assert_eq!(written(JsonNumber::Float("1e3".to_string())), "1000");
    assert_eq!(written(JsonNumber::Float("inf".to_string())), f64::INFINITY.to_string());
    assert_eq!(written(JsonNumber::Float("-inf".to_string())), f64::NEG_INFINITY.to_string());
    assert_eq!(written(JsonNumber::Float("NaN".to_string())), f64::NAN.to_string());
}

#[test]
fn a_child_is_started_in_its_directory_with_the_key_in_its_environment() {
    let key = ("ANTHROPIC_API_KEY".to_string(), "k".to_string());
    assert_eq!(child_environment(&runtime()), key);
    let req = request(None, None);
    assert_eq!(
        child_command(&runtime(), "/scratch/r", &req),
        ChildCommand {
            program: "/bin/agent".to_string(),
            working_dir: "/scratch/r".to_string(),
            variable: key,
            arguments: child_arguments(&req),
        }
    );
}

fn exited(stdout: &str) -> ChildEvent {
    ChildEvent::Exited { stdout: stdout.as_bytes().to_vec(), stderr: b"warn".to_vec() }
}

#[test]
fn a_report_is_read_from_the_output() {
    let o = run_outcome(&runtime(), 9, exited(r#"{"is_error": false, "result": "PONG"}"#)).expect("a report");
    assert!(!o.is_error);
    assert_eq!(o.result_text, "PONG");
    assert_eq!(o.claude_version.as_deref(), Some("1.2.3"));
    assert_eq!(o.raw_json.get("is_error"), Some(&Json::Bool(false)));
}

#[test]
fn an_output_that_is_no_report_is_an_error() {
    match run_outcome(&runtime(), 9, exited("garbage")) {
        Err(RuntimeError::Envelope { detail }) => {
            assert!(detail.starts_with("failed to parse runner stdout as JSON: "));
            assert!(detail.ends_with(" (stdout: \"garbage\", stderr: \"warn\")"));
        }
        other => panic!("expected an envelope error, got {other:?}"),
    }
    assert_eq!(
        run_outcome(&runtime(), 9, exited(r#"{"is_error": 0}"#)),
        Err(RuntimeError::Envelope {
            detail: "envelope missing or non-boolean `is_error` field (stdout: \"{\\\"is_error\\\": 0}\")".to_string()
        })
    );
    assert_eq!(
        run_outcome(&runtime(), 9, ChildEvent::TimedOut),
        Err(RuntimeError::Timeout { seconds: 9 })
    );
    assert_eq!(
        run_outcome(&runtime(), 9, ChildEvent::NotRun { detail: "no".to_string() }),
        Err(RuntimeError::Spawn { binary: "/bin/agent".to_string(), detail: "no".to_string() })
    );
}

#[test]
fn the_version_is_what_was_written_if_it_ended_well() {
    assert_eq!(claude_version(Some((true, b" 1.2.3 \n".to_vec()))).as_deref(), Some("1.2.3"));
    assert_eq!(claude_version(Some((false, b"1.2.3".to_vec()))), None);
    assert_eq!(claude_version(Some((true, vec![0xff]))), None);
    assert_eq!(claude_version(Some((true, b" \n".to_vec()))), None);
    assert_eq!(claude_version(None), None);
}

#[test]
fn files_are_staged_at_the_place_they_have_in_the_workflow() {
    assert_eq!(
        stage_plan("ref.md", Ok("/flows/agent/ref.md".to_string()), "/flows", "/scratch/r"),
        Ok(StagePlan {
            source: "/flows/agent/ref.md".to_string(),
            destination: "/scratch/r/agent/ref.md".to_string(),
            parent: Some("/scratch/r/agent".to_string())
        })
    );
    assert_eq!(
        stage_plan("ref.md", Ok("/etc/passwd".to_string()), "/flows", "/scratch/r"),
        Err(RuntimeError::PathEscape {
            path: "ref.md".to_string(),
            reason: "source resolves outside the workflow directory".to_string()
        })
    );
    assert_eq!(
        stage_plan("ref.md", Err("gone".to_string()), "/flows", "/scratch/r"),
        Err(RuntimeError::Staging { path: "ref.md".to_string(), detail: "gone".to_string() })
    );
    assert_eq!(check_staged("a", "/scratch/r/a", Ok("/scratch/r/a".to_string()), "/scratch/r"), Ok(()));
    assert!(matches!(
        check_staged("a", "/scratch/r/a", Ok("/etc/a".to_string()), "/scratch/r"),
        Err(RuntimeError::PathEscape { .. })
    ));
}

#[test]
fn only_old_directories_of_runs_are_swept() {
    let day = 24 * 3600;
    assert!(to_sweep("agent-run-x", true, Some((day, 1)), SCRATCH_RETAIN_HOURS));
    assert!(!to_sweep("agent-run-x", true, Some((day, 0)), SCRATCH_RETAIN_HOURS));
    assert!(!to_sweep("agent-run-x", true, None, SCRATCH_RETAIN_HOURS));
    assert!(!to_sweep("agent-run-x", false, Some((day, 1)), SCRATCH_RETAIN_HOURS));
    assert!(!to_sweep("other", true, Some((day, 1)), SCRATCH_RETAIN_HOURS));
}
