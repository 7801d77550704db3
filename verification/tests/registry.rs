//! Workflow files: reading them, writing them, and asking about them.

use orchestrator::client::{create_response, delete_response, finish_invoke, invoke_status, InProcessOrchestrator};
use orchestrator::definition::{AgentSpec, ParameterSpec, ParameterType, ServiceMode, ServiceSpec, WorkflowDefinition};
use orchestrator::dispatch::InvokeOutcome;
use orchestrator::error::{CreateError, DeleteError, LoadError};
use orchestrator::json::serde_text::read_json;
use orchestrator::json::{Json, JsonNumber};
use orchestrator::registry::loader::{
    is_definition_file, parse_file, required_string, validate_definition, RawAgent, RawFrontmatter, RawParameter,
    RawService,
};
use orchestrator::registry::writer::{
    assert_contained, check_request, create_workflow, delete_workflow, removal_steps, render_file, undo_removal,
    undo_steps, validate_agent_files, validate_content_len, validate_id, validate_name, written_dir_of,
    written_path_of, CreateOutcome, DeleteOutcome, DiskFacts, Removal, Resolution, UndoStep, WriteStep,
};
use orchestrator::registry::{LoadedFile, Registry};
use orchestrator::service::RunStatus;
use orchestrator::table::Table;
use orchestrator::wire::{
    AgentWorkflowConfig, CreateWorkflowRequest, InvokeStatus, InvokeWorkflowRequest, ParameterDescriptor,
    WorkflowWriteMode,
};

fn stub_definition(id: &str, name: &str) -> WorkflowDefinition {
    WorkflowDefinition {
        id: id.to_string(),
        name: name.to_string(),
        description: String::new(),
        intent: String::new(),
        triggers: Vec::new(),
        parameters: Table::new(),
        service: ServiceSpec {
            type_: None,
            handler: "demo.handler".to_string(),
            mode: ServiceMode::Sync,
            command: None,
            args: Vec::new(),
            agent: None,
        },
        source_path: "stub.md".to_string(),
    }
}

fn loaded(d: WorkflowDefinition) -> LoadedFile {
    LoadedFile { path: format!("{}.md", d.id), outcome: Ok(d) }
}

fn text_of(v: &serde_json::Value, k: &str) -> Option<String> {
    v.get(k).and_then(|x| x.as_str()).map(|s| s.to_string())
}

/// Reads a file the way the daemon does: its front matter is YAML.
fn load_text(content: &str, path: &str) -> Result<WorkflowDefinition, LoadError> {
    let (matter, prose) = parse_file(content, path)?;
    let yaml: serde_json::Value = yaml_serde::from_str(&matter).expect("the front matter is YAML");
    let service = yaml.get("service").map(|s| RawService {
        type_: text_of(s, "type"),
        handler: text_of(s, "handler"),
        mode: text_of(s, "mode"),
        command: text_of(s, "command"),
        args: None,
        agent: None,
    });
    let raw = RawFrontmatter {
        id: text_of(&yaml, "id"),
        name: text_of(&yaml, "name"),
        intent: text_of(&yaml, "intent"),
        triggers: None,
        parameters: None,
        service,
    };
    validate_definition(raw, prose, path)
}

const LOGINFO: &str = r#"---
id: loginfo
name: Log Info Workflow
service:
  type: action
  handler: demo.loginfo
---
Used to assert workflow_log_info's name/source_path lookup.
"#;

#[test]
fn enumerate_returns_workflows_sorted_by_id() {
    let mut files = Vec::new();
    for (id, name) in [("zebra", "Zebra"), ("apple", "Apple"), ("mango", "Mango")] {
        files.push(loaded(stub_definition(id, name)));
    }
    let (registry, errors) = Registry::load(Vec::new(), files);
    assert!(errors.is_empty());

    let ids: Vec<String> = registry.enumerate().into_iter().map(|s| s.id).collect();
    assert_eq!(
        ids,
        vec!["apple".to_string(), "mango".to_string(), "zebra".to_string()],
        "expected enumerate() to return workflows sorted ascending by id, got: {ids:?}"
    );
}

#[test]
fn workflow_log_info_returns_name_and_source_path_for_a_known_workflow_id() {
    let path = "/workflows/loginfo.md";
    let file = LoadedFile { path: path.to_string(), outcome: load_text(LOGINFO, path) };
    let (registry, errors) = Registry::load(Vec::new(), vec![file]);
    assert!(errors.is_empty());
    let orchestrator = InProcessOrchestrator::new("/workflows".to_string());

    let info = orchestrator
        .workflow_log_info(&registry, "loginfo")
        .expect("expected a known workflow id to resolve to Some(WorkflowLogInfo)");
    assert_eq!(info.name, "Log Info Workflow");
    assert_eq!(
        orchestrator::paths::file_name_of(&info.source_path).as_deref(),
        Some("loginfo.md"),
        "expected source_path's file name to match the fixture file"
    );
}

#[test]
fn workflow_log_info_returns_none_for_an_unknown_workflow_id() {
    let registry = Registry::new();
    let orchestrator = InProcessOrchestrator::new("/workflows".to_string());

    assert!(
        orchestrator.workflow_log_info(&registry, "does_not_exist").is_none(),
        "expected an unknown workflow id to resolve to None"
    );
}

#[test]
fn a_file_is_split_into_front_matter_and_prose() {
    let d = load_text(LOGINFO, "/workflows/loginfo.md").expect("the file is in order");
    assert_eq!(d.id, "loginfo");
    assert_eq!(d.description, "Used to assert workflow_log_info's name/source_path lookup.");
    assert_eq!(d.service.type_.as_deref(), Some("action"));
    assert_eq!(d.service.handler, "demo.loginfo");
    assert_eq!(d.service.mode, ServiceMode::Sync);
    assert_eq!(
        parse_file("no front matter here\n", "x.md"),
        Err(LoadError::NoFrontmatter { path: "x.md".to_string() })
    );
}

#[test]
fn only_markdown_outside_agent_directories_is_a_workflow() {
    assert!(is_definition_file("workflows/set_timer.md"));
    assert!(!is_definition_file("workflows/agent/notes.md"));
    assert!(!is_definition_file("workflows/.md"));
    assert!(!is_definition_file("workflows/set_timer.txt"));
}

#[test]
fn of_two_files_with_one_id_the_first_counts() {
    let mut second = stub_definition("a", "Second");
    second.source_path = "b.md".to_string();
    let files = vec![
        LoadedFile { path: "a.md".to_string(), outcome: Ok(stub_definition("a", "First")) },
        LoadedFile { path: "b.md".to_string(), outcome: Ok(second) },
        LoadedFile { path: "c.md".to_string(), outcome: Err(LoadError::NoFrontmatter { path: "c.md".to_string() }) },
    ];
    let scan = vec![LoadError::Io { path: "d".to_string(), detail: "denied".to_string() }];
    let (registry, errors) = Registry::load(scan, files);
    assert_eq!(registry.len(), 1);
    assert_eq!(registry.lookup("a").map(|d| d.name.as_str()), Some("First"));
    assert_eq!(
        errors,
        vec![
            LoadError::Io { path: "d".to_string(), detail: "denied".to_string() },
            LoadError::DuplicateId { path: "b.md".to_string(), id: "a".to_string() },
            LoadError::NoFrontmatter { path: "c.md".to_string() },
        ]
    );
    assert_eq!(errors[1].message(), "b.md: duplicate workflow id `a` (already loaded from another file)");
}

fn raw_service() -> RawService {
    RawService { type_: None, handler: None, mode: None, command: None, args: None, agent: None }
}

fn raw(service: Option<RawService>) -> RawFrontmatter {
    RawFrontmatter {
        id: Some("w".to_string()),
        name: Some("W".to_string()),
        intent: None,
        triggers: None,
        parameters: None,
        service,
    }
}

#[test]
fn what_is_missing_or_unknown_is_named() {
    let path = "flows/w.md";
    let load = |r: RawFrontmatter| validate_definition(r, String::new(), path).err();
    let missing = |field: &str| {
        Some(LoadError::MissingField { path: path.to_string(), field: field.to_string() })
    };

    let mut no_id = raw(Some(raw_service()));
    no_id.id = Some("  ".to_string());
    assert_eq!(load(no_id), missing("id"));

    let mut no_name = raw(Some(raw_service()));
    no_name.name = None;
    assert_eq!(load(no_name), missing("name"));

    assert_eq!(load(raw(None)), missing("service.handler"));

    let mut bad_mode = raw_service();
    bad_mode.mode = Some("later".to_string());
    assert_eq!(
        load(raw(Some(bad_mode))),
        Some(LoadError::UnknownServiceMode { path: path.to_string(), value: "later".to_string() })
    );

    let mut both = raw_service();
    both.command = Some("run.sh".to_string());
    both.agent = Some(RawAgent { files: None, model: None, max_budget_usd: None, timeout_secs: None });
    assert_eq!(
        load(raw(Some(both))),
        Some(LoadError::ConflictingServiceBinding { path: path.to_string() })
    );

    let mut typeless = raw(Some(raw_service()));
    let mut parameters = Table::new();
    parameters.insert("z".to_string(), RawParameter { type_: None, description: None, required: None });
    parameters.insert(
        "a".to_string(),
        RawParameter { type_: Some("float".to_string()), description: None, required: None },
    );
    typeless.parameters = Some(parameters);
    assert_eq!(
        load(typeless),
        Some(LoadError::UnknownParameterType { path: path.to_string(), value: "float".to_string() })
    );

    let mut untyped = raw(Some(raw_service()));
    let mut parameters = Table::new();
    parameters.insert("z".to_string(), RawParameter { type_: None, description: None, required: None });
    untyped.parameters = Some(parameters);
    assert_eq!(load(untyped), missing("parameters.z.type"));

    assert_eq!(required_string(Some("x".to_string()), "id", path), Ok("x".to_string()));
}

#[test]
fn defaults_and_relative_paths_are_filled_in() {
    let mut service = raw_service();
    service.command = Some("scripts/w.sh".to_string());
    let d = validate_definition(raw(Some(service)), "prose".to_string(), "/flows/w.md").expect("in order");
    assert_eq!(d.service.handler, "action.immediate");
    assert_eq!(d.service.command.as_deref(), Some("/flows/scripts/w.sh"));
    assert_eq!(d.intent, "");

    let mut service = raw_service();
    service.agent = Some(RawAgent {
        files: Some(vec!["agent/ref.md".to_string(), "/etc/hosts".to_string()]),
        model: Some("m".to_string()),
        max_budget_usd: Some(JsonNumber::Float("0.5".to_string())),
        timeout_secs: Some(9),
    });
    let d = validate_definition(raw(Some(service)), String::new(), "/flows/w.md").expect("in order");
    assert_eq!(
        d.service.agent,
        Some(AgentSpec {
            files: vec!["/flows/agent/ref.md".to_string(), "/etc/hosts".to_string()],
            model: Some("m".to_string()),
            max_budget_usd: Some(JsonNumber::Float("0.5".to_string())),
            timeout_secs: Some(9),
        })
    );
}

#[test]
fn ids_names_and_files_are_checked() {
    assert_eq!(validate_id("set_timer-2"), Ok(()));
    let invalid = |id: &str, reason: &str| {
        Err(CreateError::InvalidId { id: id.to_string(), reason: reason.to_string() })
    };
    assert_eq!(validate_id(""), invalid("", "must not be empty"));
    let long = "a".repeat(65);
    assert_eq!(validate_id(&long), invalid(&long, "must be at most 64 characters"));
    assert_eq!(validate_id(&"a".repeat(64)), Ok(()));
    assert_eq!(
        validate_id("../x"),
        invalid("../x", "must contain only lowercase letters, digits, `_`, and `-`")
    );
    assert_eq!(validate_id("_x"), invalid("_x", "must start with an alphanumeric character"));

    assert_eq!(validate_name("Name"), Ok(()));
    assert_eq!(validate_name(" "), Err(CreateError::InvalidName { reason: "must not be empty".to_string() }));
    assert_eq!(
        validate_name(&"n".repeat(201)),
        Err(CreateError::InvalidName { reason: "must be at most 200 characters".to_string() })
    );

    assert_eq!(validate_content_len("ä", 2), Ok(()));
    assert_eq!(validate_content_len("ä", 1), Err(CreateError::ContentTooLarge { len: 2, max: 1 }));

    assert_eq!(validate_agent_files(&vec!["a.md".to_string()]), Ok(()));
    assert_eq!(
        validate_agent_files(&vec![String::new()]),
        Err(CreateError::InvalidAgentFile { reason: "agent.files entry must not be empty".to_string() })
    );
    assert_eq!(
        validate_agent_files(&vec!["a\0b".to_string()]),
        Err(CreateError::InvalidAgentFile { reason: "agent.files entry must not contain a NUL byte".to_string() })
    );
    assert_eq!(
        validate_agent_files(&vec!["x".repeat(513)]),
        Err(CreateError::InvalidAgentFile {
            reason: "agent.files entry exceeds the 512 character limit".to_string()
        })
    );
    assert_eq!(
        validate_agent_files(&vec!["x".to_string(); 51]),
        Err(CreateError::InvalidAgentFile {
            reason: "agent.files declares 51 entries, exceeding the 50 limit".to_string()
        })
    );
}

fn request(id: &str, script: Option<&str>, mode: WorkflowWriteMode) -> CreateWorkflowRequest {
    CreateWorkflowRequest {
        id: id.to_string(),
        name: "Hello".to_string(),
        description: "Says hello.".to_string(),
        script: script.map(|s| s.to_string()),
        agent: None,
        parameters: vec![ParameterDescriptor {
            name: "dur".to_string(),
            type_: ParameterType::Int,
            required: true,
        }],
        mode,
    }
}

fn nothing_there() -> DiskFacts {
    DiskFacts {
        loaded_from: None,
        definition_exists: false,
        script_exists: false,
        dir_exists: false,
        scripts_dir_exists: false,
    }
}

#[test]
fn a_script_is_written_before_the_definition_that_names_it() {
    let req = request("hello", Some("echo hi"), WorkflowWriteMode::Create);
    let plan = create_workflow("/flows", &req, "runner", &nothing_there()).expect("accepted");
    assert_eq!(
        plan.steps,
        vec![
            WriteStep::MakeDir { path: "/flows".to_string() },
            WriteStep::MakeDir { path: "/flows/scripts".to_string() },
            WriteStep::WriteScript {
                path: "/flows/scripts/hello.sh".to_string(),
                content: "echo hi".to_string()
            },
            WriteStep::MakeExecutable { path: "/flows/scripts/hello.sh".to_string() },
            WriteStep::WriteDefinition { path: "/flows/hello.md".to_string() },
        ]
    );
    assert_eq!(plan.frontmatter.service.command.as_deref(), Some("scripts/hello.sh"));
    assert_eq!(plan.frontmatter.service.handler, "action.immediate");
    assert_eq!(plan.frontmatter.parameters.get("dur").map(|p| p.required), Some(true));
    assert_eq!(
        create_response(Ok(plan.outcome)).script_path.as_deref(),
        Some("/flows/scripts/hello.sh")
    );
}

#[test]
fn what_is_there_is_not_written_over_and_what_is_not_cannot_be_edited() {
    let req = request("hello", Some("echo hi"), WorkflowWriteMode::Create);
    let exists = |path: &str| {
        Some(CreateError::AlreadyExists { id: "hello".to_string(), path: path.to_string() })
    };
    let mut facts = nothing_there();
    facts.loaded_from = Some("/flows/sub/other.md".to_string());
    assert_eq!(create_workflow("/flows", &req, "runner", &facts).err(), exists("/flows/hello.md"));
    let mut facts = nothing_there();
    facts.definition_exists = true;
    assert_eq!(create_workflow("/flows", &req, "runner", &facts).err(), exists("/flows/hello.md"));
    let mut facts = nothing_there();
    facts.script_exists = true;
    assert_eq!(create_workflow("/flows", &req, "runner", &facts).err(), exists("/flows/scripts/hello.sh"));
    let edit = request("hello", None, WorkflowWriteMode::Edit);
    assert_eq!(
        create_workflow("/flows", &edit, "runner", &nothing_there()).err(),
        Some(CreateError::NotFound { id: "hello".to_string(), path: "/flows/hello.md".to_string() })
    );
    let mut both = request("hello", Some("echo hi"), WorkflowWriteMode::Create);
    both.agent = Some(AgentWorkflowConfig { files: Vec::new(), timeout_secs: None, max_budget_usd: None });
    assert_eq!(
        check_request(&both),
        Err(CreateError::ConflictingServiceBinding { id: "hello".to_string() })
    );
    let refused = create_response(create_workflow("/flows", &edit, "runner", &nothing_there()).map(|p| p.outcome));
    assert!(!refused.created);
    assert_eq!(
        refused.error.as_deref(),
        Some(
            "workflow `hello` not found at /flows/hello.md (use `workflow create` to add a new definition)"
        )
    );
}

#[test]
fn a_definition_is_front_matter_between_dashes_and_prose() {
    assert_eq!(
        render_file(Ok("---\nid: a\n".to_string()), "Prose.", "a.md"),
        Ok("---\nid: a\n---\nProse.\n".to_string())
    );
    assert_eq!(
        render_file(Ok("id: a".to_string()), "Prose.", "a.md"),
        Ok("---\nid: a\n---\nProse.\n".to_string())
    );
    assert_eq!(
        render_file(Err("no".to_string()), "Prose.", "a.md"),
        Err(CreateError::Io {
            path: "a.md".to_string(),
            detail: "failed to serialize frontmatter: no".to_string()
        })
    );
    let written = render_file(Ok("id: loginfo\nname: N\nservice:\n  handler: h\n".to_string()), "P", "w.md");
    let d = load_text(&written.expect("rendered"), "w.md").expect("what is written can be read");
    assert_eq!((d.id.as_str(), d.name.as_str(), d.description.as_str()), ("loginfo", "N", "P"));
}

#[test]
fn what_is_removed_is_what_the_definition_says() {
    let mut d = stub_definition("a", "A");
    d.source_path = "/flows/sub/a.md".to_string();
    d.service.command = Some("/flows/sub/run.sh".to_string());
    let (registry, _) = Registry::load(Vec::new(), vec![loaded(d)]);
    assert_eq!(
        delete_workflow("/flows", "a", &registry, false, false),
        Ok(DeleteOutcome {
            workflow_path: "/flows/sub/a.md".to_string(),
            script_path: Some("/flows/sub/run.sh".to_string())
        })
    );
    assert_eq!(
        delete_workflow("/flows", "b", &registry, true, true),
        Ok(DeleteOutcome {
            workflow_path: "/flows/b.md".to_string(),
            script_path: Some("/flows/scripts/b.sh".to_string())
        })
    );
    let gone = delete_workflow("/flows", "b", &registry, false, false);
    assert_eq!(gone, Err(DeleteError::NotFound { id: "b".to_string() }));
    assert_eq!(
        delete_workflow("/flows", "../a", &registry, true, true),
        Err(DeleteError::NotFound { id: "../a".to_string() })
    );
    let response = delete_response(gone);
    assert!(!response.deleted);
    assert_eq!(response.error.as_deref(), Some("workflow `b` not found"));
}

fn missing() -> Resolution {
    Resolution::Missing { detail: "gone".to_string() }
}

#[test]
fn what_lies_outside_is_not_removed() {
    let inside = Resolution::Resolved {
        dir: Ok("/flows".to_string()),
        candidate: Ok("/flows/a.md".to_string()),
    };
    assert_eq!(assert_contained("flows", "flows/a.md", &inside), Ok(()));
    assert_eq!(assert_contained("flows", "flows/a.md", &missing()), Ok(()));
    let sibling = Resolution::Resolved {
        dir: Ok("/flows".to_string()),
        candidate: Ok("/flows-evil/a.md".to_string()),
    };
    assert_eq!(
        assert_contained("flows", "flows/a.md", &sibling),
        Err(DeleteError::PathEscape {
            path: "flows/a.md".to_string(),
            reason: "outside workflows dir /flows".to_string()
        })
    );
    let unreadable = Resolution::Resolved { dir: Err("denied".to_string()), candidate: Err("x".to_string()) };
    assert_eq!(
        assert_contained("flows", "flows/a.md", &unreadable),
        Err(DeleteError::Io { path: "flows".to_string(), detail: "denied".to_string() })
    );
}

#[test]
fn nothing_is_removed_unless_everything_may_be() {
    let inside = |file: &str| Resolution::Resolved {
        dir: Ok("/flows".to_string()),
        candidate: Ok(file.to_string()),
    };
    let found = DeleteOutcome {
        workflow_path: "flows/a.md".to_string(),
        script_path: Some("flows/scripts/a.sh".to_string()),
    };
    assert_eq!(
        removal_steps("flows", &found, &inside("/flows/a.md"), &inside("/flows/scripts/a.sh")),
        Ok(Removal {
            files: vec!["flows/a.md".to_string(), "flows/scripts/a.sh".to_string()],
            outcome: DeleteOutcome {
                workflow_path: "flows/a.md".to_string(),
                script_path: Some("flows/scripts/a.sh".to_string()),
            },
        })
    );
    assert_eq!(
        removal_steps("flows", &found, &inside("/flows/a.md"), &inside("/elsewhere/a.sh")),
        Err(DeleteError::PathEscape {
            path: "flows/scripts/a.sh".to_string(),
            reason: "outside workflows dir /flows".to_string()
        })
    );
    let alone = DeleteOutcome { workflow_path: "flows/a.md".to_string(), script_path: None };
    assert_eq!(
        removal_steps("flows", &alone, &inside("/flows/a.md"), &inside("/elsewhere/a.sh")),
        Ok(Removal {
            files: vec!["flows/a.md".to_string()],
            outcome: DeleteOutcome { workflow_path: "flows/a.md".to_string(), script_path: None },
        })
    );
}

#[test]
fn nothing_is_removed_where_the_script_is_gone() {
    let inside = Resolution::Resolved { dir: Ok("/flows".to_string()), candidate: Ok("/flows/a.md".to_string()) };
    let found = DeleteOutcome {
        workflow_path: "flows/a.md".to_string(),
        script_path: Some("flows/scripts/a.sh".to_string()),
    };
    assert_eq!(
        removal_steps("flows", &found, &inside, &missing()),
        Err(DeleteError::Io { path: "flows/scripts/a.sh".to_string(), detail: "gone".to_string() })
    );
    assert_eq!(
        removal_steps("flows", &found, &missing(), &missing()),
        Err(DeleteError::Io { path: "flows/a.md".to_string(), detail: "gone".to_string() })
    );
    // A link that leads nowhere is there, and is removed as it is.
    let removal = removal_steps("flows", &found, &inside, &Resolution::Dangling).expect("it may be removed");
    assert_eq!(removal.files, vec!["flows/a.md".to_string(), "flows/scripts/a.sh".to_string()]);
    assert_eq!(removal.outcome, found);
}

#[test]
fn a_removal_that_fails_is_taken_back() {
    let removal = Removal {
        files: vec!["flows/a.md".to_string(), "flows/scripts/a.sh".to_string()],
        outcome: DeleteOutcome { workflow_path: "flows/a.md".to_string(), script_path: None },
    };
    assert_eq!(undo_removal(&removal, 0), Vec::new());
    assert_eq!(
        undo_removal(&removal, 2),
        vec![
            UndoStep::Restore { path: "flows/scripts/a.sh".to_string() },
            UndoStep::Restore { path: "flows/a.md".to_string() },
        ]
    );
}

#[test]
fn an_edit_stays_where_the_workflow_was_loaded_from() {
    let edit = request("hello", Some("echo ho"), WorkflowWriteMode::Edit);
    let facts = DiskFacts {
        loaded_from: Some("/flows/sub/greeting.md".to_string()),
        definition_exists: false,
        script_exists: false,
        dir_exists: true,
        scripts_dir_exists: true,
    };
    assert_eq!(written_path_of("/flows", &edit, &facts.loaded_from), "/flows/sub/greeting.md");
    assert_eq!(written_dir_of("/flows", &edit, &facts.loaded_from), "/flows/sub");
    let plan = create_workflow("/flows", &edit, "runner", &facts).expect("accepted");
    assert_eq!(
        plan.steps,
        vec![
            WriteStep::WriteScript {
                path: "/flows/sub/scripts/hello.sh".to_string(),
                content: "echo ho".to_string()
            },
            WriteStep::MakeExecutable { path: "/flows/sub/scripts/hello.sh".to_string() },
            WriteStep::WriteDefinition { path: "/flows/sub/greeting.md".to_string() },
        ]
    );
    assert_eq!(plan.outcome.workflow_path, "/flows/sub/greeting.md");
    assert_eq!(plan.outcome.script_path.as_deref(), Some("/flows/sub/scripts/hello.sh"));

    // The same where the file is named after the id and does not load.
    let mut broken = nothing_there();
    broken.dir_exists = true;
    broken.definition_exists = true;
    let plan = create_workflow("/flows", &edit, "runner", &broken).expect("accepted");
    assert_eq!(plan.outcome.workflow_path, "/flows/hello.md");
}

#[test]
fn a_write_that_fails_is_taken_back() {
    let req = request("hello", Some("echo hi"), WorkflowWriteMode::Create);
    let plan = create_workflow("/flows", &req, "runner", &nothing_there()).expect("accepted");
    assert_eq!(undo_steps(&plan, 0), Vec::new());
    assert_eq!(
        undo_steps(&plan, plan.steps.len()),
        vec![
            UndoStep::RemoveFile { path: "/flows/hello.md".to_string() },
            UndoStep::RemoveFile { path: "/flows/scripts/hello.sh".to_string() },
            UndoStep::RemoveFile { path: "/flows/scripts/hello.sh".to_string() },
            UndoStep::RemoveDir { path: "/flows/scripts".to_string() },
            UndoStep::RemoveDir { path: "/flows".to_string() },
        ]
    );

    let edit = request("hello", Some("echo hi"), WorkflowWriteMode::Edit);
    let facts = DiskFacts {
        loaded_from: Some("/flows/hello.md".to_string()),
        definition_exists: true,
        script_exists: true,
        dir_exists: true,
        scripts_dir_exists: true,
    };
    let plan = create_workflow("/flows", &edit, "runner", &facts).expect("accepted");
    assert_eq!(
        undo_steps(&plan, plan.steps.len()),
        vec![
            UndoStep::Restore { path: "/flows/hello.md".to_string() },
            UndoStep::Restore { path: "/flows/scripts/hello.sh".to_string() },
            UndoStep::Restore { path: "/flows/scripts/hello.sh".to_string() },
        ]
    );
}

#[test]
fn a_written_file_is_split_into_what_it_was_made_of() {
    for (yaml, prose) in [
        ("id: a\nname: N\n", "Prose."),
        ("---\nid: a\nname: N\n", "Two lines\nof prose."),
        ("id: a\nname: N", "- a list\n\n- of two"),
        ("id: a\nname: N\n", "a\rb"),
    ] {
        let content = render_file(Ok(yaml.to_string()), prose, "a.md").expect("rendered");
        let (matter, body) = parse_file(&content, "a.md").expect("what is written can be read");
        assert_eq!(matter, "id: a\nname: N");
        assert_eq!(body, prose);
    }
    // The end of a description is no part of it, however it is made.
    let content = render_file(Ok("id: a\nname: N\n".to_string()), "a\rb\r\n\r", "a.md").expect("rendered");
    assert_eq!(parse_file(&content, "a.md").map(|(_, body)| body), Ok("a\rb".to_string()));
}

fn timer_registry() -> Registry {
    let mut d = stub_definition("set_timer", "Set Timer");
    d.service.handler = "timers.start".to_string();
    d.service.mode = ServiceMode::Async;
    d.parameters.insert(
        "label".to_string(),
        ParameterSpec { type_: ParameterType::String, description: None, required: false },
    );
    d.parameters.insert(
        "duration_minutes".to_string(),
        ParameterSpec { type_: ParameterType::Int, description: None, required: true },
    );
    Registry::load(Vec::new(), vec![loaded(d)]).0
}

fn ask(orchestrator: &InProcessOrchestrator, id: &str, payload: &str) -> Result<Json, String> {
    let req = InvokeWorkflowRequest {
        workflow_id: id.to_string(),
        payload: read_json(payload).expect("the text is JSON"),
    };
    match orchestrator.begin_invoke(&timer_registry(), req) {
        Ok(start) => {
            assert_eq!(start.handler, "timers.start");
            Ok(start.input)
        }
        Err(response) => {
            assert_eq!(response.status, InvokeStatus::Failed);
            assert_eq!(response.run_id, None);
            Err(response.error.expect("a failure has words"))
        }
    }
}

#[test]
fn a_request_is_started_or_answered_with_what_is_wrong() {
    let orchestrator =
        InProcessOrchestrator::with_handlers("/flows".to_string(), vec!["timers.start".to_string()]);
    assert_eq!(ask(&orchestrator, "nope", "{}"), Err("unknown workflow `nope`".to_string()));
    assert_eq!(
        ask(&orchestrator, "set_timer", r#"[1, "a"]"#),
        Err("payload for workflow `set_timer` must be a JSON object, got: [1,\"a\"]".to_string())
    );
    assert_eq!(
        ask(&orchestrator, "set_timer", "null"),
        Err("payload validation failed: missing required parameter `duration_minutes`".to_string())
    );
    let input = ask(&orchestrator, "set_timer", r#"{"duration_minutes": 5}"#).expect("it fits");
    assert_eq!(input.get("duration_minutes").and_then(|v| v.as_i64()), Some(5));

    let bare = InProcessOrchestrator::new("/flows".to_string());
    assert_eq!(
        ask(&bare, "set_timer", r#"{"duration_minutes": 5}"#),
        Err("no handler registered for `timers.start`".to_string())
    );
}

#[test]
fn lists_descriptions_and_modes_come_from_the_definitions() {
    let orchestrator = InProcessOrchestrator::new("/flows".to_string());
    let registry = timer_registry();
    let errors = vec![LoadError::NoFrontmatter { path: "x.md".to_string() }];
    let listed = orchestrator.list_workflows(&registry, &errors);
    assert_eq!(listed.workflows.len(), 1);
    assert_eq!(listed.workflows[0].name, "Set Timer");
    assert_eq!(listed.warnings, vec!["x.md: no YAML frontmatter found (expected --- delimiters)".to_string()]);

    let described = orchestrator.describe_workflow(&registry, "set_timer");
    assert!(described.found);
    let names: Vec<&str> = described.parameters.iter().map(|p| p.name.as_str()).collect();
    assert_eq!(names, vec!["duration_minutes", "label"]);
    assert!(!orchestrator.describe_workflow(&registry, "nope").found);

    assert_eq!(orchestrator.resolve_service_mode(&registry, "set_timer"), ServiceMode::Async);
    assert_eq!(orchestrator.resolve_service_mode(&registry, "nope"), ServiceMode::Sync);
}

#[test]
fn an_outcome_becomes_an_answer() {
    assert_eq!(invoke_status(RunStatus::Completed), InvokeStatus::Completed);
    assert_eq!(invoke_status(RunStatus::Failed), InvokeStatus::Failed);
    let answer = finish_invoke(InvokeOutcome {
        status: RunStatus::Completed,
        output: Some(Json::Bool(true)),
        error: None,
    });
    assert_eq!(answer.status, InvokeStatus::Completed);
    assert_eq!(answer.output, Some(Json::Bool(true)));
    assert_eq!(
        create_response(Ok(CreateOutcome { workflow_path: "a.md".to_string(), script_path: None }))
            .workflow_path
            .as_deref(),
        Some("a.md")
    );
}
