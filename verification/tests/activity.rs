//! Runs, their ids and their records.

use orchestrator::activity::run_id::{number_in, RunIdMinter};
use orchestrator::activity::store::ActivityRecord;
use orchestrator::activity::{has_numbers_left, status_for_phase, ActivityRegistry};
use orchestrator::json::serde_text::read_json;
use orchestrator::json::Json;
use orchestrator::wire::{ActivityEvent, ActivityPhase, ActivityStatus, Envelope};

fn json(text: &str) -> Json {
    read_json(text).expect("the text is JSON")
}

fn status_of(registry: &ActivityRegistry, run_id: &str) -> Option<ActivityStatus> {
    registry.get(run_id).map(|e| e.status)
}

fn events_of(registry: &ActivityRegistry) -> Vec<ActivityEvent> {
    let mut events: Vec<ActivityEvent> = registry
        .snapshot_as_events()
        .into_iter()
        .map(|envelope| match envelope {
            Envelope::Activity { event } => event,
            _ => unreachable!("a snapshot holds activities alone"),
        })
        .collect();
    events.sort_by(|a, b| a.run_id.cmp(&b.run_id));
    events
}

fn record(run_id: &str, phase: ActivityPhase, at_ms: u64) -> ActivityRecord {
    ActivityRecord {
        run_id: run_id.to_string(),
        workflow_id: "set_timer".to_string(),
        client_name: "orchestrator-cli".to_string(),
        session_id: "sess-1".to_string(),
        phase,
        at_ms,
        detail: None,
    }
}

#[test]
fn run_id_sequential_mints_differ() {
    let mut minter = RunIdMinter::new();
    let first = minter.mint();
    let second = minter.mint();
    assert_ne!(first, second, "sequential mints must produce distinct run_ids");
}

#[test]
fn run_id_never_derived_from_an_external_value() {
    let mut minter = RunIdMinter::new();
    let id = minter.mint();
    assert!(id.starts_with("run-"), "run_id format should remain stable");
}

#[test]
fn minted_ids_count_up_and_are_read_back() {
    let mut minter = RunIdMinter::with_start(41);
    assert_eq!(minter.mint(), "run-41");
    assert_eq!(minter.mint(), "run-42");
    assert_eq!(number_in("run-", "run-42"), Some(42));
    assert_eq!(number_in("run-", "run-+7"), Some(7));
    assert_eq!(number_in("run-", "run-x"), None);
    assert_eq!(number_in("run-", "walk-1"), None);
    let mut last = RunIdMinter::with_start(u64::MAX);
    assert_eq!(last.mint(), "run-18446744073709551615");
    assert_eq!(last.mint(), "run-0");
    assert_eq!(RunIdMinter::default().mint(), "run-0");
}

#[test]
fn distinct_activities_per_workflow_id() {
    let mut registry = ActivityRegistry::new();
    let (first, _) = registry.mint_run_id("set_timer", "orchestrator-cli", "sess-1", 1);
    let (second, _) = registry.mint_run_id("set_timer", "orchestrator-cli", "sess-1", 2);
    assert_ne!(first, second, "re-running the same workflow must mint two distinct run_ids");

    let snapshot = registry.snapshot_as_events();
    assert_eq!(snapshot.len(), 2, "two separate activities must exist, never collapsed by workflow_id");
}

#[test]
fn status_transition_mapping() {
    let mut registry = ActivityRegistry::new();
    let (run_id, _) = registry.mint_run_id("set_timer", "orchestrator-cli", "sess-1", 1);

    registry.record_transition(&run_id, ActivityPhase::Running, None, 2);
    assert_eq!(status_of(&registry, &run_id), Some(ActivityStatus::Running));

    registry.record_transition(&run_id, ActivityPhase::Completed, Some(json(r#"{"ok": true}"#)), 3);
    assert_eq!(status_of(&registry, &run_id), Some(ActivityStatus::Success));

    let (run_id_2, _) = registry.mint_run_id("set_timer", "orchestrator-cli", "sess-1", 4);
    registry.record_transition(&run_id_2, ActivityPhase::Failed, Some(json(r#"{"error": "boom"}"#)), 5);
    assert_eq!(status_of(&registry, &run_id_2), Some(ActivityStatus::Failure));
}

#[test]
fn get_returns_the_current_event_for_a_known_run_id_and_none_for_an_unknown_one() {
    let mut registry = ActivityRegistry::new();
    let (run_id, _) = registry.mint_run_id("set_timer", "orchestrator-cli", "sess-1", 1);

    let event = registry.get(&run_id).expect("expected a known run_id to resolve to an event");
    assert_eq!(event.run_id, run_id);
    assert_eq!(event.status, ActivityStatus::NotStarted);

    registry.record_transition(&run_id, ActivityPhase::Completed, Some(json(r#"{"ok": true}"#)), 2);
    let updated = registry.get(&run_id).expect("expected the event to still be present after a transition");
    assert_eq!(updated.status, ActivityStatus::Success, "expected get() to reflect the latest transition");

    assert!(registry.get("run-does-not-exist").is_none(), "expected an unknown run_id to resolve to None");
}

#[test]
fn from_store_rebuild_reproduces_live_snapshot() {
    let mut records: Vec<ActivityRecord> = Vec::new();
    let mut registry = ActivityRegistry::from_records("activity".to_string(), Vec::new());
    let (run_id, first) = registry.mint_run_id("set_timer", "orchestrator-cli", "sess-1", 10);
    records.push(first);
    records.extend(registry.record_transition(&run_id, ActivityPhase::Running, None, 20));
    records.extend(registry.record_transition(
        &run_id,
        ActivityPhase::Completed,
        Some(json(r#"{"ok": true}"#)),
        30,
    ));

    let live = events_of(&registry);
    assert!(has_numbers_left(&records));
    let mut rebuilt = ActivityRegistry::from_records("activity".to_string(), records);
    assert_eq!(live, events_of(&rebuilt));
    assert_eq!(live[0].started_at_ms, 10);
    assert_eq!(live[0].log.len(), 3);

    let (next, _) = rebuilt.mint_run_id("set_timer", "orchestrator-cli", "sess-1", 40);
    assert_eq!(next, "run-1", "a restart goes on where the records end");
}

#[test]
fn mint_run_id_with_same_client_name_but_different_session_ids_produces_distinct_session_ids() {
    let mut registry = ActivityRegistry::new();
    let (first, _) = registry.mint_run_id("set_timer", "orchestrator-cli", "sess-1", 1);
    let (second, _) = registry.mint_run_id("set_timer", "orchestrator-cli", "sess-2", 2);

    let first_event = registry.get(&first).expect("first run must be known");
    let second_event = registry.get(&second).expect("second run must be known");

    assert_eq!(first_event.client_name, second_event.client_name);
    assert_ne!(
        first_event.session_id, second_event.session_id,
        "identical client_name must not collapse distinct session ids"
    );
    assert_eq!(first_event.session_id, "sess-1");
    assert_eq!(second_event.session_id, "sess-2");
}

#[test]
fn a_step_of_an_unknown_run_changes_nothing() {
    let mut registry = ActivityRegistry::new();
    assert!(registry.record_transition("run-9", ActivityPhase::Running, None, 1).is_none());
    assert!(registry.snapshot().is_empty());
}

#[test]
fn numbers_run_out_at_the_largest() {
    assert!(has_numbers_left(&vec![record("run-18446744073709551614", ActivityPhase::Invoked, 1)]));
    assert!(!has_numbers_left(&vec![record("run-18446744073709551615", ActivityPhase::Invoked, 1)]));
}

#[test]
fn records_of_a_run_that_did_not_start_here_are_taken_as_they_are() {
    let registry = ActivityRegistry::from_records(
        "activity".to_string(),
        vec![record("run-4", ActivityPhase::Completed, 7), record("odd", ActivityPhase::Failed, 8)],
    );
    let events = events_of(&registry);
    assert_eq!(events.len(), 2);
    assert_eq!(events[0].run_id, "odd");
    assert_eq!(events[0].status, ActivityStatus::Failure);
    assert_eq!(events[1].status, ActivityStatus::Success);
    assert_eq!(registry.minter.next, 5);
    assert_eq!(registry.store_dir.as_deref(), Some("activity"));
}

#[test]
fn each_phase_has_its_status() {
    assert_eq!(status_for_phase(ActivityPhase::Invoked), ActivityStatus::NotStarted);
    assert_eq!(status_for_phase(ActivityPhase::Running), ActivityStatus::Running);
    assert_eq!(status_for_phase(ActivityPhase::Completed), ActivityStatus::Success);
    assert_eq!(status_for_phase(ActivityPhase::Failed), ActivityStatus::Failure);
}
