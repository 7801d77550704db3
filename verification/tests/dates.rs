//! Dates, and the files that are named after them.

use orchestrator::activity;
use orchestrator::agent_log;
use orchestrator::calendar::{can_count_days, civil_from_days, days_from_civil};
use orchestrator::rotation::{
    day_bucket, day_bucket_index, file_path_for, files_within_window, holds_a_record, is_countable, to_prune,
    within_window,
};

#[test]
fn store_civil_date_round_trips() {
    let cases = [
        (1970, 1, 1),
        (2020, 1, 1),
        (2026, 7, 13),
        (2000, 2, 29), // leap day
        (1969, 12, 31),
    ];
    for (y, m, d) in cases {
        let days = days_from_civil(y, m, d);
        let (ry, rm, rd) = civil_from_days(days);
        assert_eq!((ry, rm, rd), (y, m, d), "round-trip mismatch for {y}-{m}-{d}");
    }
}

#[test]
fn civil_date_round_trips() {
    let cases = [
        (1970, 1, 1),
        (2020, 1, 1),
        (2026, 7, 13),
        (2000, 2, 29), // leap day
        (1969, 12, 31),
    ];
    for (y, m, d) in cases {
        let (ry, rm, rd) = civil_from_days(days_from_civil(y, m, d));
        assert_eq!((ry, rm, rd), (y, m, d), "round-trip mismatch for {y}-{m}-{d}");
    }
}

#[test]
fn store_parse_date_from_filename_rejects_non_rotation_files() {
    assert_eq!(activity::store::parse_date_from_filename("readme.txt"), None);
    assert_eq!(
        activity::store::parse_date_from_filename("activities-2020-01-01.jsonl"),
        Some(days_from_civil(2020, 1, 1))
    );
}

#[test]
fn parse_date_from_filename_rejects_non_rotation_files() {
    assert_eq!(agent_log::store::parse_date_from_filename("readme.txt"), None);
    assert_eq!(
        agent_log::store::parse_date_from_filename("agent-runs-2020-01-01.jsonl"),
        Some(days_from_civil(2020, 1, 1))
    );
}

#[test]
fn days_are_counted_from_the_epoch() {
    assert_eq!(days_from_civil(1970, 1, 1), 0);
    assert_eq!(days_from_civil(1969, 12, 31), -1);
    assert_eq!(days_from_civil(2000, 3, 1), 11017);
    assert_eq!(days_from_civil(2026, 7, 13), 20647);
    assert_eq!(civil_from_days(11016), (2000, 2, 29));
    assert!(can_count_days(2026, 7, 13));
    assert!(!can_count_days(i64::MAX, 1, 1));
}

#[test]
fn seconds_fall_into_days() {
    assert_eq!(day_bucket_index(86_399), 0);
    assert_eq!(day_bucket_index(86_400), 1);
    assert_eq!(day_bucket(0), "1970-01-01");
    assert_eq!(day_bucket(1_783_900_800), "2026-07-13");
}

#[test]
fn files_are_named_after_their_day() {
    assert_eq!(file_path_for("activities", "/data", "2026-07-13"), "/data/activities-2026-07-13.jsonl");
    assert_eq!(activity::store::file_path_for("d", "2026-07-13"), "d/activities-2026-07-13.jsonl");
    assert_eq!(agent_log::store::file_path_for("d", "2026-07-13"), "d/agent-runs-2026-07-13.jsonl");
}

#[test]
fn the_window_holds_today_and_the_days_before_it() {
    assert!(within_window(10, 10, 7));
    assert!(within_window(10, 3, 7));
    assert!(!within_window(10, 2, 7));
    assert!(within_window(10, 11, 7));
    assert!(within_window(10, 10, u64::MAX));
    assert!(within_window(i64::MAX, i64::MIN, u64::MAX));
    assert!(!within_window(i64::MAX, i64::MIN, u64::MAX - 1));
}

#[test]
fn what_is_in_the_window_is_read_in_order_and_the_rest_is_removed() {
    let names = vec![
        "activities-2026-07-13.jsonl".to_string(),
        "notes.txt".to_string(),
        "activities-2026-07-01.jsonl".to_string(),
        "activities-2026-07-12.jsonl".to_string(),
    ];
    let today = days_from_civil(2026, 7, 13);
    for name in &names {
        assert!(is_countable("activities", name));
    }
    assert_eq!(
        files_within_window("activities", &names, today, 7),
        vec!["activities-2026-07-12.jsonl".to_string(), "activities-2026-07-13.jsonl".to_string()]
    );
    assert!(to_prune("activities", "activities-2026-07-01.jsonl", today, 7));
    assert!(!to_prune("activities", "activities-2026-07-12.jsonl", today, 7));
    assert!(!to_prune("activities", "notes.txt", today, 7));
}

#[test]
fn blank_lines_hold_no_record() {
    assert!(!holds_a_record(" \t"));
    assert!(holds_a_record(" {} "));
}
