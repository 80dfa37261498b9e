use chrono::{TimeZone, Utc};
use saw::clock::Timestamp;
use saw::loop_detector::compute_loop_score;
use saw::types::ToolCall;
use std::collections::VecDeque;

fn stamp(time: chrono::DateTime<Utc>) -> Timestamp {
    Timestamp { secs: time.timestamp(), nanos: time.timestamp_subsec_nanos() }
}

fn ts(minutes_after_start: i64) -> Timestamp {
    let start = stamp(Utc.with_ymd_and_hms(2026, 3, 24, 12, 0, 0).single().unwrap());
    Timestamp { secs: start.secs + 60 * minutes_after_start, nanos: 0 }
}

fn call(
    timestamp: Timestamp,
    tool_name: &str,
    file_path: Option<&str>,
    command: Option<&str>,
    is_error: bool,
) -> ToolCall {
    ToolCall {
        timestamp,
        tool_name: tool_name.to_string(),
        file_path: file_path.map(str::to_string),
        command: command.map(str::to_string),
        line_change: None,
        is_error,
        is_write: matches!(tool_name, "Edit" | "Write" | "NotebookEdit" | "MultiEdit"),
        is_sidechain: false,
    }
}

#[test]
fn detects_single_file_loop() {
    let calls = VecDeque::from(vec![
        call(ts(0), "Edit", Some("src/lib.rs"), None, false),
        call(ts(1), "Edit", Some("src/lib.rs"), None, false),
        call(ts(4), "Write", Some("src/lib.rs"), None, false),
    ]);

    let score = compute_loop_score(&calls);

    assert_eq!(score.file_rewrites, 3);
    assert_eq!(score.most_written_file, Some(String::from("src/lib.rs")));
    assert_eq!(score.consecutive_test_failures, 0);
}

#[test]
fn does_not_flag_multi_file_activity_as_loop() {
    let calls = VecDeque::from(vec![
        call(ts(0), "Edit", Some("src/a.rs"), None, false),
        call(ts(1), "Write", Some("src/b.rs"), None, false),
        call(ts(2), "Edit", Some("src/a.rs"), None, false),
    ]);

    let score = compute_loop_score(&calls);

    assert_eq!(score.file_rewrites, 2);
    assert_eq!(score.most_written_file, Some(String::from("src/a.rs")));
    assert_eq!(score.consecutive_test_failures, 0);
}

#[test]
fn detects_test_loop_from_consecutive_failed_test_commands() {
    let calls = VecDeque::from(vec![
        call(ts(0), "Bash", None, Some("cargo test"), true),
        call(ts(1), "Bash", None, Some("cargo test -p saw-core"), true),
        call(ts(2), "Bash", None, Some("pytest tests/unit"), true),
    ]);

    let score = compute_loop_score(&calls);

    assert_eq!(score.file_rewrites, 0);
    assert_eq!(score.most_written_file, None);
    assert_eq!(score.consecutive_test_failures, 3);
}

#[test]
fn reports_no_loop_for_mixed_activity() {
    let calls = VecDeque::from(vec![
        call(ts(0), "Bash", None, Some("cargo test"), true),
        call(ts(1), "Bash", None, Some("cargo test"), false),
        call(ts(2), "Bash", None, Some("cargo test"), true),
        call(ts(3), "Bash", None, Some("cargo fmt --check"), true),
    ]);

    let score = compute_loop_score(&calls);

    assert_eq!(score.file_rewrites, 0);
    assert_eq!(score.most_written_file, None);
    assert_eq!(score.consecutive_test_failures, 0);
}

#[test]
fn ignores_calls_outside_the_five_minute_window() {
    let calls = VecDeque::from(vec![
        call(ts(0), "Edit", Some("src/lib.rs"), None, false),
        call(ts(1), "Edit", Some("src/lib.rs"), None, false),
        call(ts(7), "Edit", Some("src/lib.rs"), None, false),
        call(ts(8), "Bash", None, Some("cargo test"), true),
        call(ts(9), "Bash", None, Some("cargo test"), true),
    ]);

    let score = compute_loop_score(&calls);

    assert_eq!(score.file_rewrites, 1);
    assert_eq!(score.most_written_file, Some(String::from("src/lib.rs")));
    assert_eq!(score.consecutive_test_failures, 2);
}
