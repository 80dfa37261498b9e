use chrono::{TimeZone, Utc};
use saw::classifier::{classify, ClassifierConfig};
use saw::clock::{Span, Timestamp};
use saw::state::AgentState;
use saw::types::{
    AgentEvent, AgentPhase, FileChangeKind, FileModification, FloatBits, TaskFile, ToolCall,
};
use std::collections::VecDeque;

fn stamp(time: chrono::DateTime<Utc>) -> Timestamp {
    Timestamp { secs: time.timestamp(), nanos: time.timestamp_subsec_nanos() }
}

fn ts(seconds_after_start: i64) -> Timestamp {
    let start = stamp(Utc.with_ymd_and_hms(2026, 3, 24, 12, 0, 0).single().expect("valid timestamp"));
    Timestamp { secs: start.secs + seconds_after_start, nanos: 0 }
}

fn ago(time: Timestamp, secs: i64) -> Timestamp {
    Timestamp { secs: time.secs - secs, nanos: time.nanos }
}

fn bits(value: f32) -> FloatBits {
    FloatBits { bits: value.to_bits() }
}

fn state_with_silence(now: Timestamp, silence_secs: i64) -> AgentState {
    let last_activity_at = ago(now, silence_secs);
    AgentState {
        session_started_at: Some(last_activity_at),
        last_event_at: Some(last_activity_at),
        last_jsonl_record_at: Some(last_activity_at),
        ..AgentState::default()
    }
}

fn write_call(timestamp: Timestamp, path: &str) -> ToolCall {
    ToolCall {
        timestamp,
        tool_name: "Write".into(),
        file_path: Some(String::from(path)),
        command: None,
        line_change: None,
        is_error: false,
        is_write: true,
        is_sidechain: false,
    }
}

fn failed_test_call(timestamp: Timestamp, command: &str) -> ToolCall {
    ToolCall {
        timestamp,
        tool_name: "Bash".into(),
        file_path: None,
        command: Some(command.into()),
        line_change: None,
        is_error: true,
        is_write: false,
        is_sidechain: false,
    }
}

fn successful_test_call(timestamp: Timestamp, command: &str) -> ToolCall {
    ToolCall {
        timestamp,
        tool_name: "Bash".into(),
        file_path: None,
        command: Some(command.into()),
        line_change: None,
        is_error: false,
        is_write: false,
        is_sidechain: false,
    }
}

fn non_test_bash_call(timestamp: Timestamp, command: &str) -> ToolCall {
    ToolCall {
        timestamp,
        tool_name: "Bash".into(),
        file_path: None,
        command: Some(command.into()),
        line_change: None,
        is_error: false,
        is_write: false,
        is_sidechain: false,
    }
}

#[test]
fn classifies_dead_before_anything_else() {
    let now = ts(0);
    let mut state = state_with_silence(now, 700);
    state.process_alive = false;
    state.latest_scope_violation = Some(String::from("/repo/src/billing/mod.rs"));
    state.guard_paths = vec![String::from("/repo/src/auth")];

    assert_eq!(
        classify(&state, now, ClassifierConfig::default()),
        AgentPhase::Dead
    );
}

#[test]
fn classifies_scope_leak_before_context_reset() {
    let now = ts(0);
    let mut state = state_with_silence(now, 5);
    state.last_event_was_compact = true;
    state.guard_paths = vec![String::from("/repo/src/auth")];
    state.latest_scope_violation = Some(String::from("/repo/src/billing/mod.rs"));

    assert!(matches!(
        classify(&state, now, ClassifierConfig::default()),
        AgentPhase::ScopeLeaking { .. }
    ));
}

#[test]
fn classifies_context_reset_before_loops() {
    let now = ts(0);
    let mut state = state_with_silence(now, 5);
    state.last_event_was_compact = true;
    state.recent_tool_calls = VecDeque::from(vec![
        write_call(ts(-240), "src/lib.rs"),
        write_call(ts(-120), "src/lib.rs"),
        write_call(ts(0), "src/lib.rs"),
    ]);

    assert_eq!(
        classify(&state, now, ClassifierConfig::default()),
        AgentPhase::ContextReset
    );
}

#[test]
fn classifies_tool_loop_before_test_loop() {
    let now = ts(0);
    let mut state = state_with_silence(now, 1);
    state.recent_tool_calls = VecDeque::from(vec![
        write_call(ts(-240), "src/lib.rs"),
        write_call(ts(-120), "src/lib.rs"),
        write_call(ts(-60), "src/lib.rs"),
        failed_test_call(ts(-30), "cargo test"),
        failed_test_call(ts(-20), "cargo test -p saw-core"),
        failed_test_call(ts(-10), "pytest tests/unit"),
    ]);
    state.consecutive_test_failures = 3;
    state.last_test_command = Some("pytest tests/unit".into());
    state.last_test_file = Some(String::from("src/lib.rs"));
    state.apply(&AgentEvent::FileModified(
        FileModification {
            timestamp: ts(-240),
            path: String::from("src/lib.rs"),
            kind: FileChangeKind::Modified,
            line_change: None,
        },
    ));
    state.apply(&AgentEvent::FileModified(
        FileModification {
            timestamp: ts(-120),
            path: String::from("src/lib.rs"),
            kind: FileChangeKind::Modified,
            line_change: None,
        },
    ));
    state.apply(&AgentEvent::FileModified(
        FileModification {
            timestamp: ts(-60),
            path: String::from("src/lib.rs"),
            kind: FileChangeKind::Modified,
            line_change: None,
        },
    ));

    assert!(matches!(
        classify(&state, now, ClassifierConfig::default()),
        AgentPhase::ToolLoop {
            ref file,
            count: 3,
            since,
        } if file == &String::from("src/lib.rs") && since == ts(-240)
    ));
}

#[test]
fn classifies_test_loop_before_api_hang() {
    let now = ts(0);
    let mut state = state_with_silence(now, 300);
    state.awaiting_tool_result = true;
    state.latest_cpu_percent = bits(0.0);
    state.last_token_activity_at = Some(ago(now, 300));
    state.recent_tool_calls = VecDeque::from(vec![
        failed_test_call(ts(-40), "cargo test"),
        failed_test_call(ts(-30), "cargo test -p saw-core"),
        failed_test_call(ts(-20), "pytest tests/unit"),
    ]);
    state.consecutive_test_failures = 3;
    state.last_test_command = Some("pytest tests/unit".into());
    state.last_test_file = Some(String::from("src/lib.rs"));

    assert!(matches!(
        classify(&state, now, ClassifierConfig::default()),
        AgentPhase::TestLoop {
            failure_count: 3,
            command,
        } if command == "pytest tests/unit"
    ));
}

#[test]
fn classifies_task_blocked_when_current_task_has_unresolved_dependencies() {
    let now = ts(0);
    let mut state = state_with_silence(now, 5);
    state.current_task = Some(TaskFile {
        id: "3".into(),
        status: "in_progress".into(),
        owner: None,
        blocked_by: vec!["2".into(), "4".into()],
    });
    state.task_files.push(TaskFile {
            id: "2".into(),
            status: "completed".into(),
            owner: None,
            blocked_by: Vec::new(),
        });
    state.task_files.push(TaskFile {
            id: "4".into(),
            status: "pending".into(),
            owner: None,
            blocked_by: Vec::new(),
        });

    assert!(matches!(
        classify(&state, now, ClassifierConfig::default()),
        AgentPhase::TaskBlocked { task_id, blocked_by }
            if task_id == "3" && blocked_by == vec!["4".to_string()]
    ));
}

#[test]
fn skips_task_blocked_when_dependencies_are_completed() {
    let now = ts(0);
    let mut state = state_with_silence(now, 5);
    state.current_task = Some(TaskFile {
        id: "3".into(),
        status: "in_progress".into(),
        owner: None,
        blocked_by: vec!["2".into()],
    });
    state.task_files.push(TaskFile {
            id: "2".into(),
            status: "completed".into(),
            owner: None,
            blocked_by: Vec::new(),
        });

    assert_eq!(
        classify(&state, now, ClassifierConfig::default()),
        AgentPhase::Working
    );
}

#[test]
fn skips_task_blocked_without_current_task_context() {
    let now = ts(0);
    let state = state_with_silence(now, 5);

    assert_eq!(
        classify(&state, now, ClassifierConfig::default()),
        AgentPhase::Working
    );
}

#[test]
fn classifies_dead_after_five_minutes_of_complete_inactivity() {
    let now = ts(0);
    let mut state = state_with_silence(now, 301);
    state.latest_cpu_percent = bits(0.4);
    state.last_token_activity_at = Some(ago(now, 301));
    state.last_memory_activity_at = Some(ago(now, 301));

    assert_eq!(
        classify(&state, now, ClassifierConfig::default()),
        AgentPhase::Dead
    );
}

#[test]
fn does_not_classify_dead_before_five_minutes() {
    let now = ts(0);
    let mut state = state_with_silence(now, 120);
    state.latest_cpu_percent = bits(0.0);
    state.last_token_activity_at = Some(ago(now, 120));
    state.last_memory_activity_at = Some(ago(now, 120));

    assert_eq!(
        classify(&state, now, ClassifierConfig::default()),
        AgentPhase::Thinking
    );
}

#[test]
fn does_not_classify_dead_when_memory_is_still_changing() {
    let now = ts(0);
    let mut state = state_with_silence(now, 301);
    state.latest_cpu_percent = bits(0.4);
    state.last_token_activity_at = Some(ago(now, 301));
    state.last_memory_activity_at = Some(ago(now, 30));

    assert_eq!(
        classify(&state, now, ClassifierConfig::default()),
        AgentPhase::Thinking
    );
}

#[test]
fn successful_test_resets_test_loop() {
    let now = ts(0);
    let mut state = state_with_silence(now, 1);
    state.recent_tool_calls = VecDeque::from(vec![
        failed_test_call(ts(-30), "cargo test"),
        failed_test_call(ts(-20), "cargo test -p saw-core"),
        successful_test_call(ts(-10), "cargo test -p saw-core"),
    ]);
    state.last_test_command = Some("cargo test -p saw-core".into());
    state.last_test_file = Some(String::from("src/lib.rs"));

    assert_eq!(
        classify(&state, now, ClassifierConfig::default()),
        AgentPhase::Working
    );
}

#[test]
fn non_test_command_resets_test_loop() {
    let now = ts(0);
    let mut state = state_with_silence(now, 1);
    state.recent_tool_calls = VecDeque::from(vec![
        failed_test_call(ts(-30), "cargo test"),
        failed_test_call(ts(-20), "cargo test -p saw-core"),
        non_test_bash_call(ts(-10), "cargo fmt --check"),
    ]);
    state.last_test_command = Some("cargo test -p saw-core".into());
    state.last_test_file = Some(String::from("src/lib.rs"));

    assert_eq!(
        classify(&state, now, ClassifierConfig::default()),
        AgentPhase::Working
    );
}

#[test]
fn classifies_api_hang_when_silence_cpu_and_tokens_indicate_stall() {
    let now = ts(0);
    let mut state = state_with_silence(now, 121);
    state.awaiting_tool_result = true;
    state.latest_cpu_percent = bits(0.5);
    state.last_token_activity_at = Some(ago(now, 121));
    state.last_memory_activity_at = Some(ago(now, 121));

    assert!(matches!(
        classify(&state, now, ClassifierConfig::default()),
        AgentPhase::ApiHang(duration) if duration == Span::from_secs(121)
    ));
}

#[test]
fn keeps_api_wait_as_thinking_when_recent_io_exists() {
    let now = ts(0);
    let mut state = state_with_silence(now, 121);
    state.awaiting_tool_result = true;
    state.latest_cpu_percent = bits(0.0);
    state.last_token_activity_at = Some(ago(now, 121));
    state.last_memory_activity_at = Some(ago(now, 121));
    state.last_io_activity_at = Some(ago(now, 30));

    assert_eq!(
        classify(&state, now, ClassifierConfig::default()),
        AgentPhase::Thinking
    );
}

#[test]
fn classifies_idle_after_extended_silence() {
    let now = ts(0);
    let state = state_with_silence(now, 601);

    assert!(matches!(
        classify(&state, now, ClassifierConfig::default()),
        AgentPhase::Idle(duration) if duration == Span::from_secs(601)
    ));
}

#[test]
fn classifies_thinking_after_short_silence() {
    let now = ts(0);
    let state = state_with_silence(now, 31);

    assert_eq!(
        classify(&state, now, ClassifierConfig::default()),
        AgentPhase::Thinking
    );
}

#[test]
fn classifies_working_for_recent_activity() {
    let now = ts(0);
    let state = state_with_silence(now, 5);

    assert_eq!(
        classify(&state, now, ClassifierConfig::default()),
        AgentPhase::Working
    );
}

#[test]
fn classifies_working_for_empty_state_without_panicking() {
    let now = ts(0);
    let state = AgentState::default();

    assert_eq!(
        classify(&state, now, ClassifierConfig::default()),
        AgentPhase::Working
    );
}

#[test]
fn keeps_busy_waiting_session_out_of_api_hang() {
    let now = ts(0);
    let mut state = state_with_silence(now, 121);
    state.awaiting_tool_result = true;
    state.latest_cpu_percent = bits(5.0);
    state.last_token_activity_at = Some(ago(now, 121));

    assert_eq!(
        classify(&state, now, ClassifierConfig::default()),
        AgentPhase::Thinking
    );
}
