use chrono::{TimeZone, Utc};
use saw::clock::Timestamp;
use saw::state::AgentState;
use saw::types::{
    AgentEvent, FileChangeKind, FileModification, FloatBits, ProcessMetrics, ToolCall,
};
use std::collections::VecDeque;

fn stamp(time: chrono::DateTime<Utc>) -> Timestamp {
    Timestamp { secs: time.timestamp(), nanos: time.timestamp_subsec_nanos() }
}

fn ts(hour: u32, minute: u32, second: u32) -> Timestamp {
    stamp(
        Utc.with_ymd_and_hms(2026, 3, 24, hour, minute, second)
            .single()
            .expect("valid timestamp"),
    )
}

fn bits(value: f32) -> FloatBits {
    FloatBits { bits: value.to_bits() }
}

#[test]
fn sidechain_tool_call_tracks_subagent_without_arming_api_wait() {
    let session_start = ts(12, 0, 0);
    let sidechain_call_at = ts(12, 0, 10);
    let mut state = AgentState::default();

    state.apply(&AgentEvent::SessionStart {
        timestamp: session_start,
        session_id: "ses-1".into(),
    });
    state.apply(&AgentEvent::ToolCall(ToolCall {
        timestamp: sidechain_call_at,
        tool_name: "Bash".into(),
        file_path: Some(String::from("/tmp/subagent.txt")),
        command: Some("cargo test".into()),
        line_change: None,
        is_error: false,
        is_write: false,
        is_sidechain: true,
    }));

    assert_eq!(state.last_main_jsonl_record_at, Some(session_start));
    assert_eq!(
        state.last_sidechain_jsonl_record_at,
        Some(sidechain_call_at)
    );
    assert_eq!(state.last_jsonl_record_at, Some(sidechain_call_at));
    assert_eq!(state.subagent_count, 1);
    assert!(!state.awaiting_tool_result);
}

#[test]
fn sidechain_tool_result_does_not_clear_main_tool_wait() {
    let session_start = ts(12, 0, 0);
    let main_call_at = ts(12, 0, 5);
    let sidechain_result_at = ts(12, 0, 10);
    let mut state = AgentState::default();

    state.apply(&AgentEvent::SessionStart {
        timestamp: session_start,
        session_id: "ses-1".into(),
    });
    state.apply(&AgentEvent::ToolCall(ToolCall {
        timestamp: main_call_at,
        tool_name: "Bash".into(),
        file_path: None,
        command: Some("cargo test".into()),
        line_change: None,
        is_error: false,
        is_write: false,
        is_sidechain: false,
    }));
    state.apply(&AgentEvent::ToolResult {
        timestamp: sidechain_result_at,
        tool_name: Some("Bash".into()),
        is_error: true,
        output: Some("boom".into()),
        stderr: Some("boom".into()),
        interrupted: false,
        persisted_output_path: None,
        is_sidechain: true,
    });

    assert!(state.awaiting_tool_result);
    assert_eq!(state.subagent_count, 1);
    assert_eq!(state.last_main_jsonl_record_at, Some(main_call_at));
    assert_eq!(
        state.last_sidechain_jsonl_record_at,
        Some(sidechain_result_at)
    );
    assert!(
        !state
            .recent_tool_calls
            .back()
            .expect("main call exists")
            .is_error
    );
}

#[test]
fn process_metrics_track_last_io_activity_only_when_rate_is_non_zero() {
    let mut state = AgentState::default();
    let idle_ts = ts(12, 0, 0);
    state.apply(&AgentEvent::ProcessMetrics(ProcessMetrics {
        timestamp: idle_ts,
        process_alive: true,
        cpu_percent: bits(0.0),
        rss_bytes: 10,
        virtual_bytes: 20,
        io_read_bytes: 100,
        io_write_bytes: 200,
        io_read_rate: bits(0.0),
        io_write_rate: bits(0.0),
    }));

    assert_eq!(state.last_io_activity_at, None);
    assert_eq!(state.last_memory_activity_at, Some(idle_ts));
    assert_eq!(state.latest_io_read_rate, bits(0.0));
    assert_eq!(state.latest_io_write_rate, bits(0.0));

    let active_ts = ts(12, 0, 5);
    state.apply(&AgentEvent::ProcessMetrics(ProcessMetrics {
        timestamp: active_ts,
        process_alive: true,
        cpu_percent: bits(0.0),
        rss_bytes: 10,
        virtual_bytes: 20,
        io_read_bytes: 300,
        io_write_bytes: 500,
        io_read_rate: bits(40.0),
        io_write_rate: bits(60.0),
    }));

    assert_eq!(state.last_io_activity_at, Some(active_ts));
    assert_eq!(state.last_memory_activity_at, Some(idle_ts));
    assert_eq!(state.latest_io_read_rate, bits(40.0));
    assert_eq!(state.latest_io_write_rate, bits(60.0));
}

#[test]
fn tracks_consecutive_test_failures_from_tool_results() {
    let mut state = AgentState {
        last_file_path: Some(String::from("src/lib.rs")),
        recent_tool_calls: VecDeque::from(vec![ToolCall {
            timestamp: ts(12, 0, 1),
            tool_name: "Bash".into(),
            file_path: None,
            command: Some("cargo test".into()),
            line_change: None,
            is_error: false,
            is_write: false,
            is_sidechain: false,
        }]),
        ..Default::default()
    };

    state.apply(&AgentEvent::ToolResult {
        timestamp: ts(12, 0, 2),
        tool_name: Some("Bash".into()),
        is_error: true,
        output: Some("FAILED tests::it_works".into()),
        stderr: None,
        interrupted: false,
        persisted_output_path: None,
        is_sidechain: false,
    });

    assert_eq!(state.consecutive_test_failures, 1);
    assert_eq!(state.last_test_command.as_deref(), Some("cargo test"));
    assert_eq!(state.last_test_file, Some(String::from("src/lib.rs")));
}

#[test]
fn resets_test_failures_on_non_test_command_and_success() {
    let mut state = AgentState {
        consecutive_test_failures: 2,
        last_test_command: Some("cargo test".into()),
        last_test_file: Some(String::from("src/lib.rs")),
        last_file_path: Some(String::from("src/lib.rs")),
        ..Default::default()
    };

    state.apply(&AgentEvent::ToolCall(ToolCall {
        timestamp: ts(12, 0, 1),
        tool_name: "Bash".into(),
        file_path: None,
        command: Some("cargo fmt --check".into()),
        line_change: None,
        is_error: false,
        is_write: false,
        is_sidechain: false,
    }));

    assert_eq!(state.consecutive_test_failures, 0);
    assert_eq!(state.last_test_command, None);
    assert_eq!(state.last_test_file, None);

    state.apply(&AgentEvent::FileModified(FileModification {
        timestamp: ts(12, 0, 2),
        path: String::from("src/lib.rs"),
        kind: FileChangeKind::Modified,
        line_change: None,
    }));
    state.apply(&AgentEvent::ToolCall(ToolCall {
        timestamp: ts(12, 0, 2),
        tool_name: "Bash".into(),
        file_path: None,
        command: Some("cargo test".into()),
        line_change: None,
        is_error: false,
        is_write: false,
        is_sidechain: false,
    }));
    state.apply(&AgentEvent::ToolResult {
        timestamp: ts(12, 0, 3),
        tool_name: Some("Bash".into()),
        is_error: false,
        output: Some("ok".into()),
        stderr: None,
        interrupted: false,
        persisted_output_path: None,
        is_sidechain: false,
    });

    assert_eq!(state.consecutive_test_failures, 0);
    assert_eq!(state.last_test_command.as_deref(), Some("cargo test"));
    assert_eq!(state.last_test_file, Some(String::from("src/lib.rs")));
}

#[test]
fn resets_test_failures_when_editing_different_file() {
    let mut state = AgentState {
        consecutive_test_failures: 2,
        last_test_command: Some("cargo test".into()),
        last_test_file: Some(String::from("src/lib.rs")),
        ..Default::default()
    };

    state.apply(&AgentEvent::ToolCall(ToolCall {
        timestamp: ts(12, 0, 1),
        tool_name: "Edit".into(),
        file_path: Some(String::from("src/other.rs")),
        command: None,
        line_change: None,
        is_error: false,
        is_write: true,
        is_sidechain: false,
    }));

    assert_eq!(state.consecutive_test_failures, 0);
    assert_eq!(state.last_test_command, None);
    assert_eq!(state.last_test_file, None);
}

#[test]
fn file_modified_events_track_and_reset_tool_loop_state() {
    let mut state = AgentState::default();

    state.apply(&AgentEvent::FileModified(FileModification {
        timestamp: ts(12, 0, 0),
        path: String::from("src/lib.rs"),
        kind: FileChangeKind::Modified,
        line_change: None,
    }));
    state.apply(&AgentEvent::FileModified(FileModification {
        timestamp: ts(12, 0, 1),
        path: String::from("src/lib.rs"),
        kind: FileChangeKind::Modified,
        line_change: None,
    }));
    state.apply(&AgentEvent::FileModified(FileModification {
        timestamp: ts(12, 0, 2),
        path: String::from("src/lib.rs"),
        kind: FileChangeKind::Modified,
        line_change: None,
    }));

    assert_eq!(
        state.recent_file_write_count("src/lib.rs"),
        3
    );
    assert_eq!(
        state.recent_file_write_started_at("src/lib.rs"),
        Some(ts(12, 0, 0))
    );
    assert_eq!(state.last_loop_file_path, Some(String::from("src/lib.rs")));
    assert_eq!(state.loop_started_at, Some(ts(12, 0, 0)));

    state.apply(&AgentEvent::FileModified(FileModification {
        timestamp: ts(12, 0, 3),
        path: String::from("src/other.rs"),
        kind: FileChangeKind::Modified,
        line_change: None,
    }));

    assert_eq!(
        state.recent_file_write_count("src/lib.rs"),
        0
    );
    assert_eq!(
        state.recent_file_write_count("src/other.rs"),
        1
    );
    assert_eq!(
        state.last_loop_file_path,
        Some(String::from("src/other.rs"))
    );
    assert_eq!(state.loop_started_at, None);
}
