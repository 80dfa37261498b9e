use chrono::{TimeZone, Utc};
use saw::clock::{Moment, Span, Timestamp};
use saw::json::Json;
use saw::metrics::{
    compute_silence, has_recent_io_activity, is_bash_failure, JsonlMessage, JsonlMessageContent,
    JsonlMessageItem, JsonlRecord, TokenDelta, TokenTracker, ToolUseResult,
};
use saw::state::AgentState;
use saw::types::AgentEvent;

fn stamp(time: chrono::DateTime<Utc>) -> Timestamp {
    Timestamp { secs: time.timestamp(), nanos: time.timestamp_subsec_nanos() }
}

fn ts(hour: u32, minute: u32, second: u32) -> Timestamp {
    stamp(
        Utc.with_ymd_and_hms(2026, 3, 24, hour, minute, second)
            .single()
            .expect("valid timestamp"),
    )
}

fn ago(time: Timestamp, secs: i64) -> Timestamp {
    Timestamp { secs: time.secs - secs, nanos: time.nanos }
}

fn later(moment: Moment, secs: u128) -> Moment {
    Moment { nanos: moment.nanos + secs * 1_000_000_000 }
}

fn earlier(moment: Moment, secs: u128) -> Moment {
    Moment { nanos: moment.nanos - secs * 1_000_000_000 }
}

fn record(
    record_type: Option<&str>,
    is_error: bool,
    content: &str,
    stderr: &str,
    interrupted: bool,
) -> JsonlRecord {
    JsonlRecord {
        record_type: record_type.map(str::to_string),
        is_sidechain: None,
        message: Some(JsonlMessage {
            content: Some(JsonlMessageContent::Items(vec![JsonlMessageItem {
                item_type: Some("tool_result".to_string()),
                is_error: Some(is_error),
                content: Some(Json::Text(content.to_string())),
            }])),
            usage: None,
        }),
        tool_use_result: Some(ToolUseResult {
            stderr: Some(stderr.to_string()),
            interrupted: Some(interrupted),
        }),
    }
}

#[test]
fn compute_silence_uses_most_recent_activity_timestamp() {
    let now = ts(12, 0, 0);
    let state = AgentState {
        last_jsonl_record_at: Some(ago(now, 40)),
        last_file_event_at: Some(ago(now, 25)),
        last_hook_event_at: Some(ago(now, 10)),
        ..Default::default()
    };

    assert_eq!(compute_silence(&state, now), Span::from_secs(10));
}

#[test]
fn compute_silence_falls_back_to_session_start() {
    let now = ts(12, 0, 0);
    let state = AgentState {
        session_started_at: Some(ago(now, 90)),
        ..Default::default()
    };

    assert_eq!(compute_silence(&state, now), Span::from_secs(90));
}

#[test]
fn has_recent_io_activity_tracks_window() {
    let now = ts(12, 0, 0);
    let mut state = AgentState {
        last_io_activity_at: Some(ago(now, 59)),
        ..Default::default()
    };
    assert!(has_recent_io_activity(&state, now, Span::from_secs(60)));

    state.last_io_activity_at = Some(ago(now, 61));
    assert!(!has_recent_io_activity(
        &state,
        now,
        Span::from_secs(60)
    ));
}

#[test]
fn token_tracker_updates_with_elapsed_and_deltas() {
    let start = Moment::now();
    let mut tracker = TokenTracker::new(start);

    let first = tracker.update_at(12, 5, later(start, 3));
    let second = tracker.update_at(20, 9, later(start, 8));

    assert_eq!(
        first,
        TokenDelta {
            input: 12,
            output: 5,
            elapsed: Span::from_secs(3),
        }
    );
    assert_eq!(
        second,
        TokenDelta {
            input: 8,
            output: 4,
            elapsed: Span::from_secs(5),
        }
    );
}

#[test]
fn token_tracker_detects_frozen_threshold() {
    let start = Moment::now();
    let tracker = TokenTracker::new(start);

    assert!(!tracker.is_frozen_at(later(start, 9), Span::from_secs(10)));
    assert!(tracker.is_frozen_at(later(start, 11), Span::from_secs(10)));
}

#[test]
fn bash_failure_detects_tool_result_error_flag() {
    let record = record(Some("user"), true, "ok", "", false);

    assert!(is_bash_failure(&record));
}

#[test]
fn bash_failure_detects_stderr_signal() {
    let record = record(Some("user"), false, "ok", "command failed", false);

    assert!(is_bash_failure(&record));
}

#[test]
fn bash_failure_detects_interrupted_signal() {
    let record = record(Some("user"), false, "ok", "", true);

    assert!(is_bash_failure(&record));
}

#[test]
fn bash_failure_detects_common_content_patterns() {
    for content in [
        "test result: FAILED. 1 passed; 1 failed",
        "error[E0425]: cannot find value `x` in this scope",
        "thread 'main' panicked at 'boom'",
        "ERRORS\n================",
        "npm ERR! code ELIFECYCLE",
    ] {
        let record = record(Some("user"), false, content, "", false);

        assert!(
            is_bash_failure(&record),
            "expected failure for content: {content}"
        );
    }
}

#[test]
fn bash_failure_ignores_successful_records() {
    let record = record(Some("user"), false, "all good", "", false);

    assert!(!is_bash_failure(&record));
}

#[test]
fn compute_silence_uses_most_recent_visible_activity_source() {
    let now = ts(12, 0, 0);
    let state = AgentState {
        session_started_at: Some(ago(now, 300)),
        last_event_at: Some(ago(now, 5)),
        last_jsonl_record_at: Some(ago(now, 40)),
        last_file_event_at: Some(ago(now, 18)),
        last_hook_event_at: Some(ago(now, 9)),
        ..Default::default()
    };

    assert_eq!(compute_silence(&state, now), Span::from_secs(9));
}

#[test]
fn compute_silence_falls_back_when_visible_activity_is_missing() {
    let now = ts(12, 0, 0);

    let state = AgentState {
        last_event_at: Some(ago(now, 15)),
        ..Default::default()
    };
    assert_eq!(compute_silence(&state, now), Span::from_secs(15));

    let state = AgentState {
        session_started_at: Some(ago(now, 45)),
        ..Default::default()
    };
    assert_eq!(compute_silence(&state, now), Span::from_secs(45));
}

#[test]
fn token_tracker_is_frozen_detects_recent_and_stalled_trackers() {
    let recent_tracker = TokenTracker::new(Moment::now());
    assert!(!recent_tracker.is_frozen(Span::from_secs(1)));

    let stalled_tracker = TokenTracker::new(earlier(Moment::now(), 2));
    assert!(stalled_tracker.is_frozen(Span::from_secs(1)));
}

#[test]
fn compute_silence_ignores_compact_boundary_until_next_tool_call() {
    let now = ts(12, 0, 30);
    let mut state = AgentState::default();
    state.apply(&AgentEvent::CompactBoundary {
        timestamp: ts(12, 0, 0),
        is_sidechain: false,
    });

    assert_eq!(compute_silence(&state, now), Span::from_secs(30));
    assert!(state.last_event_was_compact);
}

#[test]
fn is_bash_failure_detects_all_supported_failure_signals() {
    let cases = [
        record(None, true, "ok", "", false),
        record(None, false, "ok", "command failed", false),
        record(None, false, "ok", "", true),
        record(None, false, "test result: FAILED. 1 passed; 1 failed", "", false),
    ];

    for record in cases {
        assert!(is_bash_failure(&record));
    }
}

#[test]
fn is_bash_failure_ignores_successful_records() {
    let record = record(None, false, "all good", "", false);

    assert!(!is_bash_failure(&record));
}
