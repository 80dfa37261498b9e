use chrono::{DateTime, Duration, Utc};
use saw::clock::{parse_timestamp, Timestamp};
use saw::loop_detector::compute_loop_score;
use saw::types::ToolCall;
use std::collections::VecDeque;

const TIMES: [&str; 11] = [
    "1969-12-31T23:59:59.250Z",
    "2026-03-24T11:54:59.500Z",
    "2026-03-24T11:55:00.400Z",
    "2026-03-24T11:54:60.700Z",
    "2026-03-24T11:59:59.900Z",
    "2026-03-24T11:59:60.500Z",
    "2026-03-24T12:00:00.200Z",
    "2026-03-24T23:59:59.900Z",
    "2026-03-24T23:59:60.500Z",
    "2026-03-25T00:00:00Z",
    "2026-03-25T12:00:00.600Z",
];

fn read(text: &str) -> (DateTime<Utc>, Timestamp) {
    let time: DateTime<Utc> = text.parse().unwrap();
    (time, parse_timestamp(text).unwrap())
}

fn write_at(timestamp: Timestamp) -> ToolCall {
    ToolCall {
        timestamp,
        tool_name: "Edit".to_string(),
        file_path: Some("src/lib.rs".to_string()),
        command: None,
        line_change: None,
        is_error: false,
        is_write: true,
        is_sidechain: false,
    }
}

#[test]
fn times_are_ordered_by_seconds_first() {
    let leap = parse_timestamp("2026-03-24T11:59:60.500Z").unwrap();
    let next = parse_timestamp("2026-03-24T12:00:00.200Z").unwrap();
    assert_eq!(leap.nanos, 1_500_000_000);
    assert!(next.after(leap));
    assert!(!leap.after(next));
    for a in TIMES {
        for b in TIMES {
            assert_eq!(read(a).1.after(read(b).1), read(a).0 > read(b).0, "{a} {b}");
        }
    }
}

#[test]
fn spans_count_leap_seconds() {
    let leap = parse_timestamp("2026-03-24T11:59:60.500Z").unwrap();
    let next = parse_timestamp("2026-03-24T12:00:00.200Z").unwrap();
    assert_eq!(next.checked_since(leap).unwrap().nanos, 700_000_000);
    assert_eq!(leap.checked_since(next), None);
    for a in TIMES {
        for b in TIMES {
            let expected = read(a).0.signed_duration_since(read(b).0).to_std().ok();
            let span = read(a).1.checked_since(read(b).1);
            assert_eq!(span.map(|s| s.nanos), expected.map(|d| d.as_nanos()), "{a} {b}");
        }
    }
}

#[test]
fn loop_windows_start_five_minutes_before_the_last_call() {
    for a in TIMES {
        for b in TIMES {
            let (end, at) = (read(a), read(b));
            if end.0 > at.0 {
                let calls = VecDeque::from(vec![write_at(at.1), write_at(end.1)]);
                let inside = at.0 >= end.0 - Duration::minutes(5);
                let expected = if inside { 2 } else { 1 };
                assert_eq!(compute_loop_score(&calls).file_rewrites, expected, "{a} {b}");
            }
        }
    }
}
