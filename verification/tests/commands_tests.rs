use saw::clock::{Moment, Span, Timestamp};
use saw::common::{list_alive_session_selections, SessionCandidate, SessionFile};
use saw::hook::{flatten_json, payload_to_event, tool_response_failed, HookPayload};
use saw::json::{parse_json, Json};
use saw::process_monitor::{dead_event, ProcessSample};
use saw::snapshot::Snapshot;
use saw::state::AgentState;
use saw::status::{collect_all_requests, needs_choice};
use saw::tui::{
    center_rows, format_guard_input, guard_dialog_lines, guard_display, guard_panel_lines,
    parse_guard_input, refresh_snapshot, tick_millis, GuardDisplay, Key, KeyPress, SampleStep,
    ScrollPanel, TuiAction, TuiProcessSampler, TuiState,
};
use saw::types::{AgentEvent, AgentPhase};

fn stamp(secs: i64) -> Timestamp {
    Timestamp { secs, nanos: 0 }
}

fn object(text: &str) -> Json {
    parse_json(text).unwrap()
}

#[test]
fn builds_pre_tool_event() {
    let input = object(r#"{"file_path":"src/lib.rs"}"#);
    let payload = HookPayload {
        hook_event_name: Some("PreToolUse".into()),
        session_id: "ses-1".into(),
        tool_name: Some("Write".into()),
        tool_input: Some(input),
        tool_response: None,
    };

    let event = payload_to_event(&payload, "/repo", true, false, stamp(1));
    match event {
        AgentEvent::ToolCall(call) => {
            assert_eq!(call.tool_name, "Write");
            assert_eq!(call.file_path.unwrap(), "/repo/src/lib.rs");
        }
        other => panic!("unexpected event: {other:?}"),
    }
}

#[test]
fn builds_session_start_event() {
    let payload = HookPayload {
        hook_event_name: Some("SessionStart".into()),
        session_id: "ses-1".into(),
        tool_name: None,
        tool_input: None,
        tool_response: None,
    };

    let event = payload_to_event(&payload, "/repo", false, true, stamp(1));
    match event {
        AgentEvent::SessionStart { session_id, .. } => assert_eq!(session_id, "ses-1"),
        other => panic!("unexpected event: {other:?}"),
    }
}

#[test]
fn builds_tool_results_from_responses() {
    let text = r#"{
        "hook_event_name": "PostToolUse",
        "session_id": "ses-1",
        "tool_name": "Bash",
        "tool_response": {"is_error": true, "stdout": "boom"}
    }"#;
    let payload = HookPayload::parse(text).unwrap();
    match payload_to_event(&payload, "/repo", false, false, stamp(5)) {
        AgentEvent::ToolResult { timestamp, tool_name, is_error, is_sidechain, .. } => {
            assert_eq!(timestamp, stamp(5));
            assert_eq!(tool_name.as_deref(), Some("Bash"));
            assert!(is_error);
            assert!(!is_sidechain);
        }
        other => panic!("unexpected event: {other:?}"),
    }
    assert!(!tool_response_failed(None));
    assert!(tool_response_failed(Some(&object(r#"["fine", {"text": "an error"}]"#))));
    assert!(!tool_response_failed(Some(&object(r#"{"is_error": false}"#))));
    assert_eq!(flatten_json(&object(r#""plain""#)), "plain");
    assert!(HookPayload::parse(r#"{"tool_name":"Bash"}"#).is_none());
}

fn snapshot_with_state(state: AgentState, phase: AgentPhase) -> Snapshot {
    Snapshot {
        cwd: "/repo".to_string(),
        session_file: None,
        pid: Some(42),
        state,
        phase,
        silence: Span::from_secs(0),
    }
}

#[test]
fn guard_display_shows_empty_state() {
    let display = guard_display(&snapshot_with_state(
        AgentState::default(),
        AgentPhase::Working,
    ));

    assert_eq!(
        display,
        GuardDisplay {
            guard: "GUARD: none".into(),
            status: String::new(),
            detail: "Press [g] to set a guard path.".into(),
            has_guard: false,
            has_violation: false,
        }
    );
}

#[test]
fn guard_display_shows_violation_count_and_last_file() {
    let mut state = AgentState::default();
    state.guard_paths = vec!["/repo/src/auth".to_string()];
    state.scope_violation_count = 2;
    state.latest_scope_violation = Some("/repo/src/billing/mod.rs".to_string());

    let display = guard_display(&snapshot_with_state(
        state,
        AgentPhase::ScopeLeaking {
            violating_file: "/repo/src/billing/mod.rs".to_string(),
            guard_path: "/repo/src/auth".to_string(),
        },
    ));

    assert_eq!(display.guard, "GUARD: src/auth");
    assert_eq!(display.status, "⚠ 2 violations");
    assert_eq!(display.detail, "Last violation: src/billing/mod.rs");
    assert!(display.has_guard);
    assert!(display.has_violation);
    assert!(guard_panel_lines(display).len() > 1);
}

#[test]
fn parse_guard_input_accepts_multiple_paths() {
    assert_eq!(
        parse_guard_input("src/auth, tests/auth , /tmp/guard"),
        vec![
            "src/auth".to_string(),
            "tests/auth".to_string(),
            "/tmp/guard".to_string(),
        ]
    );
    assert!(parse_guard_input("  ,  ").is_empty());
}

#[test]
fn guards_are_read_back_from_the_dialog() {
    let guards = vec!["src/auth".to_string(), "/tmp/guard".to_string()];
    assert_eq!(parse_guard_input(&format_guard_input(&guards)), guards);
}

fn press(key: Key) -> KeyPress {
    KeyPress { key, control: false, alt: false }
}

#[test]
fn the_dialog_takes_every_key_while_it_is_open() {
    let mut tui = TuiState::new(vec!["a".to_string()]);
    assert_eq!(tui.handle_key(press(Key::Char('g')), Some(1), 9, 9), TuiAction::Nothing);
    assert_eq!(tui.guard_input.as_deref(), Some("a"));
    assert_eq!(tui.handle_key(press(Key::Backspace), Some(1), 9, 9), TuiAction::Nothing);
    assert_eq!(tui.handle_key(press(Key::Char('K')), Some(1), 9, 9), TuiAction::Nothing);
    assert_eq!(tui.handle_key(press(Key::Char('q')), Some(1), 9, 9), TuiAction::Nothing);
    assert_eq!(tui.guard_input.as_deref(), Some("Kq"));
    assert_eq!(tui.handle_key(press(Key::Enter), Some(1), 9, 9), TuiAction::Nothing);
    assert_eq!(tui.guards, vec!["Kq".to_string()]);
    assert_eq!(tui.guard_input, None);
    let lines = guard_dialog_lines(
        &snapshot_with_state(AgentState::default(), AgentPhase::Working),
        "src",
    );
    assert_eq!(lines[1].spans[0].text, "> src");
}

#[test]
fn keys_signal_the_watched_process() {
    let mut tui = TuiState::new(vec![]);
    assert_eq!(tui.handle_key(press(Key::Char('k')), Some(7), 0, 0), TuiAction::Interrupt(7));
    assert_eq!(tui.handle_key(press(Key::Char('K')), Some(7), 0, 0), TuiAction::ForceKill(7));
    assert_eq!(tui.handle_key(press(Key::Char('k')), None, 0, 0), TuiAction::Nothing);
    assert_eq!(tui.handle_key(press(Key::Char('c')), None, 0, 0), TuiAction::SaveCheckpoint);
    assert_eq!(tui.handle_key(press(Key::Char('q')), None, 0, 0), TuiAction::Quit);
}

#[test]
fn panels_scroll_within_their_limits() {
    let mut tui = TuiState::new(vec![]);
    tui.handle_key(press(Key::PageDown), None, 7, 3);
    assert_eq!(tui.file_activity_scroll, 5);
    tui.handle_key(press(Key::PageDown), None, 7, 3);
    assert_eq!(tui.file_activity_scroll, 7);
    tui.handle_key(press(Key::Up), None, 7, 3);
    assert_eq!(tui.file_activity_scroll, 6);
    tui.handle_key(press(Key::Tab), None, 7, 3);
    assert_eq!(tui.active_panel, ScrollPanel::Alerts);
    tui.handle_key(press(Key::End), None, 7, 3);
    assert_eq!(tui.alerts_scroll, 3);
    tui.handle_key(press(Key::Home), None, 7, 3);
    assert_eq!(tui.alerts_scroll, 0);
    assert_eq!(tick_millis(0), 50);
    let rows = center_rows(5, 20);
    assert_eq!(rows.height, 5);
}

fn sample(secs: u128, read: u64) -> ProcessSample {
    ProcessSample {
        captured_at: Moment { nanos: secs * 1_000_000_000 },
        io_read_bytes: read,
        io_write_bytes: 0,
    }
}

#[test]
fn samples_of_another_process_start_anew() {
    let mut sampler = TuiProcessSampler::new();
    assert_eq!(sampler.select(None), SampleStep::Skip);
    assert_eq!(sampler.select(Some(4)), SampleStep::Restart(4));
    assert!(sampler.record(sample(1, 100)).is_none());
    assert_eq!(sampler.select(Some(4)), SampleStep::Continue(4));
    let delta = sampler.record(sample(3, 300)).unwrap();
    assert_eq!(delta.read_bytes, 200);
    assert_eq!(delta.elapsed, Span::from_secs(2));
    assert_eq!(sampler.select(Some(5)), SampleStep::Restart(5));
    assert!(sampler.record(sample(4, 300)).is_none());
}

#[test]
fn a_vanished_process_is_noted_in_the_snapshot() {
    let mut snapshot = snapshot_with_state(AgentState::default(), AgentPhase::Working);
    if let AgentEvent::ProcessMetrics(metrics) = dead_event(stamp(10)) {
        refresh_snapshot(&mut snapshot, metrics);
    }
    assert_eq!(snapshot.phase, AgentPhase::Working);
    assert!(!snapshot.state.process_alive);
}

fn candidate(pid: u32, id: &str, cwd: &str, started_at: u64) -> SessionCandidate {
    SessionCandidate {
        session: SessionFile {
            pid,
            session_id: id.to_string(),
            cwd: cwd.to_string(),
            started_at,
            session_file_path: None,
            resolved_cwd: None,
        },
        is_alive: true,
        has_log: true,
        log_modified: 0,
    }
}

#[test]
fn all_sessions_of_a_directory_are_requested() {
    let sessions = list_alive_session_selections(
        "/agent",
        &vec![
            candidate(1, "a", "/p", 1),
            candidate(2, "b", "/q", 2),
            candidate(3, "c", "/p", 3),
        ],
    );
    let ids = |requests: Vec<saw::status::SnapshotRequest>| {
        requests.into_iter().filter_map(|r| r.session_id).collect::<Vec<_>>()
    };
    assert_eq!(ids(collect_all_requests(&sessions, "/p", None, None)), vec!["c", "a"]);
    assert_eq!(ids(collect_all_requests(&sessions, "/p", None, Some("b"))), vec!["b"]);
    assert_eq!(collect_all_requests(&sessions, "/p", Some("/f"), None).len(), 1);
    assert!(needs_choice(&sessions, None, None));
    assert!(!needs_choice(&sessions, None, Some("a")));
}

#[test]
fn hook_payloads_in_an_array_hold_all_fields() {
    let full = parse_json(r#"[null,"ses-1","Bash",null,null]"#).unwrap();
    let payload = HookPayload::from_json(full).unwrap();
    assert_eq!(payload.session_id, "ses-1");
    assert_eq!(payload.tool_name.as_deref(), Some("Bash"));
    let short = parse_json(r#"[null,"ses-1"]"#).unwrap();
    assert!(HookPayload::from_json(short).is_none());
    let long = parse_json(r#"[null,"ses-1",null,null,null,null]"#).unwrap();
    assert!(HookPayload::from_json(long).is_none());
}

#[test]
fn hook_payloads_are_read_from_raw_text() {
    let payload = HookPayload::parse(
        r#"{"tool_response":"done","x":1,"session_id":"s","tool_input":{"file_path":"a.rs"}}"#,
    )
    .unwrap();
    assert_eq!(payload.session_id, "s");
    assert_eq!(payload.hook_event_name, None);
    assert_eq!(payload.tool_input, Some(object(r#"{"file_path":"a.rs"}"#)));
    assert_eq!(payload.tool_response, Some(object(r#""done""#)));

    let listed = HookPayload::parse(r#"["Stop","s",null,[1],null]"#).unwrap();
    assert_eq!(listed.tool_input, Some(object("[1]")));
    assert_eq!(listed.tool_response, None);

    assert!(HookPayload::parse("not json").is_none());
    assert!(HookPayload::parse(r#"{"session_id":7}"#).is_none());
}

#[test]
fn sessions_are_listed_as_often_as_they_were_found() {
    let mut dead = candidate(3, "c", "/p", 3);
    dead.is_alive = false;
    let sessions = list_alive_session_selections(
        "/agent",
        &vec![candidate(1, "a", "/p", 1), dead, candidate(2, "b", "/q", 2), candidate(1, "a", "/p", 1)],
    );
    let pids = sessions.iter().map(|s| s.session.pid).collect::<Vec<_>>();
    assert_eq!(pids, vec![2, 1, 1]);
}
