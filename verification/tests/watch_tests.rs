use saw::agent::Agent;
use chrono::{TimeZone, Utc};
use saw::alerter::{
    ActionError, AlertActionExecutor, AlertNotification, Alerter, AlerterConfig,
    StuckAction as DaemonStuckAction,
};
use saw::classifier::{classify, ClassifierConfig};
use saw::clock::{Span, Timestamp};
use saw::common::{list_alive_session_selections, SessionCandidate, SessionFile};
use saw::runtime::{resolve_watch_target, WatcherRuntimeOptions, WatcherRuntimeTarget};
use saw::state::AgentState;
use saw::types::{AgentEvent, AgentPhase, FileChangeKind, FileModification, FloatBits, ToolCall};
use saw::watch::{
    colorize_phase, human_status, map_scope_leak_action, map_stuck_action, phase_kind_changed,
    status_payload, PhaseDetails, ScopeLeakAction, StatusOutput, StuckAction, WatchSession,
};
use std::collections::VecDeque;

fn fixed_timestamp() -> Timestamp {
    let time = Utc.with_ymd_and_hms(2026, 3, 24, 12, 11, 22).single().unwrap();
    Timestamp { secs: time.timestamp(), nanos: 0 }
}

fn ago(time: Timestamp, secs: i64) -> Timestamp {
    Timestamp { secs: time.secs - secs, nanos: time.nanos }
}

fn bits(value: f32) -> FloatBits {
    FloatBits { bits: value.to_bits() }
}

fn target(cwd: &str) -> WatcherRuntimeTarget {
    WatcherRuntimeTarget {
        cwd: cwd.to_string(),
        pid: Some(4242),
        jsonl_path: format!("{cwd}/session.jsonl"),
        session_id: Some("ses-1".into()),
    }
}

fn write_call(timestamp: Timestamp, tool_name: &str) -> ToolCall {
    ToolCall {
        timestamp,
        tool_name: tool_name.into(),
        file_path: Some(String::from("src/lib.rs")),
        command: None,
        line_change: None,
        is_error: false,
        is_write: true,
        is_sidechain: false,
    }
}

fn failed_call(timestamp: Timestamp, command: &str) -> ToolCall {
    ToolCall {
        timestamp,
        tool_name: "Bash".into(),
        file_path: None,
        command: Some(command.into()),
        line_change: None,
        is_error: true,
        is_write: false,
        is_sidechain: false,
    }
}

fn modified(timestamp: Timestamp) -> AgentEvent {
    AgentEvent::FileModified(FileModification {
        timestamp,
        path: String::from("src/lib.rs"),
        kind: FileChangeKind::Modified,
        line_change: None,
    })
}

#[test]
fn classifies_scope_leak_with_guard() {
    let now = Timestamp::now();
    let mut state = AgentState::default();
    state.last_event_at = Some(now);
    state.guard_paths = vec![String::from("/repo/src/auth")];
    state.latest_scope_violation = Some(String::from("/repo/src/billing/mod.rs"));

    let phase = classify(&state, now, ClassifierConfig::default());
    assert!(matches!(
        phase,
        AgentPhase::ScopeLeaking {
            ref violating_file,
            ref guard_path,
        } if violating_file == "/repo/src/billing/mod.rs" && guard_path == "/repo/src/auth"
    ));
}

#[test]
fn classifies_tool_loop_and_test_loop() {
    let now = Timestamp::now();
    let mut tool_loop = AgentState::default();
    tool_loop.last_event_at = Some(now);
    tool_loop.recent_tool_calls = VecDeque::from(vec![
        write_call(ago(now, 120), "Write"),
        write_call(ago(now, 60), "Edit"),
        write_call(now, "Write"),
    ]);
    tool_loop.apply(&modified(ago(now, 120)));
    tool_loop.apply(&modified(ago(now, 60)));
    tool_loop.apply(&modified(now));

    let phase = classify(&tool_loop, now, ClassifierConfig::default());
    assert!(matches!(phase, AgentPhase::ToolLoop { count: 3, .. }));

    let mut test_loop = AgentState::default();
    test_loop.last_event_at = Some(now);
    test_loop.recent_tool_calls = VecDeque::from(vec![
        failed_call(ago(now, 120), "cargo test"),
        failed_call(ago(now, 60), "cargo test -p saw-core"),
        failed_call(now, "pytest tests/unit"),
    ]);
    test_loop.consecutive_test_failures = 3;
    test_loop.last_test_command = Some("pytest tests/unit".into());

    let phase = classify(&test_loop, now, ClassifierConfig::default());
    assert!(matches!(
        phase,
        AgentPhase::TestLoop {
            failure_count: 3,
            command,
        } if command == "pytest tests/unit"
    ));
}

#[test]
fn robot_payload_contains_pid_timestamp_and_suggestion() {
    let target = target("/tmp/payload");
    let mut state = AgentState::default();
    state.session_id = Some("ses-1".into());
    state.last_file_path = Some("/tmp/payload/src/lib.rs".into());
    state.latest_cpu_percent = bits(0.0);
    state.last_event_at = Some(ago(Timestamp::now(), 121));

    let payload = status_payload(
        Some(&AgentPhase::Thinking),
        &AgentPhase::ApiHang(Span::from_secs(121)),
        &state,
        &target,
        fixed_timestamp(),
        Some(&AlertNotification {
            timestamp: fixed_timestamp(),
            previous_phase: Some("THINKING"),
            phase: "API_HANG",
            message: "after 121s - agent appears stuck waiting on the API".into(),
            suggestion: Some("send a follow-up or use --on-stuck kill if it stays blocked".into()),
            action: "warn",
            checkpoint_dir: None,
        }),
    );

    assert_eq!(payload.event, "phase_change");
    assert_eq!(payload.phase, "API_HANG");
    assert_eq!(payload.previous_phase, Some("THINKING"));
    assert_eq!(payload.pid, Some(4242));
    assert_eq!(payload.file.as_deref(), Some("src/lib.rs"));
    assert!(payload.timestamp.ends_with('Z'));
    assert_eq!(payload.timestamp, "2026-03-24T12:11:22Z");
    assert_eq!(
        payload.suggestion.as_deref(),
        Some("send a follow-up or use --on-stuck kill if it stays blocked")
    );
}

#[test]
fn task_blocked_payload_reports_dependency_details() {
    let target = target("/tmp/task-blocked-payload");
    let timestamp = fixed_timestamp();
    let mut state = AgentState::default();
    state.session_id = Some("ses-1".into());
    state.last_event_at = Some(ago(timestamp, 5));

    let payload = status_payload(
        Some(&AgentPhase::Working),
        &AgentPhase::TaskBlocked {
            task_id: "3".into(),
            blocked_by: vec!["2".into(), "4".into()],
        },
        &state,
        &target,
        timestamp,
        Some(&AlertNotification {
            timestamp,
            previous_phase: Some("WORKING"),
            phase: "TASK_BLOCKED",
            message: "task_id=3 blocked_by=2,4 - task dependencies are not completed".into(),
            suggestion: Some(
                "complete or reassign the blocking task dependencies before continuing".into(),
            ),
            action: "warn",
            checkpoint_dir: None,
        }),
    );

    assert_eq!(payload.phase, "TASK_BLOCKED");
    assert_eq!(
        payload.details,
        PhaseDetails::TaskBlocked {
            task_id: "3".into(),
            blocked_by: vec!["2".into(), "4".into()],
        }
    );
}

#[test]
fn dead_payload_reports_stale_signals() {
    let target = target("/tmp/dead-payload");
    let timestamp = fixed_timestamp();
    let mut state = AgentState::default();
    state.session_id = Some("ses-1".into());
    state.last_jsonl_record_at = Some(ago(timestamp, 301));
    state.last_token_activity_at = Some(ago(timestamp, 301));
    state.last_event_at = Some(ago(timestamp, 301));
    state.latest_cpu_percent = bits(0.4);
    state.latest_rss_bytes = 1024;
    state.latest_virtual_bytes = 2048;

    let payload = status_payload(
        None,
        &AgentPhase::Dead,
        &state,
        &target,
        timestamp,
        Some(&AlertNotification {
            timestamp,
            previous_phase: None,
            phase: "DEAD",
            message: "process exited - Agent is no longer alive".into(),
            suggestion: Some("restart the Agent process to resume monitoring".into()),
            action: "kill",
            checkpoint_dir: None,
        }),
    );

    assert_eq!(payload.phase, "DEAD");
    assert_eq!(
        payload.suggestion.as_deref(),
        Some("restart the Agent process to resume monitoring")
    );
    assert_eq!(
        payload.details,
        PhaseDetails::Dead {
            process_alive: true,
            silence_secs: 301,
            jsonl_stale_secs: Some(301),
            token_stale_secs: Some(301),
            cpu_percent: bits(0.4),
            rss_bytes: 1024,
            virtual_bytes: 2048,
        }
    );
}

#[test]
fn checkpoint_flag_preserves_stuck_action_mapping() {
    assert_eq!(map_stuck_action(StuckAction::Warn), DaemonStuckAction::Warn);
    assert_eq!(map_stuck_action(StuckAction::Bell), DaemonStuckAction::Bell);
    assert_eq!(map_stuck_action(StuckAction::Kill), DaemonStuckAction::Kill);
    assert_eq!(
        map_stuck_action(StuckAction::CheckpointKill),
        DaemonStuckAction::CheckpointKill
    );
    assert_eq!(
        map_scope_leak_action(ScopeLeakAction::Kill),
        saw::alerter::ScopeLeakAction::Kill
    );
}

fn candidate(pid: u32, id: &str, cwd: &str, started_at: u64) -> SessionCandidate {
    SessionCandidate {
        session: SessionFile {
            pid,
            session_id: id.to_string(),
            cwd: cwd.to_string(),
            started_at,
            session_file_path: None,
            resolved_cwd: None,
        },
        is_alive: true,
        has_log: true,
        log_modified: 0,
    }
}

fn options(cwd: &str, session_id: Option<&str>) -> WatcherRuntimeOptions {
    WatcherRuntimeOptions {
        agent_dir: "/home/me/.agent".to_string(),
        agent: Agent::of_dir(".agent"),
        cwd: cwd.to_string(),
        file: None,
        pid: None,
        session_id: session_id.map(str::to_string),
        guard_paths: vec![],
        force_poll: false,
        classifier_config: ClassifierConfig::default(),
    }
}

#[test]
fn resolves_explicit_session_id() {
    let project = "/tmp/watch-session-project";
    let sessions = list_alive_session_selections(
        "/home/me/.agent",
        &vec![candidate(1, "ses-older", project, 10), candidate(2, "ses-newer", project, 20)],
    );

    let target = resolve_watch_target(&options(project, Some("ses-older")), &sessions).unwrap();

    assert_eq!(target.pid, Some(1));
    assert!(target.jsonl_path.ends_with("/ses-older.jsonl"));
}

#[test]
fn auto_detects_pid_and_jsonl_for_requested_project() {
    let project = "/tmp/project";
    let sessions = list_alive_session_selections(
        "/home/me/.agent",
        &vec![candidate(1, "ses-wanted", project, 10), candidate(2, "ses-other", "/tmp/other", 20)],
    );

    let target = resolve_watch_target(&options(project, None), &sessions).unwrap();

    assert_eq!(target.pid, Some(1));
    assert_eq!(target.cwd, project);
    assert!(target.jsonl_path.ends_with("/ses-wanted.jsonl"));
}

#[test]
fn defaults_to_most_recent_active_session_in_same_project() {
    let project = "/tmp/watch-most-recent-project";
    let sessions = list_alive_session_selections(
        "/home/me/.agent",
        &vec![candidate(1, "ses-older", project, 10), candidate(2, "ses-newer", project, 20)],
    );

    let target = resolve_watch_target(&options(project, None), &sessions).unwrap();

    assert_eq!(target.pid, Some(2));
    assert_eq!(target.cwd, project);
    assert_eq!(
        target.jsonl_path,
        "/home/me/.agent/projects/-tmp-watch-most-recent-project/ses-newer.jsonl"
    );
}

#[test]
fn status_lines_name_the_phase_and_where_it_came_from() {
    let target = target("/repo");
    let timestamp = fixed_timestamp();
    let mut state = AgentState::default();
    state.last_file_path = Some("/repo/src/lib.rs".into());
    state.last_event_at = Some(ago(timestamp, 7));

    let line = human_status(
        Some(&AgentPhase::Working),
        &AgentPhase::Thinking,
        &state,
        &target,
        false,
        timestamp,
    );
    assert_eq!(
        line.before_load,
        "2026-03-24T12:11:22Z PHASE THINKING from=WORKING pid=4242 file=src/lib.rs silence=7s cpu="
    );
    assert_eq!(line.after_load, "% session=ses-1 source=/repo/session.jsonl");

    assert!(!phase_kind_changed(None, &AgentPhase::Working));
    assert_eq!(
        colorize_phase(&AgentPhase::Working, "WORKING"),
        "\x1b[32mWORKING\x1b[0m"
    );
}

#[derive(Default)]
struct Quiet {
    interrupts: Vec<u32>,
}

impl AlertActionExecutor for Quiet {
    fn write_stderr(&mut self, _message: &str) -> Result<(), ActionError> {
        Ok(())
    }

    fn ring_bell(&mut self) -> Result<(), ActionError> {
        Ok(())
    }

    fn interrupt_pid(&mut self, pid: u32) -> Result<(), ActionError> {
        self.interrupts.push(pid);
        Ok(())
    }

    fn force_kill_pid(&mut self, _pid: u32) -> Result<(), ActionError> {
        Ok(())
    }

    fn save_checkpoint(&mut self, _state: &AgentState, cwd: &str) -> Result<String, ActionError> {
        Ok(cwd.to_string())
    }

    fn append_log(&mut self, _path: &str, _line: &str) -> Result<(), ActionError> {
        Ok(())
    }
}

#[test]
fn a_watch_alerts_once_and_ends_with_the_session() {
    let now = fixed_timestamp();
    let mut executor = Quiet::default();
    let mut state = AgentState::default();
    state.session_started_at = Some(now);
    let alerter = Alerter::new(AlerterConfig {
        stuck_action: DaemonStuckAction::Kill,
        ..AlerterConfig::default()
    });
    let mut watch = WatchSession::new("Agent", target("/repo"), state, alerter, 130, false);

    let first = watch.settle(now, &mut executor).unwrap();
    assert_eq!(first.output, StatusOutput::Human);
    assert!(!first.stop);
    assert!(first.previous_phase.is_none());

    let gone = ago(now, -1);
    watch.observe(&saw::process_monitor::dead_event(gone));
    let second = watch.settle(gone, &mut executor).unwrap();
    assert_eq!(second.previous_phase, Some(AgentPhase::Working));
    assert_eq!(second.alert.unwrap().phase, "DEAD");
    assert_eq!(second.output, StatusOutput::Silent);
    assert!(second.stop);
    assert!(executor.interrupts.is_empty());
}
