use saw::alerter::{
    ActionError, AlertActionExecutor, AlertContext, AlertDecisionState, AlertNotification, Alerter,
    AlerterConfig, StuckAction,
};
use saw::alerts_panel::parse_alert_history_line;
use saw::classifier::{classify, ClassifierConfig};
use saw::clock::{Span, Timestamp};
use saw::common::{display_path, normalize_guard_paths};
use saw::jsonl_tail::LineBuffer;
use saw::loop_detector::compute_loop_score;
use saw::metrics::compute_silence;
use saw::paths::{join_path, path_within, paths_equal, strip_base};
use saw::state::AgentState;
use saw::state_machine::StateMachine;
use saw::types::{
    AgentEvent, AgentPhase, FileChangeKind, FileModification, FloatBits, ProcessMetrics,
    TaskFile, ToolCall,
};

fn stamp(secs: i64) -> Timestamp {
    Timestamp { secs, nanos: 0 }
}

fn message(secs: i64, is_sidechain: bool) -> AgentEvent {
    AgentEvent::UserMessage { timestamp: stamp(secs), is_sidechain }
}

fn call(secs: i64, tool: &str, file: Option<&str>, command: Option<&str>) -> ToolCall {
    ToolCall {
        timestamp: stamp(secs),
        tool_name: tool.to_string(),
        file_path: file.map(str::to_string),
        command: command.map(str::to_string),
        line_change: None,
        is_error: false,
        is_write: tool == "Write" || tool == "Edit",
        is_sidechain: false,
    }
}

fn result(secs: i64, tool: &str, is_error: bool) -> AgentEvent {
    AgentEvent::ToolResult {
        timestamp: stamp(secs),
        tool_name: Some(tool.to_string()),
        is_error,
        output: None,
        stderr: None,
        interrupted: false,
        persisted_output_path: None,
        is_sidechain: false,
    }
}

fn written(secs: i64, path: &str) -> AgentEvent {
    AgentEvent::FileModified(FileModification {
        timestamp: stamp(secs),
        path: path.to_string(),
        kind: FileChangeKind::Modified,
        line_change: None,
    })
}

fn metrics(secs: i64, alive: bool) -> AgentEvent {
    let zero = FloatBits { bits: 0 };
    AgentEvent::ProcessMetrics(ProcessMetrics {
        timestamp: stamp(secs),
        process_alive: alive,
        cpu_percent: zero,
        rss_bytes: 1,
        virtual_bytes: 1,
        io_read_bytes: 1,
        io_write_bytes: 1,
        io_read_rate: zero,
        io_write_rate: zero,
    })
}

fn phase(state: &AgentState, secs: i64) -> AgentPhase {
    classify(state, stamp(secs), ClassifierConfig::default())
}

#[test]
fn process_samples_leave_the_silence_as_it_was() {
    let mut state = AgentState::default();
    state.apply(&message(100, false));
    state.apply(&metrics(150, true));
    assert_eq!(compute_silence(&state, stamp(160)), Span::from_secs(60));
    assert_eq!(state.last_event_at, Some(stamp(100)));
}

#[test]
fn sidechain_results_do_not_end_the_wait_of_the_main_session() {
    let mut state = AgentState::default();
    state.apply(&AgentEvent::ToolCall(call(1, "Bash", None, Some("make"))));
    let mut side = result(2, "Bash", false);
    if let AgentEvent::ToolResult { is_sidechain, .. } = &mut side {
        *is_sidechain = true;
    }
    state.apply(&side);
    assert!(state.awaiting_tool_result);
    state.apply(&result(3, "Bash", false));
    assert!(!state.awaiting_tool_result);
}

#[test]
fn a_context_reset_lasts_until_the_next_tool_call() {
    let mut state = AgentState::default();
    let compact = AgentEvent::CompactBoundary { timestamp: stamp(1), is_sidechain: false };
    state.apply(&compact);
    state.apply(&message(2, false));
    state.apply(&message(3, true));
    assert_eq!(phase(&state, 3), AgentPhase::ContextReset);
    state.apply(&AgentEvent::ToolCall(call(4, "Read", None, None)));
    assert_eq!(phase(&state, 4), AgentPhase::Working);
}

#[test]
fn touched_files_are_counted_once_however_they_are_written() {
    let mut state = AgentState::default();
    state.apply(&written(1, "/repo/a.rs"));
    state.apply(&written(2, "/repo//a.rs"));
    state.apply(&AgentEvent::ToolCall(call(3, "Write", Some("/repo/./a.rs"), None)));
    assert_eq!(state.touched_file_count(), 1);
    assert_eq!(state.total_tool_calls, 1);
}

#[test]
fn writes_leak_exactly_outside_the_guards() {
    let mut state = AgentState::default();
    state.guard_paths = vec!["/repo/src".to_string()];
    state.apply(&written(1, "/repo/src/lib.rs"));
    assert_eq!(state.scope_violation_count, 0);
    state.apply(&written(2, "/repo/srcs/lib.rs"));
    assert_eq!(state.scope_violation_count, 1);
    match phase(&state, 2) {
        AgentPhase::ScopeLeaking { violating_file, guard_path } => {
            assert_eq!(violating_file, "/repo/srcs/lib.rs");
            assert_eq!(guard_path, "/repo/src");
        }
        other => panic!("unexpected phase: {other:?}"),
    }
}

#[test]
fn silence_takes_a_session_from_working_to_idle() {
    let mut state = AgentState::default();
    state.apply(&message(1_000, false));
    assert_eq!(phase(&state, 1_030), AgentPhase::Working);
    assert_eq!(phase(&state, 1_031), AgentPhase::Thinking);
    state.latest_cpu_percent = FloatBits { bits: 5.0f32.to_bits() };
    assert_eq!(
        phase(&state, 1_601),
        AgentPhase::Idle(Span::from_secs(601))
    );
    state.apply(&metrics(1_602, false));
    assert_eq!(phase(&state, 1_602), AgentPhase::Dead);
}

#[test]
fn three_writes_in_a_row_are_a_loop() {
    let mut state = AgentState::default();
    state.apply(&written(10, "/repo/a.rs"));
    state.apply(&written(20, "/repo/a.rs"));
    assert_eq!(phase(&state, 20), AgentPhase::Working);
    state.apply(&written(310, "/repo/a.rs"));
    assert_eq!(
        phase(&state, 310),
        AgentPhase::ToolLoop { file: "/repo/a.rs".to_string(), count: 3, since: stamp(10) }
    );
    assert_eq!(state.loop_started_at, Some(stamp(10)));
    state.apply(&written(311, "/repo/b.rs"));
    assert_eq!(phase(&state, 311), AgentPhase::Working);
    assert_eq!(state.recent_file_write_count_at("/repo/b.rs", stamp(311)), 1);
    assert_eq!(state.recent_file_write_count_at("/repo/b.rs", stamp(612)), 0);
    assert_eq!(state.recent_file_write_count("/repo/b.rs"), 1);
    assert!(state.has_recent_file_writes());
    assert_eq!(state.loop_started_at, None);
}

#[test]
fn failing_tests_count_until_one_passes() {
    let mut state = AgentState::default();
    for secs in [1, 3, 5] {
        let run = call(secs, "Bash", None, Some("cargo test"));
        state.apply(&AgentEvent::ToolCall(run));
        state.apply(&result(secs + 1, "Bash", true));
    }
    assert_eq!(
        phase(&state, 6),
        AgentPhase::TestLoop { command: "cargo test".to_string(), failure_count: 3 }
    );
    state.apply(&AgentEvent::ToolCall(call(7, "Bash", None, Some("cargo test"))));
    state.apply(&result(8, "Bash", false));
    assert_eq!(state.consecutive_test_failures, 0);
    state.apply(&AgentEvent::ToolCall(call(9, "Bash", None, Some("ls"))));
    assert_eq!(state.last_test_command, None);
}

#[test]
fn a_phase_is_reported_once() {
    let mut machine = StateMachine::default();
    assert_eq!(machine.apply(message(1, false)), Some(AgentPhase::Working));
    assert_eq!(machine.reclassify_at(stamp(1)), None);
    assert_eq!(
        machine.reclassify_at(stamp(40)),
        Some(AgentPhase::Thinking)
    );
    assert_eq!(machine.reclassify_at(stamp(41)), None);
}

#[test]
fn blocked_tasks_name_their_open_dependencies() {
    let task = |id: &str, status: &str, blocked_by: Vec<&str>| TaskFile {
        id: id.to_string(),
        status: status.to_string(),
        owner: None,
        blocked_by: blocked_by.into_iter().map(str::to_string).collect(),
    };
    let mut state = AgentState::default();
    state.last_event_at = Some(stamp(1));
    state.task_files = vec![task("2", "completed", vec![]), task("4", "pending", vec![])];
    state.current_task = Some(task("3", "in_progress", vec!["2", "4", "9"]));
    assert_eq!(
        phase(&state, 1),
        AgentPhase::TaskBlocked {
            task_id: "3".to_string(),
            blocked_by: vec!["4".to_string(), "9".to_string()],
        }
    );
}

#[test]
fn logs_can_be_read_in_any_pieces() {
    let text = "{\"type\":\"session_started\",\"timestamp\":\"2026-03-24T12:00:00Z\",\"session_id\":\"é\"}\r\n\n{\"type\":\"system\",\"subtype\":\"compact_boundary\",\"timestamp\":\"2026-03-24T12:00:01Z\"}\nrest";
    let bytes = text.as_bytes();
    let mut whole = LineBuffer::new();
    let expected = whole.feed(&bytes.to_vec());
    assert_eq!(expected.len(), 2);
    for cut in 0..=bytes.len() {
        let mut buffer = LineBuffer::new();
        let mut events = buffer.feed(&bytes[..cut].to_vec());
        events.extend(buffer.feed(&bytes[cut..].to_vec()));
        assert_eq!(events, expected);
        assert_eq!(buffer.bytes, b"rest".to_vec());
    }
}

#[test]
fn rewrites_are_counted_for_each_file() {
    let calls = vec![
        call(1, "Write", Some("/repo/a.rs"), None),
        call(2, "Read", Some("/repo/a.rs"), None),
        call(3, "Edit", Some("/repo/b.rs"), None),
        call(4, "Edit", Some("/repo//a.rs"), None),
    ];
    let score = compute_loop_score(&calls.into());
    assert_eq!(score.file_rewrites, 2);
    assert_eq!(score.most_written_file.as_deref(), Some("/repo/a.rs"));
}

#[test]
fn paths_lie_within_whole_components() {
    assert!(path_within("/repo/src/lib.rs", "/repo/src/"));
    assert!(path_within("/repo/src", "/repo/src"));
    assert!(!path_within("/repo/src-old/lib.rs", "/repo/src"));
    assert!(path_within(&join_path("/repo", "a/./b"), "/repo"));
    for path in ["/repo/a/b", "/repo//a/./b/", "/repo"] {
        let relative = strip_base(path, "/repo").unwrap();
        assert!(paths_equal(&join_path("/repo", &relative), path));
    }
    assert_eq!(strip_base("/other", "/repo"), None);
    assert_eq!(display_path("/repo", "/repo//a/./b/"), "a/./b");
    assert_eq!(
        normalize_guard_paths("/repo", &vec!["a".to_string(), "/b".to_string()]),
        vec!["/repo/a".to_string(), "/b".to_string()]
    );
}

#[derive(Default)]
struct Recorder {
    calls: Vec<String>,
    fails: Option<&'static str>,
}

impl Recorder {
    fn note(&mut self, call: String) -> Result<(), ActionError> {
        let fails = self.fails.is_some_and(|name| call.starts_with(name));
        self.calls.push(call);
        if fails {
            Err(ActionError { message: "refused".to_string() })
        } else {
            Ok(())
        }
    }
}

impl AlertActionExecutor for Recorder {
    fn write_stderr(&mut self, _message: &str) -> Result<(), ActionError> {
        self.note("show".to_string())
    }

    fn ring_bell(&mut self) -> Result<(), ActionError> {
        self.note("bell".to_string())
    }

    fn interrupt_pid(&mut self, pid: u32) -> Result<(), ActionError> {
        self.note(format!("interrupt {pid}"))
    }

    fn force_kill_pid(&mut self, pid: u32) -> Result<(), ActionError> {
        self.note(format!("kill {pid}"))
    }

    fn save_checkpoint(&mut self, _state: &AgentState, cwd: &str) -> Result<String, ActionError> {
        self.note("checkpoint".to_string()).map(|_| format!("{cwd}/saved"))
    }

    fn append_log(&mut self, path: &str, _line: &str) -> Result<(), ActionError> {
        self.note(format!("log {path}"))
    }
}

fn evaluate(
    alerter: &mut Alerter,
    secs: i64,
    executor: &mut Recorder,
) -> Result<AlertDecisionState, String> {
    let state = AgentState::default();
    let context = AlertContext {
        timestamp: stamp(secs),
        cwd: "/repo",
        state: &state,
        pid: Some(7),
        agent: "Agent",
    };
    alerter
        .evaluate_phase_change(
            Some(&AgentPhase::Working),
            &AgentPhase::ApiHang(Span::from_secs(200)),
            context,
            executor,
        )
        .map(|decision| decision.state)
        .map_err(|error| error.message)
}

#[test]
fn a_checkpoint_comes_before_the_kill() {
    let mut executor = Recorder::default();
    let mut alerter = Alerter::new(AlerterConfig {
        stuck_action: StuckAction::CheckpointKill,
        ..AlerterConfig::default()
    });
    assert_eq!(evaluate(&mut alerter, 0, &mut executor), Ok(AlertDecisionState::Executed));
    assert_eq!(
        executor.calls,
        vec!["checkpoint", "interrupt 7", "show", "log /repo/.saw/alerts.log"]
    );

    assert_eq!(evaluate(&mut alerter, 59, &mut executor), Ok(AlertDecisionState::Gated));
    assert_eq!(executor.calls.len(), 4);
    assert_eq!(evaluate(&mut alerter, 60, &mut executor), Ok(AlertDecisionState::Executed));
    assert_eq!(executor.calls.len(), 8);
}

#[test]
fn a_failed_checkpoint_stops_the_kill_and_is_tried_again() {
    let mut executor = Recorder { fails: Some("checkpoint"), ..Recorder::default() };
    let mut alerter = Alerter::new(AlerterConfig {
        stuck_action: StuckAction::CheckpointKill,
        ..AlerterConfig::default()
    });
    assert_eq!(evaluate(&mut alerter, 0, &mut executor), Err("refused".to_string()));
    assert_eq!(executor.calls, vec!["checkpoint"]);
    executor.fails = None;
    assert_eq!(evaluate(&mut alerter, 1, &mut executor), Ok(AlertDecisionState::Executed));
}

#[test]
fn a_bell_that_cannot_be_rung_keeps_the_alert_out_of_the_log() {
    let mut executor = Recorder { fails: Some("bell"), ..Recorder::default() };
    let mut alerter = Alerter::new(AlerterConfig {
        stuck_action: StuckAction::Bell,
        ..AlerterConfig::default()
    });
    assert_eq!(evaluate(&mut alerter, 0, &mut executor), Err("refused".to_string()));
    assert_eq!(executor.calls, vec!["show", "bell"]);
}

#[test]
fn logged_alerts_are_shown_in_the_history() {
    let line = AlertNotification {
        timestamp: stamp(3_661),
        previous_phase: Some("THINKING"),
        phase: "API_HANG",
        message: "after 121s - no answer".to_string(),
        suggestion: Some("send a follow-up".to_string()),
        action: "warn",
        checkpoint_dir: None,
    }
    .render_human();
    let entry = parse_alert_history_line(&line);
    assert_eq!(entry.timestamp, "01:01:01");
    assert_eq!(entry.summary, "API_HANG after 121s - no answer");
}

#[test]
fn replayed_writes_are_a_loop_only_where_the_live_ones_were() {
    let mut machine = StateMachine::default();
    machine.apply(written(0, "src/lib.rs"));
    machine.apply(written(600, "src/lib.rs"));
    assert_eq!(machine.apply(written(1_200, "src/lib.rs")), None);
    assert_eq!(machine.state().phase, AgentPhase::Working);
    assert_eq!(machine.state().recent_file_writes.len(), 1);
    assert_eq!(machine.state().recent_file_write_count("src/lib.rs"), 1);

    let mut close = StateMachine::default();
    close.apply(written(0, "src/lib.rs"));
    close.apply(written(100, "src/lib.rs"));
    assert_eq!(
        close.apply(written(300, "src/lib.rs")),
        Some(AgentPhase::ToolLoop {
            file: "src/lib.rs".to_string(),
            count: 3,
            since: stamp(0),
        })
    );
}

#[test]
fn silence_grows_with_time_but_not_over_a_leap_second() {
    let mut state = AgentState::default();
    state.last_event_at = Some(stamp(30));
    assert_eq!(compute_silence(&state, stamp(59)), Span::from_secs(29));
    assert_eq!(compute_silence(&state, stamp(60)), Span::from_secs(30));
    let leap = Timestamp { secs: 59, nanos: 1_900_000_000 };
    assert!(stamp(60).after(leap));
    assert_eq!(compute_silence(&state, leap), Span { nanos: 30_900_000_000 });
}
