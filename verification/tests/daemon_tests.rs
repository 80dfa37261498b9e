use saw::agent::Agent;
use saw::classifier::{classify, matching_guard_path, ClassifierConfig};
use saw::clock::{Moment, Span, Timestamp};
use saw::common::{SessionCandidate, SessionFile};
use saw::event_bus::{EventBusMetrics, EVENT_BUS_CAPACITY};
use saw::jsonl_tail::{
    is_relevant_notify_event, select_newest_jsonl, DirectoryFile, FileSnapshot, JsonlTailMode,
    JsonlTailer, JsonlTailerOptions, NotifyKind, JSONL_TAIL_NOTIFY_IDLE_TIMEOUT_NANOS,
};
use saw::process_monitor::{
    build_metrics, dead_event, IoRates, ProcessReading, ProcessSample, ProcessSampler,
};
use saw::runtime::{
    list_alive_session_selections, load_initial_state, needs_refresh, path_to_slug,
    resolve_watch_target, tailer_options, NoopRuntimeStateRefresher, RuntimeStateRefresher,
    WatcherRuntime, WatcherRuntimeOptions, WatcherRuntimeTarget,
};
use saw::state::AgentState;
use saw::store::{
    canonicalize_state, checkpoint_file_count, datetime_from_millis, db_path_in, row_limit,
    session_row, summarize, timestamp_millis, PoolState, PoolStep, SummaryRow,
};
use saw::types::{AgentEvent, AgentPhase, FileChangeKind, FileModification, FloatBits};
use saw::watcher::{file_events, normalize_input_path, should_ignore_path, NotifiedPath};

const AGENT_DIR: &str = ".agent";

fn at(secs: u128) -> Moment {
    Moment { nanos: secs * 1_000_000_000 }
}

fn stamp(secs: i64) -> Timestamp {
    Timestamp { secs, nanos: 0 }
}

fn tailer(path: &str, force_poll: bool, process_pid: Option<u32>) -> JsonlTailer {
    JsonlTailer::with_options(
        path,
        JsonlTailerOptions { follow_newest: false, force_poll, process_pid },
        at(0),
    )
}

/// Reads what a log holds beyond what the tailer has seen.
fn poll(tailer: &mut JsonlTailer, path: &str, content: &str, now: Moment) -> Vec<AgentEvent> {
    if !tailer.locate(Some(path.to_string()), now) {
        return vec![];
    }
    match tailer.measure(content.len() as u64) {
        Some(offset) => tailer.accept(&content.as_bytes()[offset as usize..].to_vec()),
        None => vec![],
    }
}

fn session_started_line(session_id: &str) -> String {
    format!(
        "{{\"type\":\"session_started\",\"timestamp\":\"2026-03-24T12:00:00Z\",\"session_id\":\"{session_id}\"}}\n"
    )
}

fn session_start_of(event: &AgentEvent) -> &str {
    match event {
        AgentEvent::SessionStart { session_id, .. } => session_id,
        other => panic!("unexpected event: {other:?}"),
    }
}

#[test]
fn emits_appended_events_without_replaying_existing_bytes() {
    let mut content = session_started_line("existing");
    let mut tailer = tailer("/logs/ses-1.jsonl", false, None);
    tailer.set_byte_offset(content.len() as u64);
    assert!(poll(&mut tailer, "/logs/ses-1.jsonl", &content, at(1)).is_empty());

    content.push_str(&session_started_line("fresh"));
    let events = poll(&mut tailer, "/logs/ses-1.jsonl", &content, at(2));
    assert_eq!(events.len(), 1);
    assert_eq!(session_start_of(&events[0]), "fresh");
}

#[test]
fn buffers_partial_lines_until_newline_arrives() {
    let path = "/logs/ses-1.jsonl";
    let mut tailer = tailer(path, false, None);
    tailer.set_byte_offset(0);
    let mut content = String::from(
        r#"{"type":"session_started","timestamp":"2026-03-24T12:00:00Z","session_id":"partial"}"#,
    );
    assert!(poll(&mut tailer, path, &content, at(1)).is_empty());

    content.push('\n');
    let events = poll(&mut tailer, path, &content, at(2));
    assert_eq!(events.len(), 1);
    assert_eq!(session_start_of(&events[0]), "partial");
}

#[test]
fn switches_to_newest_jsonl_file_on_rotation() {
    let first = "/logs/ses-1.jsonl";
    let second = "/logs/ses-2.jsonl";
    let mut tailer = JsonlTailer::with_options(
        first,
        JsonlTailerOptions { follow_newest: true, force_poll: false, process_pid: None },
        at(0),
    );
    let events = poll(&mut tailer, first, &session_started_line("first"), at(1));
    assert_eq!(session_start_of(&events[0]), "first");

    let file = |path: &str, secs| DirectoryFile {
        path: path.to_string(),
        is_file: true,
        modified: stamp(secs),
    };
    let newest = select_newest_jsonl(&vec![
        file(first, 10),
        file(second, 11),
        file("/logs/notes.txt", 12),
    ]);
    assert_eq!(newest.as_deref(), Some(second));

    let events = poll(&mut tailer, second, &session_started_line("second"), at(2));
    assert_eq!(events.len(), 1);
    assert_eq!(session_start_of(&events[0]), "second");
}

#[test]
fn waits_for_missing_file_and_resumes_when_created() {
    let path = "/logs/ses-missing.jsonl";
    let mut tailer = tailer(path, false, None);
    assert!(!tailer.locate(None, at(0)));
    let first_wait = tailer.retry_backoff;
    let due = tailer.next_retry_at;
    assert!(due.nanos > 0);
    assert!(!tailer.locate(None, due));
    assert!(tailer.retry_backoff.nanos > first_wait.nanos);

    let events = poll(&mut tailer, path, &session_started_line("created-later"), at(1));
    assert_eq!(events.len(), 1);
    assert_eq!(session_start_of(&events[0]), "created-later");
    assert_eq!(tailer.next_retry_at, at(1));
}

#[test]
fn force_poll_starts_in_polling_mode() {
    let path = "/logs/ses-1.jsonl";
    let mut tailer = tailer(path, true, None);
    tailer.set_byte_offset(0);

    assert_eq!(tailer.mode, JsonlTailMode::Polling);

    let events = poll(&mut tailer, path, &session_started_line("forced"), at(1));
    assert_eq!(session_start_of(&events[0]), "forced");
}

#[test]
fn switches_to_polling_when_snapshot_changes_without_notify_events() {
    let path = "/logs/ses-1.jsonl";
    let content = session_started_line("fallback");
    let mut tailer = tailer(path, false, Some(1));
    tailer.last_observed_snapshot = Some(FileSnapshot {
        path: path.to_string(),
        modified: stamp(0),
        len: 0,
    });
    let now = Moment { nanos: JSONL_TAIL_NOTIFY_IDLE_TIMEOUT_NANOS };
    assert!(!tailer.maybe_switch_to_polling(now, false));
    assert!(tailer.maybe_switch_to_polling(now, true));
    assert_eq!(tailer.mode, JsonlTailMode::Polling);

    let current = Some(FileSnapshot {
        path: path.to_string(),
        modified: stamp(5),
        len: content.len() as u64,
    });
    assert!(tailer.is_changed(&current));
    let events = poll(&mut tailer, path, &content, now);
    assert_eq!(session_start_of(&events[0]), "fallback");
    tailer.observe(current);
    assert!(!tailer.is_changed(&Some(FileSnapshot {
        path: path.to_string(),
        modified: stamp(5),
        len: content.len() as u64,
    })));
}

#[test]
fn confirmed_notifications_keep_the_mode() {
    let mut tailer = tailer("/logs/a.jsonl", false, Some(1));
    tailer.confirm_notify(at(1));
    assert!(!tailer.maybe_switch_to_polling(at(1_000), true));
    assert_eq!(tailer.mode, JsonlTailMode::Notify);
    let paths = vec!["/logs/b.jsonl".to_string()];
    assert!(is_relevant_notify_event(NotifyKind::Modify, &paths, "/logs"));
    assert!(!is_relevant_notify_event(NotifyKind::Modify, &paths, "/other"));
}

#[test]
fn a_log_that_became_shorter_is_read_again() {
    let path = "/logs/ses-1.jsonl";
    let mut tailer = tailer(path, false, None);
    let long = format!("{}{}", session_started_line("one"), session_started_line("two"));
    assert_eq!(poll(&mut tailer, path, &long, at(1)).len(), 2);
    let events = poll(&mut tailer, path, &session_started_line("three"), at(2));
    assert_eq!(events.len(), 1);
    assert_eq!(session_start_of(&events[0]), "three");
}

fn assistant_tool_use_line(
    tool_name: &str,
    file_path: Option<&str>,
    command: Option<&str>,
) -> String {
    let mut input_fields = Vec::new();
    if let Some(file_path) = file_path {
        input_fields.push(format!("\"file_path\":\"{file_path}\""));
    }
    if let Some(command) = command {
        input_fields.push(format!("\"command\":\"{command}\""));
    }
    let input = input_fields.join(",");

    format!(
        "{{\"type\":\"assistant\",\"timestamp\":\"2026-03-24T12:11:40.700Z\",\"message\":{{\"stop_reason\":\"tool_use\",\"usage\":{{\"input_tokens\":123,\"output_tokens\":45}},\"content\":[{{\"type\":\"tool_use\",\"name\":\"{tool_name}\",\"input\":{{{input}}}}}]}}}}\n"
    )
}

fn user_tool_result_line(output: &str, stderr: &str, interrupted: bool) -> String {
    let stderr_field = if stderr.is_empty() {
        String::new()
    } else {
        format!(",\"stderr\":\"{stderr}\"")
    };

    format!(
        "{{\"type\":\"user\",\"timestamp\":\"2026-03-24T12:11:22.059Z\",\"message\":{{\"content\":[{{\"type\":\"tool_result\",\"tool_use_id\":\"call_1\",\"is_error\":false,\"content\":\"{output}\"}}]}},\"toolUseResult\":{{\"stdout\":\"{output}\"{stderr_field},\"interrupted\":{interrupted}}}}}\n"
    )
}

fn assert_tool_call(
    event: &AgentEvent,
    expected_tool_name: &str,
    expected_file_path: Option<&str>,
    expected_command: Option<&str>,
    expected_is_error: bool,
    expected_is_write: bool,
) {
    match event {
        AgentEvent::ToolCall(tool_call) => {
            assert_eq!(tool_call.tool_name, expected_tool_name);
            assert_eq!(tool_call.file_path.as_deref(), expected_file_path);
            assert_eq!(tool_call.command.as_deref(), expected_command);
            assert_eq!(tool_call.is_error, expected_is_error);
            assert_eq!(tool_call.is_write, expected_is_write);
            assert!(!tool_call.is_sidechain);
        }
        other => panic!("unexpected event: {other:?}"),
    }
}

fn assert_tool_result(
    event: &AgentEvent,
    expected_output: Option<&str>,
    expected_stderr: Option<&str>,
    expected_interrupted: bool,
    expected_is_error: bool,
) {
    match event {
        AgentEvent::ToolResult {
            output,
            stderr,
            interrupted,
            is_error,
            is_sidechain,
            ..
        } => {
            assert_eq!(output.as_deref(), expected_output);
            assert_eq!(stderr.as_deref(), expected_stderr);
            assert_eq!(*interrupted, expected_interrupted);
            assert_eq!(*is_error, expected_is_error);
            assert!(!is_sidechain);
        }
        other => panic!("unexpected event: {other:?}"),
    }
}

#[test]
fn emits_mixed_events_for_appended_jsonl_records() {
    let path = "/logs/ses-1.jsonl";
    let mut tailer = tailer(path, false, None);
    let content = format!(
        "{}{}{}",
        "{\"type\":\"session_started\",\"timestamp\":\"2026-03-24T12:00:00Z\",\"sessionId\":\"ses-123\"}\n",
        assistant_tool_use_line("Edit", Some("/tmp/edited.txt"), None),
        user_tool_result_line("command finished", "", false),
    );
    let events = poll(&mut tailer, path, &content, at(1));

    assert_eq!(events.len(), 3);
    assert_eq!(session_start_of(&events[0]), "ses-123");
    assert_tool_call(&events[1], "Edit", Some("/tmp/edited.txt"), None, false, true);
    assert_tool_result(&events[2], Some("command finished"), None, false, false);
}

#[test]
fn buffers_partial_line_until_newline_is_written() {
    let path = "/logs/ses-1.jsonl";
    let mut tailer = tailer(path, false, None);
    let mut content = String::from(
        r#"{"type":"assistant","timestamp":"2026-03-24T12:11:40.700Z","message":{"stop_reason":"tool_use","usage":{"input_tokens":123,"output_tokens":45},"content":[{"type":"tool_use","name":"Edit","input":{"file_path":"/tmp/partial.txt"}}]}}"#,
    );
    assert!(poll(&mut tailer, path, &content, at(1)).is_empty());

    content.push('\n');
    let events = poll(&mut tailer, path, &content, at(2));
    assert_tool_call(&events[0], "Edit", Some("/tmp/partial.txt"), None, false, true);
}

#[test]
fn handles_file_rotation_without_losing_events() {
    let first = "/logs/ses-1.jsonl";
    let second = "/logs/ses-2.jsonl";
    let mut tailer = tailer(first, false, None);

    let events = poll(
        &mut tailer,
        first,
        &assistant_tool_use_line("Edit", Some("/tmp/first.txt"), None),
        at(1),
    );
    assert_tool_call(&events[0], "Edit", Some("/tmp/first.txt"), None, false, true);

    let mut content = user_tool_result_line("rotated", "", false);
    let events = poll(&mut tailer, second, &content, at(2));
    assert_tool_result(&events[0], Some("rotated"), None, false, false);

    content.push_str(&assistant_tool_use_line("Bash", None, Some("cargo test -p saw-daemon")));
    let events = poll(&mut tailer, second, &content, at(3));
    assert_eq!(events.len(), 1);
    assert_tool_call(
        &events[0],
        "Bash",
        None,
        Some("cargo test -p saw-daemon"),
        false,
        false,
    );
}

#[test]
fn processes_large_jsonl_batches_without_missing_records() {
    let path = "/logs/ses-1.jsonl";
    let mut tailer = tailer(path, false, None);
    let mut batch = String::new();
    for index in 0..1200 {
        if index % 2 == 0 {
            batch.push_str(&assistant_tool_use_line(
                "Edit",
                Some(&format!("/tmp/file-{index}.txt")),
                None,
            ));
        } else {
            batch.push_str(&user_tool_result_line(&format!("result-{index}"), "", false));
        }
    }

    let mut tool_calls = 0usize;
    let mut tool_results = 0usize;
    for event in poll(&mut tailer, path, &batch, at(1)) {
        match event {
            AgentEvent::ToolCall(_) => tool_calls += 1,
            AgentEvent::ToolResult { .. } => tool_results += 1,
            other => panic!("unexpected event: {other:?}"),
        }
    }

    assert_eq!(tool_calls, 600);
    assert_eq!(tool_results, 600);
}

#[test]
fn bytes_that_are_no_text_are_skipped() {
    let mut tailer = tailer("/logs/a.jsonl", false, None);
    let mut bytes = vec![0xff, 0xfe, b'\n', b' ', b'\r', b'\n'];
    bytes.extend_from_slice(session_started_line("good").as_bytes());
    let events = tailer.accept(&bytes);
    assert_eq!(events.len(), 1);
    assert_eq!(session_start_of(&events[0]), "good");
    assert_eq!(tailer.byte_offset, bytes.len() as u64);
}

fn notified(path: &str, exists: bool, is_file: bool) -> NotifiedPath {
    NotifiedPath { path: path.to_string(), exists, is_file }
}

#[test]
fn watches_recursively_and_emits_create_modify_remove_events() {
    let path = "/repo/src/nested/example.rs";
    let mut kinds = vec![];
    for (kind, exists) in [
        (NotifyKind::CreateFile, true),
        (NotifyKind::Modify, true),
        (NotifyKind::RemoveFile, false),
    ] {
        for event in file_events(kind, &vec![notified(path, exists, exists)], AGENT_DIR, stamp(1)) {
            assert_eq!(event.path, path);
            kinds.push(event.kind);
        }
    }
    assert_eq!(
        kinds,
        vec![FileChangeKind::Created, FileChangeKind::Modified, FileChangeKind::Deleted]
    );
    let directory = vec![notified("/repo/src", true, false)];
    assert!(file_events(NotifyKind::CreateOther, &directory, AGENT_DIR, stamp(1)).is_empty());
}

#[test]
fn ignores_noise_directories() {
    let paths = vec![notified("/repo/.git/config", true, true)];
    assert!(file_events(NotifyKind::CreateFile, &paths, AGENT_DIR, stamp(1)).is_empty());
    assert!(should_ignore_path("/repo/target/debug/app", AGENT_DIR));
    assert!(should_ignore_path("/repo/node_modules/pkg/index.js", AGENT_DIR));
    assert!(should_ignore_path("/repo/.agent/projects/session.jsonl", AGENT_DIR));
    assert!(!should_ignore_path("/repo/src/targets.rs", AGENT_DIR));
}

#[test]
fn guard_violations_classify_as_scope_leaking() {
    let auth_dir = "/repo/src/auth";
    let violating_file = "/repo/src/billing/mod.rs";
    let file_event = file_events(
        NotifyKind::CreateFile,
        &vec![notified(violating_file, true, true)],
        AGENT_DIR,
        stamp(100),
    )
    .remove(0);

    let mut state = AgentState::default();
    state.guard_paths = vec![auth_dir.to_string()];
    let timestamp = file_event.timestamp;
    state.apply(&AgentEvent::FileModified(file_event));

    let phase = classify(&state, timestamp, ClassifierConfig::default());
    assert!(matches!(
        phase,
        AgentPhase::ScopeLeaking {
            violating_file: ref path,
            guard_path: ref guard,
        } if path == violating_file && guard == auth_dir
    ));
}

#[test]
fn matching_guard_path_prefers_most_specific_guard() {
    let guards = vec![
        "/repo/tests/auth".to_string(),
        "/repo/src/auth".to_string(),
    ];

    let guard = matching_guard_path("/repo/src/billing/mod.rs", &guards).unwrap();
    assert_eq!(guard, "/repo/src/auth");
    assert_eq!(matching_guard_path("/repo/src/auth/mod.rs", &guards), None);
    assert_eq!(normalize_input_path("/repo", "src"), "/repo/src");
}

#[test]
fn default_capacity_is_1000_events() {
    assert_eq!(EVENT_BUS_CAPACITY, 1000);

    let mut metrics = EventBusMetrics::default();
    for _ in 0..5 {
        metrics.record_publish();
    }
    metrics.record_lag(2);
    assert_eq!(metrics, EventBusMetrics { events_published: 5, events_dropped: 2 });
}

fn candidate(pid: u32, id: &str, cwd: &str, started_at: u64) -> SessionCandidate {
    SessionCandidate {
        session: SessionFile {
            pid,
            session_id: id.to_string(),
            cwd: cwd.to_string(),
            started_at,
            session_file_path: None,
            resolved_cwd: None,
        },
        is_alive: true,
        has_log: true,
        log_modified: 0,
    }
}

fn options(cwd: &str, file: Option<&str>, session_id: Option<&str>) -> WatcherRuntimeOptions {
    WatcherRuntimeOptions {
        agent_dir: "/home/.agent".to_string(),
        agent: Agent::of_dir(".agent"),
        cwd: cwd.to_string(),
        file: file.map(str::to_string),
        pid: None,
        session_id: session_id.map(str::to_string),
        guard_paths: vec![],
        force_poll: true,
        classifier_config: ClassifierConfig::default(),
    }
}

fn attach(options: &WatcherRuntimeOptions, target: WatcherRuntimeTarget, lines: &[&str]) -> WatcherRuntime {
    let lines = lines.iter().map(|line| line.to_string()).collect();
    let state = load_initial_state(&lines, &target, &options.guard_paths, None);
    WatcherRuntime::attach(
        target,
        state,
        options.classifier_config,
        Timestamp { secs: 1_774_000_000, nanos: 0 },
    )
}

#[test]
fn attaches_to_latest_session_for_requested_project() {
    let project = "/tmp/attach-project";
    let sessions = list_alive_session_selections(
        "/home/.agent",
        &vec![
            candidate(1, "ses-older", project, 10),
            candidate(2, "ses-newer", project, 20),
            candidate(3, "ses-other", "/tmp/attach-other", 30),
        ],
    );
    let options = options(project, None, None);
    let target = resolve_watch_target(&options, &sessions).unwrap();
    let runtime = attach(&options, target, &["newer", "with more activity"]);

    assert_eq!(runtime.target().pid, Some(2));
    assert_eq!(
        runtime.target().jsonl_path,
        "/home/.agent/projects/-tmp-attach-project/ses-newer.jsonl"
    );
    assert_eq!(path_to_slug("C:\\work/x"), "C--work-x");
    assert!(tailer_options(&options, Some(2)).force_poll);
}

#[test]
fn shutdown_detaches_runtime_sources() {
    let options = options("/tmp/project", Some("/tmp/session.jsonl"), Some("ses-detach"));
    let target = resolve_watch_target(&options, &vec![]).unwrap();
    let mut runtime = attach(&options, target, &[]);

    assert!(runtime.stop());

    assert!(runtime.is_shutdown());
    assert!(!runtime.stop());
    let event = AgentEvent::UserMessage { timestamp: stamp(1), is_sidechain: false };
    let previous = runtime.apply_event(&event);
    assert!(runtime.next_update(event, previous).is_none());
}

const STARTED: &str = "{\"ts\":\"2026-03-24T05:41:20.047714044Z\",\"kind\":\"session_started\",\"type\":\"session_started\",\"sessionId\":\"ses-events\"}\n";

#[test]
fn normalizes_appended_jsonl_events_into_runtime_updates() {
    let options = options("/tmp/project", Some("/tmp/session.jsonl"), Some("ses-events"));
    let target = resolve_watch_target(&options, &vec![]).unwrap();
    let mut runtime = attach(&options, target, &[STARTED.trim_end()]);
    assert_eq!(
        runtime.initial_update().state.session_id.as_deref(),
        Some("ses-events")
    );

    let mut tailer = tailer("/tmp/session.jsonl", true, None);
    tailer.set_byte_offset(STARTED.len() as u64);
    let content = format!(
        "{STARTED}{}",
        "{\"type\":\"assistant\",\"timestamp\":\"2026-03-24T12:11:40.700Z\",\"message\":{\"stop_reason\":\"tool_use\",\"usage\":{\"input_tokens\":123,\"output_tokens\":45},\"content\":[{\"type\":\"tool_use\",\"name\":\"Bash\",\"input\":{\"command\":\"cargo test -p saw-core\"}}]}}\n"
    );
    let mut events = poll(&mut tailer, "/tmp/session.jsonl", &content, at(1));
    assert_eq!(events.len(), 1);
    let event = events.remove(0);
    assert!(needs_refresh(&event));
    let previous = runtime.apply_event(&event);
    NoopRuntimeStateRefresher.refresh(&mut runtime.state_machine.state, "/tmp/project").unwrap();
    let update = runtime.next_update(event, previous).unwrap();

    assert!(matches!(update.phase, AgentPhase::Working));
    assert!(matches!(update.event, Some(AgentEvent::ToolCall(_))));
    assert_eq!(update.state.last_tool_name.as_deref(), Some("Bash"));
    assert_eq!(update.state.session_id.as_deref(), Some("ses-events"));
}

#[test]
fn unknown_sessions_are_named_in_the_error() {
    let mut options = options("/p", None, Some("missing"));
    let sessions = vec![];
    assert_eq!(
        resolve_watch_target(&options, &sessions).unwrap_err(),
        "no running Agent session found for session missing"
    );
    options.session_id = None;
    assert_eq!(
        resolve_watch_target(&options, &sessions).unwrap_err(),
        "no running Agent sessions found in ~/.agent/sessions for /p"
    );
    options.pid = Some(5);
    assert_eq!(
        resolve_watch_target(&options, &sessions).unwrap_err(),
        "no running Agent session found for pid 5"
    );
}

#[test]
fn emits_dead_event_when_process_disappears() {
    match dead_event(stamp(3)) {
        AgentEvent::ProcessMetrics(dead) => {
            assert!(!dead.process_alive);
            assert_eq!(f32::from_bits(dead.cpu_percent.bits), 0.0);
            assert_eq!(dead.rss_bytes, 0);
            assert_eq!(dead.virtual_bytes, 0);
            assert_eq!(f32::from_bits(dead.io_read_rate.bits), 0.0);
            assert_eq!(f32::from_bits(dead.io_write_rate.bits), 0.0);
        }
        other => panic!("unexpected event: {other:?}"),
    }
}

#[test]
fn computes_io_deltas_between_samples() {
    let sample = |secs, read| ProcessSample {
        captured_at: at(secs),
        io_read_bytes: read,
        io_write_bytes: 9,
    };
    let mut sampler = ProcessSampler::new();
    assert!(sampler.advance_to(sample(1, 100)).is_none());
    let delta = sampler.advance_to(sample(3, 350)).unwrap();
    assert_eq!(delta.read_bytes, 250);
    assert_eq!(delta.write_bytes, 0);
    assert_eq!(delta.elapsed, Span::from_secs(2));
    assert!(sampler.advance_to(sample(3, 400)).is_none());
    assert_eq!(sampler.advance_to(sample(4, 10)).unwrap().read_bytes, 0);

    let bits = |value: f32| FloatBits { bits: value.to_bits() };
    let reading = ProcessReading {
        process_alive: true,
        cpu_percent: bits(1.5),
        rss_bytes: 1,
        virtual_bytes: 2,
        io_read_bytes: 3,
        io_write_bytes: 4,
    };
    let rates = IoRates { read: bits(125.0), write: bits(0.0) };
    assert_eq!(build_metrics(stamp(1), reading, Some(rates)).io_read_rate, bits(125.0));
    assert_eq!(build_metrics(stamp(1), reading, None).io_read_rate, bits(0.0));
}

#[test]
fn creates_database_on_first_run() {
    assert_eq!(db_path_in("/home/me"), "/home/me/.saw/saw.db");
}

fn ts(seconds_after_start: i64) -> Timestamp {
    stamp(1_774_396_800 + seconds_after_start)
}

#[test]
fn saves_and_loads_session_state() {
    let mut state = AgentState::default();
    state.session_id = Some("ignored-session-id".into());
    state.session_started_at = Some(ts(0));
    state.last_event_at = Some(ts(5));
    state.total_tool_calls = 3;
    state.phase = AgentPhase::Working;
    state.touched_files.push("src/lib.rs".to_string());
    state.recently_modified_files.push_back(FileModification {
        timestamp: ts(5),
        path: "src/lib.rs".to_string(),
        kind: FileChangeKind::Modified,
        line_change: None,
    });

    let stored = canonicalize_state("ses-123", &state);
    assert_eq!(stored.session_id.as_deref(), Some("ses-123"));
    let row = session_row(&stored, ts(9)).unwrap();
    assert_eq!(row.started_at_ms, Some(timestamp_millis(ts(0))));
    assert_eq!(datetime_from_millis(row.started_at_ms.unwrap()), Ok(ts(0)));
    assert_eq!(stored.last_event_at, Some(ts(5)));
    assert_eq!(stored.total_tool_calls, 3);
    assert_eq!(stored.phase, AgentPhase::Working);
    assert_eq!(stored.touched_files, vec!["src/lib.rs".to_string()]);
    assert_eq!(stored.recently_modified_files.len(), 1);
}

fn row() -> SummaryRow {
    SummaryRow {
        session_id: "ses-checkpoint".to_string(),
        started_at_ms: Some(0),
        updated_at_ms: 1_500,
        total_tool_calls: 7,
        touched_file_count: 2,
        checkpoint_count: 1,
        latest_checkpoint_at_ms: Some(-1),
    }
}

#[test]
fn saves_checkpoint_metadata_and_lists_recent_sessions() {
    let summary = summarize(row(), Ok(AgentPhase::Thinking)).unwrap();
    assert_eq!(summary.session_id, "ses-checkpoint");
    assert_eq!(summary.phase, AgentPhase::Thinking);
    assert_eq!(summary.total_tool_calls, 7);
    assert_eq!(summary.checkpoint_count, 1);
    assert_eq!(summary.updated_at, Timestamp { secs: 1, nanos: 500_000_000 });
    assert_eq!(
        summary.latest_checkpoint_at,
        Some(Timestamp { secs: -1, nanos: 999_000_000 })
    );
    assert_eq!(checkpoint_file_count(2), Ok(2));
    assert_eq!(row_limit(5), Ok(5));
}

#[test]
fn rows_report_what_is_wrong_with_them() {
    let fault = |row| summarize(row, Ok(AgentPhase::Working)).unwrap_err();
    let phase_fault = summarize(row(), Err("bad phase".to_string())).unwrap_err();
    assert_eq!(phase_fault, "bad phase");
    assert_eq!(
        fault(SummaryRow { updated_at_ms: i64::MAX, ..row() }),
        format!("invalid stored timestamp: {}", i64::MAX)
    );
    assert_eq!(
        fault(SummaryRow { total_tool_calls: -1, ..row() }),
        "stored total_tool_calls is negative"
    );
    assert_eq!(
        fault(SummaryRow { touched_file_count: -1, ..row() }),
        "stored touched_file_count is negative"
    );
    assert_eq!(
        fault(SummaryRow { checkpoint_count: -1, ..row() }),
        "stored checkpoint_count is negative"
    );
}

#[test]
fn pools_open_no_more_connections_than_they_may() {
    let mut pool = PoolState::new(2);
    assert_eq!(pool.checkout(), PoolStep::Reuse);
    assert_eq!(pool.checkout(), PoolStep::Open);
    assert_eq!(pool.checkout(), PoolStep::Wait);
    pool.release();
    assert_eq!(pool.checkout(), PoolStep::Reuse);
    pool.open_failed();
    assert_eq!(pool.checkout(), PoolStep::Open);
    assert_eq!(PoolState::new(0).max_size, 1);
}

#[test]
fn new_tailers_follow_the_newest_log_by_notifications() {
    let tailer = JsonlTailer::new("/logs/ses-1.jsonl", at(3));
    assert_eq!(tailer.file_path(), "/logs/ses-1.jsonl");
    assert_eq!(tailer.active_path(), "/logs/ses-1.jsonl");
    assert_eq!(tailer.byte_offset(), 0);
    assert_eq!(tailer.mode(), JsonlTailMode::Notify);
    assert!(tailer.follow_newest);
    assert_eq!(tailer.next_retry_at, at(3));

    let staying = JsonlTailer::with_follow_newest("/logs/ses-1.jsonl", false, at(3));
    assert!(!staying.follow_newest);
    assert!(!staying.force_poll);
    assert_eq!(staying.process_pid, None);
}
