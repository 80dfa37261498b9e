use saw::agent::{find_agent, Agent, HomeEntry};
use saw::alerter::phase_label;
use saw::clock::{Span, Timestamp};
use saw::common::{
    choose_session, display_path, find_claude_session, hook_log_path,
    list_alive_session_selections, load_hook_events, load_state, normalize_guard_paths,
    parse_session_choice, path_to_slug, resolve_session_selection, session_choice_line,
    session_jsonl_path, sessions_for_cwd, status_exit_code, SessionCandidate, SessionFile,
    SessionSelection,
};
use saw::snapshot::{
    age_in_secs, checkpoint_files, collect_snapshot, load_snapshot_state, plan_snapshot,
    snapshot_json, Snapshot,
};
use saw::state::AgentState;
use saw::tasks::{
    cache_metadata, cached_metadata, clear_tasks, infer_team_name_from_agent,
    refresh_task_context, resolve_current_task, resolve_task_list_id, scan_session_metadata,
    task_list_path, tasks_are_current, CachedSessionMetadata, SessionMetadata, TaskListing,
    TeamConfig,
};
use saw::types::{
    AgentEvent, AgentPhase, FileChangeKind, FileModification, FloatBits, ProcessMetrics, TaskFile,
};

fn ago(time: Timestamp, secs: i64) -> Timestamp {
    Timestamp { secs: time.secs - secs, nanos: time.nanos }
}

fn bits(value: f32) -> FloatBits {
    FloatBits { bits: value.to_bits() }
}

fn session(pid: u32, id: &str, cwd: &str, started_at: u64) -> SessionFile {
    SessionFile {
        pid,
        session_id: id.to_string(),
        cwd: cwd.to_string(),
        started_at,
        session_file_path: None,
        resolved_cwd: None,
    }
}

fn candidate(pid: u32, id: &str, cwd: &str, started_at: u64, log_modified: u128) -> SessionCandidate {
    SessionCandidate {
        session: session(pid, id, cwd, started_at),
        is_alive: true,
        has_log: true,
        log_modified,
    }
}

fn metrics(timestamp: Timestamp) -> ProcessMetrics {
    ProcessMetrics {
        timestamp,
        process_alive: true,
        cpu_percent: bits(3.5),
        rss_bytes: 1,
        virtual_bytes: 2,
        io_read_bytes: 3,
        io_write_bytes: 4,
        io_read_rate: bits(0.0),
        io_write_rate: bits(0.0),
    }
}

#[test]
fn picks_single_session_when_only_one_exists() {
    let project = "/tmp/saw-single-project";
    let sessions = vec![(1, session(1, "only", project, 10))];

    let (_, session) = choose_session(&sessions, Some(project)).unwrap();
    assert_eq!(session.session_id, "only");
}

#[test]
fn picks_most_recent_matching_cwd() {
    let project = "/tmp/saw-project";
    let other = "/tmp/saw-other";
    let sessions = vec![
        (1, session(1, "older", project, 10)),
        (2, session(2, "newer", project, 20)),
        (3, session(3, "other-project", other, 30)),
    ];

    let (_, session) = choose_session(&sessions, Some(project)).unwrap();
    assert_eq!(session.session_id, "newer");
}

#[test]
fn falls_back_to_the_most_recent_session_of_any_directory() {
    let sessions = vec![
        (1, session(1, "older", "/tmp/a", 10)),
        (2, session(2, "newer", "/tmp/b", 20)),
        (3, session(3, "newest-twin", "/tmp/c", 20)),
    ];

    let (pid, _) = choose_session(&sessions, Some("/tmp/nowhere")).unwrap();
    assert_eq!(pid, 3);
}

#[test]
fn returns_none_when_candidate_list_is_empty() {
    assert!(choose_session(&[], None).is_none());
}

#[test]
fn lists_alive_sessions_sorted_by_recency_key() {
    let home = "/home/me/.agent";
    let project = "/tmp/alive-sessions-project";
    let mut candidates = vec![
        candidate(10, "ses-older", project, 10, 5),
        candidate(20, "ses-newer", project, 20, 5),
        SessionCandidate { is_alive: false, ..candidate(30, "ses-dead", project, 30, 5) },
        SessionCandidate { has_log: false, ..candidate(40, "ses-bare", project, 40, 5) },
    ];

    for candidate in &mut candidates {
        candidate.session.session_file_path =
            Some(format!("{home}/sessions/{}.json", candidate.session.session_id));
    }

    let sessions = list_alive_session_selections(home, &candidates);

    assert_eq!(sessions.len(), 2);
    assert!(sessions[0].session.session_file_path.is_some());
    assert!(sessions[0].session.started_at > sessions[1].session.started_at);
    assert_eq!(sessions[0].session.session_id, "ses-newer");
    assert_eq!(
        sessions[0].jsonl_path,
        "/home/me/.agent/projects/-tmp-alive-sessions-project/ses-newer.jsonl"
    );
    assert_eq!(sessions[1].session.session_id, "ses-older");
    assert_eq!(
        sessions[1].jsonl_path,
        "/home/me/.agent/projects/-tmp-alive-sessions-project/ses-older.jsonl"
    );
}

#[test]
fn sessions_that_started_together_rank_by_their_logs() {
    let candidates = vec![
        candidate(1, "a", "/p", 10, 1),
        candidate(2, "b", "/p", 10, 3),
        candidate(3, "c", "/p", 10, 3),
        candidate(4, "d", "/p", 10, 2),
    ];
    let ids = list_alive_session_selections("/h", &candidates)
        .iter()
        .map(|s| s.session.session_id.clone())
        .collect::<Vec<_>>();
    assert_eq!(ids, vec!["b", "c", "d", "a"]);
}

#[test]
fn builds_jsonl_path_from_session_file() {
    let home = Agent::of_dir(".agent").dir_in("/home/me");
    let home = home.as_str();
    assert_eq!(home, "/home/me/.agent");
    let project_dir = "/tmp/saw-watcher";
    let slug = path_to_slug(project_dir);
    assert_eq!(slug, "-tmp-saw-watcher");
    let jsonl = format!("{home}/projects/{slug}/ses-123.jsonl");

    let path = session_jsonl_path(home, &session(1, "ses-123", project_dir, 1), true).unwrap();
    assert_eq!(path, jsonl);

    let missing = session_jsonl_path(home, &session(1, "ses-123", project_dir, 1), false);
    assert_eq!(
        missing,
        Err(format!("session ses-123 for PID 1 does not have a jsonl log at {jsonl}"))
    );
}

#[test]
fn normalize_guard_paths_resolves_relative_paths() {
    assert_eq!(
        normalize_guard_paths("/tmp/guard", &vec!["src/auth".to_string()]),
        vec!["/tmp/guard/src/auth".to_string()]
    );
    assert_eq!(
        normalize_guard_paths("/tmp/guard", &vec!["/abs".to_string()]),
        vec!["/abs".to_string()]
    );
}

#[test]
fn hook_events_append_and_reload() {
    let now = Timestamp::now();
    let mut state = AgentState::default();
    state.last_jsonl_record_at = Some(ago(now, 5));
    let event = AgentEvent::ToolResult {
        timestamp: now,
        tool_name: Some("Write".into()),
        is_error: false,
        output: Some("ok".into()),
        stderr: None,
        interrupted: false,
        persisted_output_path: None,
        is_sidechain: false,
    };

    assert_eq!(hook_log_path("/tmp/hooks", "ses-1"), "/tmp/hooks/.saw/hooks/ses-1.jsonl");
    load_hook_events(&mut state, &vec![event]);

    assert_eq!(state.last_tool_name.as_deref(), Some("Write"));
    assert!(state.last_hook_event_at.is_some());
}

#[test]
fn hook_events_before_the_last_record_do_not_count() {
    let now = Timestamp::now();
    let mut state = AgentState::default();
    state.last_jsonl_record_at = Some(now);
    let event = AgentEvent::UserMessage { timestamp: now, is_sidechain: false };

    load_hook_events(&mut state, &vec![event]);

    assert_eq!(state.last_hook_event_at, None);
    assert_eq!(state.last_event_at, None);
}

#[test]
fn save_checkpoint_deduplicates_recent_files_in_manifest() {
    let cwd = "/tmp/checkpoint-dedup";
    let now = Timestamp::now();
    let mut state = AgentState::default();
    for seconds in [3, 2, 1] {
        state.recently_modified_files.push_back(FileModification {
            timestamp: ago(now, seconds),
            path: format!("{cwd}/src/lib.rs"),
            kind: FileChangeKind::Modified,
            line_change: None,
        });
    }
    state.recently_modified_files.push_back(FileModification {
        timestamp: now,
        path: "/elsewhere/lib.rs".to_string(),
        kind: FileChangeKind::Modified,
        line_change: None,
    });
    state.recently_modified_files.push_back(FileModification {
        timestamp: now,
        path: format!("{cwd}/gone.rs"),
        kind: FileChangeKind::Deleted,
        line_change: None,
    });

    let files = checkpoint_files(&state, &vec![true, true, true, true, false], cwd);

    let manifest = files.iter().map(|file| file.relative.clone()).collect::<Vec<_>>();
    assert_eq!(manifest, vec!["src/lib.rs"]);
    assert_eq!(files[0].source, "/tmp/checkpoint-dedup/src/lib.rs");
}

#[test]
fn maps_phase_labels_and_exit_codes() {
    assert_eq!(phase_label(&AgentPhase::Working), "WORKING");
    assert_eq!(status_exit_code(&AgentPhase::Working), 0);
    assert_eq!(status_exit_code(&AgentPhase::Thinking), 0);
    assert_eq!(
        status_exit_code(&AgentPhase::TaskBlocked {
            task_id: "3".into(),
            blocked_by: vec!["2".into()],
        }),
        0
    );
    assert_eq!(status_exit_code(&AgentPhase::ApiHang(Span::from_secs(130))), 1);
    assert_eq!(status_exit_code(&AgentPhase::Dead), 1);
    assert_eq!(
        status_exit_code(&AgentPhase::ToolLoop {
            file: String::from("src/lib.rs"),
            count: 3,
            since: Timestamp::now(),
        }),
        2
    );
    assert_eq!(
        status_exit_code(&AgentPhase::TestLoop {
            command: "cargo test".into(),
            failure_count: 3,
        }),
        2
    );
    assert_eq!(
        status_exit_code(&AgentPhase::ScopeLeaking {
            violating_file: String::from("src/lib.rs"),
            guard_path: String::from("src/auth"),
        }),
        3
    );
    assert_eq!(status_exit_code(&AgentPhase::Idle(Span::from_secs(601))), 4);
}

#[test]
fn collect_snapshot_sets_session_metadata_and_dead_phase_without_live_process() {
    let cwd = "/tmp/status-snapshot";
    let jsonl = "/tmp/status-snapshot/session.jsonl";
    let now = Timestamp::now();
    let timestamp = saw::clock::format_timestamp(now);
    let lines = vec![format!(
        "{{\"type\":\"session_started\",\"timestamp\":\"{timestamp}\",\"sessionId\":\"ses-123\"}}"
    )];

    let plan = plan_snapshot(&vec![], cwd, Some(jsonl), None, false);
    let state = load_snapshot_state(&plan, &lines, &vec![]).unwrap();
    let snapshot = collect_snapshot(cwd.to_string(), plan, state, None, 130, now);

    assert_eq!(snapshot.session_file.as_deref(), Some(jsonl));
    assert_eq!(snapshot.state.session_id.as_deref(), Some("ses-123"));
    assert_eq!(snapshot.state.session_jsonl_path.as_deref(), Some(jsonl));
    assert!(matches!(snapshot.phase, AgentPhase::Dead));
}

#[test]
fn collect_snapshot_uses_explicit_session_id_when_multiple_sessions_share_cwd() {
    let home = "/home/me/.agent";
    let project = "/tmp/snapshot-session-project";
    let sessions = list_alive_session_selections(
        home,
        &vec![
            candidate(10, "ses-older", project, 10, 0),
            candidate(20, "ses-newer", project, 20, 0),
        ],
    );
    let older_jsonl = format!("{home}/projects/-tmp-snapshot-session-project/ses-older.jsonl");
    let newer_jsonl = format!("{home}/projects/-tmp-snapshot-session-project/ses-newer.jsonl");
    let now = Timestamp::now();
    let timestamp = saw::clock::format_timestamp(now);
    let lines = vec![format!(
        "{{\"type\":\"session_started\",\"timestamp\":\"{timestamp}\",\"sessionId\":\"ses-older\"}}"
    )];

    let plan = plan_snapshot(&sessions, project, Some(&older_jsonl), Some("ses-older"), false);
    let state = load_snapshot_state(&plan, &lines, &vec![]).unwrap();
    let snapshot = collect_snapshot(
        project.to_string(),
        plan,
        state,
        Some(metrics(now)),
        130,
        now,
    );

    assert_eq!(snapshot.pid, Some(10));
    assert_eq!(snapshot.session_file, Some(older_jsonl));
    assert_eq!(snapshot.state.session_id.as_deref(), Some("ses-older"));
    assert_eq!(
        snapshot.state.session_jsonl_path,
        Some(snapshot.session_file.clone().unwrap())
    );
    assert!(snapshot.state.process_alive);
    assert_ne!(snapshot.session_file, Some(newer_jsonl));
}

#[test]
fn a_log_without_events_is_no_session() {
    let lines = vec!["".to_string(), "not json".to_string()];
    let result = load_state("/tmp/x.jsonl", &lines, &vec![]);
    assert_eq!(result.err().as_deref(), Some("no parseable session events in /tmp/x.jsonl"));
}

#[test]
fn refresh_task_context_detects_direct_session_task_list() {
    let raw_tasks = vec![
        r#"{"id":"2","status":"completed","owner":null,"blockedBy":[]}"#.to_string(),
        r#"{"id":"3","status":"in_progress","owner":null,"blockedBy":["2"]}"#.to_string(),
    ];
    let mut state = AgentState::default();
    state.session_id = Some("ses-123".into());

    let list = resolve_task_list_id(&state.session_id, true, &None, false).unwrap();
    assert_eq!(task_list_path("/home/me/.agent", &list), "/home/me/.agent/tasks/ses-123");
    refresh_task_context(
        &mut state,
        TaskListing { task_list_id: list, signature: 7, raw_tasks },
        None,
    );

    assert_eq!(state.task_list_id.as_deref(), Some("ses-123"));
    assert_eq!(state.current_task.as_ref().map(|task| task.id.as_str()), Some("3"));
    assert_eq!(state.task_files.len(), 2);
    assert!(tasks_are_current(&state, "ses-123", 7));
    assert!(!tasks_are_current(&state, "ses-123", 8));

    clear_tasks(&mut state, None);
    assert_eq!(state.task_list_id, None);
    assert!(state.task_files.is_empty());
    assert!(state.current_task.is_none());
}

#[test]
fn refresh_task_context_detects_team_task_list_for_team_lead() {
    let teams = vec![TeamConfig::parse(
        r#"{"name":"swarm-alpha","leadSessionId":"ses-team","members":[{"name":"team-lead"}]}"#,
    )
    .unwrap()];
    let raw_tasks = vec![
        r#"{"id":"1","status":"in_progress","owner":"team-lead","blockedBy":["2"]}"#.to_string(),
        r#"{"id":"2","status":"pending","owner":"worker-a","blockedBy":[]}"#.to_string(),
    ];
    let log =
        vec![r#"{"type":"agent-name","agentName":"team-lead","sessionId":"ses-team"}"#.to_string()];

    let mut state = AgentState::default();
    state.session_id = Some("ses-team".into());

    let metadata = scan_session_metadata(&log, &teams, "ses-team");
    assert_eq!(metadata.agent_name.as_deref(), Some("team-lead"));
    let list = resolve_task_list_id(&state.session_id, false, &metadata.team_name, true).unwrap();
    refresh_task_context(
        &mut state,
        TaskListing { task_list_id: list, signature: 1, raw_tasks },
        metadata.agent_name.as_deref(),
    );

    assert_eq!(state.task_list_id.as_deref(), Some("swarm-alpha"));
    assert_eq!(state.current_task.as_ref().map(|task| task.id.as_str()), Some("1"));
}

#[test]
fn unchanged_task_lists_are_not_read_again() {
    let mut state = AgentState::default();
    refresh_task_context(
        &mut state,
        TaskListing {
            task_list_id: "list".into(),
            signature: 1,
            raw_tasks: vec![r#"{"id":"1","status":"in_progress"}"#.to_string()],
        },
        None,
    );
    refresh_task_context(
        &mut state,
        TaskListing { task_list_id: "list".into(), signature: 1, raw_tasks: vec![] },
        None,
    );
    assert_eq!(state.task_files.len(), 1);
    refresh_task_context(
        &mut state,
        TaskListing { task_list_id: "list".into(), signature: 2, raw_tasks: vec![] },
        None,
    );
    assert!(state.task_files.is_empty());
}

fn task(id: &str, status: &str, owner: Option<&str>) -> TaskFile {
    TaskFile {
        id: id.into(),
        status: status.into(),
        owner: owner.map(str::to_string),
        blocked_by: vec![],
    }
}

#[test]
fn the_current_task_is_the_only_one_in_progress_or_the_only_owned_one() {
    let one = vec![task("1", "in_progress", Some("x")), task("2", "pending", None)];
    assert_eq!(resolve_current_task(&one, None).unwrap().id, "1");

    let two = vec![
        task("1", "in_progress", Some("a")),
        task("2", "in_progress", Some("b")),
    ];
    assert!(resolve_current_task(&two, None).is_none());
    assert_eq!(resolve_current_task(&two, Some("b")).unwrap().id, "2");
    assert!(resolve_current_task(&two, Some("c")).is_none());
}

#[test]
fn later_task_files_replace_earlier_ones_and_bad_ones_do_not_count() {
    let raw = vec![
        r#"{"id":"1","status":"pending"}"#.to_string(),
        r#"{"id":"2","status":5}"#.to_string(),
        r#"["1","completed",null,["7"]]"#.to_string(),
        r#"{"id":"3","blockedBy":[1]}"#.to_string(),
        "{".to_string(),
    ];
    let tasks = saw::tasks::load_task_files(&raw);
    assert_eq!(tasks.len(), 1);
    assert_eq!(tasks[0].status, "completed");
    assert_eq!(tasks[0].blocked_by, vec!["7".to_string()]);
}

#[test]
fn session_metadata_comes_from_the_first_line_that_has_it() {
    let log = vec![
        r#"{"sessionId":"other","teamName":"wrong"}"#.to_string(),
        "garbage".to_string(),
        r#"{"sessionId":"s","agentName":"first"}"#.to_string(),
        r#"{"sessionId":"s","agentName":"second","teamName":"right"}"#.to_string(),
    ];
    let metadata = scan_session_metadata(&log, &vec![], "s");
    assert_eq!(metadata.agent_name.as_deref(), Some("first"));
    assert_eq!(metadata.team_name.as_deref(), Some("right"));
}

#[test]
fn teams_are_found_by_lead_or_member() {
    let teams = vec![
        TeamConfig::parse(r#"{"name":"a","leadSessionId":"x","members":[]}"#).unwrap(),
        TeamConfig::parse(r#"{"name":"b","leadSessionId":"y","members":[{"name":"m"}]}"#).unwrap(),
    ];
    assert_eq!(infer_team_name_from_agent(&teams, "x", None).as_deref(), Some("a"));
    assert_eq!(infer_team_name_from_agent(&teams, "z", Some("m")).as_deref(), Some("b"));
    assert_eq!(infer_team_name_from_agent(&teams, "z", None), None);
    assert!(TeamConfig::parse(r#"{"name":"a","members":[]}"#).is_none());
}

#[test]
fn cached_metadata_holds_while_the_log_keeps_its_length() {
    let mut cache = vec![];
    let entry = |jsonl_len| CachedSessionMetadata {
        session_id: "s".into(),
        jsonl_len,
        metadata: SessionMetadata { team_name: Some("t".into()), agent_name: None },
    };
    cache_metadata(&mut cache, entry(10));
    assert!(cached_metadata(&cache, "s", 10).is_some());
    assert!(cached_metadata(&cache, "s", 11).is_none());
    assert!(cached_metadata(&cache, "other", 10).is_none());
    cache_metadata(&mut cache, entry(11));
    assert_eq!(cache.len(), 1);
    assert!(cached_metadata(&cache, "s", 11).is_some());
}

#[test]
fn snapshot_json_includes_top_level_fields_and_full_agent_state() {
    let cwd = "/repo";
    let now = Timestamp::now();
    let mut state = AgentState::default();
    state.session_id = Some("ses-123".into());
    state.last_file_path = Some("/repo/src/auth/login.rs".into());
    state.last_tool_name = Some("Edit".into());
    state.last_command = Some("cargo test".into());
    state.process_alive = true;
    state.latest_cpu_percent = bits(12.4);
    state.latest_rss_bytes = 1024;
    state.latest_virtual_bytes = 2048;
    state.latest_io_read_bytes = 128;
    state.latest_io_write_bytes = 256;
    state.compact_count = 2;
    state.last_compact_at = Some(ago(now, 1));
    state.guard_paths = vec!["/repo/src/auth".into()];
    state.recently_modified_files.push_back(FileModification {
        timestamp: ago(now, 3),
        path: "/repo/src/auth/login.rs".into(),
        kind: FileChangeKind::Modified,
        line_change: None,
    });

    let snapshot = Snapshot {
        cwd: cwd.to_string(),
        session_file: Some("/repo/session.jsonl".to_string()),
        pid: Some(42),
        state,
        phase: AgentPhase::Working,
        silence: Span::from_secs(3),
    };

    let json = snapshot_json(&snapshot, now);

    assert_eq!(json.cwd, "/repo");
    assert_eq!(json.pid, Some(42));
    assert_eq!(json.session_id.as_deref(), Some("ses-123"));
    assert_eq!(json.session_file.as_deref(), Some("/repo/session.jsonl"));
    assert_eq!(json.phase, "WORKING");
    assert_eq!(json.last_file.as_deref(), Some("src/auth/login.rs"));
    assert_eq!(json.silence_secs, 3);
    assert_eq!(f32::from_bits(json.cpu_percent.bits), 12.4);
    assert_eq!(json.compact_count, 2);
    assert_eq!(json.last_tool.as_deref(), Some("Edit"));
    assert_eq!(json.last_command.as_deref(), Some("cargo test"));
    assert_eq!(json.state.compact_count, 2);
    assert_eq!(json.guard_paths, vec!["/repo/src/auth".to_string()]);
    assert_eq!(json.recent_files.len(), 1);
    assert_eq!(json.recent_files[0].path, "src/auth/login.rs");
    assert_eq!(json.recent_files[0].kind, "Modified");
    assert_eq!(json.recent_files[0].age_secs, 3);
    assert_eq!(json.state.session_id.as_deref(), Some("ses-123"));
    assert_eq!(
        json.state.last_file_path,
        Some("/repo/src/auth/login.rs".to_string())
    );
}

#[test]
fn status_reports_show_the_last_eight_files() {
    let now = Timestamp { secs: 1_000, nanos: 0 };
    let mut state = AgentState::default();
    for index in 0..12 {
        state.recently_modified_files.push_back(FileModification {
            timestamp: ago(now, 12 - index),
            path: format!("/repo/{index}.rs"),
            kind: FileChangeKind::Created,
            line_change: None,
        });
    }
    let snapshot = Snapshot {
        cwd: "/repo".to_string(),
        session_file: None,
        pid: None,
        state,
        phase: AgentPhase::Working,
        silence: Span::zero(),
    };
    let json = snapshot_json(&snapshot, now);
    let paths = json.recent_files.iter().map(|f| f.path.clone()).collect::<Vec<_>>();
    assert_eq!(
        paths,
        vec!["11.rs", "10.rs", "9.rs", "8.rs", "7.rs", "6.rs", "5.rs", "4.rs"]
    );
    assert_eq!(json.recent_files[7].age_secs, 8);
    assert_eq!(age_in_secs(now, Timestamp { secs: 2_000, nanos: 0 }), 0);
}

#[test]
fn session_files_are_read_from_their_texts() {
    let file = SessionFile::parse(r#"{"pid":7,"sessionId":"s","cwd":"/p","startedAt":9,"more":1}"#)
        .unwrap();
    assert_eq!(file, session(7, "s", "/p", 9));
    assert!(SessionFile::parse(r#"{"pid":-7,"sessionId":"s","cwd":"/p","startedAt":9}"#).is_none());
    assert!(SessionFile::parse(r#"{"pid":7,"cwd":"/p","startedAt":9}"#).is_none());
    assert!(SessionFile::parse(r#"{"pid":4294967296,"sessionId":"s","cwd":"/p","startedAt":9}"#)
        .is_none());
    assert!(SessionFile::parse("nope").is_none());
}

#[test]
fn sessions_are_resolved_by_process_identifier_and_directory() {
    let sessions = list_alive_session_selections(
        "/h",
        &vec![candidate(1, "a", "/p", 10, 0), candidate(2, "b", "/q/", 20, 0)],
    );
    let pid = |s: Option<SessionSelection>| s.map(|s| s.pid);
    assert_eq!(pid(resolve_session_selection(&sessions, None, Some(1), Some("b"))), Some(1));
    assert_eq!(pid(resolve_session_selection(&sessions, Some("/p"), None, Some("b"))), Some(2));
    assert_eq!(pid(resolve_session_selection(&sessions, Some("/p"), None, None)), Some(1));
    assert_eq!(pid(resolve_session_selection(&sessions, None, None, None)), Some(2));
    assert_eq!(pid(resolve_session_selection(&sessions, None, Some(9), None)), None);
    assert_eq!(sessions_for_cwd(&sessions, Some("/q")).len(), 1);

    let agent = Agent::of_dir(".agent");
    assert_eq!(find_claude_session(&sessions, Some("/p"), &agent).unwrap().0, 1);
    assert_eq!(
        find_claude_session(&sessions, Some("/r"), &agent).err().as_deref(),
        Some("no running Agent sessions found in ~/.agent/sessions for /r")
    );
    assert_eq!(
        find_claude_session(&vec![], None, &agent).err().as_deref(),
        Some("no running Agent sessions found in ~/.agent/sessions")
    );
}

#[test]
fn session_choices_are_numbered_from_one() {
    assert_eq!(parse_session_choice(" \n", 3), Some(0));
    assert_eq!(parse_session_choice("1\n", 3), Some(0));
    assert_eq!(parse_session_choice("3", 3), Some(2));
    assert_eq!(parse_session_choice("0", 3), None);
    assert_eq!(parse_session_choice("4", 3), None);
    assert_eq!(parse_session_choice("x", 3), None);

    let selection = SessionSelection {
        pid: 7,
        session: session(7, "s", "/p", 9),
        jsonl_path: "/l".to_string(),
    };
    assert_eq!(
        session_choice_line(2, &selection),
        "  [2] s  pid=7  started=9  source=/l"
    );
}

#[test]
fn paths_are_shown_relative_to_the_working_directory() {
    assert_eq!(display_path("/repo", "/repo/src/lib.rs"), "src/lib.rs");
    assert_eq!(display_path("/repo", "/repository/lib.rs"), "/repository/lib.rs");
}

#[test]
fn a_snapshot_of_all_sessions_has_no_process() {
    let sessions = list_alive_session_selections("/h", &vec![candidate(1, "a", "/p", 10, 0)]);
    assert!(plan_snapshot(&sessions, "/p", None, None, true).live_session.is_none());
    assert_eq!(plan_snapshot(&sessions, "/p", None, None, false).live_session.unwrap().pid, 1);
    let named = plan_snapshot(&sessions, "/p", Some("/f.jsonl"), None, false);
    assert!(named.live_session.is_none());
    assert_eq!(named.session_file.as_deref(), Some("/f.jsonl"));
}

#[test]
fn agents_are_found_by_their_records() {
    let entry = |name: &str, has_sessions: bool, has_projects: bool| HomeEntry {
        name: name.to_string(),
        has_sessions,
        has_projects,
    };
    let agent = find_agent(&vec![
        entry("work", true, true),
        entry(".zeta", true, true),
        entry(".alpha", false, true),
        entry(".beta", true, true),
    ])
    .unwrap();
    assert_eq!(agent.dir, ".beta");
    assert_eq!(agent.name, "Beta");
    assert_eq!(find_agent(&vec![entry(".alpha", true, false)]), None);
    assert_eq!(Agent::of_dir("9lives").name, "9lives");
    assert_eq!(Agent::of_dir(".").name, "");
}
