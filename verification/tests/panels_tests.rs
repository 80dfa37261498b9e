use chrono::{TimeZone, Utc};
use saw::alerts_panel::{
    active_alerts, load_alert_history, parse_alert_history_line, recommended_actions,
    AlertSeverity, AlertsPanel,
};
use saw::clock::{Span, Timestamp};
use saw::file_activity::{
    format_age, format_line_change, icon, merge_kind, truncate_path, FileActivityPanel,
};
use saw::metrics_panel::{metric_line, shown_throughput, MetricsPanel, Throughput};
use saw::snapshot::Snapshot;
use saw::state::AgentState;
use saw::status::{all_exit_code, status_glyph, status_line};
use saw::status_bar::{format_elapsed, phase_style, StatusBar};
use saw::types::{AgentPhase, FileChangeKind, FileModification, FloatBits, ToolLineChange};
use saw::ui::{format_duration, truncate_text, Hue, StyledLine};

fn ts(hour: u32, minute: u32, second: u32) -> Timestamp {
    let time = Utc
        .with_ymd_and_hms(2026, 3, 24, hour, minute, second)
        .single()
        .expect("valid timestamp");
    Timestamp { secs: time.timestamp(), nanos: 0 }
}

fn before(time: Timestamp, secs: i64) -> Timestamp {
    Timestamp { secs: time.secs - secs, nanos: time.nanos }
}

fn bits(value: f32) -> FloatBits {
    FloatBits { bits: value.to_bits() }
}

fn snapshot_with_state(cwd: &str, state: AgentState, phase: AgentPhase) -> Snapshot {
    Snapshot {
        cwd: cwd.to_string(),
        session_file: None,
        pid: Some(42),
        state,
        phase,
        silence: Span::from_secs(0),
    }
}

fn line_text(line: &StyledLine) -> String {
    line.spans.iter().map(|span| span.text.as_str()).collect::<String>()
}

fn line_texts(panel: &AlertsPanel) -> Vec<String> {
    panel.lines.iter().map(line_text).collect()
}

fn alerts_at(cwd: &str, state: AgentState, phase: AgentPhase, log: &str, now: Timestamp) -> AlertsPanel {
    AlertsPanel::from_snapshot_at(
        &snapshot_with_state(cwd, state, phase),
        log,
        now,
        "Agent",
    )
}

#[test]
fn normal_state_shows_checkmark() {
    let panel = alerts_at("/repo", AgentState::default(), AgentPhase::Working, "", ts(12, 0, 0));

    assert_eq!(panel.severity, AlertSeverity::Normal);
    assert!(line_texts(&panel)
        .iter()
        .any(|line| line.contains("✓ No anomalies detected")));
}

#[test]
fn warning_state_shows_multiple_alerts_and_numbered_actions() {
    let mut state = AgentState::default();
    state.scope_violation_count = 2;
    state.latest_scope_violation = Some("/repo/src/billing/mod.rs".to_string());
    state.guard_paths = vec!["/repo/src/auth".to_string()];
    state.consecutive_test_failures = 3;
    state.last_test_command = Some("cargo test -p saw-core".into());

    let panel = alerts_at(
        "/repo",
        state,
        AgentPhase::ApiHang(Span::from_secs(125)),
        "",
        ts(12, 0, 0),
    );
    let lines = line_texts(&panel);

    assert_eq!(panel.severity, AlertSeverity::Warning);
    assert!(lines.iter().any(|line| line.contains("API_HANG • 2m 5s")));
    assert!(lines
        .iter()
        .any(|line| line.contains("SCOPE_LEAKING • 2 violations")));
    assert!(lines
        .iter()
        .any(|line| line.contains("TEST_LOOP • 3 failures")));
    assert!(lines
        .iter()
        .any(|line| line.contains("RECOMMENDED ACTIONS")));
    assert!(lines.iter().any(|line| line.starts_with("1. ")));
}

#[test]
fn task_blocked_state_shows_dependency_alert() {
    let panel = alerts_at(
        "/repo",
        AgentState::default(),
        AgentPhase::TaskBlocked {
            task_id: "3".into(),
            blocked_by: vec!["2".into(), "4".into()],
        },
        "",
        ts(12, 0, 0),
    );
    let lines = line_texts(&panel);

    assert!(lines
        .iter()
        .any(|line| line.contains("TASK_BLOCKED • task 3")));
    assert!(lines
        .iter()
        .any(|line| line.contains("Blocking tasks not completed: 2, 4")));
}

#[test]
fn context_reset_state_warns_about_lost_constraints() {
    let mut state = AgentState::default();
    state.compact_count = 2;
    let panel = alerts_at("/repo", state, AgentPhase::ContextReset, "", ts(12, 0, 0));
    let lines = line_texts(&panel);

    assert_eq!(panel.severity, AlertSeverity::Warning);
    assert!(lines
        .iter()
        .any(|line| line.contains("CONTEXT_RESET • 2 compacts")));
    assert!(lines.iter().any(|line| {
        line.contains("Context was compacted - earlier constraints may be lost")
    }));
}

fn history_line(timestamp: &str, message: &str) -> String {
    format!("{timestamp} ALERT {message} action=warn")
}

#[test]
fn critical_state_shows_last_five_history_entries() {
    let log = [
        history_line("2026-03-24T12:00:00Z", "API_HANG first"),
        history_line("2026-03-24T12:00:01Z", "API_HANG second"),
        history_line("2026-03-24T12:00:02Z", "TOOL_LOOP third"),
        history_line("2026-03-24T12:00:03Z", "TEST_LOOP fourth"),
        history_line("2026-03-24T12:00:04Z", "SCOPE_LEAKING fifth"),
        history_line("2026-03-24T12:00:05Z", "DEAD sixth"),
    ]
    .join("\n");

    let panel = alerts_at("/repo", AgentState::default(), AgentPhase::Dead, &log, ts(12, 5, 0));
    let lines = line_texts(&panel);

    assert_eq!(panel.severity, AlertSeverity::Critical);
    assert!(lines.iter().any(|line| line.contains("DEAD • 0s")));
    assert!(!lines.iter().any(|line| line.contains("first")));
    assert!(lines
        .iter()
        .any(|line| line.contains("12:00:01 API_HANG second")));
    assert!(lines
        .iter()
        .any(|line| line.contains("12:00:05 DEAD sixth")));
}

#[test]
fn max_scroll_accounts_for_borders() {
    let panel = alerts_at("/repo", AgentState::default(), AgentPhase::Working, "", ts(12, 0, 0));

    assert_eq!(panel.max_scroll(10), 0);
}

#[test]
fn alerts_come_once_and_the_most_serious_first() {
    let mut state = AgentState::default();
    state.process_alive = false;
    state.consecutive_test_failures = 4;
    state.scope_violation_count = 1;
    let snapshot = snapshot_with_state(
        "/repo",
        state,
        AgentPhase::TestLoop { command: "cargo test".into(), failure_count: 9 },
    );
    let alerts = active_alerts(&snapshot, ts(12, 0, 0), "Agent");
    let headlines = alerts.iter().map(|a| a.headline.as_str()).collect::<Vec<_>>();
    assert_eq!(
        headlines,
        vec!["DEAD • 0s", "SCOPE_LEAKING • 1 violations", "TEST_LOOP • 9 failures"]
    );
    assert_eq!(recommended_actions(&alerts).len(), 9);
}

#[test]
fn history_lines_without_a_time_are_shown_as_they_are() {
    let entry = parse_alert_history_line("not a time ALERT something");
    assert_eq!(entry.timestamp, "not");
    let entry = parse_alert_history_line("2026-03-24T23:59:07+02:00 ALERT X boom action=kill");
    assert_eq!(entry.timestamp, "23:59:07");
    assert!(entry.summary.starts_with("X boom"));
    assert!(load_alert_history("\n\n").is_empty());
}

fn snapshot_with_files(files: Vec<FileModification>) -> Snapshot {
    let mut state = AgentState::default();
    state.recently_modified_files = files.into();
    snapshot_with_state("/repo", state, AgentPhase::Working)
}

fn modification(
    timestamp: Timestamp,
    path: &str,
    kind: FileChangeKind,
    line_change: Option<(u32, u32)>,
) -> FileModification {
    FileModification {
        timestamp,
        path: path.to_string(),
        kind,
        line_change: line_change.map(|(added, removed)| ToolLineChange {
            added,
            removed,
        }),
    }
}

#[test]
fn formats_compact_ages() {
    assert_eq!(format_age(ts(12, 0, 10), ts(12, 0, 8)), "2s");
    assert_eq!(format_age(ts(12, 1, 0), ts(12, 0, 0)), "1m");
    assert_eq!(format_age(ts(12, 4, 12), ts(12, 0, 0)), "4m12s");
    assert_eq!(format_age(ts(14, 0, 0), ts(12, 30, 0)), "1h30m");
}

#[test]
fn formats_line_changes() {
    assert_eq!(
        format_line_change(Some(&ToolLineChange {
            added: 47,
            removed: 0,
        })),
        Some("+47L".to_string())
    );
    assert_eq!(
        format_line_change(Some(&ToolLineChange {
            added: 0,
            removed: 3,
        })),
        Some("-3L".to_string())
    );
    assert_eq!(
        format_line_change(Some(&ToolLineChange {
            added: 4,
            removed: 2,
        })),
        Some("+4L -2L".to_string())
    );
    assert_eq!(format_line_change(None), None);
}

#[test]
fn truncates_long_paths_and_keeps_filename_visible() {
    let path = "src/very/long/nested/components/file_activity.rs";
    let truncated = truncate_path(path, 24);

    assert!(truncated.starts_with("…/"));
    assert!(truncated.ends_with("file_activity.rs"));
    assert!(truncated.chars().count() <= 24);
    assert_eq!(truncate_path("src/deep/lib.rs", 7), "\u{2026}lib.rs");
    assert_eq!(truncate_path("src/lib.rs", 10), "src/lib.rs");
}

fn shown(panel: &FileActivityPanel, width: usize) -> Vec<String> {
    panel.lines(width).iter().map(line_text).collect()
}

#[test]
fn renders_icons_loop_counts_and_line_changes() {
    let now = ts(12, 0, 0);
    let snapshot = snapshot_with_files(vec![
        modification(
            ts(11, 59, 0),
            "/repo/src/auth/login.rs",
            FileChangeKind::Modified,
            Some((3, 0)),
        ),
        modification(
            ts(11, 59, 26),
            "/repo/src/utils/crypto.rs",
            FileChangeKind::Read,
            None,
        ),
        modification(
            ts(11, 59, 40),
            "/repo/src/old.rs",
            FileChangeKind::Deleted,
            Some((0, 3)),
        ),
        modification(
            ts(11, 59, 58),
            "/repo/src/auth/login.rs",
            FileChangeKind::Modified,
            Some((47, 0)),
        ),
    ]);

    let panel = FileActivityPanel::from_snapshot_at(&snapshot, now);
    let rendered = shown(&panel, 58);
    assert!(rendered
        .iter()
        .any(|line| line.contains("2s  ✎  src/auth/login.rs  +47L")));
    assert!(rendered
        .iter()
        .any(|line| line.contains("20s  ✗  src/old.rs  -3L")));
    assert!(rendered
        .iter()
        .any(|line| line.contains("34s  ○  src/utils/crypto.rs")));
    assert!(rendered
        .iter()
        .any(|line| line.contains("1m  ✎  src/auth/login.rs  +3L  (2)")));
}

#[test]
fn merges_adjacent_duplicate_events_from_tool_and_watcher() {
    let now = ts(12, 0, 0);
    let snapshot = snapshot_with_files(vec![
        modification(
            ts(11, 59, 58),
            "/repo/src/auth/login.rs",
            FileChangeKind::Modified,
            Some((47, 0)),
        ),
        modification(
            ts(11, 59, 58),
            "/repo/src/auth/login.rs",
            FileChangeKind::Modified,
            None,
        ),
    ]);

    let panel = FileActivityPanel::from_snapshot_at(&snapshot, now);
    assert_eq!(panel.content_height(), 1);
    let line = shown(&panel, 58).remove(0);
    assert!(line.contains("src/auth/login.rs"));
    assert!(line.contains("+47L"));
    assert!(!line.contains("(2)"));
}

#[test]
fn max_scroll_uses_twenty_item_cap() {
    let snapshot = snapshot_with_files(
        (0..25)
            .map(|index| {
                modification(
                    ts(12, 0, 0),
                    &format!("/repo/src/file-{index}.rs"),
                    FileChangeKind::Modified,
                    None,
                )
            })
            .collect(),
    );
    let panel = FileActivityPanel::from_snapshot_at(&snapshot, ts(12, 0, 1));

    assert_eq!(panel.content_height(), 20);
    assert_eq!(panel.max_scroll(5), 17);
}

#[test]
fn scroll_shows_older_entries() {
    let snapshot = snapshot_with_files(
        (0..6)
            .map(|index| {
                modification(
                    ts(12, 0, index),
                    &format!("/repo/src/file-{index}.rs"),
                    FileChangeKind::Modified,
                    None,
                )
            })
            .collect(),
    );
    let panel = FileActivityPanel::from_snapshot_at(&snapshot, ts(12, 0, 6)).with_scroll(2);
    let lines = shown(&panel, 38)
        .into_iter()
        .skip(panel.scroll as usize)
        .take(3)
        .collect::<Vec<_>>();
    assert!(lines.iter().any(|line| line.contains("src/file-3.rs")));
    assert!(!lines.iter().any(|line| line.contains("src/file-5.rs")));
}

#[test]
fn merged_kinds_keep_what_weighs_more() {
    assert_eq!(icon(FileChangeKind::Created), "✎");
    assert_eq!(
        merge_kind(FileChangeKind::Created, FileChangeKind::Modified),
        FileChangeKind::Created
    );
    assert_eq!(
        merge_kind(FileChangeKind::Read, FileChangeKind::Deleted),
        FileChangeKind::Deleted
    );
}

#[test]
fn formats_duration_human_readably() {
    assert_eq!(format_duration(Span::from_secs(14)), "14s");
    assert_eq!(format_duration(Span::from_secs(374)), "6m 14s");
    assert_eq!(format_duration(Span::from_secs(7_560)), "2h 6m");
}

#[test]
fn metrics_panel_marks_active_tokens_and_formats_metrics() {
    let now = ts(12, 0, 0);
    let mut state = AgentState::default();
    state.total_input_tokens = 1200;
    state.total_output_tokens = 340;
    state.total_tool_calls = 23;
    state.compact_count = 2;
    state.latest_cpu_percent = bits(12.0);
    state.latest_rss_bytes = 358_612_992;
    state.latest_io_read_rate = bits(1_228.8);
    state.session_started_at = Some(before(now, 374));
    state.last_token_activity_at = Some(now);
    state.touched_files = vec![
        "/repo/src/lib.rs".to_string(),
        "/repo/src/main.rs".to_string(),
        "/repo/tests/a.rs".to_string(),
        "/repo/tests/b.rs".to_string(),
    ];

    let panel = MetricsPanel::from_snapshot_at(
        &snapshot_with_state("/repo", state, AgentPhase::Working),
        now,
    );

    assert_eq!(panel.tokens, "in 1200 / out 340  ↑ active");
    assert_eq!(f32::from_bits(panel.cpu_percent.bits), 12.0);
    assert_eq!(panel.rss_bytes, 358_612_992);
    assert_eq!(panel.io, Throughput::Reading(bits(1_228.8)));
    assert_eq!(panel.session, "6m 14s");
    assert_eq!(panel.tool_calls, 23);
    assert_eq!(panel.files_touched, 4);
    assert_eq!(panel.compacts, 2);
}

#[test]
fn metrics_panel_marks_frozen_tokens() {
    let now = ts(12, 0, 0);
    let mut state = AgentState::default();
    state.session_started_at = Some(before(now, 600));
    state.last_token_activity_at = Some(before(now, 252));

    let panel = MetricsPanel::from_snapshot_at(
        &snapshot_with_state("/repo", state, AgentPhase::Working),
        now,
    );

    assert_eq!(panel.tokens, "in 0 / out 0  ✗ frozen (4m 12s)");
}

#[test]
fn the_larger_throughput_is_shown() {
    assert_eq!(shown_throughput(bits(0.0), bits(0.0)), Throughput::Idle);
    assert_eq!(shown_throughput(bits(1.0), bits(2.0)), Throughput::Writing(bits(2.0)));
    assert!(metric_line("CPU", "1%").starts_with("CPU"));
}

#[test]
fn formats_elapsed_human_readably() {
    assert_eq!(format_elapsed(Span::from_secs(14)), "14s");
    assert_eq!(format_elapsed(Span::from_secs(332)), "5m 32s");
    assert_eq!(format_elapsed(Span::from_secs(7_560)), "2h 6m");
}

#[test]
fn phase_colors_match_spec() {
    assert_eq!(phase_style(&AgentPhase::Working), Hue::Green);
    assert_eq!(phase_style(&AgentPhase::Thinking), Hue::Yellow);
    assert_eq!(phase_style(&AgentPhase::ApiHang(Span::from_secs(1))), Hue::Red);
    assert_eq!(phase_style(&AgentPhase::Initializing), Hue::Cyan);
}

#[test]
fn truncates_text_for_narrow_widths() {
    assert_eq!(truncate_text("Agents (42)", 20), "Agents (42)");
    assert_eq!(truncate_text("Agents (42)", 6), "Agent…");
    assert_eq!(truncate_text("Agents (42)", 1), "…");
    assert_eq!(truncate_text("Agents (42)", 0), "");
}

fn bar_text(snapshot: &Snapshot, now: Timestamp, width: u16) -> String {
    StatusBar::from_snapshot_at(snapshot, now, "Agent")
        .segments(width)
        .iter()
        .map(|segment| segment.text.as_str())
        .collect::<String>()
}

#[test]
fn status_bar_renders_expected_segments() {
    let now = ts(12, 0, 0);
    let mut state = AgentState::default();
    state.session_started_at = Some(before(now, 332));
    let snapshot = snapshot_with_state("/repo", state, AgentPhase::Working);

    let line = bar_text(&snapshot, now, 78);
    assert!(line.contains("Agent (42)"));
    assert!(line.contains("WORKING"));
    assert!(line.contains("5m 32s"));
    assert!(line.contains("[q]uit [k]ill [?]help"));

    let widths = StatusBar::from_snapshot_at(&snapshot, now, "Agent")
        .segments(78)
        .iter()
        .map(|segment| segment.width)
        .sum::<u16>();
    assert_eq!(widths, 78);
}

#[test]
fn status_bar_keeps_keybindings_visible_on_narrow_term() {
    let now = ts(12, 0, 0);
    let mut state = AgentState::default();
    state.session_started_at = Some(before(now, 332));
    let snapshot = snapshot_with_state("/repo", state, AgentPhase::Thinking);

    let line = bar_text(&snapshot, now, 38);
    assert!(line.contains("[q]uit"));
    assert!(line.contains("[k]ill"));
    assert!(line.contains("[?]help"));
}

#[test]
fn maps_glyphs_for_key_phases() {
    assert_eq!(status_glyph(&AgentPhase::Working), "●");
    assert_eq!(status_glyph(&AgentPhase::Dead), "☠");
    assert_eq!(
        status_glyph(&AgentPhase::TaskBlocked {
            task_id: "3".into(),
            blocked_by: vec!["2".into()],
        }),
        "⚠"
    );
    assert_eq!(status_glyph(&AgentPhase::ContextReset), "⚠");
    assert_eq!(
        status_glyph(&AgentPhase::ScopeLeaking {
            violating_file: "src/lib.rs".to_string(),
            guard_path: "src/auth".to_string(),
        }),
        "✖"
    );
}

#[test]
fn human_status_line_matches_expected_format() {
    let mut state = AgentState::default();
    state.last_file_path = Some("/repo/src/auth/login.rs".to_string());
    state.latest_cpu_percent = bits(12.4);

    let mut snapshot = snapshot_with_state("/repo", state, AgentPhase::Working);
    snapshot.silence = Span::from_secs(3);

    let cpu = f32::from_bits(snapshot.state.latest_cpu_percent.bits);
    assert_eq!(
        format!("{}{cpu:.1}%\n", status_line(&snapshot, false)),
        "● WORKING  src/auth/login.rs (3s ago)  cpu: 12.4%\n"
    );
}

#[test]
fn all_status_lines_include_session_ids() {
    let mut first_state = AgentState::default();
    first_state.session_id = Some("ses-1".into());
    first_state.last_file_path = Some("/repo/src/auth/login.rs".to_string());
    first_state.latest_cpu_percent = bits(12.4);

    let mut second_state = AgentState::default();
    second_state.session_id = Some("ses-2".into());
    second_state.last_file_path = Some("/repo/src/lib.rs".to_string());
    second_state.latest_cpu_percent = bits(0.5);

    let mut first = snapshot_with_state("/repo", first_state, AgentPhase::Working);
    first.silence = Span::from_secs(3);
    let mut second = snapshot_with_state("/repo", second_state, AgentPhase::Thinking);
    second.pid = Some(43);
    second.silence = Span::from_secs(8);
    let snapshots = vec![first, second];

    let rendered = snapshots
        .iter()
        .map(|snapshot| status_line(snapshot, true))
        .collect::<Vec<_>>()
        .join("\n");

    assert!(rendered.contains("session=ses-1"));
    assert!(rendered.contains("session=ses-2"));
    assert!(rendered.contains("src/auth/login.rs"));
    assert!(rendered.contains("src/lib.rs"));
    assert_eq!(all_exit_code(&snapshots), 0);
}

#[test]
fn the_worst_session_decides_the_exit_code() {
    let with = |phase| snapshot_with_state("/repo", AgentState::default(), phase);
    assert_eq!(all_exit_code(&vec![]), 0);
    assert_eq!(
        all_exit_code(&vec![
            with(AgentPhase::Dead),
            with(AgentPhase::Idle(Span::from_secs(700))),
            with(AgentPhase::Working),
        ]),
        4
    );
}
