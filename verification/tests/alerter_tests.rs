use chrono::{TimeZone, Utc};
use saw::alerter::{
    alert_log_path, ActionError, AlertActionExecutor, AlertContext, AlertDecisionState,
    AlertNotification, Alerter, AlerterConfig, ScopeLeakAction, StuckAction,
};
use saw::clock::{Span, Timestamp};
use saw::state::AgentState;
use saw::types::AgentPhase;

fn stamp(time: chrono::DateTime<Utc>) -> Timestamp {
    Timestamp { secs: time.timestamp(), nanos: time.timestamp_subsec_nanos() }
}

fn ts(seconds_after_start: i64) -> Timestamp {
    let start = stamp(Utc.with_ymd_and_hms(2026, 3, 24, 12, 0, 0).single().expect("valid timestamp"));
    Timestamp { secs: start.secs + seconds_after_start, nanos: 0 }
}

fn unique_temp_dir(prefix: &str) -> String {
    format!("/tmp/saw-daemon-{prefix}")
}

#[derive(Debug, Default)]
struct MockExecutor {
    stderr_messages: Vec<String>,
    bells: usize,
    interrupts: Vec<u32>,
    force_kills: Vec<u32>,
    checkpoints: Vec<String>,
    logged: Vec<(String, String)>,
}

impl AlertActionExecutor for MockExecutor {
    fn write_stderr(&mut self, message: &str) -> Result<(), ActionError> {
        self.stderr_messages.push(message.to_string());
        Ok(())
    }

    fn ring_bell(&mut self) -> Result<(), ActionError> {
        self.bells += 1;
        Ok(())
    }

    fn interrupt_pid(&mut self, pid: u32) -> Result<(), ActionError> {
        self.interrupts.push(pid);
        Ok(())
    }

    fn force_kill_pid(&mut self, pid: u32) -> Result<(), ActionError> {
        self.force_kills.push(pid);
        Ok(())
    }

    fn save_checkpoint(&mut self, _state: &AgentState, cwd: &str) -> Result<String, ActionError> {
        let path = format!("{cwd}/.saw/checkpoints/mock-checkpoint");
        self.checkpoints.push(path.clone());
        Ok(path)
    }

    fn append_log(&mut self, path: &str, line: &str) -> Result<(), ActionError> {
        self.logged.push((path.to_string(), line.to_string()));
        Ok(())
    }
}

#[test]
fn formats_human_readable_api_hang_message_and_logs_it() {
    let cwd = unique_temp_dir("alert-log");
    let state = AgentState::default();
    let mut alerter = Alerter::new(AlerterConfig::default());
    let mut executor = MockExecutor::default();
    let timestamp = ts(0);

    let alert = alerter
        .on_phase_change(
            Some(&AgentPhase::Thinking),
            &AgentPhase::ApiHang(Span::from_secs(121)),
            AlertContext {
                timestamp,
                cwd: &cwd,
                state: &state,
                pid: Some(4242),
                agent: "Agent",
            },
            &mut executor,
        )
        .unwrap()
        .expect("expected alert");

    assert_eq!(alert.phase, "API_HANG");
    assert_eq!(alert.action, "warn");
    assert!(alert.message.contains("after 121s"));
    assert!(alert
        .suggestion
        .expect("suggestion")
        .contains("--on-stuck kill/--checkpoint"));

    assert_eq!(executor.stderr_messages.len(), 1);
    assert!(executor.stderr_messages[0].contains("API_HANG"));
    assert!(executor.stderr_messages[0].contains("--on-stuck kill/--checkpoint"));

    assert_eq!(executor.logged.len(), 1);
    assert_eq!(executor.logged[0].0, alert_log_path(&cwd));
    let log = executor.logged[0].1.clone();
    assert!(log.contains("ALERT API_HANG after 121s"));
    assert!(log.contains("action=warn"));
}

#[test]
fn warns_for_task_blocked_without_executing_actions() {
    let cwd = unique_temp_dir("task-blocked-alert");
    let state = AgentState::default();
    let mut alerter = Alerter::new(AlerterConfig {
        stuck_action: StuckAction::CheckpointKill,
        ..AlerterConfig::default()
    });
    let mut executor = MockExecutor::default();

    let alert = alerter
        .on_phase_change(
            Some(&AgentPhase::Working),
            &AgentPhase::TaskBlocked {
                task_id: "3".into(),
                blocked_by: vec!["2".into(), "4".into()],
            },
            AlertContext {
                timestamp: ts(0),
                cwd: &cwd,
                state: &state,
                pid: Some(321),
                agent: "Agent",
            },
            &mut executor,
        )
        .unwrap()
        .expect("expected alert");

    assert_eq!(alert.action, "warn");
    assert!(alert.message.contains("task_id=3"));
    assert!(alert.message.contains("blocked_by=2,4"));
    assert!(alert
        .suggestion
        .expect("suggestion")
        .contains("blocking task dependencies"));
    assert!(executor.interrupts.is_empty());
    assert!(executor.checkpoints.is_empty());
}

#[test]
fn warns_for_context_reset_without_executing_actions() {
    let cwd = unique_temp_dir("context-reset-alert");
    let state = AgentState {
        compact_count: 2,
        ..Default::default()
    };
    let mut alerter = Alerter::new(AlerterConfig {
        stuck_action: StuckAction::CheckpointKill,
        ..AlerterConfig::default()
    });
    let mut executor = MockExecutor::default();

    let alert = alerter
        .on_phase_change(
            Some(&AgentPhase::Working),
            &AgentPhase::ContextReset,
            AlertContext {
                timestamp: ts(0),
                cwd: &cwd,
                state: &state,
                pid: Some(321),
                agent: "Agent",
            },
            &mut executor,
        )
        .unwrap()
        .expect("expected alert");

    assert_eq!(alert.action, "warn");
    assert_eq!(
        alert.message,
        "Context was compacted - earlier constraints may be lost"
    );
    assert!(alert
        .suggestion
        .expect("suggestion")
        .contains("restate any critical constraints"));
    assert!(executor.interrupts.is_empty());
    assert!(executor.checkpoints.is_empty());
}

#[test]
fn rate_limits_repeat_alerts_for_same_action() {
    let cwd = unique_temp_dir("rate-limit");
    let state = AgentState::default();
    let mut alerter = Alerter::new(AlerterConfig::default());
    let mut executor = MockExecutor::default();
    let phase = AgentPhase::ApiHang(Span::from_secs(121));

    let first = alerter
        .on_phase_change(
            Some(&AgentPhase::Thinking),
            &phase,
            AlertContext {
                timestamp: ts(0),
                cwd: &cwd,
                state: &state,
                pid: Some(123),
                agent: "Agent",
            },
            &mut executor,
        )
        .unwrap();
    assert!(first.is_some());

    let suppressed = alerter
        .on_phase_change(
            Some(&AgentPhase::Working),
            &phase,
            AlertContext {
                timestamp: ts(30),
                cwd: &cwd,
                state: &state,
                pid: Some(123),
                agent: "Agent",
            },
            &mut executor,
        )
        .unwrap();
    assert!(suppressed.is_none());

    let second = alerter
        .on_phase_change(
            Some(&AgentPhase::Working),
            &phase,
            AlertContext {
                timestamp: ts(61),
                cwd: &cwd,
                state: &state,
                pid: Some(123),
                agent: "Agent",
            },
            &mut executor,
        )
        .unwrap();
    assert!(second.is_some());
}

#[test]
fn policy_decision_reports_executed_action() {
    let cwd = unique_temp_dir("policy-executed");
    let state = AgentState::default();
    let mut alerter = Alerter::new(AlerterConfig::default());
    let mut executor = MockExecutor::default();

    let decision = alerter
        .evaluate_phase_change(
            None,
            &AgentPhase::ApiHang(Span::from_secs(121)),
            AlertContext {
                timestamp: ts(0),
                cwd: &cwd,
                state: &state,
                pid: Some(4242),
                agent: "Agent",
            },
            &mut executor,
        )
        .unwrap();

    assert_eq!(decision.state, AlertDecisionState::Executed);
    assert_eq!(decision.reason, "executed");
    assert_eq!(decision.action, "warn");
    assert!(decision.notification.is_some());
}

#[test]
fn policy_decision_reports_skipped_action() {
    let cwd = unique_temp_dir("policy-skipped");
    let state = AgentState::default();
    let mut alerter = Alerter::new(AlerterConfig::default());
    let mut executor = MockExecutor::default();
    let phase = AgentPhase::ApiHang(Span::from_secs(121));

    let decision = alerter
        .evaluate_phase_change(
            Some(&phase),
            &phase,
            AlertContext {
                timestamp: ts(0),
                cwd: &cwd,
                state: &state,
                pid: Some(4242),
                agent: "Agent",
            },
            &mut executor,
        )
        .unwrap();

    assert_eq!(decision.state, AlertDecisionState::Skipped);
    assert_eq!(decision.reason, "no_new_alert");
    assert!(decision.notification.is_none());
}

#[test]
fn policy_decision_reports_gated_action() {
    let cwd = unique_temp_dir("policy-gated");
    let state = AgentState::default();
    let mut alerter = Alerter::new(AlerterConfig {
        stuck_action: StuckAction::Kill,
        ..AlerterConfig::default()
    });
    let mut executor = MockExecutor::default();

    let decision = alerter
        .evaluate_phase_change(
            None,
            &AgentPhase::ApiHang(Span::from_secs(121)),
            AlertContext {
                timestamp: ts(0),
                cwd: &cwd,
                state: &state,
                pid: None,
                agent: "Agent",
            },
            &mut executor,
        )
        .unwrap();

    assert_eq!(decision.state, AlertDecisionState::Gated);
    assert_eq!(decision.reason, "missing_pid");
    assert_eq!(decision.action, "kill");
    assert!(decision.notification.is_none());
}

#[test]
fn rings_bell_and_emits_stderr_for_stuck_alerts() {
    let cwd = unique_temp_dir("bell-alert");
    let state = AgentState::default();
    let mut alerter = Alerter::new(AlerterConfig {
        stuck_action: StuckAction::Bell,
        color: false,
        ..AlerterConfig::default()
    });
    let mut executor = MockExecutor::default();

    let alert = alerter
        .on_phase_change(
            Some(&AgentPhase::Thinking),
            &AgentPhase::ApiHang(Span::from_secs(121)),
            AlertContext {
                timestamp: ts(0),
                cwd: &cwd,
                state: &state,
                pid: Some(5150),
                agent: "Agent",
            },
            &mut executor,
        )
        .unwrap()
        .expect("expected alert");

    assert_eq!(alert.action, "bell");
    assert_eq!(executor.bells, 1);
    assert_eq!(executor.stderr_messages.len(), 1);
    assert!(executor.stderr_messages[0].contains("ALERT API_HANG"));
}

#[test]
fn executes_stuck_kill_action() {
    let cwd = unique_temp_dir("stuck-kill");
    let state = AgentState::default();
    let mut alerter = Alerter::new(AlerterConfig {
        stuck_action: StuckAction::Kill,
        ..AlerterConfig::default()
    });
    let mut executor = MockExecutor::default();

    let alert = alerter
        .on_phase_change(
            Some(&AgentPhase::Thinking),
            &AgentPhase::ApiHang(Span::from_secs(121)),
            AlertContext {
                timestamp: ts(0),
                cwd: &cwd,
                state: &state,
                pid: Some(777),
                agent: "Agent",
            },
            &mut executor,
        )
        .unwrap()
        .expect("expected alert");

    assert_eq!(alert.action, "kill");
    assert_eq!(executor.interrupts, vec![777]);
    assert!(executor.checkpoints.is_empty());
    assert_eq!(executor.stderr_messages.len(), 1);
    assert!(executor.stderr_messages[0].contains("API_HANG"));
}

#[test]
fn executes_checkpoint_kill_for_stuck_alerts() {
    let cwd = unique_temp_dir("checkpoint-kill");
    let state = AgentState::default();
    let mut alerter = Alerter::new(AlerterConfig {
        stuck_action: StuckAction::CheckpointKill,
        ..AlerterConfig::default()
    });
    let mut executor = MockExecutor::default();

    let alert = alerter
        .on_phase_change(
            Some(&AgentPhase::Thinking),
            &AgentPhase::ToolLoop {
                file: format!("{cwd}/src/lib.rs"),
                count: 4,
                since: ts(-30),
            },
            AlertContext {
                timestamp: ts(0),
                cwd: &cwd,
                state: &state,
                pid: Some(777),
                agent: "Agent",
            },
            &mut executor,
        )
        .unwrap()
        .expect("expected alert");

    assert_eq!(alert.action, "checkpoint-kill");
    assert!(alert.checkpoint_dir.is_some());
    assert_eq!(executor.interrupts, vec![777]);
    assert_eq!(executor.checkpoints.len(), 1);
    assert_eq!(executor.stderr_messages.len(), 1);
    assert!(executor.stderr_messages[0].contains("checkpoint-kill"));
}

#[test]
fn checkpoints_before_warn_when_enabled() {
    let cwd = unique_temp_dir("checkpoint-warn");
    let state = AgentState::default();
    let mut alerter = Alerter::new(AlerterConfig {
        checkpoint_before_action: true,
        ..AlerterConfig::default()
    });
    let mut executor = MockExecutor::default();

    let alert = alerter
        .on_phase_change(
            Some(&AgentPhase::Thinking),
            &AgentPhase::ApiHang(Span::from_secs(121)),
            AlertContext {
                timestamp: ts(0),
                cwd: &cwd,
                state: &state,
                pid: Some(777),
                agent: "Agent",
            },
            &mut executor,
        )
        .unwrap()
        .expect("expected alert");

    assert_eq!(alert.action, "warn");
    assert!(alert.checkpoint_dir.is_some());
    assert!(executor.interrupts.is_empty());
    assert_eq!(executor.checkpoints.len(), 1);
}

#[test]
fn checkpoints_before_kill_when_enabled() {
    let cwd = unique_temp_dir("checkpoint-before-kill");
    let state = AgentState::default();
    let mut alerter = Alerter::new(AlerterConfig {
        stuck_action: StuckAction::Kill,
        checkpoint_before_action: true,
        ..AlerterConfig::default()
    });
    let mut executor = MockExecutor::default();

    let alert = alerter
        .on_phase_change(
            Some(&AgentPhase::Thinking),
            &AgentPhase::TestLoop {
                command: "cargo test".into(),
                failure_count: 3,
            },
            AlertContext {
                timestamp: ts(0),
                cwd: &cwd,
                state: &state,
                pid: Some(777),
                agent: "Agent",
            },
            &mut executor,
        )
        .unwrap()
        .expect("expected alert");

    assert_eq!(alert.action, "kill");
    assert!(alert.checkpoint_dir.is_some());
    assert_eq!(executor.interrupts, vec![777]);
    assert_eq!(executor.checkpoints.len(), 1);
}

#[test]
fn executes_scope_leak_kill_action() {
    let cwd = unique_temp_dir("scope-kill");
    let state = AgentState::default();
    let mut alerter = Alerter::new(AlerterConfig {
        scope_leak_action: ScopeLeakAction::Kill,
        ..AlerterConfig::default()
    });
    let mut executor = MockExecutor::default();

    let alert = alerter
        .on_phase_change(
            Some(&AgentPhase::Working),
            &AgentPhase::ScopeLeaking {
                violating_file: format!("{cwd}/src/billing/mod.rs"),
                guard_path: format!("{cwd}/src/auth"),
            },
            AlertContext {
                timestamp: ts(0),
                cwd: &cwd,
                state: &state,
                pid: Some(991),
                agent: "Agent",
            },
            &mut executor,
        )
        .unwrap()
        .expect("expected alert");

    assert_eq!(alert.action, "kill");
    assert_eq!(executor.interrupts, vec![991]);
    assert_eq!(executor.stderr_messages.len(), 1);
    assert!(executor.stderr_messages[0].contains("SCOPE_LEAKING"));
    assert!(alert.message.contains("src/billing/mod.rs"));
    assert!(alert.message.contains("src/auth"));
}

#[test]
fn quiet_mode_only_emits_when_alert_exists() {
    let alerter = Alerter::new(AlerterConfig {
        quiet: true,
        ..AlerterConfig::default()
    });

    assert!(!alerter.should_emit_status(None));
    assert!(alerter.should_emit_status(Some(&AlertNotification {
        timestamp: ts(0),
        previous_phase: Some("THINKING"),
        phase: "API_HANG",
        message: "after 121s - agent appears stuck waiting on the API".into(),
        suggestion: Some("send a follow-up".to_string()),
        action: "warn",
        checkpoint_dir: None,
    })));
}
