//! Alerts: when a phase change calls for one, and what is done about it.

use crate::clock::{format_timestamp, shown_time, Span, Timestamp};
use crate::paths::{join_path, joined_path, show_path, shown_path};
use crate::state::AgentState;
use crate::text::{decimal, join, joined, push_decimal, same_text};
use crate::types::{text_view, AgentPhase, PhaseView};
use vstd::prelude::*;

verus! {

/// What is done about a session that is stuck or dead.
#[derive(Debug, Clone, Copy, PartialEq, Eq, Structural)]
pub enum StuckAction {
    Warn,
    Bell,
    Kill,
    CheckpointKill,
}

/// What is done about a file outside the guarded scope.
#[derive(Debug, Clone, Copy, PartialEq, Eq, Structural)]
pub enum ScopeLeakAction {
    Warn,
    Bell,
    Kill,
}

/// Settings of the alerter.
#[derive(Debug, Clone, Copy, PartialEq, Eq, Structural)]
pub struct AlerterConfig {
    pub stuck_action: StuckAction,
    pub scope_leak_action: ScopeLeakAction,
    pub checkpoint_before_action: bool,
    pub quiet: bool,
    pub color: bool,
    pub rate_limit: Span,
}

impl Default for AlerterConfig {
    fn default() -> (r: Self)
        ensures
            r.stuck_action == StuckAction::Warn,
            r.scope_leak_action == ScopeLeakAction::Warn,
            !r.checkpoint_before_action,
            !r.quiet,
            r.color,
            r.rate_limit.nanos == 60_000_000_000,
    {
        AlerterConfig {
            stuck_action: StuckAction::Warn,
            scope_leak_action: ScopeLeakAction::Warn,
            checkpoint_before_action: false,
            quiet: false,
            color: true,
            rate_limit: Span::from_secs(60),
        }
    }
}

/// The action that answers an alert.
#[derive(Debug, Clone, Copy, PartialEq, Eq, Structural)]
pub enum AlertAction {
    Warn,
    Bell,
    Kill,
    CheckpointKill,
}

impl AlertAction {
    /// The name of an action.
    pub open spec fn name(self) -> Seq<char> {
        match self {
            AlertAction::Warn => "warn"@,
            AlertAction::Bell => "bell"@,
            AlertAction::Kill => "kill"@,
            AlertAction::CheckpointKill => "checkpoint-kill"@,
        }
    }

    /// The name of the action.
    pub fn label(self) -> (r: &'static str)
        ensures
            r@ == self.name(),
    {
        match self {
            AlertAction::Warn => "warn",
            AlertAction::Bell => "bell",
            AlertAction::Kill => "kill",
            AlertAction::CheckpointKill => "checkpoint-kill",
        }
    }
}

/// When each action was last taken.
#[derive(Debug, Clone, Copy, PartialEq, Eq, Structural)]
pub struct ActionTimes {
    pub warn: Option<Timestamp>,
    pub bell: Option<Timestamp>,
    pub kill: Option<Timestamp>,
    pub checkpoint_kill: Option<Timestamp>,
}

impl ActionTimes {
    /// When an action was last taken.
    pub open spec fn of(self, action: AlertAction) -> Option<Timestamp> {
        match action {
            AlertAction::Warn => self.warn,
            AlertAction::Bell => self.bell,
            AlertAction::Kill => self.kill,
            AlertAction::CheckpointKill => self.checkpoint_kill,
        }
    }

    /// The times after an action was taken.
    pub open spec fn with(self, action: AlertAction, at: Timestamp) -> ActionTimes {
        match action {
            AlertAction::Warn => ActionTimes { warn: Some(at), ..self },
            AlertAction::Bell => ActionTimes { bell: Some(at), ..self },
            AlertAction::Kill => ActionTimes { kill: Some(at), ..self },
            AlertAction::CheckpointKill => ActionTimes { checkpoint_kill: Some(at), ..self },
        }
    }
}

/// Decides on alerts and remembers when it acted.
#[derive(Debug, Clone, Copy, PartialEq, Eq, Structural)]
pub struct Alerter {
    pub config: AlerterConfig,
    pub last_action_at: ActionTimes,
}

/// What became of an alert.
#[derive(Debug, Clone, Copy, PartialEq, Eq, Structural)]
pub enum AlertDecisionState {
    Executed,
    Skipped,
    Gated,
}

/// The circumstances of a phase change.
pub struct AlertContext<'a> {
    pub timestamp: Timestamp,
    pub cwd: &'a str,
    pub state: &'a AgentState,
    pub pid: Option<u32>,
    /// The name of the agent.
    pub agent: &'a str,
}

/// An alert that was raised.
#[derive(Debug, PartialEq, Eq)]
pub struct AlertNotification {
    pub timestamp: Timestamp,
    pub previous_phase: Option<&'static str>,
    pub phase: &'static str,
    pub message: String,
    pub suggestion: Option<String>,
    pub action: &'static str,
    pub checkpoint_dir: Option<String>,
}

/// The value of an [`AlertNotification`].
pub struct NotificationView {
    pub timestamp: Timestamp,
    pub previous_phase: Option<Seq<char>>,
    pub phase: Seq<char>,
    pub message: Seq<char>,
    pub suggestion: Option<Seq<char>>,
    pub action: Seq<char>,
    pub checkpoint_dir: Option<Seq<char>>,
}

/// The view of a string slice that may be missing.
pub open spec fn slice_view(text: Option<&str>) -> Option<Seq<char>> {
    match text {
        Some(t) => Some(t@),
        None => None,
    }
}

impl View for AlertNotification {
    type V = NotificationView;

    open spec fn view(&self) -> NotificationView {
        NotificationView {
            timestamp: self.timestamp,
            previous_phase: slice_view(self.previous_phase),
            phase: self.phase@,
            message: self.message@,
            suggestion: text_view(self.suggestion),
            action: self.action@,
            checkpoint_dir: text_view(self.checkpoint_dir),
        }
    }
}

/// What the alerter decided about a phase change, and why.
#[derive(Debug, PartialEq, Eq)]
pub struct AlertPolicyDecision {
    pub state: AlertDecisionState,
    pub action: &'static str,
    pub reason: &'static str,
    pub explanation: String,
    pub notification: Option<AlertNotification>,
}

/// The value of an [`AlertPolicyDecision`].
pub struct DecisionView {
    pub state: AlertDecisionState,
    pub action: Seq<char>,
    pub reason: Seq<char>,
    pub explanation: Seq<char>,
    pub notification: Option<NotificationView>,
}

/// The value of a notification that may be missing.
pub open spec fn notification_view(n: Option<AlertNotification>) -> Option<NotificationView> {
    match n {
        Some(x) => Some(x@),
        None => None,
    }
}

impl View for AlertPolicyDecision {
    type V = DecisionView;

    open spec fn view(&self) -> DecisionView {
        DecisionView {
            state: self.state,
            action: self.action@,
            reason: self.reason@,
            explanation: self.explanation@,
            notification: notification_view(self.notification),
        }
    }
}

/// Why an action could not be carried out.
#[derive(Debug, PartialEq, Eq)]
pub struct ActionError {
    pub message: String,
}

/// A call of an executor, with what it was given and what came back. The fault is the
/// message of the error; there is none where the call succeeded.
pub enum ExecutorCall {
    /// A message was to be shown to the user.
    Show { message: Seq<char>, fault: Option<Seq<char>> },
    /// The bell was to be rung.
    Bell { fault: Option<Seq<char>> },
    /// A process was to be interrupted.
    Interrupt { pid: u32, fault: Option<Seq<char>> },
    /// A process was to be killed.
    ForceKill { pid: u32, fault: Option<Seq<char>> },
    /// A checkpoint was to be saved: its directory or the message of the error.
    Checkpoint { state: AgentState, cwd: Seq<char>, reply: Result<Seq<char>, Seq<char>> },
    /// A line was to be appended to the alert log.
    Log { path: Seq<char>, line: Seq<char>, fault: Option<Seq<char>> },
}

/// The message of an error, where there is one.
pub open spec fn fault_of(r: Result<(), ActionError>) -> Option<Seq<char>> {
    match r {
        Ok(_) => None,
        Err(e) => Some(e.message@),
    }
}

/// The directory of a checkpoint, or the message of the error.
pub open spec fn reply_of(r: Result<String, ActionError>) -> Result<Seq<char>, Seq<char>> {
    match r {
        Ok(dir) => Ok(dir@),
        Err(e) => Err(e.message@),
    }
}

/// Carries out the actions of an alerter. An implementation is free in what it does;
/// `calls` is the record of how it was called. The default of `calls` records nothing, so
/// a verified implementation defines its own: one that keeps the default cannot meet the
/// contracts.
pub trait AlertActionExecutor {
    /// The calls so far, in order. Nothing is known of them beyond what the methods
    /// say.
    open spec fn calls(&self) -> Seq<ExecutorCall> {
        arbitrary()
    }

    /// Shows a message to the user.
    fn write_stderr(&mut self, message: &str) -> (r: Result<(), ActionError>)
        ensures
            final(self).calls() == old(self).calls().push(
                ExecutorCall::Show { message: message@, fault: fault_of(r) },
            ),
    ;

    /// Rings the terminal bell.
    fn ring_bell(&mut self) -> (r: Result<(), ActionError>)
        ensures
            final(self).calls() == old(self).calls().push(
                ExecutorCall::Bell { fault: fault_of(r) },
            ),
    ;

    /// Interrupts a process.
    fn interrupt_pid(&mut self, pid: u32) -> (r: Result<(), ActionError>)
        ensures
            final(self).calls() == old(self).calls().push(
                ExecutorCall::Interrupt { pid, fault: fault_of(r) },
            ),
    ;

    /// Kills a process.
    fn force_kill_pid(&mut self, pid: u32) -> (r: Result<(), ActionError>)
        ensures
            final(self).calls() == old(self).calls().push(
                ExecutorCall::ForceKill { pid, fault: fault_of(r) },
            ),
    ;

    /// Saves a checkpoint and returns its directory.
    fn save_checkpoint(&mut self, state: &AgentState, cwd: &str) -> (r: Result<
        String,
        ActionError,
    >)
        ensures
            final(self).calls() == old(self).calls().push(
                ExecutorCall::Checkpoint { state: *state, cwd: cwd@, reply: reply_of(r) },
            ),
    ;

    /// Appends a line to the alert log at a path.
    fn append_log(&mut self, path: &str, line: &str) -> (r: Result<(), ActionError>)
        ensures
            final(self).calls() == old(self).calls().push(
                ExecutorCall::Log { path: path@, line: line@, fault: fault_of(r) },
            ),
    ;
}

/// The label of a phase.
pub open spec fn phase_name(phase: PhaseView) -> Seq<char> {
    match phase {
        PhaseView::Initializing => "INITIALIZING"@,
        PhaseView::Working => "WORKING"@,
        PhaseView::Thinking => "THINKING"@,
        PhaseView::ApiHang(_) => "API_HANG"@,
        PhaseView::ToolLoop { .. } => "TOOL_LOOP"@,
        PhaseView::TestLoop { .. } => "TEST_LOOP"@,
        PhaseView::TaskBlocked { .. } => "TASK_BLOCKED"@,
        PhaseView::ContextReset => "CONTEXT_RESET"@,
        PhaseView::ScopeLeaking { .. } => "SCOPE_LEAKING"@,
        PhaseView::Idle(_) => "IDLE"@,
        PhaseView::Dead => "DEAD"@,
    }
}

/// The label of a phase.
pub fn phase_label(phase: &AgentPhase) -> (r: &'static str)
    ensures
        r@ == phase_name(phase@),
{
    match phase {
        AgentPhase::Initializing => "INITIALIZING",
        AgentPhase::Working => "WORKING",
        AgentPhase::Thinking => "THINKING",
        AgentPhase::ApiHang(_) => "API_HANG",
        AgentPhase::ToolLoop { .. } => "TOOL_LOOP",
        AgentPhase::TestLoop { .. } => "TEST_LOOP",
        AgentPhase::TaskBlocked { .. } => "TASK_BLOCKED",
        AgentPhase::ContextReset => "CONTEXT_RESET",
        AgentPhase::ScopeLeaking { .. } => "SCOPE_LEAKING",
        AgentPhase::Idle(_) => "IDLE",
        AgentPhase::Dead => "DEAD",
    }
}

/// The kind of a phase, without its details.
#[derive(Debug, Clone, Copy, PartialEq, Eq, Structural)]
pub enum PhaseKind {
    Initializing,
    Working,
    Thinking,
    ApiHang,
    ToolLoop,
    TestLoop,
    TaskBlocked,
    ContextReset,
    ScopeLeaking,
    Idle,
    Dead,
}

/// The kind of a phase.
pub open spec fn kind_of(phase: PhaseView) -> PhaseKind {
    match phase {
        PhaseView::Initializing => PhaseKind::Initializing,
        PhaseView::Working => PhaseKind::Working,
        PhaseView::Thinking => PhaseKind::Thinking,
        PhaseView::ApiHang(_) => PhaseKind::ApiHang,
        PhaseView::ToolLoop { .. } => PhaseKind::ToolLoop,
        PhaseView::TestLoop { .. } => PhaseKind::TestLoop,
        PhaseView::TaskBlocked { .. } => PhaseKind::TaskBlocked,
        PhaseView::ContextReset => PhaseKind::ContextReset,
        PhaseView::ScopeLeaking { .. } => PhaseKind::ScopeLeaking,
        PhaseView::Idle(_) => PhaseKind::Idle,
        PhaseView::Dead => PhaseKind::Dead,
    }
}

/// The kind of a phase.
pub fn phase_key(phase: &AgentPhase) -> (r: PhaseKind)
    ensures
        r == kind_of(phase@),
{
    match phase {
        AgentPhase::Initializing => PhaseKind::Initializing,
        AgentPhase::Working => PhaseKind::Working,
        AgentPhase::Thinking => PhaseKind::Thinking,
        AgentPhase::ApiHang(_) => PhaseKind::ApiHang,
        AgentPhase::ToolLoop { .. } => PhaseKind::ToolLoop,
        AgentPhase::TestLoop { .. } => PhaseKind::TestLoop,
        AgentPhase::TaskBlocked { .. } => PhaseKind::TaskBlocked,
        AgentPhase::ContextReset => PhaseKind::ContextReset,
        AgentPhase::ScopeLeaking { .. } => PhaseKind::ScopeLeaking,
        AgentPhase::Idle(_) => PhaseKind::Idle,
        AgentPhase::Dead => PhaseKind::Dead,
    }
}

/// Whether a session in this phase is stuck.
pub open spec fn is_stuck(phase: PhaseView) -> bool {
    phase is ApiHang || phase is ToolLoop || phase is TestLoop
}

/// Whether a phase calls for an alert.
pub open spec fn alerts(phase: PhaseView) -> bool {
    is_stuck(phase) || phase is TaskBlocked || phase is ContextReset || phase is ScopeLeaking
        || phase is Dead
}

/// Decides whether a phase calls for an alert.
pub fn is_alert_phase(phase: &AgentPhase) -> (r: bool)
    ensures
        r == alerts(phase@),
{
    match phase {
        AgentPhase::ApiHang(_) => true,
        AgentPhase::ToolLoop { .. } => true,
        AgentPhase::TestLoop { .. } => true,
        AgentPhase::TaskBlocked { .. } => true,
        AgentPhase::ContextReset => true,
        AgentPhase::ScopeLeaking { .. } => true,
        AgentPhase::Dead => true,
        _ => false,
    }
}

/// The value of a phase that may be missing.
pub open spec fn phase_view(phase: Option<&AgentPhase>) -> Option<PhaseView> {
    match phase {
        Some(p) => Some(p@),
        None => None,
    }
}

/// Whether a phase change raises an alert that was not raised before.
pub open spec fn raises_alert(previous: Option<PhaseView>, phase: PhaseView) -> bool {
    alerts(phase) && (previous is Some ==> kind_of(previous->0) != kind_of(phase))
}

/// Decides whether a phase change raises an alert that was not raised before.
pub fn is_new_alert(previous_phase: Option<&AgentPhase>, phase: &AgentPhase) -> (r: bool)
    ensures
        r == raises_alert(phase_view(previous_phase), phase@),
{
    is_alert_phase(phase) && match previous_phase {
        Some(previous) => phase_key(previous) != phase_key(phase),
        None => true,
    }
}

/// The action for a stuck session.
pub open spec fn stuck_action(action: StuckAction) -> AlertAction {
    match action {
        StuckAction::Warn => AlertAction::Warn,
        StuckAction::Bell => AlertAction::Bell,
        StuckAction::Kill => AlertAction::Kill,
        StuckAction::CheckpointKill => AlertAction::CheckpointKill,
    }
}

/// The action that the settings name for a phase.
pub open spec fn action_for(config: AlerterConfig, phase: PhaseView) -> AlertAction {
    if is_stuck(phase) || phase is Dead {
        stuck_action(config.stuck_action)
    } else if phase is ScopeLeaking {
        match config.scope_leak_action {
            ScopeLeakAction::Warn => AlertAction::Warn,
            ScopeLeakAction::Bell => AlertAction::Bell,
            ScopeLeakAction::Kill => AlertAction::Kill,
        }
    } else {
        AlertAction::Warn
    }
}

fn stuck_answer(action: StuckAction) -> (r: AlertAction)
    ensures
        r == stuck_action(action),
{
    match action {
        StuckAction::Warn => AlertAction::Warn,
        StuckAction::Bell => AlertAction::Bell,
        StuckAction::Kill => AlertAction::Kill,
        StuckAction::CheckpointKill => AlertAction::CheckpointKill,
    }
}

/// Picks the action that the settings name for a phase.
pub fn configured_action(config: &AlerterConfig, phase: &AgentPhase) -> (r: AlertAction)
    ensures
        r == action_for(*config, phase@),
{
    match phase {
        AgentPhase::ApiHang(_) => stuck_answer(config.stuck_action),
        AgentPhase::ToolLoop { .. } => stuck_answer(config.stuck_action),
        AgentPhase::TestLoop { .. } => stuck_answer(config.stuck_action),
        AgentPhase::Dead => stuck_answer(config.stuck_action),
        AgentPhase::ScopeLeaking { .. } => match config.scope_leak_action {
            ScopeLeakAction::Warn => AlertAction::Warn,
            ScopeLeakAction::Bell => AlertAction::Bell,
            ScopeLeakAction::Kill => AlertAction::Kill,
        },
        _ => AlertAction::Warn,
    }
}

/// The message of an alert.
pub open spec fn message_for(phase: PhaseView, cwd: Seq<char>, agent: Seq<char>) -> Seq<char> {
    match phase {
        PhaseView::ApiHang(span) => "after "@ + decimal(span.secs())
            + "s - agent appears stuck waiting on the API"@,
        PhaseView::ToolLoop { file, count, .. } => "file="@ + shown_path(cwd, file) + " rewrites="@
            + decimal(count as nat) + " - same file keeps being rewritten"@,
        PhaseView::TestLoop { command, failure_count } => "command=\""@ + command + "\" failures="@
            + decimal(failure_count as nat) + " - repeated failing test command"@,
        PhaseView::TaskBlocked { task_id, blocked_by } => "task_id="@ + task_id + " blocked_by="@
            + joined(blocked_by, ","@) + " - task dependencies are not completed"@,
        PhaseView::ContextReset => "Context was compacted - earlier constraints may be lost"@,
        PhaseView::ScopeLeaking { violating_file, guard_path } => "file="@ + shown_path(
            cwd,
            violating_file,
        ) + " guard="@ + shown_path(cwd, guard_path)
            + " - edited outside the configured guard"@,
        PhaseView::Dead => "process exited - "@ + agent + " is no longer alive"@,
        _ => "unexpected alert transition"@,
    }
}

/// Writes the message of an alert.
pub fn alert_message(phase: &AgentPhase, cwd: &str, agent: &str) -> (r: String)
    ensures
        r@ == message_for(phase@, cwd@, agent@),
{
    match phase {
        AgentPhase::ApiHang(span) => {
            let mut out: String = "after ".to_owned();
            push_decimal(&mut out, span.as_secs());
            out.append("s - agent appears stuck waiting on the API");
            out
        },
        AgentPhase::ToolLoop { file, count, .. } => {
            let mut out: String = "file=".to_owned();
            out.append(show_path(cwd, file.as_str()).as_str());
            out.append(" rewrites=");
            push_decimal(&mut out, *count as u128);
            out.append(" - same file keeps being rewritten");
            out
        },
        AgentPhase::TestLoop { command, failure_count } => {
            let mut out: String = "command=\"".to_owned();
            out.append(command.as_str());
            out.append("\" failures=");
            push_decimal(&mut out, *failure_count as u128);
            out.append(" - repeated failing test command");
            out
        },
        AgentPhase::TaskBlocked { task_id, blocked_by } => {
            let mut out: String = "task_id=".to_owned();
            out.append(task_id.as_str());
            out.append(" blocked_by=");
            out.append(join(blocked_by, ",").as_str());
            out.append(" - task dependencies are not completed");
            out
        },
        AgentPhase::ContextReset => {
            "Context was compacted - earlier constraints may be lost".to_owned()
        },
        AgentPhase::ScopeLeaking { violating_file, guard_path } => {
            let mut out: String = "file=".to_owned();
            out.append(show_path(cwd, violating_file.as_str()).as_str());
            out.append(" guard=");
            out.append(show_path(cwd, guard_path.as_str()).as_str());
            out.append(" - edited outside the configured guard");
            out
        },
        AgentPhase::Dead => {
            let mut out: String = "process exited - ".to_owned();
            out.append(agent);
            out.append(" is no longer alive");
            out
        },
        _ => "unexpected alert transition".to_owned(),
    }
}

/// What the user is told to do about an alert.
pub open spec fn suggestion_for(phase: PhaseView, agent: Seq<char>) -> Option<Seq<char>> {
    match phase {
        PhaseView::ApiHang(_) => Some(
            "send a follow-up or use --on-stuck kill/--checkpoint if it stays blocked"@,
        ),
        PhaseView::ToolLoop { .. } => Some(
            "inspect the repeated write target before interrupting"@,
        ),
        PhaseView::TestLoop { .. } => Some("fix the failing test command before rerunning it"@),
        PhaseView::TaskBlocked { .. } => Some(
            "complete or reassign the blocking task dependencies before continuing"@,
        ),
        PhaseView::ContextReset => Some(
            "restate any critical constraints before the session resumes work"@,
        ),
        PhaseView::ScopeLeaking { .. } => Some(
            "tighten --guard or stop the session to limit drift"@,
        ),
        PhaseView::Dead => Some("restart the "@ + agent + " process to resume monitoring"@),
        _ => None,
    }
}

/// Suggests what to do about an alert.
pub fn alert_suggestion(phase: &AgentPhase, agent: &str) -> (r: Option<String>)
    ensures
        text_view(r) == suggestion_for(phase@, agent@),
{
    match phase {
        AgentPhase::ApiHang(_) => Some(
            "send a follow-up or use --on-stuck kill/--checkpoint if it stays blocked".to_owned(),
        ),
        AgentPhase::ToolLoop { .. } => Some(
            "inspect the repeated write target before interrupting".to_owned(),
        ),
        AgentPhase::TestLoop { .. } => Some(
            "fix the failing test command before rerunning it".to_owned(),
        ),
        AgentPhase::TaskBlocked { .. } => Some(
            "complete or reassign the blocking task dependencies before continuing".to_owned(),
        ),
        AgentPhase::ContextReset => Some(
            "restate any critical constraints before the session resumes work".to_owned(),
        ),
        AgentPhase::ScopeLeaking { .. } => Some(
            "tighten --guard or stop the session to limit drift".to_owned(),
        ),
        AgentPhase::Dead => {
            let mut out: String = "restart the ".to_owned();
            out.append(agent);
            out.append(" process to resume monitoring");
            Some(out)
        },
        _ => None,
    }
}

/// Where the alert log of a project lies.
pub open spec fn alert_log(cwd: Seq<char>) -> Seq<char> {
    joined_path(cwd, ".saw/alerts.log"@)
}

/// The path of the alert log of a project.
pub fn alert_log_path(cwd: &str) -> (r: String)
    ensures
        r@ == alert_log(cwd@),
{
    join_path(cwd, ".saw/alerts.log")
}

/// A phase label in bold terminal colors: red for a dead session, else yellow.
pub open spec fn colored(phase: Seq<char>) -> Seq<char> {
    "\x1b[1;"@ + (if phase == "DEAD"@ {
        "31"@
    } else {
        "33"@
    }) + "m"@ + phase + "\x1b[0m"@
}

/// Colors a phase label.
pub fn colorize_phase(phase: &str) -> (r: String)
    ensures
        r@ == colored(phase@),
{
    let mut out: String = "\x1b[1;".to_owned();
    if same_text(phase, "DEAD") {
        out.append("31");
    } else {
        out.append("33");
    }
    out.append("m");
    out.append(phase);
    out.append("\x1b[0m");
    out
}

/// A labelled part of an alert line, where it is present.
pub open spec fn labelled(before: Seq<char>, value: Option<Seq<char>>, after: Seq<char>) -> Seq<
    char,
> {
    match value {
        Some(t) => before + t + after,
        None => seq![],
    }
}

/// An alert as one line.
pub open spec fn alert_line(n: NotificationView, color: bool) -> Seq<char> {
    shown_time(n.timestamp) + " ALERT "@ + (if color {
        colored(n.phase)
    } else {
        n.phase
    }) + " "@ + n.message + " action="@ + n.action + labelled(" from="@, n.previous_phase, seq![])
        + labelled(" suggestion=\""@, n.suggestion, "\""@) + labelled(
        " checkpoint="@,
        n.checkpoint_dir,
        seq![],
    )
}

fn render_notification_line(notification: &AlertNotification, color: bool) -> (r: String)
    ensures
        r@ == alert_line(notification@, color),
{
    let mut out: String = format_timestamp(notification.timestamp);
    out.append(" ALERT ");
    if color {
        out.append(colorize_phase(notification.phase).as_str());
    } else {
        out.append(notification.phase);
    }
    out.append(" ");
    out.append(notification.message.as_str());
    out.append(" action=");
    out.append(notification.action);
    let ghost head = out@;
    if let Some(previous_phase) = notification.previous_phase {
        out.append(" from=");
        out.append(previous_phase);
    }
    assert(out@ =~= head + labelled(" from="@, notification@.previous_phase, seq![]));
    let ghost second = out@;
    if let Some(suggestion) = &notification.suggestion {
        out.append(" suggestion=\"");
        out.append(suggestion.as_str());
        out.append("\"");
    }
    assert(out@ =~= second + labelled(" suggestion=\""@, notification@.suggestion, "\""@));
    let ghost third = out@;
    if let Some(checkpoint_dir) = &notification.checkpoint_dir {
        out.append(" checkpoint=");
        out.append(checkpoint_dir.as_str());
    }
    assert(out@ =~= third + labelled(" checkpoint="@, notification@.checkpoint_dir, seq![]));
    out
}

impl AlertNotification {
    /// Writes the alert as a line of the log.
    pub fn render_human(&self) -> (r: String)
        ensures
            r@ == alert_line(self@, false),
    {
        render_notification_line(self, false)
    }

    /// Writes the alert as a line of the terminal.
    pub fn render_stderr(&self, color: bool) -> (r: String)
        ensures
            r@ == alert_line(self@, color),
    {
        render_notification_line(self, color)
    }
}

/// The signal that answers an alert.
#[derive(Debug, Clone, Copy, PartialEq, Eq, Structural)]
pub enum Signal {
    /// No signal.
    Silent,
    /// Interrupt the process; a failure is an error.
    Interrupt(u32),
    /// Kill the process; a failure does not matter.
    ForceKill(u32),
}

/// Why an action was held back.
#[derive(Debug, Clone, Copy, PartialEq, Eq, Structural)]
pub enum Gate {
    /// A stuck session has no process to interrupt.
    StuckWithoutPid,
    /// A stuck session was checkpointed and has no process to interrupt.
    CheckpointWithoutPid,
    /// A session that left its scope has no process to interrupt.
    ScopeWithoutPid,
    /// A dead session has no process to kill.
    DeadWithoutPid,
    /// A dead session has no process to kill after a checkpoint.
    DeadCheckpointWithoutPid,
}

/// What an alert calls for: a checkpoint first, then a signal, unless the
/// action is held back.
#[derive(Debug, Clone, Copy, PartialEq, Eq, Structural)]
pub struct ActionPlan {
    pub checkpoint: bool,
    pub signal: Signal,
    pub gate: Option<Gate>,
}

/// A plan that interrupts a process, held back where there is none.
pub open spec fn interrupt_plan(checkpoint: bool, pid: Option<u32>, gate: Gate) -> ActionPlan {
    match pid {
        Some(p) => ActionPlan { checkpoint, signal: Signal::Interrupt(p), gate: None },
        None => ActionPlan { checkpoint, signal: Signal::Silent, gate: Some(gate) },
    }
}

/// A plan that kills a process, held back where there is none.
pub open spec fn kill_plan(pid: Option<u32>, gate: Gate) -> ActionPlan {
    match pid {
        Some(p) => ActionPlan { checkpoint: false, signal: Signal::ForceKill(p), gate: None },
        None => ActionPlan { checkpoint: false, signal: Signal::Silent, gate: Some(gate) },
    }
}

/// What an alert for a phase calls for.
pub open spec fn plan_for(config: AlerterConfig, phase: PhaseView, pid: Option<u32>) -> ActionPlan {
    let nothing = ActionPlan { checkpoint: false, signal: Signal::Silent, gate: None };
    if is_stuck(phase) {
        match config.stuck_action {
            StuckAction::Warn => ActionPlan {
                checkpoint: config.checkpoint_before_action,
                ..nothing
            },
            StuckAction::Bell => ActionPlan {
                checkpoint: config.checkpoint_before_action,
                ..nothing
            },
            StuckAction::Kill => interrupt_plan(
                config.checkpoint_before_action,
                pid,
                Gate::StuckWithoutPid,
            ),
            StuckAction::CheckpointKill => interrupt_plan(true, pid, Gate::CheckpointWithoutPid),
        }
    } else if phase is ScopeLeaking && config.scope_leak_action == ScopeLeakAction::Kill {
        interrupt_plan(false, pid, Gate::ScopeWithoutPid)
    } else if phase is Dead && config.stuck_action == StuckAction::Kill {
        kill_plan(pid, Gate::DeadWithoutPid)
    } else if phase is Dead && config.stuck_action == StuckAction::CheckpointKill {
        kill_plan(pid, Gate::DeadCheckpointWithoutPid)
    } else {
        nothing
    }
}

fn plan_interrupt(checkpoint: bool, pid: Option<u32>, gate: Gate) -> (r: ActionPlan)
    ensures
        r == interrupt_plan(checkpoint, pid, gate),
{
    match pid {
        Some(p) => ActionPlan { checkpoint, signal: Signal::Interrupt(p), gate: None },
        None => ActionPlan { checkpoint, signal: Signal::Silent, gate: Some(gate) },
    }
}

fn plan_kill(pid: Option<u32>, gate: Gate) -> (r: ActionPlan)
    ensures
        r == kill_plan(pid, gate),
{
    match pid {
        Some(p) => ActionPlan { checkpoint: false, signal: Signal::ForceKill(p), gate: None },
        None => ActionPlan { checkpoint: false, signal: Signal::Silent, gate: Some(gate) },
    }
}

/// Plans what an alert for a phase calls for.
pub fn plan_action(config: &AlerterConfig, phase: &AgentPhase, pid: Option<u32>) -> (r: ActionPlan)
    ensures
        r == plan_for(*config, phase@, pid),
{
    let nothing = ActionPlan { checkpoint: false, signal: Signal::Silent, gate: None };
    let key = phase_key(phase);
    if key == PhaseKind::ApiHang || key == PhaseKind::ToolLoop || key == PhaseKind::TestLoop {
        return match config.stuck_action {
            StuckAction::Warn => ActionPlan {
                checkpoint: config.checkpoint_before_action,
                signal: Signal::Silent,
                gate: None,
            },
            StuckAction::Bell => ActionPlan {
                checkpoint: config.checkpoint_before_action,
                signal: Signal::Silent,
                gate: None,
            },
            StuckAction::Kill => plan_interrupt(
                config.checkpoint_before_action,
                pid,
                Gate::StuckWithoutPid,
            ),
            StuckAction::CheckpointKill => plan_interrupt(
                true,
                pid,
                Gate::CheckpointWithoutPid,
            ),
        };
    }
    if key == PhaseKind::ScopeLeaking {
        return match config.scope_leak_action {
            ScopeLeakAction::Kill => plan_interrupt(false, pid, Gate::ScopeWithoutPid),
            _ => nothing,
        };
    }
    if key == PhaseKind::Dead {
        return match config.stuck_action {
            StuckAction::Kill => plan_kill(pid, Gate::DeadWithoutPid),
            StuckAction::CheckpointKill => plan_kill(pid, Gate::DeadCheckpointWithoutPid),
            _ => nothing,
        };
    }
    nothing
}

/// The explanation of an action that was held back.
pub open spec fn gate_explanation(gate: Gate, checkpoint_dir: Option<Seq<char>>) -> Seq<char> {
    match gate {
        Gate::StuckWithoutPid =>
            "configured interrupt action skipped because the watcher has no live pid to signal"@,
        Gate::CheckpointWithoutPid => "checkpoint saved at "@ + (match checkpoint_dir {
            Some(dir) => dir,
            None => seq![],
        }) + " but interrupt skipped because the watcher has no live pid to signal"@,
        Gate::ScopeWithoutPid =>
            "configured scope-leak interrupt skipped because the watcher has no live pid to signal"@,
        Gate::DeadWithoutPid =>
            "force-kill skipped because the watcher has no pid for the exited process"@,
        Gate::DeadCheckpointWithoutPid =>
            "checkpoint-kill skipped because the watcher has no pid for the exited process"@,
    }
}

fn explain_gate(gate: Gate, checkpoint_dir: &Option<String>) -> (r: String)
    ensures
        r@ == gate_explanation(gate, text_view(*checkpoint_dir)),
{
    match gate {
        Gate::StuckWithoutPid =>
            "configured interrupt action skipped because the watcher has no live pid to signal".to_owned(),
        Gate::CheckpointWithoutPid => {
            let mut out: String = "checkpoint saved at ".to_owned();
            if let Some(dir) = checkpoint_dir {
                out.append(dir.as_str());
            } else {
                assert(out@ =~= "checkpoint saved at "@ + seq![]);
            }
            out.append(" but interrupt skipped because the watcher has no live pid to signal");
            out
        },
        Gate::ScopeWithoutPid =>
            "configured scope-leak interrupt skipped because the watcher has no live pid to signal".to_owned(),
        Gate::DeadWithoutPid =>
            "force-kill skipped because the watcher has no pid for the exited process".to_owned(),
        Gate::DeadCheckpointWithoutPid =>
            "checkpoint-kill skipped because the watcher has no pid for the exited process".to_owned(),
    }
}

/// Whether an action was taken less than the rate limit ago.
pub open spec fn rate_limited(a: Alerter, action: AlertAction, now: Timestamp) -> bool {
    match a.last_action_at.of(action) {
        Some(last) => match now.since(last) {
            Some(elapsed) => elapsed < a.config.rate_limit.nanos,
            None => false,
        },
        None => false,
    }
}

/// The decision about a phase change that calls for no action now; `None` where
/// it calls for one.
pub open spec fn idle_decision(
    a: Alerter,
    from: Option<PhaseView>,
    to: PhaseView,
    now: Timestamp,
) -> Option<DecisionView> {
    let action = action_for(a.config, to);
    if !alerts(to) {
        Some(
            DecisionView {
                state: AlertDecisionState::Skipped,
                action: "none"@,
                reason: "not_alert_phase"@,
                explanation: "phase "@ + phase_name(to)
                    + " does not trigger an automated watcher action"@,
                notification: None,
            },
        )
    } else if !raises_alert(from, to) {
        Some(
            DecisionView {
                state: AlertDecisionState::Skipped,
                action: action.name(),
                reason: "no_new_alert"@,
                explanation: "phase "@ + phase_name(to)
                    + " did not transition into a new alert condition"@,
                notification: None,
            },
        )
    } else if rate_limited(a, action, now) {
        Some(
            DecisionView {
                state: AlertDecisionState::Gated,
                action: action.name(),
                reason: "rate_limited"@,
                explanation: "action "@ + action.name() + " suppressed by "@ + decimal(
                    a.config.rate_limit.secs(),
                ) + "s rate limit"@,
                notification: None,
            },
        )
    } else {
        None
    }
}

/// The notification of an alert that was answered.
pub open spec fn raised_notification(
    config: AlerterConfig,
    from: Option<PhaseView>,
    to: PhaseView,
    now: Timestamp,
    cwd: Seq<char>,
    agent: Seq<char>,
    checkpoint_dir: Option<Seq<char>>,
) -> NotificationView {
    NotificationView {
        timestamp: now,
        previous_phase: match from {
            Some(p) => Some(phase_name(p)),
            None => None,
        },
        phase: phase_name(to),
        message: message_for(to, cwd, agent),
        suggestion: suggestion_for(to, agent),
        action: action_for(config, to).name(),
        checkpoint_dir,
    }
}

/// The decision about an alert whose plan was carried out, with the checkpoint
/// directory that came of it.
pub open spec fn acted_decision(
    a: Alerter,
    from: Option<PhaseView>,
    to: PhaseView,
    now: Timestamp,
    cwd: Seq<char>,
    agent: Seq<char>,
    pid: Option<u32>,
    checkpoint_dir: Option<Seq<char>>,
) -> DecisionView {
    let action = action_for(a.config, to);
    match plan_for(a.config, to, pid).gate {
        Some(gate) => DecisionView {
            state: AlertDecisionState::Gated,
            action: action.name(),
            reason: "missing_pid"@,
            explanation: gate_explanation(gate, checkpoint_dir),
            notification: None,
        },
        None => DecisionView {
            state: AlertDecisionState::Executed,
            action: action.name(),
            reason: "executed"@,
            explanation: "action "@ + action.name() + " executed for "@ + phase_name(to),
            notification: Some(
                raised_notification(a.config, from, to, now, cwd, agent, checkpoint_dir),
            ),
        },
    }
}

/// The alerter after a plan was carried out: it remembers the action, unless it
/// was held back.
pub open spec fn acted_alerter(
    a: Alerter,
    to: PhaseView,
    now: Timestamp,
    pid: Option<u32>,
) -> Alerter {
    match plan_for(a.config, to, pid).gate {
        Some(_) => a,
        None => Alerter {
            last_action_at: a.last_action_at.with(action_for(a.config, to), now),
            ..a
        },
    }
}

/// What an executor answers, for each of the calls that an alert can need.
pub struct Replies {
    pub checkpoint: Result<Seq<char>, Seq<char>>,
    pub interrupt: Option<Seq<char>>,
    pub force_kill: Option<Seq<char>>,
    pub show: Option<Seq<char>>,
    pub bell: Option<Seq<char>>,
    pub log: Option<Seq<char>>,
}

/// The calls that carry out a plan: the checkpoint first, then the signal, which is
/// not sent where the checkpoint failed.
pub open spec fn action_calls(
    plan: ActionPlan,
    state: AgentState,
    cwd: Seq<char>,
    replies: Replies,
) -> Seq<ExecutorCall> {
    let saved = if plan.checkpoint {
        seq![ExecutorCall::Checkpoint { state, cwd, reply: replies.checkpoint }]
    } else {
        seq![]
    };
    if plan.checkpoint && replies.checkpoint is Err {
        saved
    } else {
        saved + (match plan.signal {
            Signal::Silent => seq![],
            Signal::Interrupt(pid) => seq![
                ExecutorCall::Interrupt { pid, fault: replies.interrupt },
            ],
            Signal::ForceKill(pid) => seq![
                ExecutorCall::ForceKill { pid, fault: replies.force_kill },
            ],
        })
    }
}

/// The fault that ends a plan: that of the checkpoint or of the interrupt. A failure to
/// kill a dead process does not count.
pub open spec fn action_fault(plan: ActionPlan, replies: Replies) -> Option<Seq<char>> {
    if plan.checkpoint && replies.checkpoint is Err {
        Some(replies.checkpoint->Err_0)
    } else if plan.signal is Interrupt {
        replies.interrupt
    } else {
        None
    }
}

/// The directory of the checkpoint that a plan asks for.
pub open spec fn saved_dir(plan: ActionPlan, replies: Replies) -> Option<Seq<char>> {
    if plan.checkpoint {
        Some(replies.checkpoint->Ok_0)
    } else {
        None
    }
}

/// The calls that show a notification.
pub open spec fn show_calls(n: NotificationView, color: bool, bell: bool, replies: Replies) -> Seq<
    ExecutorCall,
> {
    seq![ExecutorCall::Show { message: alert_line(n, color), fault: replies.show }] + (if bell
        && replies.show is None {
        seq![ExecutorCall::Bell { fault: replies.bell }]
    } else {
        seq![]
    })
}

/// The fault that keeps a notification from being shown.
pub open spec fn show_fault(bell: bool, replies: Replies) -> Option<Seq<char>> {
    if replies.show is Some || !bell {
        replies.show
    } else {
        replies.bell
    }
}

/// The calls that report an alert: it is shown, with the bell where that is the action,
/// and then logged. The first call that fails is the last one.
pub open spec fn report_calls(
    n: NotificationView,
    color: bool,
    bell: bool,
    cwd: Seq<char>,
    replies: Replies,
) -> Seq<ExecutorCall> {
    show_calls(n, color, bell, replies) + (if show_fault(bell, replies) is None {
        seq![
            ExecutorCall::Log {
                path: alert_log(cwd),
                line: alert_line(n, false),
                fault: replies.log,
            },
        ]
    } else {
        seq![]
    })
}

/// The fault that ends a report.
pub open spec fn report_fault(bell: bool, replies: Replies) -> Option<Seq<char>> {
    match show_fault(bell, replies) {
        Some(fault) => Some(fault),
        None => replies.log,
    }
}

/// The circumstances of a phase change, as values.
pub struct ChangeView {
    pub from: Option<PhaseView>,
    pub to: PhaseView,
    pub now: Timestamp,
    pub cwd: Seq<char>,
    pub state: AgentState,
    pub pid: Option<u32>,
    pub agent: Seq<char>,
}

/// The circumstances of a phase change, as values.
pub open spec fn change_view(
    from: Option<&AgentPhase>,
    to: &AgentPhase,
    context: AlertContext<'_>,
) -> ChangeView {
    ChangeView {
        from: phase_view(from),
        to: to@,
        now: context.timestamp,
        cwd: context.cwd@,
        state: *context.state,
        pid: context.pid,
        agent: context.agent@,
    }
}

/// What became of a phase change: the decision or the message of the error, the alerter
/// afterwards, and the calls that were made.
pub struct Evaluation {
    pub result: Result<DecisionView, Seq<char>>,
    pub alerter: Alerter,
    pub calls: Seq<ExecutorCall>,
}

/// What becomes of a phase change, given the replies of the executor.
pub open spec fn evaluation(a: Alerter, change: ChangeView, replies: Replies) -> Evaluation {
    let plan = plan_for(a.config, change.to, change.pid);
    let dir = saved_dir(plan, replies);
    let bell = action_for(a.config, change.to) == AlertAction::Bell;
    let acted = action_calls(plan, change.state, change.cwd, replies);
    let notification = raised_notification(
        a.config,
        change.from,
        change.to,
        change.now,
        change.cwd,
        change.agent,
        dir,
    );
    let decision = acted_decision(
        a,
        change.from,
        change.to,
        change.now,
        change.cwd,
        change.agent,
        change.pid,
        dir,
    );
    match idle_decision(a, change.from, change.to, change.now) {
        Some(idle) => Evaluation { result: Ok(idle), alerter: a, calls: seq![] },
        None => match action_fault(plan, replies) {
            Some(fault) => Evaluation { result: Err(fault), alerter: a, calls: acted },
            None => if plan.gate is Some {
                Evaluation { result: Ok(decision), alerter: a, calls: acted }
            } else {
                let calls = acted + report_calls(
                    notification,
                    a.config.color,
                    bell,
                    change.cwd,
                    replies,
                );
                match report_fault(bell, replies) {
                    Some(fault) => Evaluation { result: Err(fault), alerter: a, calls },
                    None => Evaluation {
                        result: Ok(decision),
                        alerter: acted_alerter(a, change.to, change.now, change.pid),
                        calls,
                    },
                }
            },
        },
    }
}

/// The value of a decision or of the error in its place.
pub open spec fn outcome_view(r: Result<AlertPolicyDecision, ActionError>) -> Result<
    DecisionView,
    Seq<char>,
> {
    match r {
        Ok(decision) => Ok(decision@),
        Err(e) => Err(e.message@),
    }
}

/// The notification of a decision.
pub open spec fn raised(r: Result<DecisionView, Seq<char>>) -> Result<
    Option<NotificationView>,
    Seq<char>,
> {
    match r {
        Ok(decision) => Ok(decision.notification),
        Err(fault) => Err(fault),
    }
}

/// The value of a notification or of the error in its place.
pub open spec fn notice_view(r: Result<Option<AlertNotification>, ActionError>) -> Result<
    Option<NotificationView>,
    Seq<char>,
> {
    match r {
        Ok(notification) => Ok(notification_view(notification)),
        Err(e) => Err(e.message@),
    }
}

impl Alerter {
    /// An alerter that has not acted yet.
    pub fn new(config: AlerterConfig) -> (r: Self)
        ensures
            r.config == config,
            forall|action: AlertAction| (#[trigger] r.last_action_at.of(action)) is None,
    {
        Alerter {
            config,
            last_action_at: ActionTimes { warn: None, bell: None, kill: None, checkpoint_kill: None },
        }
    }

    /// Decides whether a status line is shown: always, or in quiet mode only
    /// with an alert.
    pub fn should_emit_status(&self, alert: Option<&AlertNotification>) -> (r: bool)
        ensures
            r == (!self.config.quiet || alert is Some),
    {
        !self.config.quiet || alert.is_some()
    }

    /// Decides whether an action was taken less than the rate limit ago.
    pub fn is_rate_limited(&self, action: AlertAction, now: Timestamp) -> (r: bool)
        ensures
            r == rate_limited(*self, action, now),
    {
        let last = match action {
            AlertAction::Warn => self.last_action_at.warn,
            AlertAction::Bell => self.last_action_at.bell,
            AlertAction::Kill => self.last_action_at.kill,
            AlertAction::CheckpointKill => self.last_action_at.checkpoint_kill,
        };
        match last {
            Some(last) => match now.checked_since(last) {
                Some(elapsed) => elapsed.nanos < self.config.rate_limit.nanos,
                None => false,
            },
            None => false,
        }
    }

    fn remember(&mut self, action: AlertAction, at: Timestamp)
        ensures
            final(self).config == old(self).config,
            final(self).last_action_at == old(self).last_action_at.with(action, at),
    {
        match action {
            AlertAction::Warn => {
                self.last_action_at.warn = Some(at);
            },
            AlertAction::Bell => {
                self.last_action_at.bell = Some(at);
            },
            AlertAction::Kill => {
                self.last_action_at.kill = Some(at);
            },
            AlertAction::CheckpointKill => {
                self.last_action_at.checkpoint_kill = Some(at);
            },
        }
    }

    /// Decides about a phase change that calls for no action now; `None` where
    /// it calls for one.
    pub fn decide(&self, from: Option<&AgentPhase>, to: &AgentPhase, now: Timestamp) -> (r: Option<
        AlertPolicyDecision,
    >)
        ensures
            match r {
                Some(d) => idle_decision(*self, phase_view(from), to@, now) == Some(d@),
                None => idle_decision(*self, phase_view(from), to@, now) is None,
            },
    {
        let action = configured_action(&self.config, to);
        if !is_alert_phase(to) {
            let mut explanation: String = "phase ".to_owned();
            explanation.append(phase_label(to));
            explanation.append(" does not trigger an automated watcher action");
            return Some(
                AlertPolicyDecision {
                    state: AlertDecisionState::Skipped,
                    action: "none",
                    reason: "not_alert_phase",
                    explanation,
                    notification: None,
                },
            );
        }
        if !is_new_alert(from, to) {
            let mut explanation: String = "phase ".to_owned();
            explanation.append(phase_label(to));
            explanation.append(" did not transition into a new alert condition");
            return Some(
                AlertPolicyDecision {
                    state: AlertDecisionState::Skipped,
                    action: action.label(),
                    reason: "no_new_alert",
                    explanation,
                    notification: None,
                },
            );
        }
        if self.is_rate_limited(action, now) {
            let mut explanation: String = "action ".to_owned();
            explanation.append(action.label());
            explanation.append(" suppressed by ");
            push_decimal(&mut explanation, self.config.rate_limit.as_secs());
            explanation.append("s rate limit");
            return Some(
                AlertPolicyDecision {
                    state: AlertDecisionState::Gated,
                    action: action.label(),
                    reason: "rate_limited",
                    explanation,
                    notification: None,
                },
            );
        }
        None
    }

    /// Builds the notification of an alert that was answered.
    pub fn notify(
        &self,
        from: Option<&AgentPhase>,
        to: &AgentPhase,
        now: Timestamp,
        cwd: &str,
        agent: &str,
        checkpoint_dir: Option<String>,
    ) -> (r: AlertNotification)
        ensures
            r@ == raised_notification(
                self.config,
                phase_view(from),
                to@,
                now,
                cwd@,
                agent@,
                text_view(checkpoint_dir),
            ),
    {
        let previous_phase = match from {
            Some(p) => Some(phase_label(p)),
            None => None,
        };
        AlertNotification {
            timestamp: now,
            previous_phase,
            phase: phase_label(to),
            message: alert_message(to, cwd, agent),
            suggestion: alert_suggestion(to, agent),
            action: configured_action(&self.config, to).label(),
            checkpoint_dir,
        }
    }

    /// Carries out a plan: the checkpoint first, then the signal. Returns the
    /// checkpoint directory, which there is exactly where the plan asks for one.
    fn execute_action<E: AlertActionExecutor>(
        plan: &ActionPlan,
        context: &AlertContext<'_>,
        executor: &mut E,
    ) -> (r: Result<Option<String>, ActionError>)
        ensures
            exists|replies: Replies|
                final(executor).calls() == old(executor).calls() + #[trigger] action_calls(
                    *plan,
                    *context.state,
                    context.cwd@,
                    replies,
                ) && match r {
                    Ok(dir) => action_fault(*plan, replies) is None && text_view(dir)
                        == saved_dir(*plan, replies),
                    Err(e) => action_fault(*plan, replies) == Some(e.message@),
                },
    {
        let ghost before = executor.calls();
        let ghost mut replies = Replies {
            checkpoint: Ok(seq![]),
            interrupt: None,
            force_kill: None,
            show: None,
            bell: None,
            log: None,
        };
        let checkpoint_dir = if plan.checkpoint {
            let reply = executor.save_checkpoint(context.state, context.cwd);
            proof {
                replies = Replies { checkpoint: reply_of(reply), ..replies };
            }
            match reply {
                Ok(dir) => Some(dir),
                Err(e) => {
                    assert(executor.calls() =~= before + action_calls(
                        *plan,
                        *context.state,
                        context.cwd@,
                        replies,
                    ));
                    return Err(e);
                },
            }
        } else {
            None
        };
        match plan.signal {
            Signal::Silent => {},
            Signal::Interrupt(pid) => {
                let reply = executor.interrupt_pid(pid);
                proof {
                    replies = Replies { interrupt: fault_of(reply), ..replies };
                }
                match reply {
                    Ok(_) => {},
                    Err(e) => {
                        assert(executor.calls() =~= before + action_calls(
                            *plan,
                            *context.state,
                            context.cwd@,
                            replies,
                        ));
                        return Err(e);
                    },
                }
            },
            Signal::ForceKill(pid) => {
                let reply = executor.force_kill_pid(pid);
                proof {
                    replies = Replies { force_kill: fault_of(reply), ..replies };
                }
            },
        }
        assert(executor.calls() =~= before + action_calls(
            *plan,
            *context.state,
            context.cwd@,
            replies,
        ));
        Ok(checkpoint_dir)
    }

    /// Shows a notification, with the bell where `bell` says so.
    fn emit_action_message<E: AlertActionExecutor>(
        &self,
        executor: &mut E,
        notification: &AlertNotification,
        bell: bool,
    ) -> (r: Result<(), ActionError>)
        ensures
            exists|replies: Replies|
                final(executor).calls() == old(executor).calls() + #[trigger] show_calls(
                    notification@,
                    self.config.color,
                    bell,
                    replies,
                ) && fault_of(r) == show_fault(bell, replies),
    {
        let ghost before = executor.calls();
        let ghost mut replies = Replies {
            checkpoint: Ok(seq![]),
            interrupt: None,
            force_kill: None,
            show: None,
            bell: None,
            log: None,
        };
        let shown = executor.write_stderr(notification.render_stderr(self.config.color).as_str());
        proof {
            replies = Replies { show: fault_of(shown), ..replies };
        }
        let result = match shown {
            Ok(_) => if bell {
                let rung = executor.ring_bell();
                proof {
                    replies = Replies { bell: fault_of(rung), ..replies };
                }
                rung
            } else {
                Ok(())
            },
            Err(e) => Err(e),
        };
        assert(executor.calls() =~= before + show_calls(
            notification@,
            self.config.color,
            bell,
            replies,
        ));
        result
    }

    /// Decides about a phase change and carries out what it calls for.
    ///
    /// Where no action is called for, the executor is not called. Where one is, it
    /// saves the checkpoint, sends the signal, shows the notification and logs it, in
    /// this order. The first of these that fails ends the evaluation with its error
    /// and the alerter stays as it was; a failure to kill a dead process does not
    /// count.
    #[verifier::rlimit(80)]
    #[verifier::spinoff_prover]
    pub fn evaluate_phase_change<E: AlertActionExecutor>(
        &mut self,
        from: Option<&AgentPhase>,
        to: &AgentPhase,
        context: AlertContext<'_>,
        executor: &mut E,
    ) -> (r: Result<AlertPolicyDecision, ActionError>)
        ensures
            exists|replies: Replies|
                {
                    let e = #[trigger] evaluation(
                        *old(self),
                        change_view(from, to, context),
                        replies,
                    );
                    outcome_view(r) == e.result && *final(self) == e.alerter
                        && final(executor).calls() == old(executor).calls() + e.calls
                },
    {
        let ghost before = *self;
        let ghost prior = executor.calls();
        let ghost change = change_view(from, to, context);
        let ghost mut replies = Replies {
            checkpoint: Ok(seq![]),
            interrupt: None,
            force_kill: None,
            show: None,
            bell: None,
            log: None,
        };
        if let Some(decision) = self.decide(from, to, context.timestamp) {
            assert(executor.calls() =~= prior + evaluation(before, change, replies).calls);
            return Ok(decision);
        }
        let action = configured_action(&self.config, to);
        let bell = action == AlertAction::Bell;
        let plan = plan_action(&self.config, to, context.pid);
        let executed = Self::execute_action(&plan, &context, executor);
        proof {
            replies = choose|replies: Replies|
                executor.calls() == prior + #[trigger] action_calls(
                    plan,
                    change.state,
                    change.cwd,
                    replies,
                ) && match executed {
                    Ok(dir) => action_fault(plan, replies) is None && text_view(dir) == saved_dir(
                        plan,
                        replies,
                    ),
                    Err(e) => action_fault(plan, replies) == Some(e.message@),
                };
        }
        let ghost acted = action_calls(plan, change.state, change.cwd, replies);
        let checkpoint_dir = match executed {
            Ok(dir) => dir,
            Err(e) => {
                assert(executor.calls() =~= prior + evaluation(before, change, replies).calls);
                return Err(e);
            },
        };
        let ghost dir = text_view(checkpoint_dir);
        if let Some(gate) = plan.gate {
            let decision = AlertPolicyDecision {
                state: AlertDecisionState::Gated,
                action: action.label(),
                reason: "missing_pid",
                explanation: explain_gate(gate, &checkpoint_dir),
                notification: None,
            };
            assert(outcome_view(Ok(decision)) == evaluation(before, change, replies).result);
            return Ok(decision);
        }
        let notification = self.notify(
            from,
            to,
            context.timestamp,
            context.cwd,
            context.agent,
            checkpoint_dir,
        );
        let ghost n = notification@;
        let shown = self.emit_action_message(executor, &notification, bell);
        proof {
            let told = choose|told: Replies|
                executor.calls() == prior + acted + #[trigger] show_calls(
                    n,
                    before.config.color,
                    bell,
                    told,
                ) && fault_of(shown) == show_fault(bell, told);
            replies = Replies { show: told.show, bell: told.bell, ..replies };
            assert(show_calls(n, before.config.color, bell, told) =~= show_calls(
                n,
                before.config.color,
                bell,
                replies,
            ));
            assert(action_calls(plan, change.state, change.cwd, replies) =~= acted);
        }
        match shown {
            Ok(_) => {},
            Err(e) => {
                assert(executor.calls() =~= prior + evaluation(before, change, replies).calls);
                return Err(e);
            },
        }
        let log_path = alert_log_path(context.cwd);
        let logged = executor.append_log(log_path.as_str(), notification.render_human().as_str());
        proof {
            replies = Replies { log: fault_of(logged), ..replies };
            assert(action_calls(plan, change.state, change.cwd, replies) =~= acted);
            assert(executor.calls() =~= prior + evaluation(before, change, replies).calls);
        }
        match logged {
            Ok(_) => {},
            Err(e) => {
                return Err(e);
            },
        }
        self.remember(action, context.timestamp);
        let mut explanation: String = "action ".to_owned();
        explanation.append(action.label());
        explanation.append(" executed for ");
        explanation.append(phase_label(to));
        let decision = AlertPolicyDecision {
            state: AlertDecisionState::Executed,
            action: action.label(),
            reason: "executed",
            explanation,
            notification: Some(notification),
        };
        assert(outcome_view(Ok(decision)) == evaluation(before, change, replies).result);
        Ok(decision)
    }

    /// Decides about a phase change, carries out what it calls for, and returns
    /// the notification of an alert that was answered.
    pub fn on_phase_change<E: AlertActionExecutor>(
        &mut self,
        from: Option<&AgentPhase>,
        to: &AgentPhase,
        context: AlertContext<'_>,
        executor: &mut E,
    ) -> (r: Result<Option<AlertNotification>, ActionError>)
        ensures
            exists|replies: Replies|
                {
                    let e = #[trigger] evaluation(
                        *old(self),
                        change_view(from, to, context),
                        replies,
                    );
                    notice_view(r) == raised(e.result) && *final(self) == e.alerter
                        && final(executor).calls() == old(executor).calls() + e.calls
                },
    {
        match self.evaluate_phase_change(from, to, context, executor) {
            Ok(decision) => Ok(decision.notification),
            Err(e) => Err(e),
        }
    }
}

} // verus!
