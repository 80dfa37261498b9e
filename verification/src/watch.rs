//! The watch command: settings and reports.

use crate::alerter;
use crate::alerter::{
    evaluation, kind_of, notification_view, phase_key, phase_label, phase_name, phase_view,
    raised, slice_view, ActionError, AlertActionExecutor, AlertContext, AlertNotification, Alerter,
    ChangeView, NotificationView, Replies,
};
use crate::classifier::{classified, classify};
use crate::clock::{format_timestamp, shown_time, Span, Timestamp};
use crate::common::display_path;
use crate::metrics::{compute_silence, silence};
use crate::paths::shown_path;
use crate::runtime::WatcherRuntimeTarget;
use crate::snapshot::{age_in_secs, age_secs, snapshot_config};
use crate::state::{applied, AgentState, StateView};
use crate::state_machine::{phases_equal, reported_view, same_phase};
use crate::text::{decimal, push_decimal, views};
use crate::types::{copy_texts, text_view, AgentEvent, AgentPhase, FloatBits, PhaseView};
use vstd::prelude::*;

verus! {

/// What is done about a session that is stuck or dead, as it is configured.
#[derive(Debug, Clone, Copy, PartialEq, Eq, Structural)]
pub enum StuckAction {
    Warn,
    Bell,
    Kill,
    CheckpointKill,
}

impl Default for StuckAction {
    fn default() -> (r: Self)
        ensures
            r == StuckAction::Warn,
    {
        StuckAction::Warn
    }
}

/// What is done about a file outside the guarded scope, as it is configured.
#[derive(Debug, Clone, Copy, PartialEq, Eq, Structural)]
pub enum ScopeLeakAction {
    Warn,
    Bell,
    Kill,
}

/// What the alerter does about a session that is stuck or dead.
pub open spec fn carried_out(action: StuckAction) -> alerter::StuckAction {
    match action {
        StuckAction::Warn => alerter::StuckAction::Warn,
        StuckAction::Bell => alerter::StuckAction::Bell,
        StuckAction::Kill => alerter::StuckAction::Kill,
        StuckAction::CheckpointKill => alerter::StuckAction::CheckpointKill,
    }
}

/// What the alerter does about a session that leaves its scope.
pub open spec fn carried_out_on_leak(action: ScopeLeakAction) -> alerter::ScopeLeakAction {
    match action {
        ScopeLeakAction::Warn => alerter::ScopeLeakAction::Warn,
        ScopeLeakAction::Bell => alerter::ScopeLeakAction::Bell,
        ScopeLeakAction::Kill => alerter::ScopeLeakAction::Kill,
    }
}

/// The action that the alerter takes for a setting.
pub fn map_stuck_action(action: StuckAction) -> (r: alerter::StuckAction)
    ensures
        r == carried_out(action),
{
    match action {
        StuckAction::Warn => alerter::StuckAction::Warn,
        StuckAction::Bell => alerter::StuckAction::Bell,
        StuckAction::Kill => alerter::StuckAction::Kill,
        StuckAction::CheckpointKill => alerter::StuckAction::CheckpointKill,
    }
}

/// The action that the alerter takes for a setting.
pub fn map_scope_leak_action(action: ScopeLeakAction) -> (r: alerter::ScopeLeakAction)
    ensures
        r == carried_out_on_leak(action),
{
    match action {
        ScopeLeakAction::Warn => alerter::ScopeLeakAction::Warn,
        ScopeLeakAction::Bell => alerter::ScopeLeakAction::Bell,
        ScopeLeakAction::Kill => alerter::ScopeLeakAction::Kill,
    }
}

/// Classifies a state with the thresholds of the watch command.
pub fn classify_phase(state: &AgentState, timeout_secs: u64, now: Timestamp) -> (r:
    AgentPhase)
    requires
        state@.recent_tool_calls.len() <= u32::MAX,
    ensures
        r@ == classified(state@, now, snapshot_config(timeout_secs)),
{
    let mut cfg = crate::classifier::ClassifierConfig::default();
    cfg.thinking_after = Span::from_secs(45);
    cfg.api_hang_after = Span::from_secs(timeout_secs);
    cfg.idle_after = Span::from_secs(600);
    assert(cfg == snapshot_config(timeout_secs));
    classify(state, now, cfg)
}

/// Whether a session moved to a phase of another kind.
pub open spec fn kind_changed(previous: Option<PhaseView>, phase: PhaseView) -> bool {
    previous is Some && kind_of(previous->0) != kind_of(phase)
}

/// Decides whether a session moved to a phase of another kind.
pub fn phase_kind_changed(previous_phase: Option<&AgentPhase>, phase: &AgentPhase) -> (r: bool)
    ensures
        r == kind_changed(phase_view(previous_phase), phase@),
{
    match previous_phase {
        Some(previous) => phase_key(previous) != phase_key(phase),
        None => false,
    }
}

/// What a phase says of the session besides its name.
#[derive(Debug, PartialEq, Eq)]
pub enum PhaseDetails {
    Nothing,
    ApiHang { stuck_for_secs: u128 },
    ToolLoop { file: String, count: u32, since: String },
    TestLoop { command: String, failure_count: u32 },
    TaskBlocked { task_id: String, blocked_by: Vec<String> },
    ScopeLeaking { file: String, guard: String },
    ContextReset { compact_count: u64, last_compact_at: Option<String> },
    Idle { idle_for_secs: u128 },
    Dead {
        process_alive: bool,
        silence_secs: u128,
        jsonl_stale_secs: Option<u64>,
        token_stale_secs: Option<u64>,
        cpu_percent: FloatBits,
        rss_bytes: u64,
        virtual_bytes: u64,
    },
}

/// The value of [`PhaseDetails`].
pub enum DetailsView {
    Nothing,
    ApiHang { stuck_for_secs: nat },
    ToolLoop { file: Seq<char>, count: u32, since: Seq<char> },
    TestLoop { command: Seq<char>, failure_count: u32 },
    TaskBlocked { task_id: Seq<char>, blocked_by: Seq<Seq<char>> },
    ScopeLeaking { file: Seq<char>, guard: Seq<char> },
    ContextReset { compact_count: u64, last_compact_at: Option<Seq<char>> },
    Idle { idle_for_secs: nat },
    Dead {
        process_alive: bool,
        silence_secs: nat,
        jsonl_stale_secs: Option<u64>,
        token_stale_secs: Option<u64>,
        cpu_percent: FloatBits,
        rss_bytes: u64,
        virtual_bytes: u64,
    },
}

impl View for PhaseDetails {
    type V = DetailsView;

    open spec fn view(&self) -> DetailsView {
        match *self {
            PhaseDetails::Nothing => DetailsView::Nothing,
            PhaseDetails::ApiHang { stuck_for_secs } => DetailsView::ApiHang {
                stuck_for_secs: stuck_for_secs as nat,
            },
            PhaseDetails::ToolLoop { file, count, since } => DetailsView::ToolLoop {
                file: file@,
                count,
                since: since@,
            },
            PhaseDetails::TestLoop { command, failure_count } => DetailsView::TestLoop {
                command: command@,
                failure_count,
            },
            PhaseDetails::TaskBlocked { task_id, blocked_by } => DetailsView::TaskBlocked {
                task_id: task_id@,
                blocked_by: views(blocked_by@),
            },
            PhaseDetails::ScopeLeaking { file, guard } => DetailsView::ScopeLeaking {
                file: file@,
                guard: guard@,
            },
            PhaseDetails::ContextReset { compact_count, last_compact_at } =>
                DetailsView::ContextReset {
                compact_count,
                last_compact_at: text_view(last_compact_at),
            },
            PhaseDetails::Idle { idle_for_secs } => DetailsView::Idle {
                idle_for_secs: idle_for_secs as nat,
            },
            PhaseDetails::Dead {
                process_alive,
                silence_secs,
                jsonl_stale_secs,
                token_stale_secs,
                cpu_percent,
                rss_bytes,
                virtual_bytes,
            } => DetailsView::Dead {
                process_alive,
                silence_secs: silence_secs as nat,
                jsonl_stale_secs,
                token_stale_secs,
                cpu_percent,
                rss_bytes,
                virtual_bytes,
            },
        }
    }
}

/// How long ago a time was, in whole seconds, where it is known.
pub open spec fn stale_secs(now: Timestamp, last: Option<Timestamp>) -> Option<u64> {
    match last {
        Some(t) => Some(age_secs(now, t)),
        None => None,
    }
}

fn count_stale_secs(now: Timestamp, last: Option<Timestamp>) -> (r: Option<u64>)
    ensures
        r == stale_secs(now, last),
{
    match last {
        Some(t) => Some(age_in_secs(now, t)),
        None => None,
    }
}

/// The seconds of silence at a time.
pub open spec fn silence_secs(s: StateView, now: Timestamp) -> nat {
    (silence(s, now) / 1_000_000_000) as nat
}

/// What a phase says of a session.
pub open spec fn details_of(phase: PhaseView, s: StateView, cwd: Seq<char>, now: Timestamp) -> DetailsView {
    match phase {
        PhaseView::ApiHang(span) => DetailsView::ApiHang { stuck_for_secs: span.secs() },
        PhaseView::ToolLoop { file, count, since } => DetailsView::ToolLoop {
            file: shown_path(cwd, file),
            count,
            since: shown_time(since),
        },
        PhaseView::TestLoop { command, failure_count } => DetailsView::TestLoop {
            command,
            failure_count,
        },
        PhaseView::TaskBlocked { task_id, blocked_by } => DetailsView::TaskBlocked {
            task_id,
            blocked_by,
        },
        PhaseView::ScopeLeaking { violating_file, guard_path } => DetailsView::ScopeLeaking {
            file: shown_path(cwd, violating_file),
            guard: shown_path(cwd, guard_path),
        },
        PhaseView::ContextReset => DetailsView::ContextReset {
            compact_count: s.compact_count,
            last_compact_at: match s.last_compact_at {
                Some(t) => Some(shown_time(t)),
                None => None,
            },
        },
        PhaseView::Idle(span) => DetailsView::Idle { idle_for_secs: span.secs() },
        PhaseView::Dead => DetailsView::Dead {
            process_alive: s.process_alive,
            silence_secs: silence_secs(s, now),
            jsonl_stale_secs: stale_secs(now, s.last_jsonl_record_at),
            token_stale_secs: stale_secs(now, s.last_token_activity_at),
            cpu_percent: s.latest_cpu_percent,
            rss_bytes: s.latest_rss_bytes,
            virtual_bytes: s.latest_virtual_bytes,
        },
        _ => DetailsView::Nothing,
    }
}

/// Describes what a phase says of a session.
pub fn phase_details(phase: &AgentPhase, state: &AgentState, cwd: &str, timestamp: Timestamp) -> (r:
    PhaseDetails)
    ensures
        r@ == details_of(phase@, state@, cwd@, timestamp),
{
    match phase {
        AgentPhase::ApiHang(span) => PhaseDetails::ApiHang { stuck_for_secs: span.as_secs() },
        AgentPhase::ToolLoop { file, count, since } => PhaseDetails::ToolLoop {
            file: display_path(cwd, file.as_str()),
            count: *count,
            since: format_timestamp(*since),
        },
        AgentPhase::TestLoop { command, failure_count } => PhaseDetails::TestLoop {
            command: command.clone(),
            failure_count: *failure_count,
        },
        AgentPhase::TaskBlocked { task_id, blocked_by } => PhaseDetails::TaskBlocked {
            task_id: task_id.clone(),
            blocked_by: copy_texts(blocked_by),
        },
        AgentPhase::ScopeLeaking { violating_file, guard_path } => PhaseDetails::ScopeLeaking {
            file: display_path(cwd, violating_file.as_str()),
            guard: display_path(cwd, guard_path.as_str()),
        },
        AgentPhase::ContextReset => PhaseDetails::ContextReset {
            compact_count: state.compact_count,
            last_compact_at: match state.last_compact_at {
                Some(t) => Some(format_timestamp(t)),
                None => None,
            },
        },
        AgentPhase::Idle(span) => PhaseDetails::Idle { idle_for_secs: span.as_secs() },
        AgentPhase::Dead => PhaseDetails::Dead {
            process_alive: state.process_alive,
            silence_secs: compute_silence(state, timestamp).as_secs(),
            jsonl_stale_secs: count_stale_secs(timestamp, state.last_jsonl_record_at),
            token_stale_secs: count_stale_secs(timestamp, state.last_token_activity_at),
            cpu_percent: state.latest_cpu_percent,
            rss_bytes: state.latest_rss_bytes,
            virtual_bytes: state.latest_virtual_bytes,
        },
        _ => PhaseDetails::Nothing,
    }
}

/// A status report for programs.
#[derive(Debug, PartialEq, Eq)]
pub struct StatusPayload {
    pub event: &'static str,
    pub timestamp: String,
    pub phase: &'static str,
    pub previous_phase: Option<&'static str>,
    pub alert: bool,
    pub alert_message: Option<String>,
    pub alert_action: Option<&'static str>,
    pub pid: Option<u32>,
    pub session_id: Option<String>,
    pub file: Option<String>,
    pub silence_secs: u128,
    pub cpu_percent: FloatBits,
    pub source: String,
    pub suggestion: Option<String>,
    pub details: PhaseDetails,
}

/// The identifier of a session: the one of its state, else that of the target.
pub open spec fn reported_session(s: StateView, target: WatcherRuntimeTarget) -> Option<String> {
    match s.session_id {
        Some(id) => Some(id),
        None => target.session_id,
    }
}

/// The file of a report: the last one, relative to the working directory.
pub open spec fn reported_file(s: StateView, target: WatcherRuntimeTarget) -> Option<Seq<char>> {
    match s.last_file_path {
        Some(path) => Some(shown_path(target.cwd@, path@)),
        None => None,
    }
}

fn report_session(state: &AgentState, target: &WatcherRuntimeTarget) -> (r: Option<String>)
    ensures
        r == reported_session(state@, *target),
{
    match &state.session_id {
        Some(id) => Some(id.clone()),
        None => target.session_id.clone(),
    }
}

fn report_file(state: &AgentState, target: &WatcherRuntimeTarget) -> (r: Option<String>)
    ensures
        text_view(r) == reported_file(state@, *target),
{
    match &state.last_file_path {
        Some(path) => Some(display_path(target.cwd.as_str(), path.as_str())),
        None => None,
    }
}

/// Reports the status of a session for programs.
pub fn status_payload(
    previous_phase: Option<&AgentPhase>,
    phase: &AgentPhase,
    state: &AgentState,
    target: &WatcherRuntimeTarget,
    timestamp: Timestamp,
    alert: Option<&AlertNotification>,
) -> (r: StatusPayload)
    ensures
        r.event@ == if kind_changed(phase_view(previous_phase), phase@) {
            "phase_change"@
        } else {
            "status"@
        },
        r.timestamp@ == shown_time(timestamp),
        r.phase@ == phase_name(phase@),
        slice_view(r.previous_phase) == match previous_phase {
            Some(p) => Some(phase_name(p@)),
            None => None,
        },
        r.alert == alert is Some,
        text_view(r.alert_message) == match alert {
            Some(a) => Some(a.message@),
            None => None,
        },
        r.alert_action == match alert {
            Some(a) => Some(a.action),
            None => None,
        },
        r.pid == target.pid,
        r.session_id == reported_session(state@, *target),
        text_view(r.file) == reported_file(state@, *target),
        r.silence_secs == silence_secs(state@, timestamp),
        r.cpu_percent == state.latest_cpu_percent,
        r.source == target.jsonl_path,
        text_view(r.suggestion) == match alert {
            Some(a) => a@.suggestion,
            None => None,
        },
        r.details@ == details_of(phase@, state@, target.cwd@, timestamp),
{
    let event = if phase_kind_changed(previous_phase, phase) {
        "phase_change"
    } else {
        "status"
    };
    let previous = match previous_phase {
        Some(previous) => Some(phase_label(previous)),
        None => None,
    };
    StatusPayload {
        event,
        timestamp: format_timestamp(timestamp),
        phase: phase_label(phase),
        previous_phase: previous,
        alert: alert.is_some(),
        alert_message: match alert {
            Some(a) => Some(a.message.clone()),
            None => None,
        },
        alert_action: match alert {
            Some(a) => Some(a.action),
            None => None,
        },
        pid: target.pid,
        session_id: report_session(state, target),
        file: report_file(state, target),
        silence_secs: compute_silence(state, timestamp).as_secs(),
        cpu_percent: state.latest_cpu_percent,
        source: target.jsonl_path.clone(),
        suggestion: match alert {
            Some(a) => a.suggestion.clone(),
            None => None,
        },
        details: phase_details(phase, state, target.cwd.as_str(), timestamp),
    }
}

/// The terminal color of a phase: green for work, yellow for thought, red for
/// trouble, magenta for a pause, cyan for the rest.
pub open spec fn phase_color(phase: PhaseView) -> Seq<char> {
    match phase {
        PhaseView::Working => "32"@,
        PhaseView::Thinking => "33"@,
        PhaseView::ApiHang(_) => "31"@,
        PhaseView::ToolLoop { .. } => "31"@,
        PhaseView::TestLoop { .. } => "31"@,
        PhaseView::ScopeLeaking { .. } => "31"@,
        PhaseView::Dead => "31"@,
        PhaseView::ContextReset => "35"@,
        PhaseView::Idle(_) => "35"@,
        _ => "36"@,
    }
}

fn color_code(phase: &AgentPhase) -> (r: &'static str)
    ensures
        r@ == phase_color(phase@),
{
    match phase {
        AgentPhase::Working => "32",
        AgentPhase::Thinking => "33",
        AgentPhase::ApiHang(_) => "31",
        AgentPhase::ToolLoop { .. } => "31",
        AgentPhase::TestLoop { .. } => "31",
        AgentPhase::ScopeLeaking { .. } => "31",
        AgentPhase::Dead => "31",
        AgentPhase::ContextReset => "35",
        AgentPhase::Idle(_) => "35",
        _ => "36",
    }
}

/// A label in the color of a phase.
pub open spec fn in_phase_color(phase: PhaseView, label: Seq<char>) -> Seq<char> {
    "\x1b["@ + phase_color(phase) + "m"@ + label + "\x1b[0m"@
}

/// Colors a label for a phase.
pub fn colorize_phase(phase: &AgentPhase, label: &str) -> (r: String)
    ensures
        r@ == in_phase_color(phase@, label@),
{
    let mut out: String = "\x1b[".to_owned();
    out.append(color_code(phase));
    out.append("m");
    out.append(label);
    out.append("\x1b[0m");
    out
}

/// A status line for people, without the CPU load: what stands before the load
/// and what stands behind it.
#[derive(Debug, PartialEq, Eq)]
pub struct HumanStatus {
    pub before_load: String,
    pub after_load: String,
}

/// A text, or a dash where it is missing.
pub open spec fn or_dash(text: Option<Seq<char>>) -> Seq<char> {
    match text {
        Some(t) => t,
        None => "-"@,
    }
}

/// The phase that a status line says the session comes from: the previous one
/// where it differs.
pub open spec fn origin(previous: Option<PhaseView>, phase: PhaseView) -> Seq<char> {
    match previous {
        Some(p) => if !same_phase(p, phase) {
            " from="@ + phase_name(p)
        } else {
            seq![]
        },
        None => seq![],
    }
}

/// What stands before the CPU load in a status line.
pub open spec fn line_start(
    previous: Option<PhaseView>,
    phase: PhaseView,
    s: StateView,
    target: WatcherRuntimeTarget,
    color: bool,
    now: Timestamp,
) -> Seq<char> {
    shown_time(now) + " "@ + (if kind_changed(previous, phase) {
        "PHASE"@
    } else {
        "STATUS"@
    }) + " "@ + (if color {
        in_phase_color(phase, phase_name(phase))
    } else {
        phase_name(phase)
    }) + origin(previous, phase) + " pid="@ + (match target.pid {
        Some(pid) => decimal(pid as nat),
        None => "-"@,
    }) + " file="@ + or_dash(reported_file(s, target)) + " silence="@ + decimal(
        silence_secs(s, now),
    ) + "s cpu="@
}

/// What stands behind the CPU load in a status line.
pub open spec fn line_end(s: StateView, target: WatcherRuntimeTarget) -> Seq<char> {
    "% session="@ + (match reported_session(s, target) {
        Some(id) => id@,
        None => "unknown"@,
    }) + " source="@ + target.jsonl_path@
}

fn append_origin(out: &mut String, previous_phase: Option<&AgentPhase>, phase: &AgentPhase)
    ensures
        final(out)@ == old(out)@ + origin(phase_view(previous_phase), phase@),
{
    let ghost before = out@;
    assert(before + seq![] =~= before);
    if let Some(previous) = previous_phase {
        if !phases_equal(previous, phase) {
            out.append(" from=");
            out.append(phase_label(previous));
            assert(out@ =~= before + origin(phase_view(previous_phase), phase@));
        }
    }
}

/// Writes a status line for people.
pub fn human_status(
    previous_phase: Option<&AgentPhase>,
    phase: &AgentPhase,
    state: &AgentState,
    target: &WatcherRuntimeTarget,
    color: bool,
    timestamp: Timestamp,
) -> (r: HumanStatus)
    ensures
        r.before_load@ == line_start(
            phase_view(previous_phase),
            phase@,
            state@,
            *target,
            color,
            timestamp,
        ),
        r.after_load@ == line_end(state@, *target),
{
    let mut out: String = format_timestamp(timestamp);
    out.append(" ");
    if phase_kind_changed(previous_phase, phase) {
        out.append("PHASE");
    } else {
        out.append("STATUS");
    }
    out.append(" ");
    if color {
        out.append(colorize_phase(phase, phase_label(phase)).as_str());
    } else {
        out.append(phase_label(phase));
    }
    append_origin(&mut out, previous_phase, phase);
    out.append(" pid=");
    match target.pid {
        Some(pid) => {
            push_decimal(&mut out, pid as u128);
        },
        None => {
            out.append("-");
        },
    }
    out.append(" file=");
    match report_file(state, target) {
        Some(file) => {
            out.append(file.as_str());
        },
        None => {
            out.append("-");
        },
    }
    out.append(" silence=");
    push_decimal(&mut out, compute_silence(state, timestamp).as_secs());
    out.append("s cpu=");
    let mut end: String = "% session=".to_owned();
    match report_session(state, target) {
        Some(id) => {
            end.append(id.as_str());
        },
        None => {
            end.append("unknown");
        },
    }
    end.append(" source=");
    end.append(target.jsonl_path.as_str());
    HumanStatus { before_load: out, after_load: end }
}

/// How a status is shown.
#[derive(Debug, Clone, Copy, PartialEq, Eq, Structural)]
pub enum StatusOutput {
    /// Not at all.
    Silent,
    /// For programs.
    Robot,
    /// For people.
    Human,
}

/// How a status is shown: not beside an alert, which is shown by itself, and
/// not in quiet mode.
pub open spec fn output_for(robot: bool, quiet: bool, alert: bool) -> StatusOutput {
    if alert || quiet {
        StatusOutput::Silent
    } else if robot {
        StatusOutput::Robot
    } else {
        StatusOutput::Human
    }
}

/// Decides how a status is shown.
pub fn status_output(robot: bool, alerter: &Alerter, alert: Option<&AlertNotification>) -> (r:
    StatusOutput)
    ensures
        r == output_for(robot, alerter.config.quiet, alert is Some),
{
    if robot && alert.is_some() {
        return StatusOutput::Silent;
    }
    if !alerter.should_emit_status(alert) {
        return StatusOutput::Silent;
    }
    if robot {
        StatusOutput::Robot
    } else if alert.is_some() {
        StatusOutput::Silent
    } else {
        StatusOutput::Human
    }
}

/// A session under watch.
pub struct WatchSession {
    /// The name of the agent.
    pub agent: String,
    pub target: WatcherRuntimeTarget,
    pub state: AgentState,
    pub alerter: Alerter,
    pub previous_phase: Option<AgentPhase>,
    pub timeout_secs: u64,
    pub robot: bool,
}

/// What one step of the watch does.
#[derive(Debug)]
pub struct WatchStep {
    pub timestamp: Timestamp,
    /// The phase before the step.
    pub previous_phase: Option<AgentPhase>,
    /// The alert that was answered.
    pub alert: Option<AlertNotification>,
    /// How the status is shown.
    pub output: StatusOutput,
    /// Whether the watch ends.
    pub stop: bool,
}

impl WatchSession {
    /// Starts to watch a session.
    pub fn new(
        agent: &str,
        target: WatcherRuntimeTarget,
        state: AgentState,
        alerter: Alerter,
        timeout_secs: u64,
        robot: bool,
    ) -> (r: Self)
        ensures
            r.agent@ == agent@,
            r.target == target,
            r.state == state,
            r.alerter == alerter,
            r.previous_phase is None,
            r.timeout_secs == timeout_secs,
            r.robot == robot,
    {
        WatchSession {
            agent: agent.to_owned(),
            target,
            state,
            alerter,
            previous_phase: None,
            timeout_secs,
            robot,
        }
    }

    /// Takes an event in. The state can be refreshed before the step is settled.
    pub fn observe(&mut self, event: &AgentEvent)
        ensures
            final(self).state@ == applied(old(self).state@, *event),
            final(self).agent == old(self).agent,
            final(self).target == old(self).target,
            final(self).alerter == old(self).alerter,
            final(self).previous_phase == old(self).previous_phase,
            final(self).timeout_secs == old(self).timeout_secs,
            final(self).robot == old(self).robot,
    {
        self.state.apply(event);
    }

    /// The phase change that a step sees, once its state is classified.
    pub open spec fn change(self, state: AgentState, timestamp: Timestamp) -> ChangeView {
        ChangeView {
            from: reported_view(self.previous_phase),
            to: state@.phase,
            now: timestamp,
            cwd: self.target.cwd@,
            state,
            pid: self.target.pid,
            agent: self.agent@,
        }
    }

    /// Settles a step: classifies the session, answers an alert, and decides
    /// how the status is shown and whether the watch goes on. It ends with a
    /// dead session.
    pub fn settle<E: AlertActionExecutor>(
        &mut self,
        timestamp: Timestamp,
        executor: &mut E,
    ) -> (r: Result<WatchStep, ActionError>)
        requires
            old(self).state@.recent_tool_calls.len() <= u32::MAX,
        ensures
            final(self).agent == old(self).agent,
            final(self).target == old(self).target,
            final(self).timeout_secs == old(self).timeout_secs,
            final(self).robot == old(self).robot,
            final(self).state@ == (StateView {
                phase: classified(
                    old(self).state@,
                    timestamp,
                    snapshot_config(old(self).timeout_secs),
                ),
                ..old(self).state@
            }),
            exists|replies: Replies|
                {
                    let e = #[trigger] evaluation(
                        old(self).alerter,
                        old(self).change(final(self).state, timestamp),
                        replies,
                    );
                    &&& final(self).alerter == e.alerter
                    &&& final(executor).calls() == old(executor).calls() + e.calls
                    &&& match r {
                        Ok(step) => {
                            &&& raised(e.result) == Ok::<Option<NotificationView>, Seq<char>>(
                                notification_view(step.alert),
                            )
                            &&& reported_view(final(self).previous_phase) == Some(
                                final(self).state@.phase,
                            )
                            &&& step.timestamp == timestamp
                            &&& step.previous_phase == old(self).previous_phase
                            &&& step.output == output_for(
                                old(self).robot,
                                old(self).alerter.config.quiet,
                                step.alert is Some,
                            )
                            &&& step.stop == (final(self).state@.phase is Dead)
                        },
                        Err(x) => {
                            &&& raised(e.result) == Err::<Option<NotificationView>, Seq<char>>(
                                x.message@,
                            )
                            &&& final(self).previous_phase == old(self).previous_phase
                        },
                    }
                },
    {
        let phase = classify_phase(&self.state, self.timeout_secs, timestamp);
        self.state.phase = phase.clone();
        let previous = match &self.previous_phase {
            Some(p) => Some(p),
            None => None,
        };
        let context = AlertContext {
            timestamp,
            cwd: self.target.cwd.as_str(),
            state: &self.state,
            pid: self.target.pid,
            agent: self.agent.as_str(),
        };
        let alert = match self.alerter.on_phase_change(previous, &phase, context, executor) {
            Ok(alert) => alert,
            Err(e) => {
                return Err(e);
            },
        };
        let shown = match &alert {
            Some(a) => Some(a),
            None => None,
        };
        let output = status_output(self.robot, &self.alerter, shown);
        let stop = match &phase {
            AgentPhase::Dead => true,
            _ => false,
        };
        let mut last: Option<AgentPhase> = Some(phase);
        std::mem::swap(&mut last, &mut self.previous_phase);
        Ok(WatchStep { timestamp, previous_phase: last, alert, output, stop })
    }
}

} // verus!
