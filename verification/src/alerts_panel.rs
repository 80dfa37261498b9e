//! The alerts panel: what is wrong with a session and what can be done.

use crate::clock::{Span, Timestamp};
use crate::common::display_path;
use crate::paths::{shown_path, text_before, text_less};
use crate::snapshot::{Snapshot, SnapshotView};
use crate::state::{first_fresh, fresh_count, writes_of};
use crate::text::{
    blank, decimal, is_blank, join, joined, lemma_views_push, lines, push_decimal, same_text,
    split_at_text, split_lines, split_once, stripped, trim, two_digit_text, two_digits, views,
};
use crate::types::{AgentPhase, PhaseView};
use crate::ui::{
    blank_line, bold, colored, elapsed, elapsed_from, elapsed_since, elapsed_since_known,
    format_duration, line_views, max_scroll_of, push_line, push_span, raw, scroll_limit,
    shown_span, single, span_views, Hue, SpanView, StyledLine, StyledSpan,
};
use vstd::prelude::*;

verus! {

/// How many alerts of the log are shown.
pub const MAX_HISTORY_ENTRIES: usize = 5;

/// How many failures in a row make an alert.
pub const TEST_LOOP_THRESHOLD: u32 = 3;

/// How serious an alert is.
#[derive(Debug, Clone, Copy, PartialEq, Eq, PartialOrd, Ord, Structural)]
pub enum AlertSeverity {
    Normal,
    Warning,
    Critical,
}

impl AlertSeverity {
    /// The rank of a severity: the more serious, the higher.
    pub open spec fn rank(self) -> int {
        match self {
            AlertSeverity::Normal => 0,
            AlertSeverity::Warning => 1,
            AlertSeverity::Critical => 2,
        }
    }

    fn level(self) -> (r: u8)
        ensures
            r == self.rank(),
    {
        match self {
            AlertSeverity::Normal => 0,
            AlertSeverity::Warning => 1,
            AlertSeverity::Critical => 2,
        }
    }

    /// The color of a severity.
    pub open spec fn hue(self) -> Hue {
        match self {
            AlertSeverity::Normal => Hue::Green,
            AlertSeverity::Warning => Hue::Yellow,
            AlertSeverity::Critical => Hue::Red,
        }
    }

    /// The color of the severity.
    pub fn color(self) -> (r: Hue)
        ensures
            r == self.hue(),
    {
        match self {
            AlertSeverity::Normal => Hue::Green,
            AlertSeverity::Warning => Hue::Yellow,
            AlertSeverity::Critical => Hue::Red,
        }
    }

    /// The name of a severity.
    pub open spec fn name(self) -> Seq<char> {
        match self {
            AlertSeverity::Normal => "OK"@,
            AlertSeverity::Warning => "WARNING"@,
            AlertSeverity::Critical => "CRITICAL"@,
        }
    }

    /// The name of the severity.
    pub fn label(self) -> (r: &'static str)
        ensures
            r@ == self.name(),
    {
        match self {
            AlertSeverity::Normal => "OK",
            AlertSeverity::Warning => "WARNING",
            AlertSeverity::Critical => "CRITICAL",
        }
    }
}

/// What an alert is about. There is at most one alert about each.
#[derive(Debug, Clone, Copy, PartialEq, Eq, Structural)]
pub enum AlertKey {
    ApiHang,
    ToolLoop,
    TestLoop,
    TaskBlocked,
    ContextReset,
    ScopeLeak,
    Dead,
}

/// An alert that holds now.
#[derive(Debug, PartialEq, Eq)]
pub struct ActiveAlert {
    pub key: AlertKey,
    pub severity: AlertSeverity,
    pub headline: String,
    pub summary: String,
    pub actions: Vec<String>,
}

/// The value of an [`ActiveAlert`].
pub struct AlertView {
    pub key: AlertKey,
    pub severity: AlertSeverity,
    pub headline: Seq<char>,
    pub summary: Seq<char>,
    pub actions: Seq<Seq<char>>,
}

impl View for ActiveAlert {
    type V = AlertView;

    open spec fn view(&self) -> AlertView {
        AlertView {
            key: self.key,
            severity: self.severity,
            headline: self.headline@,
            summary: self.summary@,
            actions: views(self.actions@),
        }
    }
}

/// The values of a list of alerts.
pub open spec fn alert_views(list: Seq<ActiveAlert>) -> Seq<AlertView> {
    list.map_values(|a: ActiveAlert| a@)
}

fn texts_of(list: Vec<&str>) -> (r: Vec<String>)
    ensures
        r@.len() == list@.len(),
        forall|i: int| 0 <= i < r@.len() ==> (#[trigger] r@[i])@ == list@[i]@,
{
    let mut out: Vec<String> = Vec::new();
    let mut i: usize = 0;
    while i < list.len()
        invariant
            i <= list@.len(),
            out@.len() == i,
            forall|k: int| 0 <= k < i ==> (#[trigger] out@[k])@ == list@[k]@,
        decreases list@.len() - i,
    {
        out.push(list[i].to_owned());
        i = i + 1;
    }
    out
}

/// The alert about a session that waits for the API.
pub open spec fn api_hang(span: Span, agent: Seq<char>) -> AlertView {
    AlertView {
        key: AlertKey::ApiHang,
        severity: AlertSeverity::Warning,
        headline: "API_HANG • "@ + shown_span(span.secs()),
        summary: agent + " has waited on the API without visible progress."@,
        actions: seq![
            "Press [k] to interrupt the blocked session."@,
            "Press [c] first if you want a checkpoint of recent work."@,
            "If it stays stuck, press [K] and restart the session."@,
        ],
    }
}

fn api_hang_alert(duration: Span, agent: &str) -> (r: ActiveAlert)
    ensures
        r@ == api_hang(duration, agent@),
{
    let mut headline: String = "API_HANG • ".to_owned();
    headline.append(format_duration(duration).as_str());
    let mut summary: String = agent.to_owned();
    summary.append(" has waited on the API without visible progress.");
    let alert = ActiveAlert {
        key: AlertKey::ApiHang,
        severity: AlertSeverity::Warning,
        headline,
        summary,
        actions: texts_of(
            vec![
                "Press [k] to interrupt the blocked session.",
                "Press [c] first if you want a checkpoint of recent work.",
                "If it stays stuck, press [K] and restart the session.",
            ],
        ),
    };
    assert(alert@.actions =~= api_hang(duration, agent@).actions);
    alert
}

/// The alert about a file that is written again and again.
pub open spec fn tool_loop(cwd: Seq<char>, file: Seq<char>, count: u32, nanos: int) -> AlertView {
    AlertView {
        key: AlertKey::ToolLoop,
        severity: AlertSeverity::Warning,
        headline: "TOOL_LOOP • "@ + shown_span((nanos / 1_000_000_000) as nat),
        summary: decimal(count as nat) + " rewrites on "@ + shown_path(cwd, file)
            + " without forward progress."@,
        actions: seq![
            "Inspect the repeated write target before letting the session continue."@,
            "Press [c] to save a checkpoint before interrupting the loop."@,
            "Press [k] to stop the loop and restart from the checkpoint if needed."@,
        ],
    }
}

fn tool_loop_alert(cwd: &str, file: &str, count: u32, duration: Span) -> (r: ActiveAlert)
    ensures
        r@ == tool_loop(cwd@, file@, count, duration.nanos as int),
{
    let mut headline: String = "TOOL_LOOP • ".to_owned();
    headline.append(format_duration(duration).as_str());
    let mut summary: String = String::new();
    let ghost empty = summary@;
    assert(forall|s: Seq<char>| #[trigger] (empty + s) =~= s);
    push_decimal(&mut summary, count as u128);
    summary.append(" rewrites on ");
    summary.append(display_path(cwd, file).as_str());
    summary.append(" without forward progress.");
    let alert = ActiveAlert {
        key: AlertKey::ToolLoop,
        severity: AlertSeverity::Warning,
        headline,
        summary,
        actions: texts_of(
            vec![
                "Inspect the repeated write target before letting the session continue.",
                "Press [c] to save a checkpoint before interrupting the loop.",
                "Press [k] to stop the loop and restart from the checkpoint if needed.",
            ],
        ),
    };
    assert(alert@.actions =~= tool_loop(cwd@, file@, count, duration.nanos as int).actions);
    alert
}

/// The alert about tests that keep failing.
pub open spec fn test_loop(command: Seq<char>, failure_count: u32) -> AlertView {
    AlertView {
        key: AlertKey::TestLoop,
        severity: AlertSeverity::Warning,
        headline: "TEST_LOOP • "@ + decimal(failure_count as nat) + " failures"@,
        summary: "Repeated failing command: "@ + command,
        actions: seq![
            "Read the failing command output and fix the underlying error."@,
            "Do not rerun the same test command until the failure is addressed."@,
            "Press [k] if the session keeps retrying the same test."@,
        ],
    }
}

fn test_loop_alert(command: &str, failure_count: u32) -> (r: ActiveAlert)
    ensures
        r@ == test_loop(command@, failure_count),
{
    let mut headline: String = "TEST_LOOP • ".to_owned();
    push_decimal(&mut headline, failure_count as u128);
    headline.append(" failures");
    let mut summary: String = "Repeated failing command: ".to_owned();
    summary.append(command);
    let alert = ActiveAlert {
        key: AlertKey::TestLoop,
        severity: AlertSeverity::Warning,
        headline,
        summary,
        actions: texts_of(
            vec![
                "Read the failing command output and fix the underlying error.",
                "Do not rerun the same test command until the failure is addressed.",
                "Press [k] if the session keeps retrying the same test.",
            ],
        ),
    };
    assert(alert@.actions =~= test_loop(command@, failure_count).actions);
    alert
}

/// The alert about a task that waits for others.
pub open spec fn task_blocked(task_id: Seq<char>, blocked_by: Seq<Seq<char>>) -> AlertView {
    AlertView {
        key: AlertKey::TaskBlocked,
        severity: AlertSeverity::Warning,
        headline: "TASK_BLOCKED • task "@ + task_id,
        summary: "Blocking tasks not completed: "@ + joined(blocked_by, ", "@),
        actions: seq![
            "Complete or reassign the blocking dependency before continuing."@,
            "Avoid retrying the blocked task until its prerequisites are done."@,
        ],
    }
}

fn task_blocked_alert(task_id: &str, blocked_by: &Vec<String>) -> (r: ActiveAlert)
    ensures
        r@ == task_blocked(task_id@, views(blocked_by@)),
{
    let mut headline: String = "TASK_BLOCKED • task ".to_owned();
    headline.append(task_id);
    let mut summary: String = "Blocking tasks not completed: ".to_owned();
    summary.append(join(blocked_by, ", ").as_str());
    let alert = ActiveAlert {
        key: AlertKey::TaskBlocked,
        severity: AlertSeverity::Warning,
        headline,
        summary,
        actions: texts_of(
            vec![
                "Complete or reassign the blocking dependency before continuing.",
                "Avoid retrying the blocked task until its prerequisites are done.",
            ],
        ),
    };
    assert(alert@.actions =~= task_blocked(task_id@, views(blocked_by@)).actions);
    alert
}

/// A count of at least one.
pub open spec fn at_least_one(n: nat) -> nat {
    if n == 0 {
        1
    } else {
        n
    }
}

/// The alert about a context that was compacted.
pub open spec fn context_reset(compact_count: u64) -> AlertView {
    AlertView {
        key: AlertKey::ContextReset,
        severity: AlertSeverity::Warning,
        headline: "CONTEXT_RESET • "@ + decimal(at_least_one(compact_count as nat))
            + " compacts"@,
        summary: "Context was compacted - earlier constraints may be lost"@,
        actions: seq![
            "Restate the most important constraints before the session continues."@,
            "Review the next tool call to confirm the agent resumed the right task."@,
        ],
    }
}

fn context_reset_alert(compact_count: u64) -> (r: ActiveAlert)
    ensures
        r@ == context_reset(compact_count),
{
    let count: u64 = if compact_count == 0 {
        1
    } else {
        compact_count
    };
    let mut headline: String = "CONTEXT_RESET • ".to_owned();
    push_decimal(&mut headline, count as u128);
    headline.append(" compacts");
    let alert = ActiveAlert {
        key: AlertKey::ContextReset,
        severity: AlertSeverity::Warning,
        headline,
        summary: "Context was compacted - earlier constraints may be lost".to_owned(),
        actions: texts_of(
            vec![
                "Restate the most important constraints before the session continues.",
                "Review the next tool call to confirm the agent resumed the right task.",
            ],
        ),
    };
    assert(alert@.actions =~= context_reset(compact_count).actions);
    alert
}

/// The alert about a file outside the guarded scope.
pub open spec fn scope_leak(
    cwd: Seq<char>,
    violations: u32,
    violating_file: Seq<char>,
    guard_path: Seq<char>,
) -> AlertView {
    AlertView {
        key: AlertKey::ScopeLeak,
        severity: AlertSeverity::Warning,
        headline: "SCOPE_LEAKING • "@ + decimal(at_least_one(violations as nat))
            + " violations"@,
        summary: shown_path(cwd, violating_file) + " is outside the guard path "@ + shown_path(
            cwd,
            guard_path,
        ) + "."@,
        actions: seq![
            "Review the out-of-scope file and decide whether it should be reverted."@,
            "Press [g] to tighten the guard path if the session is drifting."@,
            "Interrupt the session before it edits more files outside scope."@,
        ],
    }
}

fn scope_leak_alert(cwd: &str, violations: u32, violating_file: &str, guard_path: &str) -> (r:
    ActiveAlert)
    ensures
        r@ == scope_leak(cwd@, violations, violating_file@, guard_path@),
{
    let count: u32 = if violations == 0 {
        1
    } else {
        violations
    };
    let mut headline: String = "SCOPE_LEAKING • ".to_owned();
    push_decimal(&mut headline, count as u128);
    headline.append(" violations");
    let mut summary: String = display_path(cwd, violating_file);
    summary.append(" is outside the guard path ");
    summary.append(display_path(cwd, guard_path).as_str());
    summary.append(".");
    let alert = ActiveAlert {
        key: AlertKey::ScopeLeak,
        severity: AlertSeverity::Warning,
        headline,
        summary,
        actions: texts_of(
            vec![
                "Review the out-of-scope file and decide whether it should be reverted.",
                "Press [g] to tighten the guard path if the session is drifting.",
                "Interrupt the session before it edits more files outside scope.",
            ],
        ),
    };
    assert(alert@.actions =~= scope_leak(
        cwd@,
        violations,
        violating_file@,
        guard_path@,
    ).actions);
    alert
}

/// The alert about a session that no longer responds.
pub open spec fn dead(process_alive: bool, silence: Span, agent: Seq<char>) -> AlertView {
    AlertView {
        key: AlertKey::Dead,
        severity: AlertSeverity::Critical,
        headline: "DEAD • "@ + shown_span(silence.secs()),
        summary: if process_alive {
            "The session is unresponsive even though the process still exists."@
        } else {
            "The "@ + agent + " process is no longer alive."@
        },
        actions: seq![
            "Press [K] to hard kill the stuck process if it is still alive."@,
            "Restart the "@ + agent + " session in this project."@,
            "Resume from the last checkpoint or recent file activity."@,
        ],
    }
}

fn dead_alert(process_alive: bool, silence: Span, agent: &str) -> (r: ActiveAlert)
    ensures
        r@ == dead(process_alive, silence, agent@),
{
    let mut headline: String = "DEAD • ".to_owned();
    headline.append(format_duration(silence).as_str());
    let mut summary: String = "The session is unresponsive even though the process still exists.".to_owned();
    if !process_alive {
        summary = "The ".to_owned();
        summary.append(agent);
        summary.append(" process is no longer alive.");
    }
    let mut restart: String = "Restart the ".to_owned();
    restart.append(agent);
    restart.append(" session in this project.");
    let alert = ActiveAlert {
        key: AlertKey::Dead,
        severity: AlertSeverity::Critical,
        headline,
        summary,
        actions: texts_of(
            vec![
                "Press [K] to hard kill the stuck process if it is still alive.",
                restart.as_str(),
                "Resume from the last checkpoint or recent file activity.",
            ],
        ),
    };
    assert(alert@.actions =~= dead(process_alive, silence, agent@).actions);
    alert
}

/// The alert that the phase of a session raises.
pub open spec fn phase_alert(s: SnapshotView, now: Timestamp, agent: Seq<char>) -> Option<AlertView> {
    match s.phase {
        PhaseView::ApiHang(span) => Some(api_hang(span, agent)),
        PhaseView::ToolLoop { file, count, since } => Some(
            tool_loop(s.cwd, file, count, elapsed(now, since)),
        ),
        PhaseView::TestLoop { command, failure_count } => Some(test_loop(command, failure_count)),
        PhaseView::TaskBlocked { task_id, blocked_by } => Some(task_blocked(task_id, blocked_by)),
        PhaseView::ContextReset => Some(context_reset(s.state.compact_count)),
        PhaseView::ScopeLeaking { violating_file, guard_path } => Some(
            scope_leak(s.cwd, s.state.scope_violation_count, violating_file, guard_path),
        ),
        PhaseView::Dead => Some(dead(s.state.process_alive, s.silence, agent)),
        _ => None,
    }
}

/// The alert that files outside the guarded scope raise.
pub open spec fn scope_alert(s: SnapshotView) -> Option<AlertView> {
    if s.state.scope_violation_count > 0 {
        Some(
            scope_leak(
                s.cwd,
                s.state.scope_violation_count,
                match s.state.latest_scope_violation {
                    Some(file) => file@,
                    None => s.cwd,
                },
                if s.state.guard_paths.len() > 0 {
                    s.state.guard_paths[0]@
                } else {
                    s.cwd
                },
            ),
        )
    } else {
        None
    }
}

/// The alert that failing tests raise.
pub open spec fn test_alert(s: SnapshotView) -> Option<AlertView> {
    if s.state.consecutive_test_failures >= 3 {
        Some(
            test_loop(
                match s.state.last_test_command {
                    Some(command) => command@,
                    None => "test command"@,
                },
                s.state.consecutive_test_failures,
            ),
        )
    } else {
        None
    }
}

/// The alert that repeated writes raise.
pub open spec fn write_alert(s: SnapshotView, now: Timestamp) -> Option<AlertView> {
    match s.state.last_loop_file_path {
        Some(file) => {
            let writes = writes_of(s.state.recent_file_writes, file@);
            let count = fresh_count(writes, now) as u32;
            if count >= 3 {
                Some(
                    tool_loop(
                        s.cwd,
                        file@,
                        count,
                        elapsed_from(now, first_fresh(writes, now)),
                    ),
                )
            } else {
                None
            }
        },
        None => None,
    }
}

/// The alert that a process without life raises.
pub open spec fn death_alert(s: SnapshotView, agent: Seq<char>) -> Option<AlertView> {
    if s.phase is Dead || !s.state.process_alive {
        Some(dead(s.state.process_alive, s.silence, agent))
    } else {
        None
    }
}

/// Whether a list holds an alert about something.
pub open spec fn has_key(list: Seq<AlertView>, key: AlertKey) -> bool {
    exists|i: int| 0 <= i < list.len() && (#[trigger] list[i]).key == key
}

/// The list with one more alert, unless there is one about the same thing.
pub open spec fn with_alert(list: Seq<AlertView>, alert: Option<AlertView>) -> Seq<AlertView> {
    match alert {
        Some(a) => if has_key(list, a.key) {
            list
        } else {
            list.push(a)
        },
        None => list,
    }
}

/// The alerts about a session in the order in which they are found.
pub open spec fn found_alerts(s: SnapshotView, now: Timestamp, agent: Seq<char>) -> Seq<AlertView> {
    let a = with_alert(seq![], phase_alert(s, now, agent));
    let b = with_alert(a, scope_alert(s));
    let c = with_alert(b, test_alert(s));
    let d = with_alert(c, write_alert(s, now));
    with_alert(d, death_alert(s, agent))
}

/// Whether an alert stands before another one: it is more serious, or as
/// serious with the smaller headline.
pub open spec fn precedes(a: AlertView, b: AlertView) -> bool {
    a.severity.rank() > b.severity.rank() || (a.severity.rank() == b.severity.rank() && text_less(
        a.headline,
        b.headline,
    ))
}

/// A sorted list with one more alert, behind those that it does not precede.
pub open spec fn sorted_insert(list: Seq<AlertView>, item: AlertView) -> Seq<AlertView>
    decreases list.len(),
{
    if list.len() > 0 && precedes(item, list.last()) {
        sorted_insert(list.drop_last(), item).push(list.last())
    } else {
        list.push(item)
    }
}

/// A list of alerts in order.
pub open spec fn sorted_alerts(list: Seq<AlertView>) -> Seq<AlertView>
    decreases list.len(),
{
    if list.len() == 0 {
        seq![]
    } else {
        sorted_insert(sorted_alerts(list.drop_last()), list.last())
    }
}

/// The alerts about a session, the most serious first.
pub open spec fn alerts_of(s: SnapshotView, now: Timestamp, agent: Seq<char>) -> Seq<AlertView> {
    sorted_alerts(found_alerts(s, now, agent))
}

proof fn lemma_alert_push(list: Seq<ActiveAlert>, alert: ActiveAlert)
    ensures
        alert_views(list.push(alert)) == alert_views(list).push(alert@),
{
    assert(alert_views(list.push(alert)) =~= alert_views(list).push(alert@));
}

fn push_unique_alert(alerts: &mut Vec<ActiveAlert>, alert: ActiveAlert)
    ensures
        alert_views(final(alerts)@) == with_alert(alert_views(old(alerts)@), Some(alert@)),
{
    let ghost before = alert_views(alerts@);
    let mut i: usize = 0;
    while i < alerts.len()
        invariant
            i <= alerts@.len(),
            alerts@ == old(alerts)@,
            before == alert_views(alerts@),
            forall|k: int| 0 <= k < i ==> (#[trigger] before[k]).key != alert.key,
        decreases alerts@.len() - i,
    {
        assert(before[i as int] == alerts@[i as int]@);
        if alerts[i].key == alert.key {
            return;
        }
        i = i + 1;
    }
    proof {
        lemma_alert_push(alerts@, alert);
    }
    alerts.push(alert);
}

fn alert_of_phase(snapshot: &Snapshot, now: Timestamp, agent: &str) -> (r: Option<ActiveAlert>)
    ensures
        match r {
            Some(a) => phase_alert(snapshot@, now, agent@) == Some(a@),
            None => phase_alert(snapshot@, now, agent@) is None,
        },
{
    let cwd = snapshot.cwd.as_str();
    match &snapshot.phase {
        AgentPhase::ApiHang(duration) => Some(api_hang_alert(*duration, agent)),
        AgentPhase::ToolLoop { file, count, since } => Some(
            tool_loop_alert(cwd, file.as_str(), *count, elapsed_since(now, *since)),
        ),
        AgentPhase::TestLoop { command, failure_count } => Some(
            test_loop_alert(command.as_str(), *failure_count),
        ),
        AgentPhase::TaskBlocked { task_id, blocked_by } => Some(
            task_blocked_alert(task_id.as_str(), blocked_by),
        ),
        AgentPhase::ContextReset => Some(context_reset_alert(snapshot.state.compact_count)),
        AgentPhase::ScopeLeaking { violating_file, guard_path } => Some(
            scope_leak_alert(
                cwd,
                snapshot.state.scope_violation_count,
                violating_file.as_str(),
                guard_path.as_str(),
            ),
        ),
        AgentPhase::Dead => Some(
            dead_alert(snapshot.state.process_alive, snapshot.silence, agent),
        ),
        _ => None,
    }
}

fn insert_sorted(list: &mut Vec<ActiveAlert>, item: ActiveAlert)
    ensures
        alert_views(final(list)@) == sorted_insert(alert_views(old(list)@), item@),
{
    let ghost all = alert_views(list@);
    let ghost before = list@;
    let mut at: usize = list.len();
    assert(all.take(at as int) =~= all);
    assert(sorted_insert(all, item@) =~= sorted_insert(all.take(at as int), item@) + all.skip(
        at as int,
    ));
    loop
        invariant
            at <= list@.len(),
            list@ == before,
            all == alert_views(before),
            sorted_insert(all, item@) == sorted_insert(all.take(at as int), item@) + all.skip(
                at as int,
            ),
        ensures
            at <= list@.len(),
            list@ == before,
            sorted_insert(all, item@) == all.take(at as int).push(item@) + all.skip(at as int),
        decreases at,
    {
        let ghost head = all.take(at as int);
        if at == 0 {
            assert(sorted_insert(head, item@) == head.push(item@));
            break;
        }
        assert(head.last() == list@[at - 1]@);
        let level = list[at - 1].severity.level();
        let first = item.severity.level() > level || (item.severity.level() == level
            && text_before(item.headline.as_str(), list[at - 1].headline.as_str()));
        if !first {
            assert(sorted_insert(head, item@) == head.push(item@));
            break;
        }
        proof {
            assert(head.drop_last() =~= all.take(at - 1));
            assert(sorted_insert(head, item@) == sorted_insert(all.take(at - 1), item@).push(
                all[at - 1],
            ));
            assert(sorted_insert(all, item@) =~= sorted_insert(all.take(at - 1), item@) + all.skip(
                at - 1,
            ));
        }
        at = at - 1;
    }
    let ghost placed = item@;
    list.insert(at, item);
    assert(alert_views(list@) =~= all.take(at as int).push(placed) + all.skip(at as int));
}

fn sort_alerts(list: Vec<ActiveAlert>) -> (r: Vec<ActiveAlert>)
    ensures
        alert_views(r@) == sorted_alerts(alert_views(list@)),
{
    let ghost all = alert_views(list@);
    let mut rest = list;
    let mut reversed: Vec<ActiveAlert> = Vec::new();
    while rest.len() > 0
        invariant
            alert_views(rest@) + alert_views(reversed@).reverse() == all,
        decreases rest@.len(),
    {
        let ghost longer = rest@;
        let ghost tail = reversed@;
        if let Some(item) = rest.pop() {
            proof {
                lemma_alert_push(reversed@, item);
                assert(alert_views(longer) =~= alert_views(rest@).push(item@));
            }
            reversed.push(item);
            assert(alert_views(rest@) + alert_views(reversed@).reverse() =~= all);
        }
    }
    assert(alert_views(reversed@).reverse() =~= all);
    let mut out: Vec<ActiveAlert> = Vec::new();
    let ghost mut done: int = 0;
    assert(all.take(0) =~= seq![]);
    assert(alert_views(out@) =~= seq![]);
    while reversed.len() > 0
        invariant
            0 <= done <= all.len(),
            alert_views(reversed@).reverse() == all.skip(done),
            alert_views(out@) == sorted_alerts(all.take(done)),
        decreases reversed@.len(),
    {
        let ghost longer = reversed@;
        assert(alert_views(longer).reverse().len() == all.len() - done);
        assert(all.skip(done)[0] == alert_views(longer).reverse()[0]);
        if let Some(item) = reversed.pop() {
            assert(item@ == all[done]);
            assert(all.take(done + 1).drop_last() =~= all.take(done));
            assert(all.take(done + 1).last() == all[done]);
            insert_sorted(&mut out, item);
            proof {
                assert(alert_views(reversed@).reverse() =~= all.skip(done + 1)) by {
                    assert forall|k: int| 0 <= k < reversed@.len() implies #[trigger] alert_views(
                        reversed@,
                    ).reverse()[k] == all.skip(done + 1)[k] by {
                        assert(all.skip(done)[k + 1] == alert_views(longer).reverse()[k + 1]);
                    }
                }
                done = done + 1;
            }
        }
    }
    assert(alert_views(reversed@).reverse().len() == 0);
    assert(all.take(done) =~= all);
    out
}

/// Finds the alerts about a session, the most serious first.
pub fn active_alerts(snapshot: &Snapshot, now: Timestamp, agent: &str) -> (r: Vec<ActiveAlert>)
    ensures
        alert_views(r@) == alerts_of(snapshot@, now, agent@),
{
    let cwd = snapshot.cwd.as_str();
    let state = &snapshot.state;
    let mut alerts: Vec<ActiveAlert> = Vec::new();
    assert(alert_views(alerts@) =~= seq![]);
    if let Some(alert) = alert_of_phase(snapshot, now, agent) {
        push_unique_alert(&mut alerts, alert);
    }
    if state.scope_violation_count > 0 {
        let file = match &state.latest_scope_violation {
            Some(file) => file.as_str(),
            None => cwd,
        };
        let guard = if state.guard_paths.len() > 0 {
            state.guard_paths[0].as_str()
        } else {
            cwd
        };
        push_unique_alert(
            &mut alerts,
            scope_leak_alert(cwd, state.scope_violation_count, file, guard),
        );
    }
    if state.consecutive_test_failures >= TEST_LOOP_THRESHOLD {
        let command = match &state.last_test_command {
            Some(command) => command.as_str(),
            None => "test command",
        };
        push_unique_alert(&mut alerts, test_loop_alert(command, state.consecutive_test_failures));
    }
    if let Some(file) = &state.last_loop_file_path {
        let count = state.recent_file_write_count_at(file.as_str(), now);
        if count >= 3 {
            let since = state.recent_file_write_started_before(file.as_str(), now);
            push_unique_alert(
                &mut alerts,
                tool_loop_alert(cwd, file.as_str(), count, elapsed_since_known(now, since)),
            );
        }
    }
    let is_dead = match &snapshot.phase {
        AgentPhase::Dead => true,
        _ => false,
    };
    if is_dead || !state.process_alive {
        push_unique_alert(&mut alerts, dead_alert(state.process_alive, snapshot.silence, agent));
    }
    sort_alerts(alerts)
}

/// The most serious severity of a list of alerts.
pub open spec fn worst(list: Seq<AlertView>) -> AlertSeverity
    decreases list.len(),
{
    if list.len() == 0 {
        AlertSeverity::Normal
    } else if worst(list.drop_last()).rank() > list.last().severity.rank() {
        worst(list.drop_last())
    } else {
        list.last().severity
    }
}

fn worst_severity(list: &Vec<ActiveAlert>) -> (r: AlertSeverity)
    ensures
        r == worst(alert_views(list@)),
{
    let ghost all = alert_views(list@);
    let mut out = AlertSeverity::Normal;
    let mut i: usize = 0;
    assert(all.take(0) =~= seq![]);
    while i < list.len()
        invariant
            i <= list@.len(),
            all == alert_views(list@),
            out == worst(all.take(i as int)),
        decreases list@.len() - i,
    {
        assert(all.take(i + 1).drop_last() =~= all.take(i as int));
        assert(all.take(i + 1).last() == list@[i as int]@);
        if !(out.level() > list[i].severity.level()) {
            out = list[i].severity;
        }
        i = i + 1;
    }
    assert(all.take(i as int) =~= all);
    out
}

/// The actions of all alerts, one after the other.
pub open spec fn all_actions(list: Seq<AlertView>) -> Seq<Seq<char>>
    decreases list.len(),
{
    if list.len() == 0 {
        seq![]
    } else {
        all_actions(list.drop_last()) + list.last().actions
    }
}

/// A list of texts without repetitions: of equal ones the first stays.
pub open spec fn distinct(list: Seq<Seq<char>>) -> Seq<Seq<char>>
    decreases list.len(),
{
    if list.len() == 0 {
        seq![]
    } else {
        let rest = distinct(list.drop_last());
        if rest.contains(list.last()) {
            rest
        } else {
            rest.push(list.last())
        }
    }
}

fn add_distinct(list: &mut Vec<String>, text: &str)
    ensures
        views(final(list)@) == if views(old(list)@).contains(text@) {
            views(old(list)@)
        } else {
            views(old(list)@).push(text@)
        },
{
    let mut i: usize = 0;
    while i < list.len()
        invariant
            i <= list@.len(),
            list@ == old(list)@,
            forall|k: int| 0 <= k < i ==> (#[trigger] views(list@)[k]) != text@,
        decreases list@.len() - i,
    {
        if same_text(list[i].as_str(), text) {
            assert(views(list@)[i as int] == text@);
            return;
        }
        assert(views(list@)[i as int] != text@);
        i = i + 1;
    }
    let copy: String = text.to_owned();
    proof {
        lemma_views_push(list@, copy);
    }
    list.push(copy);
}

proof fn lemma_distinct_append(a: Seq<Seq<char>>, b: Seq<Seq<char>>, n: int)
    requires
        0 <= n < b.len(),
    ensures
        (a + b.take(n + 1)).drop_last() == a + b.take(n),
        (a + b.take(n + 1)).last() == b[n],
{
    assert((a + b.take(n + 1)).drop_last() =~= a + b.take(n));
}

/// Collects what can be done about the alerts, each action once.
pub fn recommended_actions(alerts: &Vec<ActiveAlert>) -> (r: Vec<String>)
    ensures
        views(r@) == distinct(all_actions(alert_views(alerts@))),
{
    let ghost all = alert_views(alerts@);
    let mut out: Vec<String> = Vec::new();
    let mut i: usize = 0;
    assert(all.take(0) =~= seq![]);
    assert(views(out@) =~= seq![]);
    while i < alerts.len()
        invariant
            i <= alerts@.len(),
            all == alert_views(alerts@),
            views(out@) == distinct(all_actions(all.take(i as int))),
        decreases alerts@.len() - i,
    {
        assert(all.take(i + 1).drop_last() =~= all.take(i as int));
        assert(all.take(i + 1).last() == alerts@[i as int]@);
        let ghost earlier = all_actions(all.take(i as int));
        let ghost own = views(alerts@[i as int].actions@);
        let mut k: usize = 0;
        assert(earlier + own.take(0) =~= earlier);
        while k < alerts[i].actions.len()
            invariant
                i < alerts@.len(),
                k <= own.len(),
                own == views(alerts@[i as int].actions@),
                views(out@) == distinct(earlier + own.take(k as int)),
            decreases own.len() - k,
        {
            proof {
                lemma_distinct_append(earlier, own, k as int);
            }
            add_distinct(&mut out, alerts[i].actions[k].as_str());
            k = k + 1;
        }
        assert(own.take(k as int) =~= own);
        i = i + 1;
    }
    assert(all.take(i as int) =~= all);
    out
}

/// A time of day in the offset of a text in RFC 3339 notation: hour, minute,
/// second and the nanoseconds after it; `None` where it is no such text.
pub uninterp spec fn time_of_day(text: Seq<char>) -> Option<(u32, u32, u32, u32)>;

/// `chrono::DateTime::parse_from_rfc3339`, with the time of day that the text
/// shows. The result depends on the text alone.
#[verifier::external_body]
fn read_time_of_day(text: &str) -> (r: Option<(u32, u32, u32, u32)>)
    ensures
        r == time_of_day(text@),
{
    match chrono::DateTime::parse_from_rfc3339(text) {
        Ok(time) => {
            let clock = time.time();
            Some((chrono::Timelike::hour(&clock), chrono::Timelike::minute(&clock),
                chrono::Timelike::second(&clock), chrono::Timelike::nanosecond(&clock)))
        },
        Err(_) => None,
    }
}

/// A time of day as hours, minutes and seconds. The nanoseconds of a leap
/// second go beyond one second.
pub open spec fn clock_text(time: (u32, u32, u32, u32)) -> Seq<char> {
    two_digits(time.0 as nat) + ":"@ + two_digits(time.1 as nat) + ":"@ + two_digits(
        time.2 as nat + time.3 as nat / 1_000_000_000,
    )
}

/// Writes a time of day.
pub fn format_clock(time: (u32, u32, u32, u32)) -> (r: String)
    ensures
        r@ == clock_text(time),
{
    let mut out = two_digit_text(time.0 as u128);
    out.append(":");
    out.append(two_digit_text(time.1 as u128).as_str());
    out.append(":");
    out.append(two_digit_text(time.2 as u128 + time.3 as u128 / 1_000_000_000).as_str());
    out
}

/// A time of the alert log as it is shown: the time of day, or the text itself
/// where it is no time.
pub open spec fn history_time(text: Seq<char>, time: Option<(u32, u32, u32, u32)>) -> Seq<char> {
    match time {
        Some(t) => clock_text(t),
        None => text,
    }
}

/// An alert of the log.
#[derive(Debug, PartialEq, Eq)]
pub struct AlertHistoryEntry {
    pub timestamp: String,
    pub summary: String,
}

/// The value of an [`AlertHistoryEntry`].
pub struct HistoryEntryView {
    pub timestamp: Seq<char>,
    pub summary: Seq<char>,
}

impl View for AlertHistoryEntry {
    type V = HistoryEntryView;

    open spec fn view(&self) -> HistoryEntryView {
        HistoryEntryView { timestamp: self.timestamp@, summary: self.summary@ }
    }
}

/// The text before the first occurrence of a separator; the whole text where
/// there is none.
pub open spec fn before(text: Seq<char>, separator: Seq<char>) -> Seq<char> {
    match split_at_text(text, separator) {
        Some((head, _)) => head,
        None => text,
    }
}

/// The text after the first occurrence of a separator.
pub open spec fn after(text: Seq<char>, separator: Seq<char>) -> Option<Seq<char>> {
    match split_at_text(text, separator) {
        Some((_, tail)) => Some(tail),
        None => None,
    }
}

/// The first word of a text that may be missing.
pub open spec fn head_of(text: Option<Seq<char>>) -> Option<Seq<char>> {
    match text {
        Some(t) => Some(before(t, " "@)),
        None => None,
    }
}

/// What stands behind the first word of a text that may be missing.
pub open spec fn tail_of(text: Option<Seq<char>>) -> Option<Seq<char>> {
    match text {
        Some(t) => after(t, " "@),
        None => None,
    }
}

/// The summary of a line of the alert log: the phase, which is its third word,
/// and what stands behind it up to the action.
pub open spec fn history_summary(line: Seq<char>) -> Seq<char> {
    let third = tail_of(tail_of(Some(line)));
    let phase = match head_of(third) {
        Some(t) => t,
        None => "ALERT"@,
    };
    let rest = match tail_of(third) {
        Some(t) => t,
        None => ""@,
    };
    stripped(phase + " "@ + stripped(before(rest, " action="@)))
}

/// The entry of a line of the alert log, given the time that its first word
/// stands for.
pub open spec fn history_entry(line: Seq<char>, time: Option<(u32, u32, u32, u32)>) -> HistoryEntryView {
    HistoryEntryView {
        timestamp: history_time(before(line, " "@), time),
        summary: history_summary(line),
    }
}

fn text_before_separator(text: &str, separator: &str) -> (r: String)
    ensures
        r@ == before(text@, separator@),
{
    match split_once(text, separator) {
        Some((head, _)) => head,
        None => text.to_owned(),
    }
}

fn drop_word(text: Option<String>) -> (r: Option<String>)
    ensures
        crate::types::text_view(r) == tail_of(crate::types::text_view(text)),
{
    match text {
        Some(t) => match split_once(t.as_str(), " ") {
            Some((_, tail)) => Some(tail),
            None => None,
        },
        None => None,
    }
}

/// Reads a line of the alert log, given the time that its first word stands for.
pub fn history_entry_of(line: &str, time: Option<(u32, u32, u32, u32)>) -> (r: AlertHistoryEntry)
    ensures
        r@ == history_entry(line@, time),
{
    let timestamp = match time {
        Some(t) => format_clock(t),
        None => text_before_separator(line, " "),
    };
    let third = drop_word(drop_word(Some(line.to_owned())));
    let mut summary = match &third {
        Some(t) => text_before_separator(t.as_str(), " "),
        None => "ALERT".to_owned(),
    };
    let rest = match drop_word(third) {
        Some(t) => t,
        None => "".to_owned(),
    };
    summary.append(" ");
    summary.append(trim(text_before_separator(rest.as_str(), " action=").as_str()).as_str());
    AlertHistoryEntry { timestamp, summary: trim(summary.as_str()) }
}

/// Reads a line of the alert log.
pub fn parse_alert_history_line(line: &str) -> (r: AlertHistoryEntry)
    ensures
        r@ == history_entry(line@, time_of_day(before(line@, " "@))),
{
    let first = text_before_separator(line, " ");
    let time = read_time_of_day(first.as_str());
    history_entry_of(line, time)
}

/// The lines that are not blank.
pub open spec fn filled_lines(list: Seq<Seq<char>>) -> Seq<Seq<char>>
    decreases list.len(),
{
    if list.len() == 0 {
        seq![]
    } else {
        let rest = filled_lines(list.drop_last());
        if is_blank(list.last()) {
            rest
        } else {
            rest.push(list.last())
        }
    }
}

/// The last items of a list.
pub open spec fn last_items(list: Seq<Seq<char>>, count: int) -> Seq<Seq<char>> {
    if list.len() <= count {
        list
    } else {
        list.skip(list.len() - count)
    }
}

/// The entries of the last lines of the alert log.
pub open spec fn history_of(contents: Seq<char>) -> Seq<HistoryEntryView> {
    last_items(filled_lines(lines(contents)), 5).map_values(
        |line: Seq<char>| history_entry(line, time_of_day(before(line, " "@))),
    )
}

/// The values of the entries of the alert log.
pub open spec fn history_views(list: Seq<AlertHistoryEntry>) -> Seq<HistoryEntryView> {
    list.map_values(|e: AlertHistoryEntry| e@)
}

/// Reads the last alerts of the log.
pub fn load_alert_history(contents: &str) -> (r: Vec<AlertHistoryEntry>)
    ensures
        history_views(r@) == history_of(contents@),
{
    let all = split_lines(contents);
    let mut filled: Vec<String> = Vec::new();
    let mut i: usize = 0;
    assert(views(all@).take(0) =~= seq![]);
    assert(views(filled@) =~= seq![]);
    while i < all.len()
        invariant
            i <= all@.len(),
            views(filled@) == filled_lines(views(all@).take(i as int)),
        decreases all@.len() - i,
    {
        assert(views(all@).take(i + 1).drop_last() =~= views(all@).take(i as int));
        assert(views(all@).take(i + 1).last() == all@[i as int]@);
        if !blank(all[i].as_str()) {
            let copy = all[i].clone();
            proof {
                lemma_views_push(filled@, copy);
            }
            filled.push(copy);
        }
        i = i + 1;
    }
    assert(views(all@).take(i as int) =~= views(all@));
    let from: usize = if filled.len() <= MAX_HISTORY_ENTRIES {
        0
    } else {
        filled.len() - MAX_HISTORY_ENTRIES
    };
    let ghost shown = last_items(views(filled@), 5);
    let ghost entries = history_of(contents@);
    assert(shown =~= views(filled@).skip(from as int));
    let mut out: Vec<AlertHistoryEntry> = Vec::new();
    let mut k: usize = from;
    assert(history_views(out@) =~= entries.take(0));
    while k < filled.len()
        invariant
            from <= k <= filled@.len(),
            shown == views(filled@).skip(from as int),
            entries == shown.map_values(
                |line: Seq<char>| history_entry(line, time_of_day(before(line, " "@))),
            ),
            history_views(out@) == entries.take(k - from),
        decreases filled@.len() - k,
    {
        let entry = parse_alert_history_line(filled[k].as_str());
        assert(shown[k - from] == filled@[k as int]@);
        assert(entry@ == entries[k - from]);
        let ghost shorter = out@;
        out.push(entry);
        assert(history_views(out@) =~= history_views(shorter).push(entry@));
        assert(entries.take(k - from + 1) =~= entries.take(k - from).push(entry@));
        k = k + 1;
    }
    assert(entries.take(k - from) =~= entries);
    out
}

/// The lines of the alerts: a banner and a summary each, with empty lines
/// between them.
pub open spec fn alert_lines(list: Seq<AlertView>, count: int) -> Seq<Seq<SpanView>>
    decreases count,
{
    if count <= 0 {
        seq![]
    } else {
        let a = list[count - 1];
        let own = alert_lines(list, count - 1).push(banner(a)).push(seq![raw(a.summary)]);
        if count < list.len() {
            own.push(seq![])
        } else {
            own
        }
    }
}

/// The banner of an alert.
pub open spec fn banner(a: AlertView) -> Seq<SpanView> {
    seq![
        bold(" "@ + a.severity.name() + " "@, a.severity.hue()),
        raw(" "@),
        bold(a.headline, a.severity.hue()),
    ]
}

/// The lines of the first actions of a list, numbered.
pub open spec fn action_lines(actions: Seq<Seq<char>>, count: int) -> Seq<Seq<SpanView>>
    decreases count,
{
    if count <= 0 {
        seq![]
    } else {
        action_lines(actions, count - 1).push(
            seq![raw(decimal(count as nat) + ". "@ + actions[count - 1])],
        )
    }
}

/// The lines of the first entries of the history.
pub open spec fn history_lines(history: Seq<HistoryEntryView>, count: int) -> Seq<Seq<SpanView>>
    decreases count,
{
    if count <= 0 {
        seq![]
    } else {
        let e = history[count - 1];
        history_lines(history, count - 1).push(
            seq![colored(e.timestamp + " "@, Hue::DarkGray), raw(e.summary)],
        )
    }
}

/// The upper lines of the panel: the alerts and what can be done about them.
pub open spec fn upper_lines(alerts: Seq<AlertView>) -> Seq<Seq<SpanView>> {
    let actions = distinct(all_actions(alerts));
    if alerts.len() == 0 {
        seq![seq![bold("✓ No anomalies detected"@, Hue::Green)]]
    } else if actions.len() == 0 {
        alert_lines(alerts, alerts.len() as int)
    } else {
        alert_lines(alerts, alerts.len() as int).push(seq![]).push(
            seq![bold("RECOMMENDED ACTIONS"@, Hue::Yellow)],
        ) + action_lines(actions, actions.len() as int)
    }
}

/// The lines of the panel.
pub open spec fn panel_lines(alerts: Seq<AlertView>, history: Seq<HistoryEntryView>) -> Seq<
    Seq<SpanView>,
> {
    let head = upper_lines(alerts).push(seq![]).push(
        seq![bold("RECENT ALERT HISTORY"@, Hue::Cyan)],
    );
    if history.len() == 0 {
        head.push(seq![colored("No recent alerts recorded."@, Hue::DarkGray)])
    } else {
        head + history_lines(history, history.len() as int)
    }
}

fn alert_banner_line(alert: &ActiveAlert) -> (r: StyledLine)
    ensures
        r@ == banner(alert@),
{
    let mut label: String = " ".to_owned();
    label.append(alert.severity.label());
    label.append(" ");
    let hue = alert.severity.color();
    let mut spans: Vec<StyledSpan> = Vec::new();
    assert(span_views(spans@) =~= seq![]);
    push_span(&mut spans, StyledSpan { text: label, hue, bold: true });
    push_span(&mut spans, StyledSpan { text: " ".to_owned(), hue: Hue::Plain, bold: false });
    push_span(&mut spans, StyledSpan { text: alert.headline.clone(), hue, bold: true });
    let line = StyledLine { spans };
    assert(line@ =~= banner(alert@));
    line
}

fn push_alert_lines(out: &mut Vec<StyledLine>, alerts: &Vec<ActiveAlert>)
    requires
        old(out)@.len() == 0,
    ensures
        line_views(final(out)@) == alert_lines(alert_views(alerts@), alerts@.len() as int),
{
    let ghost all = alert_views(alerts@);
    assert(line_views(out@) =~= seq![]);
    let mut i: usize = 0;
    while i < alerts.len()
        invariant
            i <= alerts@.len(),
            all == alert_views(alerts@),
            line_views(out@) == alert_lines(all, i as int),
        decreases alerts@.len() - i,
    {
        assert(all[i as int] == alerts@[i as int]@);
        push_line(out, alert_banner_line(&alerts[i]));
        push_line(out, single(alerts[i].summary.clone(), Hue::Plain, false));
        if i + 1 < alerts.len() {
            push_line(out, blank_line());
        }
        i = i + 1;
    }
}

fn push_action_lines(out: &mut Vec<StyledLine>, actions: &Vec<String>)
    ensures
        line_views(final(out)@) == line_views(old(out)@) + action_lines(
            views(actions@),
            actions@.len() as int,
        ),
{
    let ghost before = line_views(out@);
    let ghost all = views(actions@);
    assert(before + action_lines(all, 0) =~= before);
    let mut i: usize = 0;
    while i < actions.len()
        invariant
            i <= actions@.len(),
            all == views(actions@),
            line_views(out@) == before + action_lines(all, i as int),
        decreases actions@.len() - i,
    {
        let mut text: String = String::new();
        let ghost empty = text@;
        assert(forall|s: Seq<char>| #[trigger] (empty + s) =~= s);
        push_decimal(&mut text, i as u128 + 1);
        text.append(". ");
        text.append(actions[i].as_str());
        let ghost shown = text@;
        push_line(out, single(text, Hue::Plain, false));
        assert(action_lines(all, i + 1) == action_lines(all, i as int).push(seq![raw(shown)]));
        assert(line_views(out@) =~= before + action_lines(all, i + 1));
        i = i + 1;
    }
}

fn history_line(entry: &AlertHistoryEntry) -> (r: StyledLine)
    ensures
        r@ == seq![colored(entry@.timestamp + " "@, Hue::DarkGray), raw(entry@.summary)],
{
    let mut time: String = entry.timestamp.clone();
    time.append(" ");
    let mut spans: Vec<StyledSpan> = Vec::new();
    assert(span_views(spans@) =~= seq![]);
    push_span(&mut spans, StyledSpan { text: time, hue: Hue::DarkGray, bold: false });
    push_span(
        &mut spans,
        StyledSpan { text: entry.summary.clone(), hue: Hue::Plain, bold: false },
    );
    let line = StyledLine { spans };
    assert(line@ =~= seq![
        colored(entry@.timestamp + " "@, Hue::DarkGray),
        raw(entry@.summary),
    ]);
    line
}

fn push_history_lines(out: &mut Vec<StyledLine>, history: &Vec<AlertHistoryEntry>)
    ensures
        line_views(final(out)@) == line_views(old(out)@) + history_lines(
            history_views(history@),
            history@.len() as int,
        ),
{
    let ghost before = line_views(out@);
    let ghost all = history_views(history@);
    assert(before + history_lines(all, 0) =~= before);
    let mut i: usize = 0;
    while i < history.len()
        invariant
            i <= history@.len(),
            all == history_views(history@),
            line_views(out@) == before + history_lines(all, i as int),
        decreases history@.len() - i,
    {
        assert(all[i as int] == history@[i as int]@);
        push_line(out, history_line(&history[i]));
        assert(line_views(out@) =~= before + history_lines(all, i + 1));
        i = i + 1;
    }
}

/// Builds the lines of the panel.
pub fn build_lines(alerts: &Vec<ActiveAlert>, history: &Vec<AlertHistoryEntry>) -> (r: Vec<
    StyledLine,
>)
    ensures
        line_views(r@) == panel_lines(alert_views(alerts@), history_views(history@)),
{
    let mut out: Vec<StyledLine> = Vec::new();
    assert(alert_views(alerts@).len() == alerts@.len());
    assert(history_views(history@).len() == history@.len());
    if alerts.len() == 0 {
        assert(line_views(out@) =~= seq![]);
        push_line(&mut out, single("✓ No anomalies detected".to_owned(), Hue::Green, true));
        assert(line_views(out@) =~= upper_lines(alert_views(alerts@)));
    } else {
        push_alert_lines(&mut out, alerts);
        let actions = recommended_actions(alerts);
        assert(views(actions@).len() == actions@.len());
        if actions.len() > 0 {
            push_line(&mut out, blank_line());
            push_line(&mut out, single("RECOMMENDED ACTIONS".to_owned(), Hue::Yellow, true));
            push_action_lines(&mut out, &actions);
        }
    }
    push_line(&mut out, blank_line());
    push_line(&mut out, single("RECENT ALERT HISTORY".to_owned(), Hue::Cyan, true));
    if history.len() == 0 {
        push_line(
            &mut out,
            single("No recent alerts recorded.".to_owned(), Hue::DarkGray, false),
        );
    } else {
        push_history_lines(&mut out, history);
    }
    out
}

/// The alerts panel.
#[derive(Debug, PartialEq, Eq)]
pub struct AlertsPanel {
    pub lines: Vec<StyledLine>,
    pub severity: AlertSeverity,
}

impl AlertsPanel {
    /// The panel for a snapshot and the contents of the alert log.
    pub fn from_snapshot_at(snapshot: &Snapshot, log: &str, now: Timestamp, agent: &str) -> (r: Self)
        ensures
            line_views(r.lines@) == panel_lines(
                alerts_of(snapshot@, now, agent@),
                history_of(log@),
            ),
            r.severity == worst(alerts_of(snapshot@, now, agent@)),
    {
        let alerts = active_alerts(snapshot, now, agent);
        let history = load_alert_history(log);
        let severity = worst_severity(&alerts);
        AlertsPanel { lines: build_lines(&alerts, &history), severity }
    }

    /// The panel for a snapshot at the current time.
    pub fn from_snapshot(snapshot: &Snapshot, log: &str, agent: &str) -> (r: Self)
        ensures
            exists|now: Timestamp|
                line_views(r.lines@) == panel_lines(
                    #[trigger] alerts_of(snapshot@, now, agent@),
                    history_of(log@),
                ) && r.severity == worst(alerts_of(snapshot@, now, agent@)),
    {
        let now = Timestamp::now();
        AlertsPanel::from_snapshot_at(snapshot, log, now, agent)
    }

    /// The number of lines.
    pub fn content_height(&self) -> (r: usize)
        ensures
            r == self.lines@.len(),
    {
        self.lines.len()
    }

    /// How far the panel can be scrolled in an area.
    pub fn max_scroll(&self, area_height: u16) -> (r: u16)
        ensures
            r == scroll_limit(self.lines@.len(), area_height),
    {
        max_scroll_of(self.lines.len(), area_height)
    }
}

} // verus!
