//! Laws of the answers to alerts: the configured answer is carried out, in full and no more.

use crate::alerter::{
    alert_line, alert_log, alerts, evaluation, kind_of, message_for, phase_name, raises_alert,
    suggestion_for, ActionTimes, AlertDecisionState, Alerter, AlerterConfig, ChangeView,
    Evaluation, ExecutorCall, NotificationView, Replies, ScopeLeakAction, StuckAction,
};
use crate::clock::Timestamp;
use crate::paths::shown_path;
use crate::text::{decimal, has_text, joined};
use crate::text_laws::lemma_found_before;
use crate::types::PhaseView;
use vstd::prelude::*;

verus! {

/// Whether two phases are of the same kind, whatever their details are.
pub open spec fn same_kind(a: PhaseView, b: PhaseView) -> bool {
    ||| a is Initializing && b is Initializing
    ||| a is Working && b is Working
    ||| a is Thinking && b is Thinking
    ||| a is ApiHang && b is ApiHang
    ||| a is ToolLoop && b is ToolLoop
    ||| a is TestLoop && b is TestLoop
    ||| a is TaskBlocked && b is TaskBlocked
    ||| a is ContextReset && b is ContextReset
    ||| a is ScopeLeaking && b is ScopeLeaking
    ||| a is Idle && b is Idle
    ||| a is Dead && b is Dead
}

/// Whether a session in this phase is stuck: it hangs, or it is in a loop.
pub open spec fn stuck(phase: PhaseView) -> bool {
    phase is ApiHang || phase is ToolLoop || phase is TestLoop
}

/// Hanging, looping, blocked, reset, leaking and dead sessions are alerts; initializing,
/// working, thinking and idle ones are not. An alert is new unless the phase before was of
/// the same kind.
pub proof fn alerts_are_raised_for_troubled_phases(from: Option<PhaseView>, to: PhaseView)
    ensures
        alerts(to) <==> !(to is Initializing || to is Working || to is Thinking || to is Idle),
        raises_alert(from, to) <==> !(to is Initializing || to is Working || to is Thinking
            || to is Idle) && (from is Some ==> !same_kind(from->0, to)),
        from is Some ==> (kind_of(from->0) == kind_of(to) <==> same_kind(from->0, to)),
{
}

/// Each phase has its own label.
pub proof fn phases_have_labels(phase: PhaseView)
    ensures
        phase is Initializing ==> phase_name(phase) == "INITIALIZING"@,
        phase is Working ==> phase_name(phase) == "WORKING"@,
        phase is Thinking ==> phase_name(phase) == "THINKING"@,
        phase is ApiHang ==> phase_name(phase) == "API_HANG"@,
        phase is ToolLoop ==> phase_name(phase) == "TOOL_LOOP"@,
        phase is TestLoop ==> phase_name(phase) == "TEST_LOOP"@,
        phase is TaskBlocked ==> phase_name(phase) == "TASK_BLOCKED"@,
        phase is ContextReset ==> phase_name(phase) == "CONTEXT_RESET"@,
        phase is ScopeLeaking ==> phase_name(phase) == "SCOPE_LEAKING"@,
        phase is Idle ==> phase_name(phase) == "IDLE"@,
        phase is Dead ==> phase_name(phase) == "DEAD"@,
{
}

/// Whether a change raises a new alert.
pub open spec fn is_new(change: ChangeView) -> bool {
    let to = change.to;
    !(to is Initializing || to is Working || to is Thinking || to is Idle) && (change.from is Some
        ==> !same_kind(change.from->0, to))
}

/// Whether an action that was last taken at a time may be taken again: it was never taken,
/// or the rate limit has passed, or it was taken in the future.
pub open spec fn may_act(a: Alerter, last: Option<Timestamp>, now: Timestamp) -> bool {
    last is Some ==> now.gap(last->0) >= a.config.rate_limit.nanos || now.gap(last->0) < 0
}

/// Whether nothing fails.
pub open spec fn all_well(replies: Replies) -> bool {
    &&& replies.checkpoint is Ok
    &&& replies.interrupt is None
    &&& replies.show is None
    &&& replies.bell is None
    &&& replies.log is None
}

/// Whether an alert was answered under the name of an action, with this notification.
pub open spec fn answered(e: Evaluation, name: Seq<char>, n: NotificationView) -> bool {
    &&& e.result is Ok
    &&& e.result->Ok_0.state == AlertDecisionState::Executed
    &&& e.result->Ok_0.action == name
    &&& e.result->Ok_0.reason == "executed"@
    &&& e.result->Ok_0.notification == Some(n)
    &&& n.action == name
}

/// The notification of an answer.
pub open spec fn notice(e: Evaluation) -> NotificationView {
    e.result->Ok_0.notification->0
}

/// The call that shows a notification.
pub open spec fn shown(a: Alerter, n: NotificationView) -> ExecutorCall {
    ExecutorCall::Show { message: alert_line(n, a.config.color), fault: None }
}

/// The call that logs a notification.
pub open spec fn logged(change: ChangeView, n: NotificationView) -> ExecutorCall {
    ExecutorCall::Log { path: alert_log(change.cwd), line: alert_line(n, false), fault: None }
}

/// The call that saves a checkpoint of the session.
pub open spec fn saved(change: ChangeView, replies: Replies) -> ExecutorCall {
    ExecutorCall::Checkpoint {
        state: change.state,
        cwd: change.cwd,
        reply: replies.checkpoint,
    }
}

/// The checkpoint that comes first where one is asked for before any answer to a session
/// that is stuck.
pub open spec fn prelude(a: Alerter, change: ChangeView, replies: Replies) -> Seq<ExecutorCall> {
    if stuck(change.to) && a.config.checkpoint_before_action {
        seq![saved(change, replies)]
    } else {
        seq![]
    }
}

/// Whether a warning is the configured answer: to stuck and dead sessions, to leaks, and
/// always to blocked tasks and reset contexts.
pub open spec fn asks_warning(config: AlerterConfig, phase: PhaseView) -> bool {
    ||| (stuck(phase) || phase is Dead) && config.stuck_action == StuckAction::Warn
    ||| phase is ScopeLeaking && config.scope_leak_action == ScopeLeakAction::Warn
    ||| phase is TaskBlocked
    ||| phase is ContextReset
}

/// Whether the bell is the configured answer.
pub open spec fn asks_bell(config: AlerterConfig, phase: PhaseView) -> bool {
    ||| (stuck(phase) || phase is Dead) && config.stuck_action == StuckAction::Bell
    ||| phase is ScopeLeaking && config.scope_leak_action == ScopeLeakAction::Bell
}

/// Whether a kill is the configured answer.
pub open spec fn asks_kill(config: AlerterConfig, phase: PhaseView) -> bool {
    ||| (stuck(phase) || phase is Dead) && config.stuck_action == StuckAction::Kill
    ||| phase is ScopeLeaking && config.scope_leak_action == ScopeLeakAction::Kill
}

/// Where a warning is configured, a new alert is shown and logged, and no process is
/// touched and no bell rung.
pub proof fn warnings_are_shown_and_logged(a: Alerter, change: ChangeView, replies: Replies)
    requires
        is_new(change),
        asks_warning(a.config, change.to),
        may_act(a, a.last_action_at.warn, change.now),
        all_well(replies),
    ensures
        ({
            let e = evaluation(a, change, replies);
            let n = notice(e);
            &&& answered(e, "warn"@, n)
            &&& e.calls == prelude(a, change, replies) + seq![shown(a, n), logged(change, n)]
            &&& e.alerter.last_action_at == (ActionTimes {
                warn: Some(change.now),
                ..a.last_action_at
            })
        }),
{
    let e = evaluation(a, change, replies);
    assert(e.calls =~= prelude(a, change, replies) + seq![
        shown(a, notice(e)),
        logged(change, notice(e)),
    ]);
}

/// Where the bell is configured, a new alert is shown, the bell is rung once, and the alert
/// is logged; no process is touched.
pub proof fn bells_are_rung(a: Alerter, change: ChangeView, replies: Replies)
    requires
        is_new(change),
        asks_bell(a.config, change.to),
        may_act(a, a.last_action_at.bell, change.now),
        all_well(replies),
    ensures
        ({
            let e = evaluation(a, change, replies);
            let n = notice(e);
            let rung = ExecutorCall::Bell { fault: None };
            &&& answered(e, "bell"@, n)
            &&& e.calls == prelude(a, change, replies) + seq![
                shown(a, n),
                rung,
                logged(change, n),
            ]
            &&& e.alerter.last_action_at == (ActionTimes {
                bell: Some(change.now),
                ..a.last_action_at
            })
        }),
{
    let e = evaluation(a, change, replies);
    assert(e.calls =~= prelude(a, change, replies) + seq![
        shown(a, notice(e)),
        ExecutorCall::Bell { fault: None },
        logged(change, notice(e)),
    ]);
}

/// Where a kill is configured and the process is known, a new alert interrupts it; a dead
/// one is killed by force instead, whether that succeeds or not. The alert is shown and
/// logged afterwards.
pub proof fn kills_are_carried_out(a: Alerter, change: ChangeView, replies: Replies)
    requires
        is_new(change),
        asks_kill(a.config, change.to),
        change.pid is Some,
        may_act(a, a.last_action_at.kill, change.now),
        all_well(replies),
    ensures
        ({
            let e = evaluation(a, change, replies);
            let n = notice(e);
            let pid = change.pid->0;
            let signal = if change.to is Dead {
                ExecutorCall::ForceKill { pid, fault: replies.force_kill }
            } else {
                ExecutorCall::Interrupt { pid, fault: None }
            };
            &&& answered(e, "kill"@, n)
            &&& e.calls == prelude(a, change, replies) + seq![
                signal,
                shown(a, n),
                logged(change, n),
            ]
            &&& e.alerter.last_action_at == (ActionTimes {
                kill: Some(change.now),
                ..a.last_action_at
            })
        }),
{
    let e = evaluation(a, change, replies);
    let pid = change.pid->0;
    let signal = if change.to is Dead {
        ExecutorCall::ForceKill { pid, fault: replies.force_kill }
    } else {
        ExecutorCall::Interrupt { pid, fault: None }
    };
    assert(e.calls =~= prelude(a, change, replies) + seq![
        signal,
        shown(a, notice(e)),
        logged(change, notice(e)),
    ]);
}

/// Where a checkpoint and a kill are configured and the process is known, a stuck session is
/// saved first and then interrupted. A dead one is killed by force without a checkpoint.
pub proof fn checkpoint_kills_are_carried_out(a: Alerter, change: ChangeView, replies: Replies)
    requires
        is_new(change),
        stuck(change.to) || change.to is Dead,
        a.config.stuck_action == StuckAction::CheckpointKill,
        change.pid is Some,
        may_act(a, a.last_action_at.checkpoint_kill, change.now),
        all_well(replies),
    ensures
        ({
            let e = evaluation(a, change, replies);
            let n = notice(e);
            let pid = change.pid->0;
            &&& answered(e, "checkpoint-kill"@, n)
            &&& stuck(change.to) ==> e.calls == seq![
                saved(change, replies),
                ExecutorCall::Interrupt { pid, fault: None },
                shown(a, n),
                logged(change, n),
            ] && n.checkpoint_dir == Some(replies.checkpoint->Ok_0)
            &&& change.to is Dead ==> e.calls == seq![
                ExecutorCall::ForceKill { pid, fault: replies.force_kill },
                shown(a, n),
                logged(change, n),
            ] && n.checkpoint_dir is None
            &&& e.alerter.last_action_at == (ActionTimes {
                checkpoint_kill: Some(change.now),
                ..a.last_action_at
            })
        }),
{
    let e = evaluation(a, change, replies);
    let n = notice(e);
    let pid = change.pid->0;
    if stuck(change.to) {
        assert(e.calls =~= seq![
            saved(change, replies),
            ExecutorCall::Interrupt { pid, fault: None },
            shown(a, n),
            logged(change, n),
        ]);
    } else {
        assert(e.calls =~= seq![
            ExecutorCall::ForceKill { pid, fault: replies.force_kill },
            shown(a, n),
            logged(change, n),
        ]);
    }
}

/// Without a known process a kill is held back: nothing is signalled, shown or logged, and
/// nothing is remembered. A checkpoint that is asked for is saved all the same.
pub proof fn kills_need_a_process(a: Alerter, change: ChangeView, replies: Replies)
    requires
        is_new(change),
        asks_kill(a.config, change.to) || (stuck(change.to) || change.to is Dead)
            && a.config.stuck_action == StuckAction::CheckpointKill,
        change.pid is None,
        asks_kill(a.config, change.to) ==> may_act(a, a.last_action_at.kill, change.now),
        !asks_kill(a.config, change.to) ==> may_act(
            a,
            a.last_action_at.checkpoint_kill,
            change.now,
        ),
        all_well(replies),
    ensures
        ({
            let e = evaluation(a, change, replies);
            let saves = stuck(change.to) && (a.config.checkpoint_before_action
                || a.config.stuck_action == StuckAction::CheckpointKill);
            &&& e.result is Ok
            &&& e.result->Ok_0.state == AlertDecisionState::Gated
            &&& e.result->Ok_0.reason == "missing_pid"@
            &&& e.result->Ok_0.notification is None
            &&& e.result->Ok_0.action == if asks_kill(a.config, change.to) {
                "kill"@
            } else {
                "checkpoint-kill"@
            }
            &&& e.alerter == a
            &&& saves ==> e.calls == seq![saved(change, replies)]
            &&& !saves ==> e.calls.len() == 0
        }),
{
    let e = evaluation(a, change, replies);
    if stuck(change.to) && (a.config.checkpoint_before_action || a.config.stuck_action
        == StuckAction::CheckpointKill) {
        assert(e.calls =~= seq![saved(change, replies)]);
    }
}

/// An alert whose action was taken less than the rate limit ago is held back: nothing is
/// done, shown or logged.
pub proof fn repeated_actions_are_held_back(
    a: Alerter,
    change: ChangeView,
    replies: Replies,
    last: Timestamp,
)
    requires
        is_new(change),
        0 <= change.now.gap(last) < a.config.rate_limit.nanos,
        asks_warning(a.config, change.to) && a.last_action_at.warn == Some(last) || asks_bell(
            a.config,
            change.to,
        ) && a.last_action_at.bell == Some(last) || asks_kill(a.config, change.to)
            && a.last_action_at.kill == Some(last) || (stuck(change.to) || change.to is Dead)
            && a.config.stuck_action == StuckAction::CheckpointKill
            && a.last_action_at.checkpoint_kill == Some(last),
    ensures
        ({
            let e = evaluation(a, change, replies);
            &&& e.calls.len() == 0
            &&& e.alerter == a
            &&& e.result is Ok
            &&& e.result->Ok_0.state == AlertDecisionState::Gated
            &&& e.result->Ok_0.reason == "rate_limited"@
            &&& e.result->Ok_0.notification is None
        }),
{
}

/// A change that raises no new alert is passed over, and the decision says why.
pub proof fn changes_without_an_alert_are_passed_over(
    a: Alerter,
    change: ChangeView,
    replies: Replies,
)
    requires
        !is_new(change),
    ensures
        ({
            let e = evaluation(a, change, replies);
            let calm = change.to is Initializing || change.to is Working || change.to is Thinking
                || change.to is Idle;
            &&& e.calls.len() == 0
            &&& e.alerter == a
            &&& e.result is Ok
            &&& e.result->Ok_0.state == AlertDecisionState::Skipped
            &&& e.result->Ok_0.notification is None
            &&& calm ==> e.result->Ok_0.reason == "not_alert_phase"@ && e.result->Ok_0.action
                == "none"@
            &&& !calm ==> e.result->Ok_0.reason == "no_new_alert"@
        }),
{
    alerts_are_raised_for_troubled_phases(change.from, change.to);
}

/// The notification of an answer tells the time, both phases, the message, the suggestion
/// and the directory of the checkpoint that was saved.
pub proof fn notifications_tell_what_happened(a: Alerter, change: ChangeView, replies: Replies)
    requires
        evaluation(a, change, replies).result is Ok,
        evaluation(a, change, replies).result->Ok_0.notification is Some,
    ensures
        ({
            let n = notice(evaluation(a, change, replies));
            let saves = stuck(change.to) && (a.config.checkpoint_before_action
                || a.config.stuck_action == StuckAction::CheckpointKill);
            &&& n.timestamp == change.now
            &&& change.from is None ==> n.previous_phase is None
            &&& change.from is Some ==> n.previous_phase == Some(phase_name(change.from->0))
            &&& n.phase == phase_name(change.to)
            &&& n.message == message_for(change.to, change.cwd, change.agent)
            &&& n.suggestion == suggestion_for(change.to, change.agent)
            &&& saves ==> n.checkpoint_dir == Some(replies.checkpoint->Ok_0)
            &&& !saves ==> n.checkpoint_dir is None
        }),
{
}

/// A failure of a call is the outcome: a failed checkpoint, a failed interrupt, a failed
/// show, bell or log. Nothing is remembered, and nothing is done after it.
pub proof fn failures_end_the_answer(a: Alerter, change: ChangeView, replies: Replies)
    requires
        evaluation(a, change, replies).result is Err,
    ensures
        ({
            let e = evaluation(a, change, replies);
            let fault = e.result->Err_0;
            &&& e.alerter == a
            &&& e.calls.len() > 0
            &&& match e.calls.last() {
                ExecutorCall::Checkpoint { reply, .. } => reply == Err::<Seq<char>, Seq<char>>(
                    fault,
                ),
                ExecutorCall::Interrupt { fault: f, .. } => f == Some(fault),
                ExecutorCall::Show { fault: f, .. } => f == Some(fault),
                ExecutorCall::Bell { fault: f } => f == Some(fault),
                ExecutorCall::Log { fault: f, .. } => f == Some(fault),
                ExecutorCall::ForceKill { .. } => false,
            }
        }),
{
}

/// An answer succeeds only where every call that it made did, apart from killing a dead
/// process by force.
pub proof fn answers_succeed_with_their_calls(
    a: Alerter,
    change: ChangeView,
    replies: Replies,
    i: int,
)
    requires
        evaluation(a, change, replies).result is Ok,
        0 <= i < evaluation(a, change, replies).calls.len(),
    ensures
        match evaluation(a, change, replies).calls[i] {
            ExecutorCall::Checkpoint { reply, .. } => reply is Ok,
            ExecutorCall::Interrupt { fault, .. } => fault is None,
            ExecutorCall::Show { fault, .. } => fault is None,
            ExecutorCall::Bell { fault } => fault is None,
            ExecutorCall::Log { fault, .. } => fault is None,
            ExecutorCall::ForceKill { .. } => true,
        },
{
}

proof fn lemma_holds(a: Seq<char>, p: Seq<char>, b: Seq<char>)
    ensures
        has_text(a + p + b, p),
{
    assert((a + p + b).subrange(a.len() as int, (a.len() + p.len()) as int) =~= p);
    assert(crate::text::matches_at(a + p + b, p, a.len() as int));
}

/// The message of an alert tells its details: how long a session hangs, which file is
/// rewritten and how often, which command fails and how often, which task is blocked by
/// which, and which file left which guard.
pub proof fn messages_tell_the_details(phase: PhaseView, cwd: Seq<char>, agent: Seq<char>)
    ensures
        ({
            let m = message_for(phase, cwd, agent);
            &&& phase is ApiHang ==> has_text(m, decimal(phase->ApiHang_0.secs()))
            &&& phase is ToolLoop ==> has_text(m, shown_path(cwd, phase->ToolLoop_file))
                && has_text(m, decimal(phase->count as nat))
            &&& phase is TestLoop ==> has_text(m, phase->command) && has_text(
                m,
                decimal(phase->failure_count as nat),
            )
            &&& phase is TaskBlocked ==> has_text(m, phase->task_id) && has_text(
                m,
                joined(phase->blocked_by, ","@),
            )
            &&& phase is ScopeLeaking ==> has_text(m, shown_path(cwd, phase->violating_file))
                && has_text(m, shown_path(cwd, phase->guard_path))
            &&& phase is Dead ==> has_text(m, agent)
            &&& m.len() > 0
        }),
{
    let m = message_for(phase, cwd, agent);
    match phase {
        PhaseView::ApiHang(span) => {
            reveal_strlit("after ");
            lemma_holds(
                "after "@,
                decimal(span.secs()),
                "s - agent appears stuck waiting on the API"@,
            );
        },
        PhaseView::ToolLoop { file, count, .. } => {
            reveal_strlit("file=");
            let f = shown_path(cwd, file);
            let c = decimal(count as nat);
            let end = " - same file keeps being rewritten"@;
            lemma_holds("file="@, f, " rewrites="@ + c + end);
            lemma_holds("file="@ + f + " rewrites="@, c, end);
            assert("file="@ + f + (" rewrites="@ + c + end) =~= m);
        },
        PhaseView::TestLoop { command, failure_count } => {
            reveal_strlit("command=\"");
            let c = decimal(failure_count as nat);
            let end = " - repeated failing test command"@;
            lemma_holds("command=\""@, command, "\" failures="@ + c + end);
            lemma_holds("command=\""@ + command + "\" failures="@, c, end);
            assert("command=\""@ + command + ("\" failures="@ + c + end) =~= m);
        },
        PhaseView::TaskBlocked { task_id, blocked_by } => {
            reveal_strlit("task_id=");
            let b = joined(blocked_by, ","@);
            let end = " - task dependencies are not completed"@;
            lemma_holds("task_id="@, task_id, " blocked_by="@ + b + end);
            lemma_holds("task_id="@ + task_id + " blocked_by="@, b, end);
            assert("task_id="@ + task_id + (" blocked_by="@ + b + end) =~= m);
        },
        PhaseView::ScopeLeaking { violating_file, guard_path } => {
            reveal_strlit("file=");
            let f = shown_path(cwd, violating_file);
            let g = shown_path(cwd, guard_path);
            let end = " - edited outside the configured guard"@;
            lemma_holds("file="@, f, " guard="@ + g + end);
            lemma_holds("file="@ + f + " guard="@, g, end);
            assert("file="@ + f + (" guard="@ + g + end) =~= m);
        },
        PhaseView::Dead => {
            reveal_strlit("process exited - ");
            lemma_holds("process exited - "@, agent, " is no longer alive"@);
        },
        PhaseView::ContextReset => {
            reveal_strlit("Context was compacted - earlier constraints may be lost");
        },
        _ => {
            reveal_strlit("unexpected alert transition");
        },
    }
}

/// Every alert comes with a suggestion, and nothing else does.
pub proof fn alerts_come_with_a_suggestion(phase: PhaseView, agent: Seq<char>)
    ensures
        suggestion_for(phase, agent) is Some <==> !(phase is Initializing || phase is Working
            || phase is Thinking || phase is Idle),
        phase is ApiHang ==> suggestion_for(phase, agent) == Some(
            "send a follow-up or use --on-stuck kill/--checkpoint if it stays blocked"@,
        ),
        phase is ToolLoop ==> suggestion_for(phase, agent) == Some(
            "inspect the repeated write target before interrupting"@,
        ),
        phase is TestLoop ==> suggestion_for(phase, agent) == Some(
            "fix the failing test command before rerunning it"@,
        ),
        phase is TaskBlocked ==> suggestion_for(phase, agent) == Some(
            "complete or reassign the blocking task dependencies before continuing"@,
        ),
        phase is ContextReset ==> suggestion_for(phase, agent) == Some(
            "restate any critical constraints before the session resumes work"@,
        ),
        phase is ScopeLeaking ==> suggestion_for(phase, agent) == Some(
            "tighten --guard or stop the session to limit drift"@,
        ),
        phase is Dead ==> suggestion_for(phase, agent) == Some(
            "restart the "@ + agent + " process to resume monitoring"@,
        ),
{
}

/// With colors the phase of an alert line is bold, in red for a dead session and in yellow
/// for any other; nothing else differs.
pub proof fn alert_lines_color_the_phase(n: NotificationView)
    ensures
        n.phase == "DEAD"@ ==> alert_line(n, true) == alert_line(
            NotificationView { phase: "\x1b[1;"@ + "31"@ + "m"@ + n.phase + "\x1b[0m"@, ..n },
            false,
        ),
        n.phase != "DEAD"@ ==> alert_line(n, true) == alert_line(
            NotificationView { phase: "\x1b[1;"@ + "33"@ + "m"@ + n.phase + "\x1b[0m"@, ..n },
            false,
        ),
{
}

/// The line of an alert tells its time, its phase, its message and the action, and every
/// optional part that is there.
pub proof fn alert_lines_tell_the_notification(n: NotificationView)
    ensures
        ({
            let line = alert_line(n, false);
            &&& has_text(line, crate::clock::shown_time(n.timestamp))
            &&& has_text(line, n.phase)
            &&& has_text(line, n.message)
            &&& has_text(line, " action="@ + n.action)
            &&& n.previous_phase is Some ==> has_text(line, " from="@ + n.previous_phase->0)
            &&& n.suggestion is Some ==> has_text(
                line,
                " suggestion=\""@ + n.suggestion->0 + "\""@,
            )
            &&& n.checkpoint_dir is Some ==> has_text(line, " checkpoint="@ + n.checkpoint_dir->0)
        }),
{
    let time = crate::clock::shown_time(n.timestamp);
    let none = Seq::<char>::empty();
    let from = crate::alerter::labelled(" from="@, n.previous_phase, none);
    let hint = crate::alerter::labelled(" suggestion=\""@, n.suggestion, "\""@);
    let dir = crate::alerter::labelled(" checkpoint="@, n.checkpoint_dir, none);
    assert(n.previous_phase is Some ==> from =~= " from="@ + n.previous_phase->0);
    assert(n.checkpoint_dir is Some ==> dir =~= " checkpoint="@ + n.checkpoint_dir->0);
    lemma_line_parts(time, " ALERT "@, n.phase, " "@, n.message);
    let head = time + " ALERT "@ + n.phase + " "@ + n.message;
    lemma_line_ends(head, " action="@, n.action, from, hint, dir);
    lemma_kept_in_line(head, " action="@, n.action, from, hint, dir, time);
    lemma_kept_in_line(head, " action="@, n.action, from, hint, dir, n.phase);
    lemma_kept_in_line(head, " action="@, n.action, from, hint, dir, n.message);
}

proof fn lemma_line_parts(
    a: Seq<char>,
    b: Seq<char>,
    c: Seq<char>,
    d: Seq<char>,
    e: Seq<char>,
)
    ensures
        has_text(a + b + c + d + e, a),
        has_text(a + b + c + d + e, c),
        has_text(a + b + c + d + e, e),
{
    let none = Seq::<char>::empty();
    assert(none + a + b =~= a + b);
    lemma_holds(none, a, b);
    lemma_found_before(a + b, c, a);
    lemma_holds(a + b, c, d);
    lemma_found_before(a + b + c, d, a);
    lemma_found_before(a + b + c + d, e, a);
    lemma_found_before(a + b + c + d, e, c);
    assert(a + b + c + d + e + none =~= a + b + c + d + e);
    lemma_holds(a + b + c + d, e, none);
}

proof fn lemma_line_ends(
    head: Seq<char>,
    label: Seq<char>,
    action: Seq<char>,
    from: Seq<char>,
    hint: Seq<char>,
    dir: Seq<char>,
)
    ensures
        has_text(head + label + action + from + hint + dir, label + action),
        has_text(head + label + action + from + hint + dir, from),
        has_text(head + label + action + from + hint + dir, hint),
        has_text(head + label + action + from + hint + dir, dir),
{
    let none = Seq::<char>::empty();
    let s = head + label + action;
    assert(head + (label + action) + none =~= s);
    lemma_holds(head, label + action, none);
    lemma_found_before(s, from, label + action);
    lemma_found_before(s + from, hint, label + action);
    lemma_found_before(s + from + hint, dir, label + action);
    lemma_holds(s, from, hint);
    lemma_found_before(s + from + hint, dir, from);
    lemma_holds(s + from, hint, dir);
    assert(s + from + hint + dir + none =~= s + from + hint + dir);
    lemma_holds(s + from + hint, dir, none);
}

proof fn lemma_kept_in_line(
    head: Seq<char>,
    label: Seq<char>,
    action: Seq<char>,
    from: Seq<char>,
    hint: Seq<char>,
    dir: Seq<char>,
    p: Seq<char>,
)
    requires
        has_text(head, p),
    ensures
        has_text(head + label + action + from + hint + dir, p),
{
    lemma_found_before(head, label, p);
    lemma_found_before(head + label, action, p);
    lemma_found_before(head + label + action, from, p);
    lemma_found_before(head + label + action + from, hint, p);
    lemma_found_before(head + label + action + from + hint, dir, p);
}

} // verus!
