//! Laws of the alerter: when it acts, in which order, and how often.

use crate::alerter::{
    action_for, alert_line, alert_log, alerts, evaluation, is_stuck, kind_of, labelled, phase_name,
    AlertAction, AlertDecisionState, Alerter, ChangeView, ExecutorCall, NotificationView, Replies,
};
use crate::alerts_panel::{history_entry, history_time, HistoryEntryView};
use crate::clock::shown_time;
use crate::text::{has_text, lemma_match_from, match_from, matches_at, split_at_text, stripped};
use crate::types::PhaseView;
use vstd::prelude::*;

verus! {

/// A phase that is no alert calls for nothing.
pub proof fn healthy_phases_are_left_alone(a: Alerter, change: ChangeView, replies: Replies)
    requires
        !alerts(change.to),
    ensures
        evaluation(a, change, replies).calls.len() == 0,
        evaluation(a, change, replies).alerter == a,
        evaluation(a, change, replies).result is Ok,
        evaluation(a, change, replies).result->Ok_0.state == AlertDecisionState::Skipped,
        evaluation(a, change, replies).result->Ok_0.notification is None,
{
}

/// A phase of the same kind as the one before raises no new alert.
pub proof fn lasting_alerts_are_not_repeated(a: Alerter, change: ChangeView, replies: Replies)
    requires
        change.from is Some,
        kind_of(change.from->0) == kind_of(change.to),
    ensures
        evaluation(a, change, replies).calls.len() == 0,
        evaluation(a, change, replies).alerter == a,
        evaluation(a, change, replies).result is Ok,
        evaluation(a, change, replies).result->Ok_0.notification is None,
{
}

/// After an action was carried out, the same action is not carried out again before the
/// rate limit has passed, whatever the phases are.
pub proof fn actions_are_rate_limited(
    a: Alerter,
    first: ChangeView,
    second: ChangeView,
    replies: Replies,
    later_replies: Replies,
)
    requires
        evaluation(a, first, replies).result is Ok,
        evaluation(a, first, replies).result->Ok_0.state == AlertDecisionState::Executed,
        action_for(a.config, first.to) == action_for(a.config, second.to),
        second.now.since(first.now) is Some,
        second.now.since(first.now)->0 < a.config.rate_limit.nanos,
    ensures
        ({
            let e = evaluation(evaluation(a, first, replies).alerter, second, later_replies);
            &&& e.calls.len() == 0
            &&& e.alerter == evaluation(a, first, replies).alerter
            &&& e.result is Ok
            &&& e.result->Ok_0.state != AlertDecisionState::Executed
            &&& e.result->Ok_0.notification is None
        }),
{
}

/// The settings of an alerter never change.
pub proof fn settings_stay(a: Alerter, change: ChangeView, replies: Replies)
    ensures
        evaluation(a, change, replies).alerter.config == a.config,
{
}

/// Signals go to the watched process only, and only where a kill is configured; a dead
/// process is killed, any other is interrupted.
pub proof fn signals_are_configured(a: Alerter, change: ChangeView, replies: Replies, i: int)
    requires
        0 <= i < evaluation(a, change, replies).calls.len(),
    ensures
        ({
            let call = evaluation(a, change, replies).calls[i];
            let action = action_for(a.config, change.to);
            let kills = action == AlertAction::Kill || action == AlertAction::CheckpointKill;
            &&& call is Interrupt ==> change.pid == Some(call->Interrupt_pid) && kills && !(
            change.to is Dead)
            &&& call is ForceKill ==> change.pid == Some(call->ForceKill_pid) && kills
                && change.to is Dead
            &&& call is Bell ==> action == AlertAction::Bell
        }),
{
}

/// A checkpoint is saved before anything else is done, of the state and in the directory
/// of the change.
pub proof fn checkpoints_come_first(a: Alerter, change: ChangeView, replies: Replies, i: int)
    requires
        0 <= i < evaluation(a, change, replies).calls.len(),
        evaluation(a, change, replies).calls[i] is Checkpoint,
    ensures
        i == 0,
        evaluation(a, change, replies).calls[i]->state == change.state,
        evaluation(a, change, replies).calls[i]->cwd == change.cwd,
{
}

/// Where a stuck session is to be checkpointed and killed, it is not interrupted before
/// its checkpoint was saved.
pub proof fn no_kill_without_a_checkpoint(a: Alerter, change: ChangeView, replies: Replies, i: int)
    requires
        is_stuck(change.to),
        action_for(a.config, change.to) == AlertAction::CheckpointKill,
        0 <= i < evaluation(a, change, replies).calls.len(),
        evaluation(a, change, replies).calls[i] is Interrupt,
    ensures
        i == 1,
        evaluation(a, change, replies).calls[0] is Checkpoint,
        evaluation(a, change, replies).calls[0]->reply is Ok,
{
}

/// An alert that was answered is shown, and its line is the last one of the alert log.
pub proof fn answered_alerts_are_logged(a: Alerter, change: ChangeView, replies: Replies)
    requires
        evaluation(a, change, replies).result is Ok,
        evaluation(a, change, replies).result->Ok_0.notification is Some,
    ensures
        ({
            let e = evaluation(a, change, replies);
            let n = e.result->Ok_0.notification->0;
            &&& e.result->Ok_0.state == AlertDecisionState::Executed
            &&& e.calls.len() > 0
            &&& e.calls.last() == (ExecutorCall::Log {
                path: alert_log(change.cwd),
                line: alert_line(n, false),
                fault: None,
            })
            &&& exists|i: int|
                0 <= i < e.calls.len() && #[trigger] e.calls[i] == (ExecutorCall::Show {
                    message: alert_line(n, a.config.color),
                    fault: None,
                })
        }),
{
    let e = evaluation(a, change, replies);
    let n = e.result->Ok_0.notification->0;
    let plan = crate::alerter::plan_for(a.config, change.to, change.pid);
    let acted = crate::alerter::action_calls(plan, change.state, change.cwd, replies);
    assert(e.calls[acted.len() as int] == (ExecutorCall::Show {
        message: alert_line(n, a.config.color),
        fault: None,
    }));
}

/// An evaluation that fails leaves the alerter as it was, so the action is tried again at
/// the next change.
pub proof fn failures_are_not_remembered(a: Alerter, change: ChangeView, replies: Replies)
    ensures
        evaluation(a, change, replies).result is Err ==> evaluation(a, change, replies).alerter
            == a,
        evaluation(a, change, replies).result is Ok && evaluation(
            a,
            change,
            replies,
        ).result->Ok_0.state != AlertDecisionState::Executed ==> evaluation(
            a,
            change,
            replies,
        ).alerter == a,
{
}

/// Where no separator begins before a position, a text is split there.
proof fn lemma_split(head: Seq<char>, separator: Seq<char>, tail: Seq<char>)
    requires
        separator.len() > 0,
        forall|i: int|
            0 <= i < head.len() ==> !#[trigger] matches_at(head + separator + tail, separator, i),
    ensures
        split_at_text(head + separator + tail, separator) == Some((head, tail)),
{
    let text = head + separator + tail;
    let n = head.len() as int;
    assert(text.subrange(n, n + separator.len()) =~= separator);
    assert(matches_at(text, separator, n));
    lemma_match_from(text, separator, 0);
    assert(match_from(text, separator, 0) == Some(n));
    assert(text.take(n) =~= head);
    assert(text.skip(n + separator.len()) =~= tail);
}

/// A text without blanks is the first word of what begins with it.
proof fn lemma_first_word(word: Seq<char>, tail: Seq<char>)
    requires
        forall|i: int| 0 <= i < word.len() ==> #[trigger] word[i] != ' ',
    ensures
        split_at_text(word + " "@ + tail, " "@) == Some((word, tail)),
{
    reveal_strlit(" ");
    let text = word + " "@ + tail;
    assert forall|i: int| 0 <= i < word.len() implies !#[trigger] matches_at(text, " "@, i) by {
        if matches_at(text, " "@, i) {
            assert(text.subrange(i, i + 1)[0] == " "@[0]);
            assert(text[i] == word[i]);
        }
    }
    lemma_split(word, " "@, tail);
}

/// A text without the mark of an action ends where that mark begins.
proof fn lemma_message(message: Seq<char>, tail: Seq<char>)
    requires
        !has_text(message, " action="@),
    ensures
        split_at_text(message + " action="@ + tail, " action="@) == Some((message, tail)),
{
    reveal_strlit(" action=");
    let mark = " action="@;
    let text = message + mark + tail;
    assert forall|i: int| 0 <= i < message.len() implies !#[trigger] matches_at(text, mark, i) by {
        if matches_at(text, mark, i) {
            let n = message.len() as int;
            if i + mark.len() <= n {
                assert(message.subrange(i, i + mark.len()) =~= text.subrange(i, i + mark.len()));
                assert(matches_at(message, mark, i));
            } else {
                let k = n - i;
                assert(text.subrange(i, i + mark.len())[k] == mark[k]);
                assert(text[n] == mark[0]);
            }
        }
    }
    lemma_split(message, mark, tail);
}

/// What the log says of an alert, the history shows: its time, its phase and its
/// message. Left out are messages that hold the mark which ends them.
pub proof fn logged_alerts_are_shown(
    n: NotificationView,
    phase: PhaseView,
    time: Option<(u32, u32, u32, u32)>,
)
    requires
        forall|i: int|
            0 <= i < shown_time(n.timestamp).len() ==> #[trigger] shown_time(n.timestamp)[i] != ' ',
        n.phase == phase_name(phase),
        !has_text(n.message, " action="@),
    ensures
        history_entry(alert_line(n, false), time) == (HistoryEntryView {
            timestamp: history_time(shown_time(n.timestamp), time),
            summary: stripped(n.phase + " "@ + stripped(n.message)),
        }),
{
    reveal_strlit(" ");
    reveal_strlit("ALERT");
    reveal_strlit(" ALERT ");
    reveal_strlit("INITIALIZING");
    reveal_strlit("WORKING");
    reveal_strlit("THINKING");
    reveal_strlit("API_HANG");
    reveal_strlit("TOOL_LOOP");
    reveal_strlit("TEST_LOOP");
    reveal_strlit("TASK_BLOCKED");
    reveal_strlit("CONTEXT_RESET");
    reveal_strlit("SCOPE_LEAKING");
    reveal_strlit("IDLE");
    reveal_strlit("DEAD");
    let line = alert_line(n, false);
    let end = n.action + labelled(" from="@, n.previous_phase, seq![]) + labelled(
        " suggestion=\""@,
        n.suggestion,
        "\""@,
    ) + labelled(" checkpoint="@, n.checkpoint_dir, seq![]);
    let fourth = n.message + " action="@ + end;
    let third = n.phase + " "@ + fourth;
    let second = "ALERT"@ + " "@ + third;
    assert(line =~= shown_time(n.timestamp) + " "@ + second);
    lemma_first_word(shown_time(n.timestamp), second);
    lemma_first_word("ALERT"@, third);
    lemma_first_word(n.phase, fourth);
    lemma_message(n.message, end);
}

} // verus!
