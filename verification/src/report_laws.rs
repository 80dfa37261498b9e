//! Laws of reports: what a snapshot, a status line and a watched session tell.

use crate::clock::Timestamp;
use crate::common::{in_directory, requested_session, SessionSelection};
use crate::metrics::silence;
use crate::paths::{relative_path, same_path, shown_path};
use crate::runtime::{attached, WatcherRuntimeTarget};
use crate::snapshot::{
    age_secs, checkpointed, has_copy, identified, live_session, recent_files, sampled,
    snapshot_config, SnapshotPlan, SnapshotView,
};
use crate::state::{applied, StateView};
use crate::state_laws::same_process;
use crate::state_machine::reported;
use crate::status::{glyph, identified_sessions, last_file, listed_requests, request_for};
use crate::types::{AgentEvent, FileChangeKind, FileModification, PhaseView, ProcessMetrics};
use crate::watch::{
    details_of, kind_changed, output_for, phase_color, reported_file, reported_session,
    StatusOutput,
};
use vstd::prelude::*;

verus! {

/// A snapshot shows no running session where all are asked for, the one with the identifier
/// where one is given, and else that of the working directory, unless a log is named.
pub proof fn snapshots_show_the_session_asked_for(
    sessions: Seq<SessionSelection>,
    cwd: Seq<char>,
    id: Seq<char>,
)
    ensures
        forall|has_file: bool, s: Option<Seq<char>>|
            (#[trigger] live_session(sessions, cwd, s, has_file, true)) is None,
        forall|has_file: bool|
            (#[trigger] live_session(sessions, cwd, Some(id), has_file, false))
                == requested_session(sessions, Some(cwd), None, Some(id)),
        live_session(sessions, cwd, None, false, false) == requested_session(
            sessions,
            Some(cwd),
            None,
            None,
        ),
        live_session(sessions, cwd, None, true, false) is None,
{
}

/// A snapshot keeps the identifier that the log names, and takes that of the running session
/// otherwise. It knows where the log lies and changes nothing else.
pub proof fn snapshots_are_identified(s: StateView, plan: SnapshotPlan)
    ensures
        ({
            let t = identified(s, plan);
            &&& s.session_id is Some ==> t.session_id == s.session_id
            &&& s.session_id is None && plan.live_session is Some ==> t.session_id == Some(
                plan.live_session->0.session.session_id,
            )
            &&& s.session_id is None && plan.live_session is None ==> t.session_id is None
            &&& t.session_jsonl_path == plan.session_file
            &&& t == (StateView {
                session_id: t.session_id,
                session_jsonl_path: t.session_jsonl_path,
                ..s
            })
        }),
{
}

/// A snapshot is classified with the timeout as the limit of a hang, and otherwise with 45
/// seconds to think, five minutes to die, ten minutes to idle, a minute for I/O and three
/// repetitions for a loop.
pub proof fn snapshots_use_the_timeout(timeout_secs: u64)
    ensures
        ({
            let cfg = snapshot_config(timeout_secs);
            &&& cfg.api_hang_after.nanos == timeout_secs * 1_000_000_000
            &&& cfg.thinking_after.nanos == 45 * 1_000_000_000
            &&& cfg.dead_after.nanos == 5 * 60 * 1_000_000_000
            &&& cfg.idle_after.nanos == 10 * 60 * 1_000_000_000
            &&& cfg.io_inactive_after.nanos == 60 * 1_000_000_000
            &&& cfg.tool_loop_rewrites == 3
            &&& cfg.test_loop_failures == 3
        }),
{
}

/// Readings of the process are taken over as those of an event; without any the process
/// counts as gone, and nothing else changes.
pub proof fn processes_without_readings_are_gone(s: StateView, m: ProcessMetrics)
    ensures
        sampled(s, Some(m)) == applied(s, AgentEvent::ProcessMetrics(m)),
        sampled(s, None) == (StateView { process_alive: false, ..s }),
{
}

/// The age of a time is told in whole seconds, and a time in the future has none.
pub proof fn ages_are_whole_seconds(now: Timestamp, then: Timestamp)
    ensures
        now.gap(then) < 0 ==> age_secs(now, then) == 0,
        now.gap(then) >= 0 && now.gap(then) / 1_000_000_000 <= u64::MAX ==> age_secs(now, then)
            * 1_000_000_000 <= now.gap(then) < (age_secs(now, then) + 1) * 1_000_000_000,
{
}

/// The recent files are the last ones, the latest first, with their path as it is shown,
/// the name of what happened and their age.
pub proof fn recent_files_come_latest_first(
    files: Seq<FileModification>,
    cwd: Seq<char>,
    now: Timestamp,
    count: nat,
    i: int,
)
    requires
        0 <= i < files.len(),
        i < count,
    ensures
        recent_files(files, cwd, now, count).len() == if files.len() < count {
            files.len()
        } else {
            count
        },
        ({
            let shown = recent_files(files, cwd, now, count)[i];
            let file = files[files.len() - 1 - i];
            &&& shown.path == shown_path(cwd, file.path@)
            &&& shown.age_secs == age_secs(now, file.timestamp)
            &&& file.kind == FileChangeKind::Read ==> shown.kind == "Read"@
            &&& file.kind == FileChangeKind::Created ==> shown.kind == "Created"@
            &&& file.kind == FileChangeKind::Modified ==> shown.kind == "Modified"@
            &&& file.kind == FileChangeKind::Deleted ==> shown.kind == "Deleted"@
        }),
{
}

/// A checkpoint copies every modified file that is there and lies below the working
/// directory: each is among the copies, at its place below the directory.
pub proof fn checkpoints_copy_every_file(
    files: Seq<FileModification>,
    present: Seq<bool>,
    cwd: Seq<char>,
    i: int,
)
    requires
        present.len() == files.len(),
        0 <= i < files.len(),
        present[i],
        relative_path(files[i].path@, cwd) is Some,
    ensures
        exists|k: int|
            0 <= k < checkpointed(files, present, cwd).len() && same_path(
                (#[trigger] checkpointed(files, present, cwd)[k]).relative,
                relative_path(files[i].path@, cwd)->0,
            ),
{
    lemma_copied(files, present, cwd, i);
}

proof fn lemma_copied(files: Seq<FileModification>, present: Seq<bool>, cwd: Seq<char>, i: int)
    requires
        present.len() >= files.len(),
        0 <= i < files.len(),
        present[i],
        relative_path(files[i].path@, cwd) is Some,
    ensures
        has_copy(checkpointed(files, present, cwd), relative_path(files[i].path@, cwd)->0),
    decreases files.len(),
{
    let all = checkpointed(files, present, cwd);
    let head = files.drop_last();
    let rest = checkpointed(head, present, cwd);
    let relative = relative_path(files[i].path@, cwd)->0;
    if i < head.len() {
        assert(head[i] == files[i]);
        lemma_copied(head, present, cwd, i);
        let k = choose|k: int|
            0 <= k < rest.len() && same_path((#[trigger] rest[k]).relative, relative);
        assert(all[k] == rest[k]);
    } else {
        assert(files.last() == files[i]);
        if has_copy(rest, relative) {
            let k = choose|k: int|
                0 <= k < rest.len() && same_path((#[trigger] rest[k]).relative, relative);
            assert(all[k] == rest[k]);
        } else {
            assert(all[all.len() - 1].relative == relative);
        }
    }
}

/// The sign of a phase: a warning for trouble that can be mended, other signs for work,
/// thought, idleness, leaks and death.
pub proof fn phases_have_signs(phase: PhaseView)
    ensures
        phase is ApiHang || phase is ToolLoop || phase is TestLoop || phase is TaskBlocked
            || phase is ContextReset ==> glyph(phase) == "⚠"@,
        phase is Working ==> glyph(phase) == "●"@,
        phase is Thinking ==> glyph(phase) == "◐"@,
        phase is ScopeLeaking ==> glyph(phase) == "✖"@,
        phase is Dead ==> glyph(phase) == "☠"@,
        phase is Idle ==> glyph(phase) == "○"@,
        phase is Initializing ==> glyph(phase) == "·"@,
{
}

/// The last file of a report is shown relative to the working directory, or as a dash.
pub proof fn the_last_file_is_shown(s: SnapshotView)
    ensures
        s.state.last_file_path is None ==> last_file(s) == "-"@,
        s.state.last_file_path is Some ==> last_file(s) == shown_path(
            s.cwd,
            s.state.last_file_path->0@,
        ),
{
}

/// A request for a session reads its log, in its directory, under its identifier.
pub proof fn requests_read_the_log_of_the_session(s: SessionSelection)
    ensures
        request_for(s).file == Some(s.jsonl_path@),
        request_for(s).session_id == Some(s.session.session_id@),
        s.session.resolved_cwd is Some ==> request_for(s).dir == s.session.resolved_cwd->0@,
        s.session.resolved_cwd is None ==> request_for(s).dir == s.session.cwd@,
{
}

/// The requests of a list are one for a log that is named; else one for each session with
/// the identifier that is given, or else for each session of the directory.
pub proof fn lists_request_each_session(
    sessions: Seq<SessionSelection>,
    cwd: Seq<char>,
    file: Seq<char>,
    session_id: Option<Seq<char>>,
    id: Seq<char>,
)
    ensures
        listed_requests(sessions, cwd, Some(file), session_id).len() == 1,
        listed_requests(sessions, cwd, Some(file), session_id)[0].file == Some(file),
        listed_requests(sessions, cwd, Some(file), session_id)[0].dir == cwd,
        listed_requests(sessions, cwd, Some(file), session_id)[0].session_id == session_id,
        listed_requests(sessions, cwd, None, Some(id)) == sessions.filter(
            |s: SessionSelection| s.session.session_id@ == id,
        ).map_values(|s: SessionSelection| request_for(s)),
        listed_requests(sessions, cwd, None, None) == in_directory(
            sessions,
            Some(cwd),
        ).map_values(|s: SessionSelection| request_for(s)),
{
    lemma_identified(sessions, id);
}

proof fn lemma_identified(list: Seq<SessionSelection>, id: Seq<char>)
    ensures
        identified_sessions(list, id) == list.filter(
            |s: SessionSelection| s.session.session_id@ == id,
        ),
    decreases list.len(),
{
    reveal(Seq::filter);
    if list.len() > 0 {
        lemma_identified(list.drop_last(), id);
    }
}

/// A status is shown in the form that is asked for, but neither beside an alert nor in quiet
/// mode.
pub proof fn quiet_sessions_show_no_status(robot: bool, quiet: bool, alert: bool)
    ensures
        output_for(robot, quiet, alert) == StatusOutput::Silent <==> alert || quiet,
        output_for(robot, quiet, alert) == StatusOutput::Robot <==> robot && !alert && !quiet,
        output_for(robot, quiet, alert) == StatusOutput::Human <==> !robot && !alert && !quiet,
{
}

/// Red stands for trouble, green for work, yellow for thought, magenta for a pause, cyan
/// for the rest.
pub proof fn phases_have_colors(phase: PhaseView)
    ensures
        phase is Working ==> phase_color(phase) == "32"@,
        phase is Thinking ==> phase_color(phase) == "33"@,
        phase is ApiHang || phase is ToolLoop || phase is TestLoop || phase is ScopeLeaking
            || phase is Dead ==> phase_color(phase) == "31"@,
        phase is ContextReset || phase is Idle ==> phase_color(phase) == "35"@,
        phase is Initializing || phase is TaskBlocked ==> phase_color(phase) == "36"@,
{
}

/// A session moved where the phase before was known and of another kind.
pub proof fn moves_change_the_kind(previous: Option<PhaseView>, phase: PhaseView)
    ensures
        kind_changed(previous, phase) <==> previous is Some && !crate::action_laws::same_kind(
            previous->0,
            phase,
        ),
{
}

/// The details of a phase tell what it knows: paths relative to the working directory,
/// spans in whole seconds, and for a dead session its last signs of life.
pub proof fn details_tell_what_the_phase_knows(
    phase: PhaseView,
    s: StateView,
    cwd: Seq<char>,
    now: Timestamp,
)
    ensures
        ({
            let d = details_of(phase, s, cwd, now);
            match phase {
                PhaseView::ApiHang(span) => d is ApiHang && d->stuck_for_secs as int == span.nanos
                    / 1_000_000_000,
                PhaseView::ToolLoop { file, count, since } => d is ToolLoop && d->ToolLoop_file
                    == shown_path(cwd, file) && d->count == count && d->since
                    == crate::clock::shown_time(since),
                PhaseView::TestLoop { command, failure_count } => d is TestLoop && d->command
                    == command && d->failure_count == failure_count,
                PhaseView::TaskBlocked { task_id, blocked_by } => d is TaskBlocked && d->task_id
                    == task_id && d->blocked_by == blocked_by,
                PhaseView::ScopeLeaking { violating_file, guard_path } => d is ScopeLeaking
                    && d->ScopeLeaking_file == shown_path(cwd, violating_file) && d->guard
                    == shown_path(cwd, guard_path),
                PhaseView::ContextReset => d is ContextReset && d->compact_count
                    == s.compact_count && (s.last_compact_at is None
                    ==> d->last_compact_at is None) && (s.last_compact_at is Some
                    ==> d->last_compact_at == Some(
                    crate::clock::shown_time(s.last_compact_at->0),
                )),
                PhaseView::Idle(span) => d is Idle && d->idle_for_secs as int == span.nanos
                    / 1_000_000_000,
                PhaseView::Dead => {
                    &&& d is Dead
                    &&& d->process_alive == s.process_alive
                    &&& d->silence_secs as int == silence(s, now) / 1_000_000_000
                    &&& s.last_jsonl_record_at is None ==> d->jsonl_stale_secs is None
                    &&& s.last_jsonl_record_at is Some ==> d->jsonl_stale_secs == Some(
                        age_secs(now, s.last_jsonl_record_at->0),
                    )
                    &&& s.last_token_activity_at is None ==> d->token_stale_secs is None
                    &&& s.last_token_activity_at is Some ==> d->token_stale_secs == Some(
                        age_secs(now, s.last_token_activity_at->0),
                    )
                    &&& d->cpu_percent == s.latest_cpu_percent
                    &&& d->rss_bytes == s.latest_rss_bytes
                    &&& d->virtual_bytes == s.latest_virtual_bytes
                },
                _ => d is Nothing,
            }
        }),
{
}

/// A report names the session of the state, or else that of the target; and the last file,
/// relative to the target's directory.
pub proof fn reports_name_session_and_file(s: StateView, target: WatcherRuntimeTarget)
    ensures
        s.session_id is Some ==> reported_session(s, target) == s.session_id,
        s.session_id is None ==> reported_session(s, target) == target.session_id,
        s.last_file_path is None ==> reported_file(s, target) is None,
        s.last_file_path is Some ==> reported_file(s, target) == Some(
            shown_path(target.cwd@, s.last_file_path->0@),
        ),
{
}

/// A session that is attached to has the guards, the place of its log and, where the log
/// names none, the identifier of the target. With a known process its readings count; with
/// an unknown one nothing is concluded.
pub proof fn attached_sessions_know_their_target(
    s: StateView,
    target: WatcherRuntimeTarget,
    guards: Seq<String>,
    metrics: Option<ProcessMetrics>,
)
    ensures
        ({
            let t = attached(s, target, guards, metrics);
            &&& t.guard_paths == guards
            &&& t.session_jsonl_path == Some(target.jsonl_path)
            &&& s.session_id is Some ==> t.session_id == s.session_id
            &&& s.session_id is None ==> t.session_id == target.session_id
            &&& target.pid is None ==> same_process(s, t)
            &&& target.pid is Some && metrics is None ==> !t.process_alive
            &&& target.pid is Some && metrics is Some ==> t.process_alive
                == metrics->0.process_alive && t.latest_cpu_percent == metrics->0.cpu_percent
            &&& t.recent_tool_calls == s.recent_tool_calls
            &&& t.touched_files == s.touched_files
            &&& t.last_event_at == s.last_event_at
            &&& t.phase == s.phase
        }),
{
}

/// A phase is reported where it differs from the one before; paths are the same where they
/// name the same path, and everything else where it is equal.
pub proof fn changed_phases_are_reported(old_phase: PhaseView, new_phase: PhaseView)
    ensures
        reported(old_phase, new_phase) is Some ==> reported(old_phase, new_phase) == Some(
            new_phase,
        ),
        old_phase == new_phase ==> reported(old_phase, new_phase) is None,
        !crate::action_laws::same_kind(old_phase, new_phase) ==> reported(
            old_phase,
            new_phase,
        ) is Some,
        !(old_phase is ToolLoop) && !(old_phase is ScopeLeaking) && old_phase != new_phase
            ==> reported(old_phase, new_phase) is Some,
        old_phase is ToolLoop && new_phase is ToolLoop ==> (reported(old_phase, new_phase) is None
            <==> same_path(old_phase->ToolLoop_file, new_phase->ToolLoop_file) && old_phase->count
            == new_phase->count && old_phase->since == new_phase->since),
        old_phase is ScopeLeaking && new_phase is ScopeLeaking ==> (reported(
            old_phase,
            new_phase,
        ) is None <==> same_path(old_phase->violating_file, new_phase->violating_file)
            && same_path(old_phase->guard_path, new_phase->guard_path)),
{
}

} // verus!
