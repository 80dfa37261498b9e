//! Laws of a session's state: what events change, what they keep, and what follows for
//! the phase.

use crate::classifier::{
    api_hang, at_least_as_close, blocked_task, classified, closest_guard, dead, guard_closeness, leaking_call,
    scope_leak, silence_phase, test_failures, tool_loop, ClassifierConfig,
};
use crate::clock::Timestamp;
use crate::common::{hook_counts, hooked, replayed};
use crate::metrics::{last_activity, silence};
use crate::paths::{same_path, within_any};
use crate::snapshot::sampled;
use crate::state::{
    any_fresh, applied, first_fresh, fresh_count, has_path, history_index, is_stale,
    lemma_result_position, next_u32, pruned, result_position, runs_tests, test_failed, unstale,
    with_file_write, with_path, with_write, writes_of, FileWrite, HistoryView, StateView,
    MAX_RECENTLY_MODIFIED_FILES, MAX_RECENT_TOOL_CALLS,
};
use crate::state_machine::{reclassified, reported, same_phase, stepped};
use crate::tasks::{with_tasks, TaskListing};
use crate::text::lowercase;
use crate::types::{
    AgentEvent, FileChangeKind, FileModification, PhaseView, ProcessMetrics, ToolCall,
};
use vstd::prelude::*;

verus! {

/// The state never remembers more calls or file modifications than before an
/// event or than its limits, whichever is more.
pub proof fn recent_history_is_bounded(s: StateView, event: AgentEvent)
    ensures
        applied(s, event).recent_tool_calls.len() <= s.recent_tool_calls.len()
            || applied(s, event).recent_tool_calls.len() <= MAX_RECENT_TOOL_CALLS,
        applied(s, event).recently_modified_files.len() <= s.recently_modified_files.len()
            || applied(s, event).recently_modified_files.len()
            <= MAX_RECENTLY_MODIFIED_FILES,
{
    if let AgentEvent::ToolResult { tool_name, is_sidechain, .. } = event {
        lemma_result_position(s.recent_tool_calls, tool_name, is_sidechain);
    }
}

/// An event by itself leaves the phase as it was.
pub proof fn events_keep_the_phase(s: StateView, event: AgentEvent)
    ensures
        applied(s, event).phase == s.phase,
{
}

/// A process sample does not count as activity: the session stays as silent as it was.
pub proof fn process_samples_do_not_break_silence(
    s: StateView,
    metrics: ProcessMetrics,
    time: Timestamp,
)
    ensures
        applied(s, AgentEvent::ProcessMetrics(metrics)).last_event_at == s.last_event_at,
        silence(applied(s, AgentEvent::ProcessMetrics(metrics)), time) == silence(s, time),
{
}

/// Whether an event comes from a sidechain of the session.
pub open spec fn is_sidechain_event(event: AgentEvent) -> bool {
    match event {
        AgentEvent::UserMessage { is_sidechain, .. } => is_sidechain,
        AgentEvent::ToolCall(call) => call.is_sidechain,
        AgentEvent::ToolResult { is_sidechain, .. } => is_sidechain,
        AgentEvent::TokenActivity(activity) => activity.is_sidechain,
        AgentEvent::CompactBoundary { is_sidechain, .. } => is_sidechain,
        _ => false,
    }
}

/// Sidechain activity leaves what is known of the main session as it was: the call that
/// waits for its result, the compact boundary and the test loop.
pub proof fn sidechains_leave_the_main_session(s: StateView, event: AgentEvent)
    requires
        is_sidechain_event(event),
    ensures
        ({
            let t = applied(s, event);
            &&& t.awaiting_tool_result == s.awaiting_tool_result
            &&& t.last_event_was_compact == s.last_event_was_compact
            &&& t.compact_count == s.compact_count
            &&& t.consecutive_test_failures == s.consecutive_test_failures
            &&& t.last_test_command == s.last_test_command
            &&& t.last_test_file == s.last_test_file
            &&& t.last_main_jsonl_record_at == s.last_main_jsonl_record_at
        }),
{
}

/// A sidechain record never takes back the time of the last event.
pub proof fn sidechains_do_not_rewind_activity(s: StateView, event: AgentEvent)
    requires
        is_sidechain_event(event),
        s.last_event_at is Some,
    ensures
        applied(s, event).last_event_at is Some,
        !s.last_event_at->0.is_after(applied(s, event).last_event_at->0),
{
}

/// Whether an event ends a context reset: a tool call of the main session, or the start
/// of another session.
pub open spec fn ends_context_reset(event: AgentEvent) -> bool {
    match event {
        AgentEvent::ToolCall(call) => !call.is_sidechain,
        AgentEvent::SessionStart { .. } => true,
        _ => false,
    }
}

/// After a compact boundary of the main session the context stays reset until the main
/// session's next tool call, whatever else happens.
pub proof fn context_reset_lasts_until_a_tool_call(
    s: StateView,
    timestamp: Timestamp,
    events: Seq<AgentEvent>,
)
    requires
        forall|i: int| 0 <= i < events.len() ==> !ends_context_reset(#[trigger] events[i]),
    ensures
        replayed(
            applied(s, AgentEvent::CompactBoundary { timestamp, is_sidechain: false }),
            events,
        ).last_event_was_compact,
    decreases events.len(),
{
    if events.len() > 0 {
        assert forall|i: int| 0 <= i < events.drop_last().len() implies !ends_context_reset(
            #[trigger] events.drop_last()[i],
        ) by {
            assert(events.drop_last()[i] == events[i]);
        }
        context_reset_lasts_until_a_tool_call(s, timestamp, events.drop_last());
        assert(!ends_context_reset(events[events.len() - 1]));
    }
}

/// A tool call of the main session ends a context reset.
pub proof fn tool_calls_end_a_context_reset(s: StateView, call: ToolCall)
    requires
        !call.is_sidechain,
    ensures
        !applied(s, AgentEvent::ToolCall(call)).last_event_was_compact,
{
}

/// The phase of a session whose context was reset, unless it is dead or out of scope.
pub proof fn reset_sessions_are_reported(
    s: StateView,
    time: Timestamp,
    cfg: ClassifierConfig,
)
    requires
        s.last_event_was_compact,
        !dead(s, time, cfg),
        scope_leak(s) is None,
    ensures
        classified(s, time, cfg) == PhaseView::ContextReset,
{
}

/// What is counted over a session never goes down, and a file that was touched once
/// stays touched.
pub proof fn totals_never_decrease(s: StateView, event: AgentEvent)
    ensures
        ({
            let t = applied(s, event);
            &&& t.total_input_tokens >= s.total_input_tokens
            &&& t.total_output_tokens >= s.total_output_tokens
            &&& t.total_tool_calls >= s.total_tool_calls
            &&& t.compact_count >= s.compact_count
            &&& t.scope_violation_count >= s.scope_violation_count
            &&& t.touched_files.len() >= s.touched_files.len()
            &&& forall|path: Seq<char>|
                has_path(s.touched_files, path) ==> #[trigger] has_path(t.touched_files, path)
        }),
{
    let t = applied(s, event);
    assert forall|path: Seq<char>| has_path(s.touched_files, path) implies #[trigger] has_path(
        t.touched_files,
        path,
    ) by {
        let i = choose|i: int|
            0 <= i < s.touched_files.len() && same_path(#[trigger] s.touched_files[i]@, path);
        assert(t.touched_files[i] == s.touched_files[i]);
    }
}

/// Whether a list holds each path once.
pub open spec fn paths_differ(list: Seq<String>) -> bool {
    forall|i: int, j: int|
        0 <= i < j < list.len() ==> !same_path(#[trigger] list[i]@, #[trigger] list[j]@)
}

/// The touched files of a session are counted once each.
pub proof fn touched_files_are_counted_once(s: StateView, event: AgentEvent)
    requires
        paths_differ(s.touched_files),
    ensures
        paths_differ(applied(s, event).touched_files),
{
}

/// The path that an event writes, where it writes one. Deleting a file counts.
pub open spec fn written_path(event: AgentEvent) -> Option<String> {
    match event {
        AgentEvent::ToolCall(call) => if call.is_write {
            call.file_path
        } else {
            None
        },
        AgentEvent::FileModified(modification) => Some(modification.path),
        _ => None,
    }
}

/// Without a write outside the guards nothing leaks: neither the count of violations nor
/// the last one changes.
pub proof fn writes_in_scope_do_not_leak(s: StateView, event: AgentEvent)
    requires
        written_path(event) is Some ==> s.guard_paths.len() == 0 || within_any(
            written_path(event)->0@,
            s.guard_paths,
        ),
    ensures
        applied(s, event).scope_violation_count == s.scope_violation_count,
        applied(s, event).latest_scope_violation == s.latest_scope_violation,
        applied(s, event).guard_paths == s.guard_paths,
{
}

/// A write outside all guards is reported at once, with a guard of the session, unless
/// the session is dead.
pub proof fn writes_out_of_scope_are_reported(
    s: StateView,
    event: AgentEvent,
    time: Timestamp,
    cfg: ClassifierConfig,
)
    requires
        written_path(event) is Some,
        s.guard_paths.len() > 0,
        !within_any(written_path(event)->0@, s.guard_paths),
    ensures
        ({
            let t = applied(s, event);
            let phase = classified(t, time, cfg);
            &&& t.scope_violation_count == next_u32(s.scope_violation_count)
            &&& dead(t, time, cfg) ==> phase is Dead
            &&& !dead(t, time, cfg) ==> phase is ScopeLeaking && phase->violating_file
                == written_path(event)->0@ && exists|i: int|
                0 <= i < s.guard_paths.len() && phase->guard_path == #[trigger] s.guard_paths[i]@
        }),
{
    let t = applied(s, event);
    let path = written_path(event)->0;
    assert(t.guard_paths == s.guard_paths);
    assert(t.latest_scope_violation == Some(path));
    closest_guards_are_guards(path@, s.guard_paths);
}

/// The guard that a path violates is one of the guards, and no other shares more of the
/// path with it.
pub proof fn closest_guards_are_guards(path: Seq<char>, guards: Seq<String>)
    requires
        guards.len() > 0,
    ensures
        closest_guard(path, guards) is Some,
        guards.contains(closest_guard(path, guards)->0),
        forall|i: int|
            0 <= i < guards.len() ==> at_least_as_close(
                guard_closeness(
                    path,
                    closest_guard(path, guards)->0@,
                ),
                guard_closeness(path, #[trigger] guards[i]@),
            ),
    decreases guards.len(),
{
    let rest = guards.drop_last();
    if rest.len() > 0 {
        closest_guards_are_guards(path, rest);
        assert forall|i: int| 0 <= i < guards.len() implies at_least_as_close(
            guard_closeness(
                path,
                closest_guard(path, guards)->0@,
            ),
            guard_closeness(path, #[trigger] guards[i]@),
        ) by {
            if i < rest.len() {
                assert(rest[i] == guards[i]);
            }
        }
        let k = rest.index_of(closest_guard(path, rest)->0);
        assert(guards[k] == rest[k]);
    }
    assert(guards[guards.len() - 1] == guards.last());
}

/// A session without guards never leaks.
pub proof fn sessions_without_guards_do_not_leak(
    s: StateView,
    time: Timestamp,
    cfg: ClassifierConfig,
)
    requires
        s.guard_paths.len() == 0,
    ensures
        !(classified(s, time, cfg) is ScopeLeaking),
{
    lemma_no_leak(s.recent_tool_calls, s.guard_paths);
}

proof fn lemma_no_leak(calls: Seq<ToolCall>, guards: Seq<String>)
    requires
        guards.len() == 0,
    ensures
        leaking_call(calls, guards) is None,
    decreases calls.len(),
{
    if calls.len() > 0 {
        lemma_no_leak(calls.drop_last(), guards);
    }
}

/// A session whose process is gone is dead, whatever else is known of it.
pub proof fn gone_processes_are_dead(
    s: StateView,
    time: Timestamp,
    cfg: ClassifierConfig,
)
    requires
        !s.process_alive,
    ensures
        classified(s, time, cfg) == PhaseView::Dead,
{
}

/// Whether a time, where it is known, lies no longer before `earlier` than before `later`.
pub open spec fn recedes(time: Option<Timestamp>, earlier: Timestamp, later: Timestamp) -> bool {
    time is Some ==> earlier.gap(time->0) <= later.gap(time->0)
}

/// Whether the times by which silence is judged recede.
pub open spec fn activity_recedes(s: StateView, earlier: Timestamp, later: Timestamp) -> bool {
    &&& recedes(last_activity(s), earlier, later)
    &&& recedes(s.last_jsonl_record_at, earlier, later)
    &&& recedes(s.last_token_activity_at, earlier, later)
    &&& recedes(s.last_memory_activity_at, earlier, later)
    &&& recedes(s.last_io_activity_at, earlier, later)
}

/// As time goes on every time recedes, where no leap second is involved: the time after a
/// leap second may be counted nearer than the leap second was.
pub proof fn times_recede(time: Option<Timestamp>, earlier: Timestamp, later: Timestamp)
    requires
        !earlier.is_after(later),
        !earlier.is_leap(),
        !later.is_leap(),
        time is Some ==> !time->0.is_leap(),
    ensures
        recedes(time, earlier, later),
{
}

/// While nothing happens, a session that hangs goes on hanging and one that is dead stays
/// dead.
pub proof fn silence_cures_nothing(
    s: StateView,
    earlier: Timestamp,
    later: Timestamp,
    cfg: ClassifierConfig,
)
    requires
        activity_recedes(s, earlier, later),
    ensures
        silence(s, earlier) <= silence(s, later),
        api_hang(s, earlier, cfg) ==> api_hang(s, later, cfg),
        dead(s, earlier, cfg) ==> dead(s, later, cfg),
{
}

/// How far silence has taken a session: from working over thinking to idle.
pub open spec fn quietness(phase: PhaseView) -> int {
    match phase {
        PhaseView::Working => 0,
        PhaseView::Thinking => 1,
        _ => 2,
    }
}

/// While nothing happens, a session goes from working over thinking to idle and never
/// back.
pub proof fn silence_only_deepens(
    s: StateView,
    earlier: Timestamp,
    later: Timestamp,
    cfg: ClassifierConfig,
)
    requires
        recedes(last_activity(s), earlier, later),
    ensures
        quietness(silence_phase(s, earlier, cfg)) <= quietness(silence_phase(s, later, cfg)),
{
}

/// A session hangs only while a tool call of the main session waits for its result.
pub proof fn hangs_wait_for_a_result(
    s: StateView,
    time: Timestamp,
    cfg: ClassifierConfig,
)
    ensures
        classified(s, time, cfg) is ApiHang ==> s.awaiting_tool_result,
{
}

/// A result for the main session ends the wait of its tool call.
pub proof fn results_end_the_wait(s: StateView, event: AgentEvent)
    requires
        event is ToolResult,
        !is_sidechain_event(event),
    ensures
        !applied(s, event).awaiting_tool_result,
{
}

/// Whether an event can be a write that the file watcher saw.
pub open spec fn is_watched_write(modification: FileModification) -> bool {
    modification.kind == FileChangeKind::Created || modification.kind == FileChangeKind::Modified
}

/// A write of another file than the last one starts the count of rewrites anew: the file
/// has one write, and no loop is under way.
pub proof fn other_files_restart_the_count(s: StateView, modification: FileModification)
    requires
        is_watched_write(modification),
        s.last_loop_file_path is Some,
        !same_path(s.last_loop_file_path->0@, modification.path@),
    ensures
        ({
            let t = applied(s, AgentEvent::FileModified(modification));
            &&& t.recent_file_writes == only_history(
                modification.path,
                seq![FileWrite { timestamp: modification.timestamp }],
            )
            &&& t.loop_started_at is None
            &&& t.last_loop_file_path == Some(modification.path)
        }),
{
    let none = Seq::<HistoryView>::empty();
    assert(pruned(none, modification.timestamp) =~= none);
    let write = FileWrite { timestamp: modification.timestamp };
    let one = with_write(none, modification.path, write);
    assert(history_index(none, modification.path@, 0) == 0);
    assert(one =~= only_history(modification.path, seq![write]));
    assert(history_index(one, modification.path@, 0) == 0);
}

/// The histories of one file with the given writes.
pub open spec fn only_history(path: String, writes: Seq<FileWrite>) -> Seq<HistoryView> {
    seq![HistoryView { path, writes }]
}

/// Whether each file has one history at most, and none is empty.
pub open spec fn histories_are_sound(histories: Seq<HistoryView>) -> bool {
    &&& forall|i: int| 0 <= i < histories.len() ==> (#[trigger] histories[i]).writes.len() > 0
    &&& forall|i: int, j: int|
        0 <= i < j < histories.len() ==> !same_path(
            (#[trigger] histories[i]).path@,
            (#[trigger] histories[j]).path@,
        )
}

/// Whether every recorded write lies within the loop window before a time.
pub open spec fn histories_are_fresh(histories: Seq<HistoryView>, now: Timestamp) -> bool {
    forall|i: int, k: int|
        0 <= i < histories.len() && 0 <= k < histories[i].writes.len() ==> !is_stale(
            #[trigger] histories[i].writes[k],
            now,
        )
}

/// Pruning keeps the histories sound, and makes up no paths.
proof fn lemma_pruned(histories: Seq<HistoryView>, now: Timestamp)
    requires
        histories_are_sound(histories),
    ensures
        histories_are_sound(pruned(histories, now)),
        forall|i: int|
            0 <= i < pruned(histories, now).len() ==> exists|k: int|
                0 <= k < histories.len() && (#[trigger] pruned(histories, now)[i]).path
                    == (#[trigger] histories[k]).path,
    decreases histories.len(),
{
    if histories.len() > 0 {
        let front = histories.drop_last();
        assert(forall|k: int| 0 <= k < front.len() ==> #[trigger] front[k] == histories[k]);
        lemma_pruned(front, now);
        let rest = pruned(front, now);
        let all = pruned(histories, now);
        let n = histories.len() - 1;
        assert forall|i: int| 0 <= i < all.len() implies exists|k: int|
            0 <= k < histories.len() && (#[trigger] all[i]).path == (#[trigger] histories[k]).path
        by {
            if i < rest.len() {
                assert(all[i] == rest[i]);
                let k = choose|k: int|
                    0 <= k < front.len() && rest[i].path == (#[trigger] front[k]).path;
                assert(histories[k].path == all[i].path);
            } else {
                assert(all[i].path == histories[n].path);
            }
        }
        assert forall|i: int, j: int| 0 <= i < j < all.len() implies !same_path(
            (#[trigger] all[i]).path@,
            (#[trigger] all[j]).path@,
        ) by {
            if j < rest.len() {
                assert(all[i] == rest[i] && all[j] == rest[j]);
            } else {
                assert(all[i] == rest[i]);
                let k = choose|k: int|
                    0 <= k < front.len() && rest[i].path == (#[trigger] front[k]).path;
                assert(histories[k].path == all[i].path);
                assert(histories[n].path == all[j].path);
            }
        }
        assert forall|i: int| 0 <= i < all.len() implies (#[trigger] all[i]).writes.len() > 0 by {
            if i < rest.len() {
                assert(all[i] == rest[i]);
            }
        }
    }
}

/// Pruning leaves fresh histories as they are.
proof fn lemma_nothing_pruned(histories: Seq<HistoryView>, now: Timestamp)
    requires
        histories_are_sound(histories),
        histories_are_fresh(histories, now),
    ensures
        pruned(histories, now) == histories,
    decreases histories.len(),
{
    if histories.len() > 0 {
        let front = histories.drop_last();
        assert(forall|k: int| 0 <= k < front.len() ==> #[trigger] front[k] == histories[k]);
        lemma_nothing_pruned(front, now);
        let last = histories.last();
        assert(histories[histories.len() - 1].writes.len() > 0);
        assert(!is_stale(histories[histories.len() - 1].writes[0], now));
        assert(unstale(last.writes, now) == last.writes);
        assert(front.push(last) =~= histories);
    } else {
        assert(pruned(histories, now) =~= histories);
    }
}

/// The position of a path is that of the first history of that path.
proof fn lemma_history_index(histories: Seq<HistoryView>, path: Seq<char>, from: int)
    requires
        0 <= from <= histories.len(),
    ensures
        ({
            let i = history_index(histories, path, from);
            &&& from <= i <= histories.len()
            &&& i < histories.len() ==> same_path(histories[i].path@, path)
            &&& forall|k: int|
                from <= k < i ==> !same_path((#[trigger] histories[k]).path@, path)
        }),
    decreases histories.len() - from,
{
    if from < histories.len() && !same_path(histories[from].path@, path) {
        lemma_history_index(histories, path, from + 1);
    }
}

/// One more write keeps the histories sound and stands behind the others of its path.
proof fn lemma_with_write(histories: Seq<HistoryView>, path: String, write: FileWrite)
    requires
        histories_are_sound(histories),
    ensures
        histories_are_sound(with_write(histories, path, write)),
        writes_of(with_write(histories, path, write), path@) == writes_of(histories, path@).push(
            write,
        ),
{
    let i = history_index(histories, path@, 0);
    let all = with_write(histories, path, write);
    lemma_history_index(histories, path@, 0);
    lemma_history_index(all, path@, 0);
    let j = history_index(all, path@, 0);
    if i < histories.len() {
        assert(forall|k: int| 0 <= k < all.len() ==> #[trigger] all[k].path == histories[k].path);
        assert forall|a: int, b: int| 0 <= a < b < all.len() implies !same_path(
            (#[trigger] all[a]).path@,
            (#[trigger] all[b]).path@,
        ) by {
            assert(!same_path(histories[a].path@, histories[b].path@));
        }
        if j < i {
            assert(same_path(histories[j].path@, path@));
        }
        if i < j {
            assert(!same_path(all[i].path@, path@));
        }
        assert(i == j);
    } else {
        assert(forall|k: int| 0 <= k < histories.len() ==> #[trigger] all[k] == histories[k]);
        assert(same_path(all[histories.len() as int].path@, path@));
        if j < i {
            assert(same_path(histories[j].path@, path@));
        }
        assert(i == j);
        assert(Seq::<FileWrite>::empty().push(write) =~= seq![write]);
        assert forall|a: int, b: int| 0 <= a < b < all.len() implies !same_path(
            (#[trigger] all[a]).path@,
            (#[trigger] all[b]).path@,
        ) by {
            if b == histories.len() {
                assert(!same_path(histories[a].path@, path@));
            } else {
                assert(!same_path(histories[a].path@, histories[b].path@));
            }
        }
    }
}

/// Whatever happens, each file keeps one history of its writes at most, and none is empty.
pub proof fn file_histories_stay_sound(s: StateView, event: AgentEvent)
    requires
        histories_are_sound(s.recent_file_writes),
    ensures
        histories_are_sound(applied(s, event).recent_file_writes),
{
    if let AgentEvent::FileModified(m) = event {
        if is_watched_write(m) {
            if s.last_loop_file_path is Some && !same_path(s.last_loop_file_path->0@, m.path@) {
                other_files_restart_the_count(s, m);
            } else {
                lemma_pruned(s.recent_file_writes, m.timestamp);
                lemma_with_write(
                    pruned(s.recent_file_writes, m.timestamp),
                    m.path,
                    FileWrite { timestamp: m.timestamp },
                );
            }
        }
    }
}

/// Noting a write of a file records it. Where all that is recorded lies within the loop
/// window, a write of the same file as before joins the earlier ones, a write of another
/// file is the only one that is left, and a loop began with the first of three or more. The
/// histories stay sound.
pub proof fn noted_writes_are_recorded(s: StateView, path: String, timestamp: Timestamp)
    requires
        histories_are_sound(s.recent_file_writes),
        histories_are_fresh(s.recent_file_writes, timestamp),
    ensures
        ({
            let t = with_file_write(s, path, timestamp);
            let write = FileWrite { timestamp };
            let writes = writes_of(t.recent_file_writes, path@);
            &&& histories_are_sound(t.recent_file_writes)
            &&& t.last_loop_file_path == Some(path)
            &&& if s.last_loop_file_path is Some && !same_path(
                s.last_loop_file_path->0@,
                path@,
            ) {
                t.recent_file_writes == only_history(path, seq![write])
            } else {
                writes == writes_of(s.recent_file_writes, path@).push(write)
            }
            &&& t.loop_started_at == if writes.len() >= 3 {
                Some(writes[0].timestamp)
            } else {
                None
            }
        }),
{
    let write = FileWrite { timestamp };
    if s.last_loop_file_path is Some && !same_path(s.last_loop_file_path->0@, path@) {
        let none = Seq::<HistoryView>::empty();
        assert(pruned(none, timestamp) =~= none);
        assert(history_index(none, path@, 0) == 0);
        lemma_with_write(none, path, write);
        assert(with_write(none, path, write) =~= only_history(path, seq![write]));
    } else {
        lemma_nothing_pruned(s.recent_file_writes, timestamp);
        lemma_with_write(s.recent_file_writes, path, write);
    }
}

/// A watched write is recorded. Where all that is recorded lies within the loop window, a
/// write of the same file as before joins the earlier ones, a write of another file is the
/// only one that is left, and a loop began with the first of three or more.
pub proof fn watched_writes_are_recorded(s: StateView, m: FileModification)
    requires
        is_watched_write(m),
        histories_are_sound(s.recent_file_writes),
        histories_are_fresh(s.recent_file_writes, m.timestamp),
    ensures
        ({
            let t = applied(s, AgentEvent::FileModified(m));
            let write = FileWrite { timestamp: m.timestamp };
            let writes = writes_of(t.recent_file_writes, m.path@);
            &&& histories_are_sound(t.recent_file_writes)
            &&& t.last_loop_file_path == Some(m.path)
            &&& if s.last_loop_file_path is Some && !same_path(
                s.last_loop_file_path->0@,
                m.path@,
            ) {
                t.recent_file_writes == only_history(m.path, seq![write])
            } else {
                writes == writes_of(s.recent_file_writes, m.path@).push(write)
            }
            &&& t.loop_started_at == if writes.len() >= 3 {
                Some(writes[0].timestamp)
            } else {
                None
            }
        }),
{
    file_histories_stay_sound(s, AgentEvent::FileModified(m));
    if s.last_loop_file_path is Some && !same_path(s.last_loop_file_path->0@, m.path@) {
        other_files_restart_the_count(s, m);
        assert(history_index(
            applied(s, AgentEvent::FileModified(m)).recent_file_writes,
            m.path@,
            0,
        ) == 0);
    } else {
        lemma_nothing_pruned(s.recent_file_writes, m.timestamp);
        lemma_with_write(s.recent_file_writes, m.path, FileWrite { timestamp: m.timestamp });
    }
}

proof fn lemma_all_stale(writes: Seq<FileWrite>, now: Timestamp)
    requires
        forall|k: int| 0 <= k < writes.len() ==> is_stale(#[trigger] writes[k], now),
    ensures
        unstale(writes, now).len() == 0,
    decreases writes.len(),
{
    if writes.len() > 0 {
        let rest = writes.drop_first();
        assert(forall|k: int| 0 <= k < rest.len() ==> #[trigger] rest[k] == writes[k + 1]);
        lemma_all_stale(rest, now);
    }
}

proof fn lemma_all_pruned(histories: Seq<HistoryView>, now: Timestamp)
    requires
        histories_are_stale(histories, now),
    ensures
        pruned(histories, now) == Seq::<HistoryView>::empty(),
    decreases histories.len(),
{
    if histories.len() > 0 {
        let front = histories.drop_last();
        let n = histories.len() - 1;
        assert(forall|k: int| 0 <= k < front.len() ==> #[trigger] front[k] == histories[k]);
        lemma_all_pruned(front, now);
        assert(forall|k: int|
            0 <= k < histories[n].writes.len() ==> is_stale(
                #[trigger] histories[n].writes[k],
                now,
            ));
        lemma_all_stale(histories[n].writes, now);
    }
}

/// Whether every recorded write lies longer ago than the loop window reaches.
pub open spec fn histories_are_stale(histories: Seq<HistoryView>, now: Timestamp) -> bool {
    forall|i: int, k: int|
        0 <= i < histories.len() && 0 <= k < histories[i].writes.len() ==> is_stale(
            #[trigger] histories[i].writes[k],
            now,
        )
}

/// Writes that lie longer ago than the loop window reaches do not count: the next write
/// is the first of a new count, and no loop is under way.
pub proof fn old_writes_do_not_count(s: StateView, m: FileModification)
    requires
        is_watched_write(m),
        histories_are_stale(s.recent_file_writes, m.timestamp),
    ensures
        ({
            let t = applied(s, AgentEvent::FileModified(m));
            &&& t.recent_file_writes == only_history(
                m.path,
                seq![FileWrite { timestamp: m.timestamp }],
            )
            &&& t.loop_started_at is None
            &&& t.last_loop_file_path == Some(m.path)
        }),
{
    if s.last_loop_file_path is Some && !same_path(s.last_loop_file_path->0@, m.path@) {
        other_files_restart_the_count(s, m);
    } else {
        lemma_all_pruned(s.recent_file_writes, m.timestamp);
        let none = Seq::<HistoryView>::empty();
        let write = FileWrite { timestamp: m.timestamp };
        assert(history_index(none, m.path@, 0) == 0);
        let one = with_write(none, m.path, write);
        assert(one =~= only_history(m.path, seq![write]));
        assert(history_index(one, m.path@, 0) == 0);
    }
}

proof fn lemma_next_rewrite(
    s: StateView,
    path: String,
    writes: Seq<FileWrite>,
    next: String,
    timestamp: Timestamp,
)
    requires
        s.recent_file_writes == only_history(path, writes),
        s.last_loop_file_path is Some,
        same_path(s.last_loop_file_path->0@, next@),
        same_path(path@, next@),
        writes.len() > 0,
        !is_stale(writes[0], timestamp),
    ensures
        with_file_write(s, next, timestamp).recent_file_writes == only_history(
            path,
            writes.push(FileWrite { timestamp }),
        ),
{
    let h = s.recent_file_writes;
    reveal_with_fuel(pruned, 2);
    assert(h.drop_last() =~= Seq::<HistoryView>::empty());
    assert(unstale(writes, timestamp) == writes);
    assert(pruned(h, timestamp) =~= h);
    assert(history_index(h, next@, 0) == 0);
    assert(with_write(h, next, FileWrite { timestamp }) =~= only_history(
        path,
        writes.push(FileWrite { timestamp }),
    ));
}

/// Whether a write lies no longer before a time than the loop window reaches.
pub open spec fn in_loop_window(modification: FileModification, now: Timestamp) -> bool {
    !is_stale(FileWrite { timestamp: modification.timestamp }, now)
}

/// A file that is written three times in a row, each time within the loop window before the
/// next writes and the time of the classification, is a loop: unless something worse
/// is found, the session is reported with the file, the count and the time of the first
/// write.
pub proof fn three_rewrites_are_a_loop(
    s: StateView,
    one: FileModification,
    two: FileModification,
    three: FileModification,
    time: Timestamp,
    cfg: ClassifierConfig,
)
    requires
        is_watched_write(one),
        is_watched_write(two),
        is_watched_write(three),
        same_path(one.path@, two.path@),
        same_path(two.path@, three.path@),
        in_loop_window(one, two.timestamp),
        in_loop_window(one, three.timestamp),
        in_loop_window(two, three.timestamp),
        in_loop_window(one, time),
        in_loop_window(two, time),
        in_loop_window(three, time),
        s.recent_file_writes.len() == 0 || s.last_loop_file_path is Some && !same_path(
            s.last_loop_file_path->0@,
            one.path@,
        ),
        cfg.tool_loop_rewrites == 3,
    ensures
        ({
            let a = applied(s, AgentEvent::FileModified(one));
            let b = applied(a, AgentEvent::FileModified(two));
            let t = applied(b, AgentEvent::FileModified(three));
            !dead(t, time, cfg) && scope_leak(t) is None && !t.last_event_was_compact
                ==> classified(t, time, cfg) == (PhaseView::ToolLoop {
                file: three.path@,
                count: 3,
                since: one.timestamp,
            })
        }),
{
    let a = applied(s, AgentEvent::FileModified(one));
    let b = applied(a, AgentEvent::FileModified(two));
    let t = applied(b, AgentEvent::FileModified(three));
    let w1 = FileWrite { timestamp: one.timestamp };
    let w2 = FileWrite { timestamp: two.timestamp };
    let w3 = FileWrite { timestamp: three.timestamp };
    let none = Seq::<HistoryView>::empty();
    assert(pruned(none, one.timestamp) =~= none);
    assert(history_index(none, one.path@, 0) == 0);
    assert(s.recent_file_writes.len() == 0 ==> s.recent_file_writes =~= none);
    assert(a.recent_file_writes =~= only_history(one.path, seq![w1]));
    lemma_next_rewrite(
        StateView {
            last_event_at: Some(two.timestamp),
            last_file_event_at: Some(two.timestamp),
            last_file_path: Some(two.path),
            touched_files: with_path(a.touched_files, two.path),
            ..a
        },
        one.path,
        seq![w1],
        two.path,
        two.timestamp,
    );
    let second = seq![w1].push(w2);
    assert(b.recent_file_writes == only_history(one.path, second));
    lemma_next_rewrite(
        StateView {
            last_event_at: Some(three.timestamp),
            last_file_event_at: Some(three.timestamp),
            last_file_path: Some(three.path),
            touched_files: with_path(b.touched_files, three.path),
            ..b
        },
        one.path,
        second,
        three.path,
        three.timestamp,
    );
    let third = second.push(w3);
    let h = t.recent_file_writes;
    assert(h == only_history(one.path, third));
    assert(history_index(h, three.path@, 0) == 0);
    assert(writes_of(h, three.path@) == third);
    assert(!is_stale(w1, time) && !is_stale(w2, time) && !is_stale(w3, time));
    assert(any_fresh(h, time)) by {
        assert(h[0].writes[0] == w1);
    }
    reveal_with_fuel(fresh_count, 4);
    assert(third.drop_last() =~= second);
    assert(second.drop_last() =~= seq![w1]);
    assert(seq![w1].drop_last() =~= Seq::<FileWrite>::empty());
    assert(fresh_count(third, time) == 3);
    assert(first_fresh(third, time) == Some(one.timestamp));
}

/// A test run of the main session that passes, once its result is there, ends the count
/// of failures.
pub proof fn passing_tests_end_the_count(s: StateView, event: AgentEvent)
    requires
        event is ToolResult,
        !event->ToolResult_is_sidechain,
        ({
            let i = result_position(s.recent_tool_calls, event->tool_name, false);
            &&& i >= 0
            &&& lowercase(s.recent_tool_calls[i].tool_name@) == "bash"@
            &&& s.recent_tool_calls[i].command is Some
        }),
        !test_failed(event->ToolResult_is_error, event->output, event->stderr),
    ensures
        applied(s, event).consecutive_test_failures == 0,
{
}

/// A test run of the main session that fails counts one more failure and names its
/// command.
pub proof fn failing_tests_are_counted(s: StateView, event: AgentEvent)
    requires
        event is ToolResult,
        !event->ToolResult_is_sidechain,
        ({
            let i = result_position(s.recent_tool_calls, event->tool_name, false);
            &&& i >= 0
            &&& lowercase(s.recent_tool_calls[i].tool_name@) == "bash"@
            &&& s.recent_tool_calls[i].command is Some
            &&& runs_tests(s.recent_tool_calls[i].command->0@)
        }),
        test_failed(event->ToolResult_is_error, event->output, event->stderr),
    ensures
        applied(s, event).consecutive_test_failures == next_u32(s.consecutive_test_failures),
        applied(s, event).last_test_command == s.recent_tool_calls[result_position(
            s.recent_tool_calls,
            event->tool_name,
            false,
        )].command,
{
}

/// As many failures in a row as the limit are a test loop, unless something worse is
/// found.
pub proof fn counted_failures_are_a_test_loop(
    s: StateView,
    time: Timestamp,
    cfg: ClassifierConfig,
)
    requires
        s.consecutive_test_failures >= cfg.test_loop_failures,
        s.last_test_command is Some,
        !dead(s, time, cfg),
        scope_leak(s) is None,
        !s.last_event_was_compact,
        tool_loop(s, time, cfg) is None,
    ensures
        classified(s, time, cfg) is TestLoop,
        classified(s, time, cfg)->command == s.last_test_command->0@,
{
}

/// Another command than a test run ends the count of failures and its context.
pub proof fn other_commands_end_the_count(s: StateView, call: ToolCall)
    requires
        !call.is_sidechain,
        !call.is_write,
        call.command is Some,
        !runs_tests(call.command->0@),
    ensures
        applied(s, AgentEvent::ToolCall(call)).consecutive_test_failures == 0,
        applied(s, AgentEvent::ToolCall(call)).last_test_command is None,
{
}

/// Whether a machine that took in a stream of events went through these states and gave
/// these reports.
pub open spec fn is_run(
    states: Seq<StateView>,
    reports: Seq<Option<PhaseView>>,
    cfg: ClassifierConfig,
    events: Seq<AgentEvent>,
) -> bool {
    &&& states.len() == events.len() + 1
    &&& reports.len() == events.len()
    &&& forall|i: int|
        0 <= i < events.len() ==> states[i + 1] == stepped(
            states[i],
            cfg,
            #[trigger] events[i],
        )
    &&& forall|i: int|
        0 <= i < events.len() ==> #[trigger] reports[i] == reported(
            states[i].phase,
            states[i + 1].phase,
        )
}

/// Replaying a stream of events goes through the states of the live processing and gives
/// the same phase changes, whenever it is replayed.
pub proof fn replays_give_the_live_transitions(
    live: Seq<StateView>,
    live_reports: Seq<Option<PhaseView>>,
    replay: Seq<StateView>,
    replay_reports: Seq<Option<PhaseView>>,
    cfg: ClassifierConfig,
    events: Seq<AgentEvent>,
)
    requires
        is_run(live, live_reports, cfg, events),
        is_run(replay, replay_reports, cfg, events),
        live[0] == replay[0],
    ensures
        live == replay,
        live_reports == replay_reports,
{
    assert forall|i: int| 0 <= i < live.len() implies live[i] == replay[i] by {
        lemma_same_state(live, live_reports, replay, replay_reports, cfg, events, i);
    }
    assert(live =~= replay);
    assert(live_reports =~= replay_reports);
}

proof fn lemma_same_state(
    live: Seq<StateView>,
    live_reports: Seq<Option<PhaseView>>,
    replay: Seq<StateView>,
    replay_reports: Seq<Option<PhaseView>>,
    cfg: ClassifierConfig,
    events: Seq<AgentEvent>,
    i: int,
)
    requires
        is_run(live, live_reports, cfg, events),
        is_run(replay, replay_reports, cfg, events),
        live[0] == replay[0],
        0 <= i < live.len(),
    ensures
        live[i] == replay[i],
    decreases i,
{
    if i > 0 {
        lemma_same_state(live, live_reports, replay, replay_reports, cfg, events, i - 1);
        assert(live[i - 1 + 1] == stepped(live[i - 1], cfg, events[i - 1]));
        assert(replay[i - 1 + 1] == stepped(replay[i - 1], cfg, events[i - 1]));
    }
}

/// Reading a log in two parts leads to the same state as reading it at once.
pub proof fn replay_goes_on(
    s: StateView,
    first: Seq<AgentEvent>,
    second: Seq<AgentEvent>,
)
    ensures
        replayed(s, first + second) == replayed(replayed(s, first), second),
    decreases second.len(),
{
    if second.len() == 0 {
        assert(first + second =~= first);
    } else {
        assert((first + second).drop_last() =~= first + second.drop_last());
        replay_goes_on(s, first, second.drop_last());
    }
}

/// A step leaves the state with the phase that it is classified as.
pub proof fn steps_keep_the_phase_in_sync(
    s: StateView,
    cfg: ClassifierConfig,
    event: AgentEvent,
)
    ensures
        stepped(s, cfg, event).phase == classified(
            applied(s, event),
            event.time(),
            cfg,
        ),
        stepped(s, cfg, event) == (StateView {
            phase: stepped(s, cfg, event).phase,
            ..applied(s, event)
        }),
{
}

/// The phase itself plays no part in the classification, and a phase is reported once: a
/// second classification at the same time reports nothing.
pub proof fn phases_are_reported_once(
    s: StateView,
    cfg: ClassifierConfig,
    time: Timestamp,
)
    ensures
        ({
            let t = reclassified(s, cfg, time);
            &&& classified(t, time, cfg) == classified(s, time, cfg)
            &&& reclassified(t, cfg, time) == t
            &&& reported(t.phase, classified(t, time, cfg)) is None
        }),
{
    let t = reclassified(s, cfg, time);
    assert(tool_loop(t, time, cfg) == tool_loop(s, time, cfg));
    assert(test_failures(t) == test_failures(s));
    assert(silence(t, time) == silence(s, time));
    same_phase_is_reflexive(t.phase);
}

/// A phase is the same as itself.
pub proof fn same_phase_is_reflexive(phase: PhaseView)
    ensures
        same_phase(phase, phase),
{
}

/// Hook events that the session log already covers change nothing.
pub proof fn covered_hook_events_do_not_count(
    s: StateView,
    cutoff: Option<Timestamp>,
    events: Seq<AgentEvent>,
)
    requires
        forall|i: int| 0 <= i < events.len() ==> !hook_counts(cutoff, #[trigger] events[i]),
    ensures
        hooked(s, cutoff, events) == s,
    decreases events.len(),
{
    if events.len() > 0 {
        let head = events.drop_last();
        assert forall|i: int| 0 <= i < head.len() implies !hook_counts(
            cutoff,
            #[trigger] head[i],
        ) by {
            assert(head[i] == events[i]);
        }
        covered_hook_events_do_not_count(s, cutoff, head);
        assert(!hook_counts(cutoff, events[events.len() - 1]));
    }
}

/// A session without a live process is reported as dead.
pub proof fn sessions_without_a_process_are_dead(
    s: StateView,
    time: Timestamp,
    cfg: ClassifierConfig,
)
    ensures
        classified(sampled(s, None), time, cfg) == PhaseView::Dead,
{
}

/// Looking at the same task list twice is looking at it once.
pub proof fn task_lists_are_read_once(
    s: StateView,
    listing: TaskListing,
    agent_name: Option<Seq<char>>,
)
    ensures
        with_tasks(with_tasks(s, listing, agent_name), listing, agent_name) == with_tasks(
            s,
            listing,
            agent_name,
        ),
{
}

/// A task blocks a session only while it is in progress and a dependency of it is open.
pub proof fn blocked_tasks_are_in_progress(s: StateView)
    ensures
        blocked_task(s) is Some ==> s.current_task is Some && s.current_task->0.status
            == "in_progress"@ && (blocked_task(s)->0).0 == s.current_task->0.id && (blocked_task(
            s,
        )->0).1.len() > 0,
{
}

} // verus!
