//! Laws of the classification: what each phase says about a session.

use crate::classifier::{
    blocking_ids, classified, earliest_write, leaking_call, scope_leak, still_blocks, violated_guard,
    ClassifierConfig,
};
use crate::clock::{Span, Timestamp};
use crate::list_laws::{rewrites_are_counted, the_most_rewritten_file_is_found, writes_to};
use crate::loop_detector::{failed_test, rewrites, scored_calls, top_rewrite, trailing_failures};
use crate::laws::closest_guards_are_guards;
use crate::metrics::silence;
use crate::paths::{same_path, within_any};
use crate::state::{
    any_fresh, first_fresh, fresh_count, is_stale, writes_of, FileWrite, StateView,
};
use crate::types::{FloatBits, PhaseView, TaskView, ToolCall};
use vstd::prelude::*;

verus! {

/// Whether a reading is a number below the one with this pattern: the patterns of the
/// numbers from zero on are ordered as the numbers are, and negative numbers come after
/// them, followed by what is no number.
pub open spec fn reads_below(reading: FloatBits, pattern: u32) -> bool {
    reading.bits < pattern || 0x8000_0000 <= reading.bits <= 0xff80_0000
}

/// Whether a time is known and lies longer ago than a span.
pub open spec fn long_ago(time: Timestamp, now: Timestamp, span: Span) -> bool {
    now.gap(time) > span.nanos
}

/// The time of the last visible activity of a session: the latest of the last record, the
/// last file event and the last hook event; without any of these the last event, and
/// without that the start of the session.
pub open spec fn is_last_activity(s: StateView, time: Timestamp) -> bool {
    let seen = seq![s.last_jsonl_record_at, s.last_file_event_at, s.last_hook_event_at];
    if seen[0] is None && seen[1] is None && seen[2] is None {
        Some(time) == if s.last_event_at is Some {
            s.last_event_at
        } else {
            s.session_started_at
        }
    } else {
        &&& seen.contains(Some(time))
        &&& forall|i: int|
            0 <= i < 3 && (#[trigger] seen[i]) is Some ==> !seen[i]->0.is_after(time)
    }
}

/// A session is silent from its last visible activity on. Where that lies in the future it
/// is not silent.
pub proof fn silence_counts_from_the_last_activity(s: StateView, time: Timestamp, now: Timestamp)
    requires
        is_last_activity(s, time),
    ensures
        now.gap(time) >= 0 ==> silence(s, now) == now.gap(time),
        now.gap(time) < 0 ==> silence(s, now) == 0,
{
    let seen = seq![s.last_jsonl_record_at, s.last_file_event_at, s.last_hook_event_at];
    if !(seen[0] is None && seen[1] is None && seen[2] is None) {
        let k = seen.index_of(Some(time));
        assert(seen[k] == Some(time));
        assert(seen[0] is Some ==> !seen[0]->0.is_after(time));
        assert(seen[1] is Some ==> !seen[1]->0.is_after(time));
        assert(seen[2] is Some ==> !seen[2]->0.is_after(time));
    }
}

/// A session of which nothing was seen is not silent.
pub proof fn unseen_sessions_are_not_silent(s: StateView, now: Timestamp)
    requires
        s.last_jsonl_record_at is None,
        s.last_file_event_at is None,
        s.last_hook_event_at is None,
        s.last_event_at is None,
        s.session_started_at is None,
    ensures
        silence(s, now) == 0,
{
}

/// A session is dead where its process is gone. It is dead as well where it was silent for
/// longer than the limit, with its CPU below half a percent, and neither records nor token
/// counts nor memory moved for as long; without any token count a result has to be pending.
/// It is dead in no other case.
pub proof fn dead_sessions_show_no_life(s: StateView, now: Timestamp, cfg: ClassifierConfig)
    ensures
        classified(s, now, cfg) is Dead <==> !s.process_alive || {
            &&& silence(s, now) > cfg.dead_after.nanos
            &&& reads_below(s.latest_cpu_percent, 0x3f00_0000)
            &&& s.last_jsonl_record_at is Some ==> long_ago(
                s.last_jsonl_record_at->0,
                now,
                cfg.dead_after,
            )
            &&& s.last_memory_activity_at is Some ==> long_ago(
                s.last_memory_activity_at->0,
                now,
                cfg.dead_after,
            )
            &&& s.last_token_activity_at is Some ==> long_ago(
                s.last_token_activity_at->0,
                now,
                cfg.dead_after,
            )
            &&& s.last_token_activity_at is None ==> s.awaiting_tool_result
        },
{
}

/// A live process whose CPU reading is half a percent or more is never reported as dead.
pub proof fn busy_processes_are_not_dead(s: StateView, now: Timestamp, cfg: ClassifierConfig)
    requires
        s.process_alive,
        !reads_below(s.latest_cpu_percent, 0x3f00_0000),
    ensures
        !(classified(s, now, cfg) is Dead),
{
}

/// A live session is not dead while it was active within the limit: a record, a token
/// count or a change of memory that recently keeps it alive.
pub proof fn recent_activity_keeps_a_session_alive(
    s: StateView,
    now: Timestamp,
    cfg: ClassifierConfig,
    time: Timestamp,
)
    requires
        s.process_alive,
        s.last_jsonl_record_at == Some(time) || s.last_token_activity_at == Some(time)
            || s.last_memory_activity_at == Some(time) || is_last_activity(s, time),
        now.gap(time) <= cfg.dead_after.nanos,
    ensures
        !(classified(s, now, cfg) is Dead),
{
    if is_last_activity(s, time) {
        silence_counts_from_the_last_activity(s, time, now);
    }
}

/// Whether a phase goes by silence alone.
pub open spec fn is_quiet(phase: PhaseView) -> bool {
    phase is Idle || phase is Thinking || phase is Working
}

/// A session hangs where a tool result is pending, it was silent for longer than the limit,
/// its CPU is below one percent, no I/O was seen lately and the token counts did not move.
/// The phase tells the length of the silence. Whatever else is found comes first.
pub proof fn hanging_sessions_wait_in_silence(s: StateView, now: Timestamp, cfg: ClassifierConfig)
    ensures
        ({
            let phase = classified(s, now, cfg);
            let hangs = {
                &&& s.awaiting_tool_result
                &&& silence(s, now) > cfg.api_hang_after.nanos
                &&& reads_below(s.latest_cpu_percent, 0x3f80_0000)
                &&& s.last_io_activity_at is Some ==> long_ago(
                    s.last_io_activity_at->0,
                    now,
                    cfg.io_inactive_after,
                )
                &&& s.last_token_activity_at is Some ==> long_ago(
                    s.last_token_activity_at->0,
                    now,
                    cfg.api_hang_after,
                )
            };
            &&& phase is ApiHang ==> hangs
            &&& is_quiet(phase) ==> !hangs
            &&& phase is ApiHang ==> phase->ApiHang_0.nanos == silence(s, now) as u128
        }),
{
}

/// Of the phases that go by silence, a session is idle beyond the longer limit, thinking
/// beyond the shorter one and working otherwise.
pub proof fn quiet_phases_go_by_silence(s: StateView, now: Timestamp, cfg: ClassifierConfig)
    requires
        is_quiet(classified(s, now, cfg)),
    ensures
        classified(s, now, cfg) is Idle <==> silence(s, now) > cfg.idle_after.nanos,
        classified(s, now, cfg) is Idle ==> classified(s, now, cfg)->Idle_0.nanos == silence(
            s,
            now,
        ) as u128,
        classified(s, now, cfg) is Thinking <==> cfg.thinking_after.nanos < silence(s, now)
            <= cfg.idle_after.nanos,
{
}

/// A session that was started is never reported as initializing.
pub proof fn classified_sessions_are_past_their_start(
    s: StateView,
    now: Timestamp,
    cfg: ClassifierConfig,
)
    ensures
        !(classified(s, now, cfg) is Initializing),
{
}

/// The context was reset where a compact boundary came last, unless the session is dead or
/// leaks out of its scope.
pub proof fn reset_contexts_are_reported(s: StateView, now: Timestamp, cfg: ClassifierConfig)
    ensures
        classified(s, now, cfg) is ContextReset <==> s.last_event_was_compact && !(classified(
            s,
            now,
            cfg,
        ) is Dead) && !(classified(s, now, cfg) is ScopeLeaking),
{
}

/// A recorded violation of the scope is reported with its file and one of the guards,
/// unless the session is dead.
pub proof fn recorded_violations_are_reported(s: StateView, now: Timestamp, cfg: ClassifierConfig)
    requires
        s.latest_scope_violation is Some,
        s.guard_paths.len() > 0,
    ensures
        ({
            let phase = classified(s, now, cfg);
            &&& phase is Dead || phase is ScopeLeaking
            &&& phase is ScopeLeaking ==> phase->violating_file == s.latest_scope_violation->0@
                && exists|i: int|
                0 <= i < s.guard_paths.len() && phase->guard_path == #[trigger] s.guard_paths[i]@
        }),
{
    closest_guards_are_guards(s.latest_scope_violation->0@, s.guard_paths);
    let guard = (scope_leak(s)->0).1;
    if s.guard_paths.contains(guard) {
        let k = s.guard_paths.index_of(guard);
        assert(s.guard_paths[k]@ == guard@);
    } else {
        assert(s.guard_paths[0]@ == guard@);
    }
}

/// Whether a call writes a file outside all guards.
pub open spec fn leaks(call: ToolCall, guards: Seq<String>) -> bool {
    call.is_write && call.file_path is Some && guards.len() > 0 && !within_any(
        call.file_path->0@,
        guards,
    )
}

proof fn lemma_leaking_call(calls: Seq<ToolCall>, guards: Seq<String>)
    ensures
        match leaking_call(calls, guards) {
            Some((file, guard)) => exists|i: int|
                0 <= i < calls.len() && leaks(#[trigger] calls[i], guards)
                    && calls[i].file_path->0 == file && forall|k: int|
                    i < k < calls.len() ==> !leaks(#[trigger] calls[k], guards),
            None => forall|i: int| 0 <= i < calls.len() ==> !leaks(#[trigger] calls[i], guards),
        },
    decreases calls.len(),
{
    if calls.len() > 0 {
        let head = calls.drop_last();
        let last = calls.last();
        assert(calls[calls.len() - 1] == last);
        if guards.len() > 0 && last.file_path is Some {
            closest_guards_are_guards(last.file_path->0@, guards);
        }
        assert(leaks(last, guards) <==> last.is_write && last.file_path is Some && violated_guard(
            last.file_path->0@,
            guards,
        ) is Some);
        if !leaks(last, guards) {
            lemma_leaking_call(head, guards);
            if let Some((file, guard)) = leaking_call(head, guards) {
                let i = choose|i: int|
                    0 <= i < head.len() && leaks(#[trigger] head[i], guards)
                        && head[i].file_path->0 == file && forall|k: int|
                        i < k < head.len() ==> !leaks(#[trigger] head[k], guards);
                assert(calls[i] == head[i]);
                assert forall|k: int| i < k < calls.len() implies !leaks(
                    #[trigger] calls[k],
                    guards,
                ) by {
                    if k < head.len() {
                        assert(head[k] == calls[k]);
                    }
                }
            } else {
                assert forall|i: int| 0 <= i < calls.len() implies !leaks(
                    #[trigger] calls[i],
                    guards,
                ) by {
                    if i < head.len() {
                        assert(head[i] == calls[i]);
                    }
                }
            }
        }
    }
}

/// Where no violation is recorded, the last of the recent calls that wrote outside all
/// guards is reported, unless the session is dead; without such a call nothing leaks.
pub proof fn leaking_calls_are_reported(s: StateView, now: Timestamp, cfg: ClassifierConfig)
    requires
        s.latest_scope_violation is None,
    ensures
        ({
            let phase = classified(s, now, cfg);
            &&& phase is ScopeLeaking ==> exists|i: int|
                0 <= i < s.recent_tool_calls.len() && leaks(
                    #[trigger] s.recent_tool_calls[i],
                    s.guard_paths,
                ) && s.recent_tool_calls[i].file_path->0@ == phase->violating_file && forall|k: int|
                    i < k < s.recent_tool_calls.len() ==> !leaks(
                        #[trigger] s.recent_tool_calls[k],
                        s.guard_paths,
                    )
            &&& (exists|i: int|
                0 <= i < s.recent_tool_calls.len() && leaks(
                    #[trigger] s.recent_tool_calls[i],
                    s.guard_paths,
                )) ==> phase is Dead || phase is ScopeLeaking
        }),
{
    lemma_leaking_call(s.recent_tool_calls, s.guard_paths);
}

/// Whether a phase is a tool loop or more urgent than one.
pub open spec fn outweighs_tests(phase: PhaseView) -> bool {
    phase is Dead || phase is ScopeLeaking || phase is ContextReset || phase is ToolLoop
}

/// Whether a call writes a file.
pub open spec fn writes_file(call: ToolCall, file: Seq<char>) -> bool {
    call.is_write && call.file_path is Some && same_path(call.file_path->0@, file)
}

/// While writes are fresh, a loop is about the file that was written last, and counts its
/// fresh writes.
pub proof fn fresh_writes_are_a_loop(s: StateView, now: Timestamp, cfg: ClassifierConfig)
    requires
        any_fresh(s.recent_file_writes, now),
    ensures
        ({
            let phase = classified(s, now, cfg);
            let writes = writes_of(s.recent_file_writes, s.last_loop_file_path->0@);
            let count = fresh_count(writes, now) as u32;
            &&& phase is ToolLoop ==> {
                &&& s.last_loop_file_path is Some
                &&& phase->ToolLoop_file == s.last_loop_file_path->0@
                &&& phase->count == count >= cfg.tool_loop_rewrites
            }
            &&& s.last_loop_file_path is Some && count >= cfg.tool_loop_rewrites
                ==> outweighs_tests(phase)
        }),
{
}

/// A loop began with the first fresh write of its file; without fresh writes when it was
/// noted, else with the earliest call that writes the file.
pub proof fn loops_begin_with_a_write(s: StateView, now: Timestamp, cfg: ClassifierConfig)
    requires
        classified(s, now, cfg) is ToolLoop,
    ensures
        ({
            let phase = classified(s, now, cfg);
            let file = phase->ToolLoop_file;
            let writes = writes_of(s.recent_file_writes, file);
            let calls = s.recent_tool_calls;
            let fresh = any_fresh(s.recent_file_writes, now);
            &&& forall|k: int|
                fresh && 0 <= k < writes.len() && !is_stale(#[trigger] writes[k], now) && (
                forall|j: int| 0 <= j < k ==> is_stale(#[trigger] writes[j], now))
                    ==> phase->since == writes[k].timestamp
            &&& !fresh && s.loop_started_at is Some ==> phase->since == s.loop_started_at->0
            &&& !fresh && s.loop_started_at is None ==> forall|k: int|
                0 <= k < calls.len() && writes_file(#[trigger] calls[k], file) ==> {
                    &&& !phase->since.is_after(calls[k].timestamp)
                    &&& exists|i: int|
                        0 <= i < calls.len() && writes_file(#[trigger] calls[i], file)
                            && phase->since == calls[i].timestamp
                }
        }),
{
    let phase = classified(s, now, cfg);
    let file = phase->ToolLoop_file;
    let writes = writes_of(s.recent_file_writes, file);
    lemma_earliest_write(s.recent_tool_calls, file);
    assert forall|k: int|
        any_fresh(s.recent_file_writes, now) && 0 <= k < writes.len() && !is_stale(
            #[trigger] writes[k],
            now,
        ) && (forall|j: int| 0 <= j < k ==> is_stale(#[trigger] writes[j], now)) implies phase->since
        == writes[k].timestamp by {
        lemma_first_fresh(writes, now, k);
    }
}

proof fn lemma_first_fresh(writes: Seq<FileWrite>, now: Timestamp, k: int)
    requires
        0 <= k < writes.len(),
        !is_stale(writes[k], now),
        forall|j: int| 0 <= j < k ==> is_stale(#[trigger] writes[j], now),
    ensures
        first_fresh(writes, now) == Some(writes[k].timestamp),
    decreases k,
{
    if k > 0 {
        let rest = writes.drop_first();
        assert(is_stale(writes[0], now));
        assert forall|j: int| 0 <= j < k - 1 implies is_stale(#[trigger] rest[j], now) by {
            assert(rest[j] == writes[j + 1]);
        }
        assert(rest[k - 1] == writes[k]);
        lemma_first_fresh(rest, now, k - 1);
    }
}

proof fn lemma_earliest_write(calls: Seq<ToolCall>, file: Seq<char>)
    ensures
        earliest_write(calls, file) is Some ==> exists|i: int|
            0 <= i < calls.len() && writes_file(#[trigger] calls[i], file) && earliest_write(
                calls,
                file,
            )->0 == calls[i].timestamp,
        forall|k: int|
            0 <= k < calls.len() && writes_file(#[trigger] calls[k], file) ==> earliest_write(
                calls,
                file,
            ) is Some && !earliest_write(calls, file)->0.is_after(calls[k].timestamp),
    decreases calls.len(),
{
    if calls.len() > 0 {
        let rest = calls.drop_last();
        lemma_earliest_write(rest, file);
        let all = earliest_write(calls, file);
        let n = calls.len() - 1;
        if earliest_write(rest, file) is Some {
            let i = choose|i: int|
                0 <= i < rest.len() && writes_file(#[trigger] rest[i], file) && earliest_write(
                    rest,
                    file,
                )->0 == rest[i].timestamp;
            assert(calls[i] == rest[i]);
        }
        assert(calls[n] == calls.last());
        assert forall|k: int|
            0 <= k < calls.len() && writes_file(#[trigger] calls[k], file) implies all is Some
            && !all->0.is_after(calls[k].timestamp) by {
            if k < n {
                assert(rest[k] == calls[k]);
            }
        }
    }
}

/// Where the file watcher saw no recent writes, the tool calls decide: a file that the
/// calls of the window wrote as often as the limit is a loop, the count is that of the
/// file in the phase, and no other file was written more often.
pub proof fn repeated_writes_by_calls_are_a_loop(
    s: StateView,
    now: Timestamp,
    cfg: ClassifierConfig,
    path: Seq<char>,
)
    requires
        !any_fresh(s.recent_file_writes, now),
        s.recent_tool_calls.len() <= u32::MAX,
    ensures
        ({
            let phase = classified(s, now, cfg);
            let calls = scored_calls(s.recent_tool_calls);
            &&& writes_to(calls, path) >= cfg.tool_loop_rewrites > 0 ==> outweighs_tests(phase)
            &&& phase is ToolLoop ==> phase->count == writes_to(calls, phase->ToolLoop_file)
                && phase->count >= cfg.tool_loop_rewrites && writes_to(calls, path)
                <= phase->count
        }),
{
    let calls = scored_calls(s.recent_tool_calls);
    let list = rewrites(calls);
    rewrites_are_counted(calls);
    lemma_scored_len(s.recent_tool_calls);
    lemma_writes_to_len(calls, path);
    if list.len() > 0 {
        the_most_rewritten_file_is_found(list);
        let best = top_rewrite(list)->0;
        let k = list.index_of(best);
        assert(list[k] == best);
        lemma_writes_to_len(calls, best.path@);
        if writes_to(calls, path) > 0 {
            let i = choose|i: int|
                0 <= i < list.len() && crate::paths::same_path((#[trigger] list[i]).path@, path);
            assert(list[i].count == writes_to(calls, list[i].path@));
            lemma_same_writes(calls, list[i].path@, path);
        }
    } else if writes_to(calls, path) > 0 {
        let i = choose|i: int|
            0 <= i < list.len() && crate::paths::same_path((#[trigger] list[i]).path@, path);
    }
}

proof fn lemma_same_writes(calls: Seq<ToolCall>, a: Seq<char>, b: Seq<char>)
    requires
        crate::paths::same_path(a, b),
    ensures
        writes_to(calls, a) == writes_to(calls, b),
    decreases calls.len(),
{
    if calls.len() > 0 {
        lemma_same_writes(calls.drop_last(), a, b);
    }
}

proof fn lemma_writes_to_len(calls: Seq<ToolCall>, path: Seq<char>)
    ensures
        writes_to(calls, path) <= calls.len(),
    decreases calls.len(),
{
    if calls.len() > 0 {
        lemma_writes_to_len(calls.drop_last(), path);
    }
}

proof fn lemma_scored_len(calls: Seq<ToolCall>)
    ensures
        scored_calls(calls).len() <= calls.len(),
{
    if let Some(end) = crate::loop_detector::latest_call(calls) {
        lemma_window_len(calls, end);
    }
}

proof fn lemma_window_len(calls: Seq<ToolCall>, end: Timestamp)
    ensures
        crate::loop_detector::window_calls(calls, end).len() <= calls.len(),
    decreases calls.len(),
{
    if calls.len() > 0 {
        lemma_window_len(calls.drop_last(), end);
    }
}

/// As many failed test runs in a row as the limit are a test loop, reported with the last
/// test command: failures that were counted, or failed test runs at the end of the recent
/// calls. Only a tool loop or something more urgent comes before it.
pub proof fn repeated_test_failures_are_a_loop(
    s: StateView,
    now: Timestamp,
    cfg: ClassifierConfig,
)
    requires
        s.recent_tool_calls.len() <= u32::MAX,
    ensures
        ({
            let phase = classified(s, now, cfg);
            let counted = s.consecutive_test_failures;
            let seen = trailing_failures(scored_calls(s.recent_tool_calls));
            &&& s.last_test_command is Some && (counted >= cfg.test_loop_failures || seen
                >= cfg.test_loop_failures) ==> outweighs_tests(phase) || phase is TestLoop
            &&& phase is TestLoop ==> {
                &&& s.last_test_command is Some
                &&& phase->command == s.last_test_command->0@
                &&& phase->failure_count >= cfg.test_loop_failures
                &&& phase->failure_count >= counted
                &&& phase->failure_count >= seen
                &&& phase->failure_count == counted || phase->failure_count == seen
            }
        }),
{
    lemma_scored_len(s.recent_tool_calls);
    lemma_trailing_len(scored_calls(s.recent_tool_calls));
}

proof fn lemma_trailing_len(calls: Seq<ToolCall>)
    ensures
        trailing_failures(calls) <= calls.len(),
    decreases calls.len(),
{
    if calls.len() > 0 {
        lemma_trailing_len(calls.drop_last());
    }
}

/// The failed test runs at the end of the calls are counted up to the last call that is
/// none.
pub proof fn trailing_failures_are_counted(calls: Seq<ToolCall>)
    ensures
        ({
            let n = trailing_failures(calls) as int;
            &&& n <= calls.len()
            &&& forall|i: int|
                calls.len() - n <= i < calls.len() ==> failed_test(#[trigger] calls[i])
            &&& n < calls.len() ==> !failed_test(calls[calls.len() - n - 1])
        }),
    decreases calls.len(),
{
    if calls.len() > 0 && failed_test(calls.last()) {
        let head = calls.drop_last();
        trailing_failures_are_counted(head);
        let n = trailing_failures(calls) as int;
        assert forall|i: int| calls.len() - n <= i < calls.len() implies failed_test(
            #[trigger] calls[i],
        ) by {
            if i < head.len() {
                assert(head[i] == calls[i]);
            }
        }
    }
}

/// Whether a dependency is open: no task of that identifier is completed.
pub open spec fn is_open(id: Seq<char>, files: Seq<TaskView>) -> bool {
    forall|i: int|
        0 <= i < files.len() && (#[trigger] files[i]).id == id ==> files[i].status != "completed"@
}

/// Whether a dependency is met: there are tasks of that identifier, all of them completed.
pub open spec fn is_met(id: Seq<char>, files: Seq<TaskView>) -> bool {
    &&& exists|i: int| 0 <= i < files.len() && (#[trigger] files[i]).id == id
    &&& forall|i: int|
        0 <= i < files.len() && (#[trigger] files[i]).id == id ==> files[i].status == "completed"@
}

proof fn lemma_still_blocks(files: Seq<TaskView>, id: Seq<char>)
    ensures
        is_open(id, files) ==> still_blocks(files, id),
        is_met(id, files) ==> !still_blocks(files, id),
    decreases files.len(),
{
    if files.len() > 0 && files[0].id != id {
        let rest = files.drop_first();
        lemma_still_blocks(rest, id);
        assert forall|i: int| 0 <= i < rest.len() implies #[trigger] rest[i] == files[i + 1] by {
        }
        if is_open(id, files) {
            assert(is_open(id, rest)) by {
                assert forall|i: int|
                    0 <= i < rest.len() && (#[trigger] rest[i]).id == id implies rest[i].status
                    != "completed"@ by {
                    assert(files[i + 1] == rest[i]);
                }
            }
        }
        if is_met(id, files) {
            let k = choose|i: int| 0 <= i < files.len() && (#[trigger] files[i]).id == id;
            assert(rest[k - 1] == files[k]);
            assert forall|i: int|
                0 <= i < rest.len() && (#[trigger] rest[i]).id == id implies rest[i].status
                == "completed"@ by {
                assert(files[i + 1] == rest[i]);
            }
        }
    }
}

proof fn lemma_blocking_ids(ids: Seq<Seq<char>>, files: Seq<TaskView>)
    ensures
        forall|k: int|
            0 <= k < ids.len() && is_open(#[trigger] ids[k], files) ==> blocking_ids(
                ids,
                files,
            ).contains(ids[k]),
        forall|k: int|
            0 <= k < blocking_ids(ids, files).len() ==> ids.contains(
                #[trigger] blocking_ids(ids, files)[k],
            ) && !is_met(blocking_ids(ids, files)[k], files),
    decreases ids.len(),
{
    if ids.len() > 0 {
        let head = ids.drop_last();
        let rest = blocking_ids(head, files);
        let all = blocking_ids(ids, files);
        lemma_blocking_ids(head, files);
        lemma_still_blocks(files, ids.last());
        assert(ids[ids.len() - 1] == ids.last());
        assert forall|k: int| 0 <= k < ids.len() && is_open(#[trigger] ids[k], files) implies
            all.contains(ids[k]) by {
            if k < head.len() {
                assert(head[k] == ids[k]);
                let j = rest.index_of(ids[k]);
                assert(all[j] == ids[k]);
            } else {
                assert(all[all.len() - 1] == ids[k]);
            }
        }
        assert forall|k: int| 0 <= k < all.len() implies ids.contains(#[trigger] all[k])
            && !is_met(all[k], files) by {
            if k < rest.len() {
                assert(all[k] == rest[k]);
                let j = head.index_of(rest[k]);
                assert(ids[j] == rest[k]);
            }
        }
    }
}

/// Whether a phase is a test loop or more urgent than one.
pub open spec fn outweighs_tasks(phase: PhaseView) -> bool {
    outweighs_tests(phase) || phase is TestLoop
}

/// A task in progress that depends on a task that is not completed blocks the session; only
/// a loop or something more urgent comes before it. The phase names the task and
/// dependencies of it that are not met.
pub proof fn open_dependencies_block_a_session(
    s: StateView,
    now: Timestamp,
    cfg: ClassifierConfig,
)
    ensures
        ({
            let phase = classified(s, now, cfg);
            &&& s.current_task is Some && s.current_task->0.status == "in_progress"@ && (
            exists|k: int|
                0 <= k < s.current_task->0.blocked_by.len() && is_open(
                    #[trigger] s.current_task->0.blocked_by[k],
                    s.task_files,
                )) ==> outweighs_tasks(phase) || phase is TaskBlocked
            &&& phase is TaskBlocked ==> {
                &&& s.current_task is Some
                &&& s.current_task->0.status == "in_progress"@
                &&& phase->task_id == s.current_task->0.id
                &&& phase->blocked_by.len() > 0
                &&& forall|k: int|
                    0 <= k < s.current_task->0.blocked_by.len() && is_open(
                        #[trigger] s.current_task->0.blocked_by[k],
                        s.task_files,
                    ) ==> phase->blocked_by.contains(s.current_task->0.blocked_by[k])
                &&& forall|k: int|
                    0 <= k < phase->blocked_by.len() ==> s.current_task->0.blocked_by.contains(
                        #[trigger] phase->blocked_by[k],
                    ) && !is_met(phase->blocked_by[k], s.task_files)
            }
        }),
{
    if s.current_task is Some {
        let task = s.current_task->0;
        lemma_blocking_ids(task.blocked_by, s.task_files);
        if exists|k: int|
            0 <= k < task.blocked_by.len() && is_open(
                #[trigger] task.blocked_by[k],
                s.task_files,
            ) {
            let k = choose|k: int|
                0 <= k < task.blocked_by.len() && is_open(
                    #[trigger] task.blocked_by[k],
                    s.task_files,
                );
            let all = blocking_ids(task.blocked_by, s.task_files);
            assert(all.contains(task.blocked_by[k]));
            let j = all.index_of(task.blocked_by[k]);
            assert(all.len() > 0);
        }
    }
}

} // verus!
