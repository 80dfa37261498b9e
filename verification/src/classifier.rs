//! Classification of a session from its observed state.

use crate::clock::{either, first_of, Span, Timestamp};
use crate::loop_detector::{compute_loop_score, most_rewritten, scored_calls, trailing_failures};
use crate::metrics::{compute_silence, has_recent_io_activity, silence};
use crate::paths::{
    components, parts, path_within_any, paths_equal, same_path, shared_components, shared_len,
    within_any,
};
use crate::state::{any_fresh, first_fresh, fresh_count, is_recent, task_views, writes_of};
use crate::state::{AgentState, StateView};
use crate::text::{lemma_views_push, same_text, views};
use crate::types::{AgentPhase, PhaseView, TaskFile, TaskView, ToolCall, HALF_BITS, ONE_BITS};

use vstd::prelude::*;

verus! {

/// Thresholds of the classifier.
#[derive(Debug, Clone, Copy, PartialEq, Eq, Structural)]
pub struct ClassifierConfig {
    /// Silence after which the agent counts as thinking.
    pub thinking_after: Span,
    /// Silence after which a pending tool call counts as an API hang.
    pub api_hang_after: Span,
    /// Silence after which an inactive session counts as dead.
    pub dead_after: Span,
    /// Silence after which the session counts as idle.
    pub idle_after: Span,
    /// How long I/O counts as recent.
    pub io_inactive_after: Span,
    /// Rewrites of one file that make a tool loop.
    pub tool_loop_rewrites: u32,
    /// Consecutive test failures that make a test loop.
    pub test_loop_failures: u32,
}

impl Default for ClassifierConfig {
    fn default() -> (r: Self)
        ensures
            r.thinking_after.nanos == 30_000_000_000,
            r.api_hang_after.nanos == 120_000_000_000,
            r.dead_after.nanos == 300_000_000_000,
            r.idle_after.nanos == 600_000_000_000,
            r.io_inactive_after.nanos == 60_000_000_000,
            r.tool_loop_rewrites == 3,
            r.test_loop_failures == 3,
    {
        ClassifierConfig {
            thinking_after: Span::from_secs(30),
            api_hang_after: Span::from_secs(120),
            dead_after: Span::from_secs(300),
            idle_after: Span::from_secs(600),
            io_inactive_after: Span::from_secs(60),
            tool_loop_rewrites: 3,
            test_loop_failures: 3,
        }
    }
}

/// Whether a time lies longer ago than a threshold. A time in the future does
/// not; `missing` answers for a time that is not known.
pub open spec fn is_overdue(
    timestamp: Option<Timestamp>,
    now: Timestamp,
    threshold: Span,
    missing: bool,
) -> bool {
    match timestamp {
        Some(t) => match now.since(t) {
            Some(elapsed) => elapsed > threshold.nanos,
            None => false,
        },
        None => missing,
    }
}

fn overdue(timestamp: Option<Timestamp>, now: Timestamp, threshold: Span, missing: bool) -> (r:
    bool)
    ensures
        r == is_overdue(timestamp, now, threshold, missing),
{
    match timestamp {
        Some(t) => match now.checked_since(t) {
            Some(elapsed) => elapsed.nanos > threshold.nanos,
            None => false,
        },
        None => missing,
    }
}

/// Whether token counters have not moved for longer than a threshold. Without
/// any token activity they count as frozen while a tool result is pending.
pub open spec fn frozen_tokens(s: StateView, now: Timestamp, threshold: Span) -> bool {
    is_overdue(s.last_token_activity_at, now, threshold, s.awaiting_tool_result)
}

/// Whether a session is dead: its process is gone, or it is silent beyond the
/// threshold with an idle CPU, no records, frozen tokens and flat memory.
pub open spec fn dead(s: StateView, now: Timestamp, cfg: ClassifierConfig) -> bool {
    ||| !s.process_alive
    ||| {
        &&& silence(s, now) > cfg.dead_after.nanos
        &&& s.latest_cpu_percent.less_than(HALF_BITS)
        &&& is_overdue(s.last_jsonl_record_at, now, cfg.dead_after, true)
        &&& frozen_tokens(s, now, cfg.dead_after)
        &&& is_overdue(s.last_memory_activity_at, now, cfg.dead_after, true)
    }
}

fn is_dead(state: &AgentState, now: Timestamp, cfg: ClassifierConfig) -> (r: bool)
    ensures
        r == dead(state@, now, cfg),
{
    if !state.process_alive {
        return true;
    }
    compute_silence(state, now).nanos > cfg.dead_after.nanos && state.latest_cpu_percent.below(
        HALF_BITS,
    ) && no_recent_jsonl_records(state, now, cfg.dead_after) && tokens_are_frozen(
        state,
        now,
        cfg.dead_after,
    ) && memory_is_flat(state, now, cfg.dead_after)
}

fn no_recent_jsonl_records(state: &AgentState, now: Timestamp, threshold: Span) -> (r: bool)
    ensures
        r == is_overdue(state@.last_jsonl_record_at, now, threshold, true),
{
    overdue(state.last_jsonl_record_at, now, threshold, true)
}

fn memory_is_flat(state: &AgentState, now: Timestamp, threshold: Span) -> (r: bool)
    ensures
        r == is_overdue(state@.last_memory_activity_at, now, threshold, true),
{
    overdue(state.last_memory_activity_at, now, threshold, true)
}

fn tokens_are_frozen(state: &AgentState, now: Timestamp, threshold: Span) -> (r: bool)
    ensures
        r == frozen_tokens(state@, now, threshold),
{
    overdue(state.last_token_activity_at, now, threshold, state.awaiting_tool_result)
}

/// Whether a pending tool call hangs: silence beyond the threshold, an idle
/// CPU, no recent I/O and frozen tokens.
pub open spec fn api_hang(s: StateView, now: Timestamp, cfg: ClassifierConfig) -> bool {
    &&& s.awaiting_tool_result
    &&& silence(s, now) > cfg.api_hang_after.nanos
    &&& s.latest_cpu_percent.less_than(ONE_BITS)
    &&& !is_recent(s.last_io_activity_at, now, cfg.io_inactive_after)
    &&& frozen_tokens(s, now, cfg.api_hang_after)
}

fn is_api_hang(state: &AgentState, now: Timestamp, quiet: Span, cfg: ClassifierConfig) -> (r: bool)
    requires
        quiet.nanos == silence(state@, now),
    ensures
        r == api_hang(state@, now, cfg),
{
    state.awaiting_tool_result && quiet.nanos > cfg.api_hang_after.nanos
        && state.latest_cpu_percent.below(ONE_BITS) && !has_recent_io_activity(
        state,
        now,
        cfg.io_inactive_after,
    ) && tokens_are_frozen(state, now, cfg.api_hang_after)
}

/// How close a guard is to a path: the leading components that they share, and
/// the number of the guard's components.
pub open spec fn guard_closeness(path: Seq<char>, guard: Seq<char>) -> (nat, nat) {
    (shared_len(parts(path), parts(guard)), parts(guard).len())
}

/// Whether a closeness is at least another one.
pub open spec fn at_least_as_close(a: (nat, nat), b: (nat, nat)) -> bool {
    a.0 > b.0 || (a.0 == b.0 && a.1 >= b.1)
}

/// The guard closest to a path; the last one of several equally close ones.
pub open spec fn closest_guard(path: Seq<char>, guards: Seq<String>) -> Option<String>
    decreases guards.len(),
{
    if guards.len() == 0 {
        None
    } else {
        match closest_guard(path, guards.drop_last()) {
            Some(best) => if at_least_as_close(
                guard_closeness(path, guards.last()@),
                guard_closeness(path, best@),
            ) {
                Some(guards.last())
            } else {
                Some(best)
            },
            None => Some(guards.last()),
        }
    }
}

/// The guard that a path outside all guards belongs to.
pub open spec fn violated_guard(path: Seq<char>, guards: Seq<String>) -> Option<String> {
    if within_any(path, guards) {
        None
    } else {
        closest_guard(path, guards)
    }
}

/// Finds the guard that a path outside all guards belongs to.
pub fn matching_guard_path(path: &str, guard_paths: &Vec<String>) -> (r: Option<String>)
    ensures
        r == violated_guard(path@, guard_paths@),
{
    if path_within_any(path, guard_paths) {
        return None;
    }
    if guard_paths.len() == 0 {
        return None;
    }
    let list = components(path);
    let ghost all = guard_paths@;
    let first = components(guard_paths[0].as_str());
    let mut best: usize = 0;
    let mut best_shared: usize = shared_components(&list, &first);
    let mut best_count: usize = first.len();
    let mut i: usize = 1;
    proof {
        assert(views(first@).len() == first@.len());
        assert(all.take(1).drop_last() =~= seq![]);
        assert(closest_guard(path@, all.take(1).drop_last()) is None);
        assert(all.take(1).last() == all[0]);
    }
    while i < guard_paths.len()
        invariant
            1 <= i <= all.len(),
            all == guard_paths@,
            best < i,
            views(list@) == parts(path@),
            closest_guard(path@, all.take(i as int)) == Some(all[best as int]),
            guard_closeness(path@, all[best as int]@) == (best_shared as nat, best_count as nat),
        decreases all.len() - i,
    {
        let guard = components(guard_paths[i].as_str());
        let shared = shared_components(&list, &guard);
        let count: usize = guard.len();
        proof {
            assert(views(guard@).len() == guard@.len());
            assert(all.take(i + 1).drop_last() =~= all.take(i as int));
            assert(all.take(i + 1).last() == all[i as int]);
        }
        if shared > best_shared || (shared == best_shared && count >= best_count) {
            best = i;
            best_shared = shared;
            best_count = count;
        }
        i = i + 1;
    }
    assert(all.take(i as int) =~= all);
    Some(guard_paths[best].clone())
}

/// The latest write of a tool call outside all guards, with the guard that it
/// belongs to.
pub open spec fn leaking_call(calls: Seq<ToolCall>, guards: Seq<String>) -> Option<(String, String)>
    decreases calls.len(),
{
    if calls.len() == 0 {
        None
    } else {
        let call = calls.last();
        if call.is_write && call.file_path is Some && violated_guard(
            call.file_path->0@,
            guards,
        ) is Some {
            Some((call.file_path->0, violated_guard(call.file_path->0@, guards)->0))
        } else {
            leaking_call(calls.drop_last(), guards)
        }
    }
}

/// The file that leaked out of the guarded scope, with the guard that it
/// belongs to.
pub open spec fn scope_leak(s: StateView) -> Option<(String, String)> {
    match s.latest_scope_violation {
        Some(file) => match violated_guard(file@, s.guard_paths) {
            Some(guard) => Some((file, guard)),
            None => if s.guard_paths.len() > 0 {
                Some((file, s.guard_paths[0]))
            } else {
                None
            },
        },
        None => leaking_call(s.recent_tool_calls, s.guard_paths),
    }
}

fn detect_scope_leak(state: &AgentState) -> (r: Option<(String, String)>)
    ensures
        r == scope_leak(state@),
{
    if let Some(file) = &state.latest_scope_violation {
        return match matching_guard_path(file.as_str(), &state.guard_paths) {
            Some(guard) => Some((file.clone(), guard)),
            None => if state.guard_paths.len() > 0 {
                Some((file.clone(), state.guard_paths[0].clone()))
            } else {
                None
            },
        };
    }
    let ghost calls = state.recent_tool_calls@;
    let mut end: usize = state.recent_tool_calls.len();
    assert(calls.take(end as int) =~= calls);
    while end > 0
        invariant
            end <= calls.len(),
            calls == state.recent_tool_calls@,
            state@.latest_scope_violation is None,
            leaking_call(calls, state.guard_paths@) == leaking_call(
                calls.take(end as int),
                state.guard_paths@,
            ),
        decreases end,
    {
        let call = &state.recent_tool_calls[end - 1];
        assert(calls.take(end as int).last() == *call);
        assert(calls.take(end as int).drop_last() =~= calls.take(end - 1));
        if call.is_write {
            if let Some(file) = &call.file_path {
                if let Some(guard) = matching_guard_path(file.as_str(), &state.guard_paths) {
                    return Some((file.clone(), guard));
                }
            }
        }
        end = end - 1;
    }
    None
}

/// The task of an identifier.
pub open spec fn task_with_id(files: Seq<TaskView>, id: Seq<char>) -> Option<TaskView>
    decreases files.len(),
{
    if files.len() == 0 {
        None
    } else if files[0].id == id {
        Some(files[0])
    } else {
        task_with_id(files.drop_first(), id)
    }
}

/// Whether a task still blocks others: it is not known to be completed.
pub open spec fn still_blocks(files: Seq<TaskView>, id: Seq<char>) -> bool {
    match task_with_id(files, id) {
        Some(task) => task.status != "completed"@,
        None => true,
    }
}

/// The identifiers that still block.
pub open spec fn blocking_ids(ids: Seq<Seq<char>>, files: Seq<TaskView>) -> Seq<Seq<char>>
    decreases ids.len(),
{
    if ids.len() == 0 {
        seq![]
    } else {
        let rest = blocking_ids(ids.drop_last(), files);
        if still_blocks(files, ids.last()) {
            rest.push(ids.last())
        } else {
            rest
        }
    }
}

/// The unresolved blockers of a task that is in progress.
pub open spec fn blockers(task: TaskView, files: Seq<TaskView>) -> Seq<Seq<char>> {
    if task.status != "in_progress"@ {
        seq![]
    } else {
        blocking_ids(task.blocked_by, files)
    }
}

fn blocks(files: &Vec<TaskFile>, id: &str) -> (r: bool)
    ensures
        r == still_blocks(task_views(files@), id@),
{
    let ghost all = task_views(files@);
    let mut i: usize = 0;
    assert(all.skip(0) =~= all);
    while i < files.len()
        invariant
            i <= files@.len(),
            all == task_views(files@),
            task_with_id(all, id@) == task_with_id(all.skip(i as int), id@),
        decreases files@.len() - i,
    {
        assert(all.skip(i as int)[0] == files@[i as int]@);
        if same_text(files[i].id.as_str(), id) {
            return !same_text(files[i].status.as_str(), "completed");
        }
        assert(all.skip(i as int).drop_first() =~= all.skip(i + 1));
        i = i + 1;
    }
    true
}

fn unresolved_blockers(task: &TaskFile, state: &AgentState) -> (r: Vec<String>)
    ensures
        views(r@) == blockers(task@, state@.task_files),
{
    let mut out: Vec<String> = Vec::new();
    assert(views(out@) =~= seq![]);
    if !same_text(task.status.as_str(), "in_progress") {
        return out;
    }
    let ghost ids = views(task.blocked_by@);
    let mut i: usize = 0;
    assert(ids.take(0) =~= seq![]);
    while i < task.blocked_by.len()
        invariant
            i <= task.blocked_by@.len(),
            ids == views(task.blocked_by@),
            views(out@) == blocking_ids(ids.take(i as int), state@.task_files),
        decreases task.blocked_by@.len() - i,
    {
        assert(ids.take(i + 1).drop_last() =~= ids.take(i as int));
        assert(ids.take(i + 1).last() == task.blocked_by@[i as int]@);
        if blocks(&state.task_files, task.blocked_by[i].as_str()) {
            let id = task.blocked_by[i].clone();
            proof {
                lemma_views_push(out@, id);
            }
            out.push(id);
        }
        i = i + 1;
    }
    assert(ids.take(i as int) =~= ids);
    out
}

/// The current task and what blocks it, where something does.
pub open spec fn blocked_task(s: StateView) -> Option<(Seq<char>, Seq<Seq<char>>)> {
    match s.current_task {
        Some(task) => if blockers(task, s.task_files).len() > 0 {
            Some((task.id, blockers(task, s.task_files)))
        } else {
            None
        },
        None => None,
    }
}

fn detect_task_blocked(state: &AgentState) -> (r: Option<(String, Vec<String>)>)
    ensures
        match r {
            Some((id, blocked_by)) => blocked_task(state@) == Some((id@, views(blocked_by@))),
            None => blocked_task(state@) is None,
        },
{
    match &state.current_task {
        Some(task) => {
            let unresolved = unresolved_blockers(task, state);
            assert(views(unresolved@).len() == unresolved@.len());
            if unresolved.len() > 0 {
                Some((task.id.clone(), unresolved))
            } else {
                None
            }
        },
        None => None,
    }
}

/// The earliest write of a file among calls.
pub open spec fn earliest_write(calls: Seq<ToolCall>, file: Seq<char>) -> Option<Timestamp>
    decreases calls.len(),
{
    if calls.len() == 0 {
        None
    } else {
        let rest = earliest_write(calls.drop_last(), file);
        let call = calls.last();
        if call.is_write && call.file_path is Some && same_path(call.file_path->0@, file) {
            match rest {
                Some(t) => if t.is_after(call.timestamp) {
                    Some(call.timestamp)
                } else {
                    Some(t)
                },
                None => Some(call.timestamp),
            }
        } else {
            rest
        }
    }
}

/// When the loop on a file began, as far as the tool calls tell.
pub open spec fn loop_start(s: StateView, file: Seq<char>) -> Option<Timestamp> {
    first_of(s.loop_started_at, earliest_write(s.recent_tool_calls, file))
}

fn find_loop_started_at(state: &AgentState, file: &str) -> (r: Option<Timestamp>)
    ensures
        r == loop_start(state@, file@),
{
    let ghost calls = state.recent_tool_calls@;
    let mut earliest: Option<Timestamp> = None;
    let mut i: usize = 0;
    assert(calls.take(0) =~= seq![]);
    while i < state.recent_tool_calls.len()
        invariant
            i <= calls.len(),
            calls == state.recent_tool_calls@,
            earliest == earliest_write(calls.take(i as int), file@),
        decreases calls.len() - i,
    {
        let call = &state.recent_tool_calls[i];
        assert(calls.take(i + 1).drop_last() =~= calls.take(i as int));
        assert(calls.take(i + 1).last() == *call);
        let same = match &call.file_path {
            Some(path) => paths_equal(path.as_str(), file),
            None => false,
        };
        if call.is_write && same {
            earliest = match earliest {
                Some(t) => if t.after(call.timestamp) {
                    Some(call.timestamp)
                } else {
                    Some(t)
                },
                None => Some(call.timestamp),
            };
        }
        i = i + 1;
    }
    assert(calls.take(i as int) =~= calls);
    either(state.loop_started_at, earliest)
}

/// A time, or another one where it is missing.
pub open spec fn time_or(t: Option<Timestamp>, other: Timestamp) -> Timestamp {
    match t {
        Some(x) => x,
        None => other,
    }
}

/// The tool loop that a session is in, if any. Writes that the watcher
/// observed decide where there are any; otherwise the tool calls do.
pub open spec fn tool_loop(
    s: StateView,
    now: Timestamp,
    cfg: ClassifierConfig,
) -> Option<PhaseView> {
    if any_fresh(s.recent_file_writes, now) {
        match s.last_loop_file_path {
            Some(file) => {
                let writes = writes_of(s.recent_file_writes, file@);
                let count = fresh_count(writes, now) as u32;
                if count >= cfg.tool_loop_rewrites {
                    Some(
                        PhaseView::ToolLoop {
                            file: file@,
                            count,
                            since: time_or(
                                first_of(
                                    first_of(first_fresh(writes, now), loop_start(s, file@)),
                                    s.last_event_at,
                                ),
                                now,
                            ),
                        },
                    )
                } else {
                    None
                }
            },
            None => None,
        }
    } else {
        match most_rewritten(s.recent_tool_calls) {
            Some(best) => if best.count >= cfg.tool_loop_rewrites {
                Some(
                    PhaseView::ToolLoop {
                        file: best.path@,
                        count: best.count as u32,
                        since: time_or(
                            first_of(loop_start(s, best.path@), s.last_event_at),
                            now,
                        ),
                    },
                )
            } else {
                None
            },
            None => None,
        }
    }
}

fn detect_tool_loop(
    state: &AgentState,
    now: Timestamp,
    file_rewrites: u32,
    most_written_file: &Option<String>,
    cfg: ClassifierConfig,
) -> (r: Option<AgentPhase>)
    requires
        match most_rewritten(state@.recent_tool_calls) {
            Some(best) => file_rewrites == best.count && *most_written_file == Some(best.path),
            None => file_rewrites == 0 && *most_written_file is None,
        },
    ensures
        match r {
            Some(phase) => tool_loop(state@, now, cfg) == Some(phase@),
            None => tool_loop(state@, now, cfg) is None,
        },
{
    if state.has_recent_file_writes_at(now) {
        if let Some(file) = &state.last_loop_file_path {
            let count = state.recent_file_write_count_at(file.as_str(), now);
            if count >= cfg.tool_loop_rewrites {
                let started = state.recent_file_write_started_before(file.as_str(), now);
                let start = either(
                    either(started, find_loop_started_at(state, file.as_str())),
                    state.last_event_at,
                );
                let since = match start {
                    Some(t) => t,
                    None => now,
                };
                return Some(AgentPhase::ToolLoop { file: file.clone(), count, since });
            }
        }
        return None;
    }
    if file_rewrites >= cfg.tool_loop_rewrites {
        if let Some(file) = most_written_file {
            let start = either(find_loop_started_at(state, file.as_str()), state.last_event_at);
            let since = match start {
                Some(t) => t,
                None => now,
            };
            return Some(
                AgentPhase::ToolLoop { file: file.clone(), count: file_rewrites, since },
            );
        }
    }
    None
}

/// The larger of two numbers.
pub open spec fn larger(a: int, b: int) -> int {
    if a >= b {
        a
    } else {
        b
    }
}

/// How many test runs failed in a row.
pub open spec fn test_failures(s: StateView) -> int {
    larger(
        s.consecutive_test_failures as int,
        trailing_failures(scored_calls(s.recent_tool_calls)) as int,
    )
}

/// The phase of a session by silence alone.
pub open spec fn silence_phase(s: StateView, now: Timestamp, cfg: ClassifierConfig) -> PhaseView {
    let quiet = silence(s, now);
    if quiet > cfg.idle_after.nanos {
        PhaseView::Idle(Span { nanos: quiet as u128 })
    } else if quiet > cfg.thinking_after.nanos {
        PhaseView::Thinking
    } else {
        PhaseView::Working
    }
}

/// The phase of a session at a time.
pub open spec fn classified(
    s: StateView,
    now: Timestamp,
    cfg: ClassifierConfig,
) -> PhaseView {
    if dead(s, now, cfg) {
        PhaseView::Dead
    } else if scope_leak(s) is Some {
        PhaseView::ScopeLeaking {
            violating_file: (scope_leak(s)->0).0@,
            guard_path: (scope_leak(s)->0).1@,
        }
    } else if s.last_event_was_compact {
        PhaseView::ContextReset
    } else if tool_loop(s, now, cfg) is Some {
        tool_loop(s, now, cfg)->0
    } else if test_failures(s) >= cfg.test_loop_failures && s.last_test_command is Some {
        PhaseView::TestLoop {
            command: s.last_test_command->0@,
            failure_count: test_failures(s) as u32,
        }
    } else if blocked_task(s) is Some {
        PhaseView::TaskBlocked {
            task_id: (blocked_task(s)->0).0,
            blocked_by: (blocked_task(s)->0).1,
        }
    } else if api_hang(s, now, cfg) {
        PhaseView::ApiHang(Span { nanos: silence(s, now) as u128 })
    } else {
        silence_phase(s, now, cfg)
    }
}

/// Classifies a session at a time.
pub fn classify(
    state: &AgentState,
    now: Timestamp,
    cfg: ClassifierConfig,
) -> (r: AgentPhase)
    requires
        state@.recent_tool_calls.len() <= u32::MAX,
    ensures
        r@ == classified(state@, now, cfg),
{
    if is_dead(state, now, cfg) {
        return AgentPhase::Dead;
    }
    if let Some((violating_file, guard_path)) = detect_scope_leak(state) {
        return AgentPhase::ScopeLeaking { violating_file, guard_path };
    }
    if state.last_event_was_compact {
        return AgentPhase::ContextReset;
    }
    let score = compute_loop_score(&state.recent_tool_calls);
    if let Some(phase) = detect_tool_loop(
        state,
        now,
        score.file_rewrites,
        &score.most_written_file,
        cfg,
    ) {
        return phase;
    }
    let failure_count: u32 = if state.consecutive_test_failures
        >= score.consecutive_test_failures {
        state.consecutive_test_failures
    } else {
        score.consecutive_test_failures
    };
    if failure_count >= cfg.test_loop_failures {
        if let Some(command) = &state.last_test_command {
            return AgentPhase::TestLoop { command: command.clone(), failure_count };
        }
    }
    if let Some((task_id, blocked_by)) = detect_task_blocked(state) {
        return AgentPhase::TaskBlocked { task_id, blocked_by };
    }
    let quiet = compute_silence(state, now);
    if is_api_hang(state, now, quiet, cfg) {
        return AgentPhase::ApiHang(quiet);
    }
    if quiet.nanos > cfg.idle_after.nanos {
        return AgentPhase::Idle(quiet);
    }
    if quiet.nanos > cfg.thinking_after.nanos {
        return AgentPhase::Thinking;
    }
    AgentPhase::Working
}

} // verus!
