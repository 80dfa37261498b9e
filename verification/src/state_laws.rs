//! Laws of the session state: what each event changes and what it leaves alone.

use crate::clock::Timestamp;
use crate::paths::{same_path, within_any};
use crate::state::{
    applied, file_change, has_path, initial_state, is_stale, lemma_result_position, pruned,
    result_position, unstale, with_pruned_writes, FileWrite, HistoryView, StateView,
};
use crate::text::lowercase;
use crate::types::{
    AgentEvent, FileChangeKind, FileModification, ProcessMetrics, TokenActivity, ToolCall,
};
use vstd::prelude::*;

verus! {

/// A history of writes is forgotten from its oldest write on, up to the first one that is
/// not stale.
pub proof fn stale_writes_are_forgotten_first(writes: Seq<FileWrite>, now: Timestamp)
    ensures
        unstale(writes, now).len() <= writes.len(),
        unstale(writes, now) == writes.skip(writes.len() - unstale(writes, now).len()),
        forall|i: int|
            0 <= i < writes.len() - unstale(writes, now).len() ==> is_stale(
                #[trigger] writes[i],
                now,
            ),
        unstale(writes, now).len() > 0 ==> !is_stale(unstale(writes, now)[0], now),
    decreases writes.len(),
{
    if writes.len() > 0 && is_stale(writes[0], now) {
        let rest = writes.drop_first();
        stale_writes_are_forgotten_first(rest, now);
        let k = writes.len() - unstale(writes, now).len();
        assert(rest.skip(k - 1) =~= writes.skip(k));
        assert forall|i: int| 0 <= i < k implies is_stale(#[trigger] writes[i], now) by {
            if i > 0 {
                assert(rest[i - 1] == writes[i]);
            }
        }
    } else {
        assert(writes.skip(0) =~= writes);
    }
}

/// The file of a loop is forgotten with its history: where all writes of the file are
/// stale. Every history that is kept holds a write.
pub proof fn stale_files_leave_the_loop(s: StateView, now: Timestamp)
    ensures
        ({
            let t = with_pruned_writes(s, now);
            &&& s.last_loop_file_path is None ==> t.last_loop_file_path is None
            &&& s.last_loop_file_path is Some ==> t.last_loop_file_path is None
                || t.last_loop_file_path == s.last_loop_file_path
            &&& s.last_loop_file_path is Some ==> (t.last_loop_file_path is None <==> exists|i: int|
                0 <= i < s.recent_file_writes.len() && same_path(
                    (#[trigger] s.recent_file_writes[i]).path@,
                    s.last_loop_file_path->0@,
                ) && forall|k: int|
                    0 <= k < s.recent_file_writes[i].writes.len() ==> is_stale(
                        #[trigger] s.recent_file_writes[i].writes[k],
                        now,
                    ))
            &&& forall|i: int|
                0 <= i < t.recent_file_writes.len() ==> (
                #[trigger] t.recent_file_writes[i]).writes.len() > 0
            &&& t.loop_started_at == s.loop_started_at
            &&& t.recent_tool_calls == s.recent_tool_calls
        }),
{
    let h = s.recent_file_writes;
    assert forall|i: int| 0 <= i < h.len() implies ((forall|k: int|
        0 <= k < h[i].writes.len() ==> is_stale(#[trigger] h[i].writes[k], now)) <==> unstale(
        (#[trigger] h[i]).writes,
        now,
    ).len() == 0) by {
        let w = h[i].writes;
        stale_writes_are_forgotten_first(w, now);
        let n = w.len() - unstale(w, now).len();
        if unstale(w, now).len() > 0 {
            assert(w[n] == w.skip(n)[0]);
        }
    }
    lemma_kept_histories(h, now);
}

proof fn lemma_kept_histories(histories: Seq<HistoryView>, now: Timestamp)
    ensures
        forall|i: int|
            0 <= i < pruned(histories, now).len() ==> (
            #[trigger] pruned(histories, now)[i]).writes.len() > 0,
    decreases histories.len(),
{
    if histories.len() > 0 {
        lemma_kept_histories(histories.drop_last(), now);
        let rest = pruned(histories.drop_last(), now);
        assert forall|i: int| 0 <= i < pruned(histories, now).len() implies (
        #[trigger] pruned(histories, now)[i]).writes.len() > 0 by {
            if i < rest.len() {
                assert(pruned(histories, now)[i] == rest[i]);
            }
        }
    }
}

/// Whether two states agree on what was done to files and on the scope.
pub open spec fn same_files(s: StateView, t: StateView) -> bool {
    &&& t.touched_files == s.touched_files
    &&& t.recently_modified_files == s.recently_modified_files
    &&& t.recent_file_writes == s.recent_file_writes
    &&& t.last_loop_file_path == s.last_loop_file_path
    &&& t.loop_started_at == s.loop_started_at
    &&& t.scope_violation_count == s.scope_violation_count
    &&& t.latest_scope_violation == s.latest_scope_violation
    &&& t.last_file_event_at == s.last_file_event_at
}

/// Whether two states agree on what is known of the process.
pub open spec fn same_process(s: StateView, t: StateView) -> bool {
    &&& t.process_alive == s.process_alive
    &&& t.latest_cpu_percent == s.latest_cpu_percent
    &&& t.latest_rss_bytes == s.latest_rss_bytes
    &&& t.latest_virtual_bytes == s.latest_virtual_bytes
    &&& t.latest_io_read_bytes == s.latest_io_read_bytes
    &&& t.latest_io_write_bytes == s.latest_io_write_bytes
    &&& t.latest_io_read_rate == s.latest_io_read_rate
    &&& t.latest_io_write_rate == s.latest_io_write_rate
    &&& t.last_io_activity_at == s.last_io_activity_at
    &&& t.last_memory_activity_at == s.last_memory_activity_at
    &&& t.last_process_metrics_at == s.last_process_metrics_at
}

/// Whether two states agree on the tool calls and the test runs.
pub open spec fn same_calls(s: StateView, t: StateView) -> bool {
    &&& t.recent_tool_calls == s.recent_tool_calls
    &&& t.total_tool_calls == s.total_tool_calls
    &&& t.last_tool_call_at == s.last_tool_call_at
    &&& t.last_tool_result_at == s.last_tool_result_at
    &&& t.last_tool_name == s.last_tool_name
    &&& t.last_command == s.last_command
    &&& t.consecutive_test_failures == s.consecutive_test_failures
    &&& t.last_test_command == s.last_test_command
    &&& t.last_test_file == s.last_test_file
}

/// Whether two states agree on the token counts.
pub open spec fn same_tokens(s: StateView, t: StateView) -> bool {
    &&& t.total_input_tokens == s.total_input_tokens
    &&& t.total_output_tokens == s.total_output_tokens
    &&& t.last_token_activity_at == s.last_token_activity_at
}

/// Whether two states agree on the settings and the surroundings of the session.
pub open spec fn same_setting(s: StateView, t: StateView) -> bool {
    &&& t.guard_paths == s.guard_paths
    &&& t.session_jsonl_path == s.session_jsonl_path
    &&& t.task_list_id == s.task_list_id
    &&& t.task_files == s.task_files
    &&& t.task_files_signature == s.task_files_signature
    &&& t.current_task == s.current_task
    &&& t.last_hook_event_at == s.last_hook_event_at
    &&& t.phase == s.phase
}

/// No event changes the guards, the tasks or the phase of a session.
pub proof fn events_keep_the_setting(s: StateView, event: AgentEvent)
    ensures
        same_setting(s, applied(s, event)),
{
    if let AgentEvent::ToolResult { tool_name, is_sidechain, .. } = event {
        lemma_result_position(s.recent_tool_calls, tool_name, is_sidechain);
    }
}

/// Whether an event is a record of the session log, and whether it comes from a sidechain.
pub open spec fn record_side(event: AgentEvent) -> Option<bool> {
    match event {
        AgentEvent::SessionStart { .. } => Some(false),
        AgentEvent::UserMessage { is_sidechain, .. } => Some(is_sidechain),
        AgentEvent::ToolCall(call) => Some(call.is_sidechain),
        AgentEvent::ToolResult { is_sidechain, .. } => Some(is_sidechain),
        AgentEvent::TokenActivity(activity) => Some(activity.is_sidechain),
        AgentEvent::CompactBoundary { is_sidechain, .. } => Some(is_sidechain),
        AgentEvent::FileModified(_) => None,
        AgentEvent::ProcessMetrics(_) => None,
    }
}

/// A record of the main session is the last event and the last record of the main session.
/// A record of a sidechain is the last one of the sidechains and counts one more of them,
/// leaves the time of the main session alone and never takes back that of the last event.
/// Other events are no records, and a process sample is no activity at all.
pub proof fn records_are_noted(s: StateView, event: AgentEvent)
    ensures
        ({
            let t = applied(s, event);
            let at = event.time();
            match record_side(event) {
                Some(false) => {
                    &&& t.last_jsonl_record_at == Some(at)
                    &&& t.last_main_jsonl_record_at == Some(at)
                    &&& t.last_event_at == Some(at)
                    &&& t.last_sidechain_jsonl_record_at == s.last_sidechain_jsonl_record_at
                    &&& event is SessionStart ==> t.subagent_count == 0
                    &&& !(event is SessionStart) ==> t.subagent_count == s.subagent_count
                },
                Some(true) => {
                    &&& t.last_jsonl_record_at == Some(at)
                    &&& t.last_sidechain_jsonl_record_at == Some(at)
                    &&& t.last_main_jsonl_record_at == s.last_main_jsonl_record_at
                    &&& s.subagent_count < u32::MAX ==> t.subagent_count == s.subagent_count + 1
                    &&& s.last_event_at is None || at.is_after(s.last_event_at->0)
                        ==> t.last_event_at == Some(at)
                    &&& s.last_event_at is Some && !at.is_after(s.last_event_at->0)
                        ==> t.last_event_at == s.last_event_at
                },
                None => {
                    &&& t.last_jsonl_record_at == s.last_jsonl_record_at
                    &&& t.last_main_jsonl_record_at == s.last_main_jsonl_record_at
                    &&& t.last_sidechain_jsonl_record_at == s.last_sidechain_jsonl_record_at
                    &&& t.subagent_count == s.subagent_count
                    &&& event is FileModified ==> t.last_event_at == Some(at)
                    &&& event is ProcessMetrics ==> t.last_event_at == s.last_event_at
                },
            }
        }),
{
    if let AgentEvent::ToolResult { tool_name, is_sidechain, .. } = event {
        lemma_result_position(s.recent_tool_calls, tool_name, is_sidechain);
    }
}

/// A session start names the session and its time, ends any wait and any context reset,
/// and forgets test failures. What was counted and touched before stays.
pub proof fn session_starts_are_noted(s: StateView, timestamp: Timestamp, session_id: String)
    ensures
        ({
            let t = applied(s, AgentEvent::SessionStart { timestamp, session_id });
            &&& t.session_id == Some(session_id)
            &&& t.session_started_at == Some(timestamp)
            &&& !t.last_event_was_compact
            &&& !t.awaiting_tool_result
            &&& t.consecutive_test_failures == 0
            &&& t.last_test_command is None
            &&& t.last_test_file is None
            &&& t.recent_tool_calls == s.recent_tool_calls
            &&& t.total_tool_calls == s.total_tool_calls
            &&& t.compact_count == s.compact_count
            &&& same_files(s, t)
            &&& same_process(s, t)
            &&& same_tokens(s, t)
        }),
{
}

/// Only a session start names the session.
pub proof fn only_session_starts_name_the_session(s: StateView, event: AgentEvent)
    requires
        !(event is SessionStart),
    ensures
        applied(s, event).session_id == s.session_id,
        applied(s, event).session_started_at == s.session_started_at,
{
    match event {
        AgentEvent::ToolCall(call) => {
            tool_calls_are_noted(s, call);
        },
        AgentEvent::ToolResult { tool_name, is_sidechain, .. } => {
            lemma_result_position(s.recent_tool_calls, tool_name, is_sidechain);
        },
        AgentEvent::FileModified(file) => {
            file_events_are_noted(s, file);
        },
        _ => {},
    }
}

/// A user message is activity and nothing else.
pub proof fn user_messages_are_activity(s: StateView, timestamp: Timestamp, is_sidechain: bool)
    ensures
        ({
            let t = applied(s, AgentEvent::UserMessage { timestamp, is_sidechain });
            &&& same_files(s, t)
            &&& same_process(s, t)
            &&& same_tokens(s, t)
            &&& same_calls(s, t)
            &&& t.last_file_path == s.last_file_path
            &&& t.awaiting_tool_result == s.awaiting_tool_result
            &&& t.last_event_was_compact == s.last_event_was_compact
            &&& t.compact_count == s.compact_count
            &&& t.last_compact_at == s.last_compact_at
        }),
{
}

/// Token activity adds to the totals, as far as they can grow, and is activity; it changes
/// nothing else.
pub proof fn token_counts_are_added_up(s: StateView, activity: TokenActivity)
    ensures
        ({
            let t = applied(s, AgentEvent::TokenActivity(activity));
            &&& s.total_input_tokens + activity.input_tokens <= u64::MAX ==> t.total_input_tokens
                == s.total_input_tokens + activity.input_tokens
            &&& s.total_input_tokens + activity.input_tokens > u64::MAX ==> t.total_input_tokens
                == u64::MAX
            &&& s.total_output_tokens + activity.output_tokens <= u64::MAX
                ==> t.total_output_tokens == s.total_output_tokens + activity.output_tokens
            &&& s.total_output_tokens + activity.output_tokens > u64::MAX
                ==> t.total_output_tokens == u64::MAX
            &&& t.last_token_activity_at == Some(activity.timestamp)
            &&& same_files(s, t)
            &&& same_process(s, t)
            &&& same_calls(s, t)
            &&& t.last_file_path == s.last_file_path
            &&& t.awaiting_tool_result == s.awaiting_tool_result
            &&& t.last_event_was_compact == s.last_event_was_compact
            &&& t.compact_count == s.compact_count
        }),
{
}

/// Only token activity counts tokens.
pub proof fn only_token_activity_counts_tokens(s: StateView, event: AgentEvent)
    requires
        !(event is TokenActivity),
    ensures
        same_tokens(s, applied(s, event)),
{
}

/// A process sample is taken over as it is. Memory was active where either size changed,
/// and I/O where one of the rates is above zero. Nothing else changes.
pub proof fn process_samples_are_taken_over(s: StateView, m: ProcessMetrics)
    ensures
        ({
            let t = applied(s, AgentEvent::ProcessMetrics(m));
            &&& t.process_alive == m.process_alive
            &&& t.latest_cpu_percent == m.cpu_percent
            &&& t.latest_rss_bytes == m.rss_bytes
            &&& t.latest_virtual_bytes == m.virtual_bytes
            &&& t.latest_io_read_bytes == m.io_read_bytes
            &&& t.latest_io_write_bytes == m.io_write_bytes
            &&& t.latest_io_read_rate == m.io_read_rate
            &&& t.latest_io_write_rate == m.io_write_rate
            &&& t.last_process_metrics_at == Some(m.timestamp)
            &&& m.rss_bytes != s.latest_rss_bytes || m.virtual_bytes != s.latest_virtual_bytes
                ==> t.last_memory_activity_at == Some(m.timestamp)
            &&& m.rss_bytes == s.latest_rss_bytes && m.virtual_bytes == s.latest_virtual_bytes
                ==> t.last_memory_activity_at == s.last_memory_activity_at
            &&& 0 < m.io_read_rate.bits <= 0x7f80_0000 || 0 < m.io_write_rate.bits <= 0x7f80_0000
                ==> t.last_io_activity_at == Some(m.timestamp)
            &&& !(0 < m.io_read_rate.bits <= 0x7f80_0000) && !(0 < m.io_write_rate.bits
                <= 0x7f80_0000) ==> t.last_io_activity_at == s.last_io_activity_at
            &&& same_files(s, t)
            &&& same_tokens(s, t)
            &&& same_calls(s, t)
            &&& t.last_file_path == s.last_file_path
            &&& t.awaiting_tool_result == s.awaiting_tool_result
            &&& t.last_event_was_compact == s.last_event_was_compact
        }),
{
}

/// Only process samples tell of the process.
pub proof fn only_samples_tell_of_the_process(s: StateView, event: AgentEvent)
    requires
        !(event is ProcessMetrics),
    ensures
        same_process(s, applied(s, event)),
{
}

/// A compact boundary of the main session counts one more reset, resets the context, ends
/// any wait and forgets test failures. One of a sidechain leaves only its time.
pub proof fn compact_boundaries_are_noted(s: StateView, timestamp: Timestamp, is_sidechain: bool)
    ensures
        ({
            let t = applied(s, AgentEvent::CompactBoundary { timestamp, is_sidechain });
            &&& t.last_compact_at == Some(timestamp)
            &&& same_files(s, t)
            &&& same_process(s, t)
            &&& same_tokens(s, t)
            &&& t.recent_tool_calls == s.recent_tool_calls
            &&& t.total_tool_calls == s.total_tool_calls
            &&& !is_sidechain ==> t.last_event_was_compact && !t.awaiting_tool_result
                && t.consecutive_test_failures == 0 && t.last_test_command is None
                && t.last_test_file is None && (s.compact_count < u64::MAX ==> t.compact_count
                == s.compact_count + 1)
            &&& is_sidechain ==> t.last_event_was_compact == s.last_event_was_compact
                && t.awaiting_tool_result == s.awaiting_tool_result && same_calls(s, t)
                && t.compact_count == s.compact_count
        }),
{
}

/// Only compact boundaries count resets.
pub proof fn only_compact_boundaries_count_resets(s: StateView, event: AgentEvent)
    requires
        !(event is CompactBoundary),
    ensures
        applied(s, event).compact_count == s.compact_count,
        applied(s, event).last_compact_at == s.last_compact_at,
{
    match event {
        AgentEvent::ToolCall(call) => {
            tool_calls_are_noted(s, call);
        },
        AgentEvent::ToolResult { tool_name, is_sidechain, .. } => {
            lemma_result_position(s.recent_tool_calls, tool_name, is_sidechain);
        },
        AgentEvent::FileModified(file) => {
            file_events_are_noted(s, file);
        },
        _ => {},
    }
}

/// A tool call is counted, remembered as the last one, and becomes the last of the recent
/// calls, of which fifty are kept. The main session waits for its result and its context is
/// no longer reset; a sidechain changes neither.
pub proof fn tool_calls_are_noted(s: StateView, call: ToolCall)
    ensures
        ({
            let t = applied(s, AgentEvent::ToolCall(call));
            let n = s.recent_tool_calls.len() as int;
            &&& t.last_tool_call_at == Some(call.timestamp)
            &&& t.last_tool_name == Some(call.tool_name)
            &&& t.last_file_path == call.file_path
            &&& t.last_command == call.command
            &&& t.last_tool_result_at == s.last_tool_result_at
            &&& s.total_tool_calls < u64::MAX ==> t.total_tool_calls == s.total_tool_calls + 1
            &&& n < 50 ==> t.recent_tool_calls == s.recent_tool_calls.push(call)
            &&& n >= 50 ==> t.recent_tool_calls == s.recent_tool_calls.skip(n - 49).push(call)
            &&& !call.is_sidechain ==> t.awaiting_tool_result && !t.last_event_was_compact
            &&& call.is_sidechain ==> t.awaiting_tool_result == s.awaiting_tool_result
                && t.last_event_was_compact == s.last_event_was_compact
                && t.consecutive_test_failures == s.consecutive_test_failures
                && t.last_test_command == s.last_test_command && t.last_test_file
                == s.last_test_file
            &&& t.recent_file_writes == s.recent_file_writes
            &&& t.last_loop_file_path == s.last_loop_file_path
            &&& t.loop_started_at == s.loop_started_at
            &&& t.last_file_event_at == s.last_file_event_at
        }),
{
    let longer = s.recent_tool_calls.push(call);
    let n = s.recent_tool_calls.len() as int;
    if n >= 50 {
        assert(longer.skip(longer.len() - 50) =~= s.recent_tool_calls.skip(n - 49).push(call));
    }
}

/// The kind of file activity of a call by its tool: `Read` reads, the editing tools modify,
/// and `Write` creates a file where its change is known to remove no lines and modifies one
/// otherwise. Other tools do nothing to files.
pub proof fn tools_act_on_files_by_name(call: ToolCall)
    ensures
        ({
            let name = lowercase(call.tool_name@);
            let creates = call.line_change is Some && call.line_change->0.removed == 0;
            &&& file_change(call) == Some(FileChangeKind::Read) <==> name == "read"@
            &&& file_change(call) == Some(FileChangeKind::Created) <==> name == "write"@ && creates
            &&& file_change(call) == Some(FileChangeKind::Modified) <==> name == "edit"@ || name
                == "multiedit"@ || name == "notebookedit"@ || (name == "write"@ && !creates)
            &&& file_change(call) != Some(FileChangeKind::Deleted)
        }),
{
    reveal_strlit("read");
    reveal_strlit("write");
    reveal_strlit("edit");
    reveal_strlit("multiedit");
    reveal_strlit("notebookedit");
    assert("read"@[0] != "edit"@[0]);
    assert("read"@.len() == 4 && "write"@.len() == 5 && "edit"@.len() == 4 && "multiedit"@.len()
        == 9 && "notebookedit"@.len() == 12);
}

/// The file of a call is listed with the kind of its activity, the last of at most twenty.
/// A written file is touched; a file that was touched is not listed twice.
pub proof fn files_of_calls_are_listed(s: StateView, call: ToolCall)
    ensures
        ({
            let t = applied(s, AgentEvent::ToolCall(call));
            let n = s.recently_modified_files.len() as int;
            let listed = call.file_path is Some && file_change(call) is Some;
            let entry = FileModification {
                timestamp: call.timestamp,
                path: call.file_path->0,
                kind: file_change(call)->0,
                line_change: call.line_change,
            };
            &&& !listed ==> t.recently_modified_files == s.recently_modified_files
                && t.touched_files == s.touched_files
            &&& listed && n < 20 ==> t.recently_modified_files == s.recently_modified_files.push(
                entry,
            )
            &&& listed && n >= 20 ==> t.recently_modified_files == s.recently_modified_files.skip(
                n - 19,
            ).push(entry)
            &&& !call.is_write ==> t.touched_files == s.touched_files
            &&& listed && call.is_write && has_path(s.touched_files, call.file_path->0@)
                ==> t.touched_files == s.touched_files
            &&& listed && call.is_write && !has_path(s.touched_files, call.file_path->0@)
                ==> t.touched_files == s.touched_files.push(call.file_path->0)
        }),
{
    let n = s.recently_modified_files.len() as int;
    if call.file_path is Some && file_change(call) is Some && n >= 20 {
        let entry = FileModification {
            timestamp: call.timestamp,
            path: call.file_path->0,
            kind: file_change(call)->0,
            line_change: call.line_change,
        };
        let longer = s.recently_modified_files.push(entry);
        assert(longer.skip(longer.len() - 20) =~= s.recently_modified_files.skip(n - 19).push(
            entry,
        ));
    }
}

/// A file event is the last one, names the last file, touches the file and is listed, the
/// last of at most twenty. Tool calls, tokens and the process do not change with it.
pub proof fn file_events_are_noted(s: StateView, event: FileModification)
    ensures
        ({
            let t = applied(s, AgentEvent::FileModified(event));
            let n = s.recently_modified_files.len() as int;
            &&& t.last_file_event_at == Some(event.timestamp)
            &&& t.last_file_path == Some(event.path)
            &&& n < 20 ==> t.recently_modified_files == s.recently_modified_files.push(event)
            &&& n >= 20 ==> t.recently_modified_files == s.recently_modified_files.skip(
                n - 19,
            ).push(event)
            &&& has_path(s.touched_files, event.path@) ==> t.touched_files == s.touched_files
            &&& !has_path(s.touched_files, event.path@) ==> t.touched_files
                == s.touched_files.push(event.path)
            &&& event.kind == FileChangeKind::Read || event.kind == FileChangeKind::Deleted
                ==> t.recent_file_writes == s.recent_file_writes && t.last_loop_file_path
                == s.last_loop_file_path && t.loop_started_at == s.loop_started_at
            &&& same_calls(s, t)
            &&& same_tokens(s, t)
            &&& t.awaiting_tool_result == s.awaiting_tool_result
            &&& t.last_event_was_compact == s.last_event_was_compact
        }),
{
    let n = s.recently_modified_files.len() as int;
    if n >= 20 {
        let longer = s.recently_modified_files.push(event);
        assert(longer.skip(longer.len() - 20) =~= s.recently_modified_files.skip(n - 19).push(
            event,
        ));
    }
}

/// A path is in a list where one of the list names the same path.
pub proof fn listed_paths_name_the_same_path(list: Seq<String>, path: Seq<char>)
    ensures
        has_path(list, path) <==> exists|i: int|
            0 <= i < list.len() && same_path(#[trigger] list[i]@, path),
{
}

/// A write outside all guards counts one more violation and is the latest one; it does so
/// whether a tool call or a file event reports it.
pub proof fn writes_outside_the_guards_are_counted(s: StateView, event: AgentEvent, path: String)
    requires
        event is ToolCall && event->ToolCall_0.is_write && event->ToolCall_0.file_path == Some(path)
            || event is FileModified && event->FileModified_0.path == path,
        s.guard_paths.len() > 0,
        !within_any(path@, s.guard_paths),
    ensures
        s.scope_violation_count < u32::MAX ==> applied(s, event).scope_violation_count
            == s.scope_violation_count + 1,
        applied(s, event).latest_scope_violation == Some(path),
{
}

/// A result ends the wait of the main session, or leaves it to the sidechain; it is the
/// last one and names its tool where it has a name.
pub proof fn results_are_noted(s: StateView, result: AgentEvent)
    requires
        result is ToolResult,
    ensures
        ({
            let t = applied(s, result);
            &&& t.last_tool_result_at == Some(result.time())
            &&& result->tool_name is Some ==> t.last_tool_name == result->tool_name
            &&& result->tool_name is None ==> t.last_tool_name == s.last_tool_name
            &&& result->ToolResult_is_sidechain ==> t.awaiting_tool_result
                == s.awaiting_tool_result
            &&& !result->ToolResult_is_sidechain ==> !t.awaiting_tool_result
            &&& t.total_tool_calls == s.total_tool_calls
            &&& t.last_tool_call_at == s.last_tool_call_at
            &&& t.last_file_path == s.last_file_path
            &&& t.last_event_was_compact == s.last_event_was_compact
            &&& same_files(s, t)
        }),
{
    lemma_result_position(
        s.recent_tool_calls,
        result->tool_name,
        result->ToolResult_is_sidechain,
    );
}

/// Whether a result can be that of a call: both are of the main session or both of a
/// sidechain, and the result's tool, where it has one, is that of the call.
pub open spec fn fits(result: AgentEvent, call: ToolCall) -> bool {
    call.is_sidechain == result->ToolResult_is_sidechain && (result->tool_name is Some
        ==> result->tool_name->0@ == call.tool_name@)
}

/// A result belongs to the last call that it fits: that call takes over its error flag, and
/// the others stay as they are. Without such a call the calls stay as they are.
pub proof fn results_belong_to_the_last_fitting_call(s: StateView, result: AgentEvent)
    requires
        result is ToolResult,
    ensures
        ({
            let t = applied(s, result);
            let calls = s.recent_tool_calls;
            &&& t.recent_tool_calls.len() == calls.len()
            &&& forall|i: int|
                #![trigger t.recent_tool_calls[i]]
                0 <= i < calls.len() ==> (if fits(result, calls[i]) && (forall|k: int|
                    i < k < calls.len() ==> !fits(result, #[trigger] calls[k])) {
                    t.recent_tool_calls[i] == (ToolCall {
                        is_error: result->ToolResult_is_error,
                        ..calls[i]
                    })
                } else {
                    t.recent_tool_calls[i] == calls[i]
                })
        }),
{
    let calls = s.recent_tool_calls;
    let at = result_position(calls, result->tool_name, result->ToolResult_is_sidechain);
    lemma_result_position(calls, result->tool_name, result->ToolResult_is_sidechain);
    lemma_last_fitting(calls, result);
    let t = applied(s, result);
    assert(at >= 0 ==> t.recent_tool_calls =~= calls.update(
        at,
        ToolCall { is_error: result->ToolResult_is_error, ..calls[at] },
    ));
    assert(at < 0 ==> t.recent_tool_calls == calls);
}

proof fn lemma_last_fitting(calls: Seq<ToolCall>, result: AgentEvent)
    requires
        result is ToolResult,
    ensures
        ({
            let at = result_position(calls, result->tool_name, result->ToolResult_is_sidechain);
            &&& -1 <= at < calls.len()
            &&& at >= 0 ==> fits(result, calls[at])
            &&& forall|k: int| at < k < calls.len() ==> !fits(result, #[trigger] calls[k])
        }),
    decreases calls.len(),
{
    if calls.len() > 0 {
        let head = calls.drop_last();
        assert(calls[calls.len() - 1] == calls.last());
        if !fits(result, calls.last()) {
            lemma_last_fitting(head, result);
            let at = result_position(head, result->tool_name, result->ToolResult_is_sidechain);
            if at >= 0 {
                assert(head[at] == calls[at]);
            }
            assert forall|k: int| at < k < calls.len() implies !fits(result, #[trigger] calls[k]) by {
                if k < head.len() {
                    assert(head[k] == calls[k]);
                }
            }
        }
    }
}

/// A call of the main session that writes the file of the test runs keeps the count of
/// failures; one that writes another file ends it.
pub proof fn writes_of_the_tested_file_keep_the_count(s: StateView, call: ToolCall)
    requires
        !call.is_sidechain,
        call.is_write,
        call.file_path is Some,
    ensures
        ({
            let t = applied(s, AgentEvent::ToolCall(call));
            let same = s.last_test_file is Some && same_path(
                s.last_test_file->0@,
                call.file_path->0@,
            );
            &&& same ==> t.consecutive_test_failures == s.consecutive_test_failures
                && t.last_test_command == s.last_test_command && t.last_test_file
                == s.last_test_file
            &&& !same ==> t.consecutive_test_failures == 0 && t.last_test_command is None
                && t.last_test_file is None
        }),
{
}

/// A new session has a live process, the phase of initializing, and nothing else.
pub proof fn new_sessions_are_initializing()
    ensures
        ({
            let s = initial_state();
            &&& s.phase is Initializing
            &&& s.process_alive
            &&& !s.awaiting_tool_result
            &&& !s.last_event_was_compact
            &&& s.last_event_at is None
            &&& s.last_jsonl_record_at is None
            &&& s.session_id is None
            &&& s.total_tool_calls == 0
            &&& s.total_input_tokens == 0
            &&& s.total_output_tokens == 0
            &&& s.compact_count == 0
            &&& s.consecutive_test_failures == 0
            &&& s.scope_violation_count == 0
            &&& s.recent_tool_calls.len() == 0
            &&& s.recently_modified_files.len() == 0
            &&& s.recent_file_writes.len() == 0
            &&& s.touched_files.len() == 0
            &&& s.guard_paths.len() == 0
            &&& s.task_files.len() == 0
            &&& s.current_task is None
        }),
{
}

/// A recorded write is stale once it lies more than five minutes back; one that lies in the
/// future is not.
pub proof fn writes_are_stale_after_five_minutes(at: Timestamp, now: Timestamp)
    ensures
        is_stale(FileWrite { timestamp: at }, now) <==> now.gap(at) > 300_000_000_000,
{
}

/// The time of an event is the one that it carries.
pub proof fn events_carry_their_time(
    at: Timestamp,
    call: ToolCall,
    activity: TokenActivity,
    m: ProcessMetrics,
    file: FileModification,
    session_id: String,
    side: bool,
)
    ensures
        (AgentEvent::SessionStart { timestamp: at, session_id }).time() == at,
        (AgentEvent::UserMessage { timestamp: at, is_sidechain: side }).time() == at,
        (AgentEvent::CompactBoundary { timestamp: at, is_sidechain: side }).time() == at,
        AgentEvent::ToolCall(call).time() == call.timestamp,
        AgentEvent::TokenActivity(activity).time() == activity.timestamp,
        AgentEvent::ProcessMetrics(m).time() == m.timestamp,
        AgentEvent::FileModified(file).time() == file.timestamp,
{
}

} // verus!
