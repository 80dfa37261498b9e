//! The observed state of a session and how events change it.

use crate::clock::{Span, Timestamp};
use crate::commands::{command_tokens, contains_sequence, has_sequence, slice_views, tokens};
use crate::paths::{path_within_any, paths_equal, same_path, within_any};
use crate::text::{blank, contains_text, has_text, is_blank, lowercase, same_text, to_lowercase};
use crate::types::{
    copy_texts, AgentEvent, AgentPhase, FileChangeKind, FileModification, FloatBits, PhaseView,
    ProcessMetrics, TaskFile, TaskView, ToolCall,
};
use std::collections::VecDeque;
use vstd::prelude::*;

verus! {

/// How many tool calls the state remembers.
pub const MAX_RECENT_TOOL_CALLS: usize = 50;

/// How many file modifications the state remembers.
pub const MAX_RECENTLY_MODIFIED_FILES: usize = 20;

/// How far back writes of a file count towards a tool loop, in nanoseconds.
pub const TOOL_LOOP_WINDOW_NANOS: u128 = 300_000_000_000;

/// One observed write of a file.
#[derive(Debug, Clone, Copy, PartialEq, Eq, Structural)]
pub struct FileWrite {
    /// The time of the write.
    pub timestamp: Timestamp,
}

/// The recent writes of one file, oldest first.
#[derive(Debug, PartialEq, Eq)]
pub struct FileHistory {
    pub path: String,
    pub writes: Vec<FileWrite>,
}

/// The value of a [`FileHistory`].
pub struct HistoryView {
    pub path: String,
    pub writes: Seq<FileWrite>,
}

impl View for FileHistory {
    type V = HistoryView;

    open spec fn view(&self) -> HistoryView {
        HistoryView { path: self.path, writes: self.writes@ }
    }
}

/// The values of a list of histories.
pub open spec fn history_views(list: Seq<FileHistory>) -> Seq<HistoryView> {
    list.map_values(|h: FileHistory| h@)
}

/// The values of a list of tasks.
pub open spec fn task_views(list: Seq<TaskFile>) -> Seq<TaskView> {
    list.map_values(|t: TaskFile| t@)
}

/// The value of a task that may be missing.
pub open spec fn task_view(task: Option<TaskFile>) -> Option<TaskView> {
    match task {
        Some(t) => Some(t@),
        None => None,
    }
}

fn copy_histories(list: &Vec<FileHistory>) -> (r: Vec<FileHistory>)
    ensures
        history_views(r@) == history_views(list@),
{
    let mut out: Vec<FileHistory> = Vec::new();
    let mut i: usize = 0;
    while i < list.len()
        invariant
            i <= list@.len(),
            history_views(out@) =~= history_views(list@).take(i as int),
        decreases list@.len() - i,
    {
        let writes = list[i].writes.clone();
        assert(writes@ =~= list@[i as int].writes@);
        let copy = FileHistory { path: list[i].path.clone(), writes };
        assert(copy@ == history_views(list@)[i as int]);
        let ghost before = history_views(out@);
        out.push(copy);
        assert(history_views(out@) =~= before.push(copy@));
        i = i + 1;
    }
    out
}

/// Copies a list of tasks.
pub fn copy_tasks(list: &Vec<TaskFile>) -> (r: Vec<TaskFile>)
    ensures
        task_views(r@) == task_views(list@),
{
    let mut out: Vec<TaskFile> = Vec::new();
    let mut i: usize = 0;
    while i < list.len()
        invariant
            i <= list@.len(),
            task_views(out@) =~= task_views(list@).take(i as int),
        decreases list@.len() - i,
    {
        let copy = list[i].clone();
        assert(copy@ == task_views(list@)[i as int]);
        let ghost before = task_views(out@);
        out.push(copy);
        assert(task_views(out@) =~= before.push(copy@));
        i = i + 1;
    }
    out
}

/// Copies a task that may be missing.
pub fn copy_task(task: &Option<TaskFile>) -> (r: Option<TaskFile>)
    ensures
        task_view(r) == task_view(*task),
{
    match task {
        Some(t) => Some(t.clone()),
        None => None,
    }
}

/// Snapshot of all state needed to classify a session.
///
/// The struct stores raw observations rather than derived conclusions wherever
/// possible. That keeps it useful for checkpoints, tests, and future classifiers.
#[derive(Debug, PartialEq, Eq)]
pub struct AgentState {
    /// Current session identifier, once known.
    pub session_id: Option<String>,
    /// Cumulative input tokens observed across assistant turns.
    pub total_input_tokens: u64,
    /// Cumulative output tokens observed across assistant turns.
    pub total_output_tokens: u64,
    /// Total number of tool calls observed during the session.
    pub total_tool_calls: u64,
    /// Files touched during the session, each path once.
    pub touched_files: Vec<String>,
    /// When the current session started.
    pub session_started_at: Option<Timestamp>,
    /// Most recent meaningful activity timestamp.
    ///
    /// This excludes passive process polling so silence-based classifiers are not
    /// masked by monitoring traffic.
    pub last_event_at: Option<Timestamp>,
    /// Most recent event that came from the session record stream.
    pub last_jsonl_record_at: Option<Timestamp>,
    /// Most recent non-sidechain event from the session record stream.
    pub last_main_jsonl_record_at: Option<Timestamp>,
    /// Most recent sidechain event from the session record stream.
    pub last_sidechain_jsonl_record_at: Option<Timestamp>,
    /// Most recent watcher-driven file modification timestamp.
    pub last_file_event_at: Option<Timestamp>,
    /// Most recent hook-originated activity timestamp.
    pub last_hook_event_at: Option<Timestamp>,
    /// Most recent process metrics sample timestamp.
    pub last_process_metrics_at: Option<Timestamp>,
    /// Most recent time the process memory footprint changed.
    pub last_memory_activity_at: Option<Timestamp>,
    /// Most recent tool call timestamp.
    pub last_tool_call_at: Option<Timestamp>,
    /// Most recent tool result timestamp.
    pub last_tool_result_at: Option<Timestamp>,
    /// Most recent token activity timestamp.
    pub last_token_activity_at: Option<Timestamp>,
    /// Most recent compact boundary timestamp.
    pub last_compact_at: Option<Timestamp>,
    /// Number of main-session compact boundaries observed during the current session.
    pub compact_count: u64,
    /// Most recently observed tool name.
    pub last_tool_name: Option<String>,
    /// Most recently observed file path from either tool calls or file events.
    pub last_file_path: Option<String>,
    /// Most recently observed shell command.
    pub last_command: Option<String>,
    /// Number of consecutive failed test commands observed for the main session.
    pub consecutive_test_failures: u32,
    /// Most recent test command used for loop detection context.
    pub last_test_command: Option<String>,
    /// File being worked on when the most recent test command ran, when known.
    pub last_test_file: Option<String>,
    /// Whether the last meaningful main-session transition was a compact boundary.
    ///
    /// This flag stays set until the next main-session tool call is observed.
    pub last_event_was_compact: bool,
    /// Whether a main-session tool call has started and no main-session result has been observed yet.
    pub awaiting_tool_result: bool,
    /// Running count of observed sidechain activity records.
    pub subagent_count: u32,
    /// Latest known liveness status for the monitored process.
    pub process_alive: bool,
    /// Most recent CPU percentage from process sampling.
    pub latest_cpu_percent: FloatBits,
    /// Most recent resident memory measurement in bytes.
    pub latest_rss_bytes: u64,
    /// Most recent virtual memory measurement in bytes.
    pub latest_virtual_bytes: u64,
    /// Most recent cumulative storage read count in bytes.
    pub latest_io_read_bytes: u64,
    /// Most recent cumulative storage write count in bytes.
    pub latest_io_write_bytes: u64,
    /// Most recent storage read throughput in bytes per second.
    pub latest_io_read_rate: FloatBits,
    /// Most recent storage write throughput in bytes per second.
    pub latest_io_write_rate: FloatBits,
    /// Most recent time any non-zero I/O throughput was observed.
    pub last_io_activity_at: Option<Timestamp>,
    /// Sliding window of recent tool calls, capped to a small fixed history.
    pub recent_tool_calls: VecDeque<ToolCall>,
    /// Sliding window of recent file modifications, capped to a small fixed history.
    pub recently_modified_files: VecDeque<FileModification>,
    /// Recent watcher-observed writes per file for tool-loop detection.
    pub recent_file_writes: Vec<FileHistory>,
    /// Most recent file modification observed in the tool-loop window.
    pub last_loop_file_path: Option<String>,
    /// Allowed path prefixes used for scope-leak detection.
    pub guard_paths: Vec<String>,
    /// Total number of out-of-scope file modifications observed for the current guard.
    pub scope_violation_count: u32,
    /// Most recent out-of-scope file touched by the agent, if any.
    pub latest_scope_violation: Option<String>,
    /// When a suspected loop began.
    pub loop_started_at: Option<Timestamp>,
    /// Path to the backing session record file, when known.
    pub session_jsonl_path: Option<String>,
    /// Task list identifier, when the session is associated with one.
    pub task_list_id: Option<String>,
    /// Cached task files for the associated task list, one for each task identifier.
    pub task_files: Vec<TaskFile>,
    /// Filesystem signature for the cached task list.
    pub task_files_signature: Option<u64>,
    /// Current in-progress task for this session, when one can be resolved from task files.
    pub current_task: Option<TaskFile>,
    /// Most recently assigned high-level phase for the session.
    pub phase: AgentPhase,
}

/// The value of an [`AgentState`].
#[verifier::ext_equal]
pub struct StateView {
    pub session_id: Option<String>,
    pub total_input_tokens: u64,
    pub total_output_tokens: u64,
    pub total_tool_calls: u64,
    pub touched_files: Seq<String>,
    pub session_started_at: Option<Timestamp>,
    pub last_event_at: Option<Timestamp>,
    pub last_jsonl_record_at: Option<Timestamp>,
    pub last_main_jsonl_record_at: Option<Timestamp>,
    pub last_sidechain_jsonl_record_at: Option<Timestamp>,
    pub last_file_event_at: Option<Timestamp>,
    pub last_hook_event_at: Option<Timestamp>,
    pub last_process_metrics_at: Option<Timestamp>,
    pub last_memory_activity_at: Option<Timestamp>,
    pub last_tool_call_at: Option<Timestamp>,
    pub last_tool_result_at: Option<Timestamp>,
    pub last_token_activity_at: Option<Timestamp>,
    pub last_compact_at: Option<Timestamp>,
    pub compact_count: u64,
    pub last_tool_name: Option<String>,
    pub last_file_path: Option<String>,
    pub last_command: Option<String>,
    pub consecutive_test_failures: u32,
    pub last_test_command: Option<String>,
    pub last_test_file: Option<String>,
    pub last_event_was_compact: bool,
    pub awaiting_tool_result: bool,
    pub subagent_count: u32,
    pub process_alive: bool,
    pub latest_cpu_percent: FloatBits,
    pub latest_rss_bytes: u64,
    pub latest_virtual_bytes: u64,
    pub latest_io_read_bytes: u64,
    pub latest_io_write_bytes: u64,
    pub latest_io_read_rate: FloatBits,
    pub latest_io_write_rate: FloatBits,
    pub last_io_activity_at: Option<Timestamp>,
    pub recent_tool_calls: Seq<ToolCall>,
    pub recently_modified_files: Seq<FileModification>,
    pub recent_file_writes: Seq<HistoryView>,
    pub last_loop_file_path: Option<String>,
    pub guard_paths: Seq<String>,
    pub scope_violation_count: u32,
    pub latest_scope_violation: Option<String>,
    pub loop_started_at: Option<Timestamp>,
    pub session_jsonl_path: Option<String>,
    pub task_list_id: Option<String>,
    pub task_files: Seq<TaskView>,
    pub task_files_signature: Option<u64>,
    pub current_task: Option<TaskView>,
    pub phase: PhaseView,
}

impl View for AgentState {
    type V = StateView;

    open spec fn view(&self) -> StateView {
        StateView {
            session_id: self.session_id,
            total_input_tokens: self.total_input_tokens,
            total_output_tokens: self.total_output_tokens,
            total_tool_calls: self.total_tool_calls,
            touched_files: self.touched_files@,
            session_started_at: self.session_started_at,
            last_event_at: self.last_event_at,
            last_jsonl_record_at: self.last_jsonl_record_at,
            last_main_jsonl_record_at: self.last_main_jsonl_record_at,
            last_sidechain_jsonl_record_at: self.last_sidechain_jsonl_record_at,
            last_file_event_at: self.last_file_event_at,
            last_hook_event_at: self.last_hook_event_at,
            last_process_metrics_at: self.last_process_metrics_at,
            last_memory_activity_at: self.last_memory_activity_at,
            last_tool_call_at: self.last_tool_call_at,
            last_tool_result_at: self.last_tool_result_at,
            last_token_activity_at: self.last_token_activity_at,
            last_compact_at: self.last_compact_at,
            compact_count: self.compact_count,
            last_tool_name: self.last_tool_name,
            last_file_path: self.last_file_path,
            last_command: self.last_command,
            consecutive_test_failures: self.consecutive_test_failures,
            last_test_command: self.last_test_command,
            last_test_file: self.last_test_file,
            last_event_was_compact: self.last_event_was_compact,
            awaiting_tool_result: self.awaiting_tool_result,
            subagent_count: self.subagent_count,
            process_alive: self.process_alive,
            latest_cpu_percent: self.latest_cpu_percent,
            latest_rss_bytes: self.latest_rss_bytes,
            latest_virtual_bytes: self.latest_virtual_bytes,
            latest_io_read_bytes: self.latest_io_read_bytes,
            latest_io_write_bytes: self.latest_io_write_bytes,
            latest_io_read_rate: self.latest_io_read_rate,
            latest_io_write_rate: self.latest_io_write_rate,
            last_io_activity_at: self.last_io_activity_at,
            recent_tool_calls: self.recent_tool_calls@,
            recently_modified_files: self.recently_modified_files@,
            recent_file_writes: history_views(self.recent_file_writes@),
            last_loop_file_path: self.last_loop_file_path,
            guard_paths: self.guard_paths@,
            scope_violation_count: self.scope_violation_count,
            latest_scope_violation: self.latest_scope_violation,
            loop_started_at: self.loop_started_at,
            session_jsonl_path: self.session_jsonl_path,
            task_list_id: self.task_list_id,
            task_files: task_views(self.task_files@),
            task_files_signature: self.task_files_signature,
            current_task: task_view(self.current_task),
            phase: self.phase@,
        }
    }
}

/// The state of a session that nothing is known of yet.
pub open spec fn initial_state() -> StateView {
    StateView {
        session_id: None,
        total_input_tokens: 0,
        total_output_tokens: 0,
        total_tool_calls: 0,
        touched_files: seq![],
        session_started_at: None,
        last_event_at: None,
        last_jsonl_record_at: None,
        last_main_jsonl_record_at: None,
        last_sidechain_jsonl_record_at: None,
        last_file_event_at: None,
        last_hook_event_at: None,
        last_process_metrics_at: None,
        last_memory_activity_at: None,
        last_tool_call_at: None,
        last_tool_result_at: None,
        last_token_activity_at: None,
        last_compact_at: None,
        compact_count: 0,
        last_tool_name: None,
        last_file_path: None,
        last_command: None,
        consecutive_test_failures: 0,
        last_test_command: None,
        last_test_file: None,
        last_event_was_compact: false,
        awaiting_tool_result: false,
        subagent_count: 0,
        process_alive: true,
        latest_cpu_percent: FloatBits { bits: 0 },
        latest_rss_bytes: 0,
        latest_virtual_bytes: 0,
        latest_io_read_bytes: 0,
        latest_io_write_bytes: 0,
        latest_io_read_rate: FloatBits { bits: 0 },
        latest_io_write_rate: FloatBits { bits: 0 },
        last_io_activity_at: None,
        recent_tool_calls: seq![],
        recently_modified_files: seq![],
        recent_file_writes: seq![],
        last_loop_file_path: None,
        guard_paths: seq![],
        scope_violation_count: 0,
        latest_scope_violation: None,
        loop_started_at: None,
        session_jsonl_path: None,
        task_list_id: None,
        task_files: seq![],
        task_files_signature: None,
        current_task: None,
        phase: PhaseView::Initializing,
    }
}

impl Default for AgentState {
    fn default() -> (r: Self)
        ensures
            r@ == initial_state(),
    {
        let r = AgentState {
            session_id: None,
            total_input_tokens: 0,
            total_output_tokens: 0,
            total_tool_calls: 0,
            touched_files: Vec::new(),
            session_started_at: None,
            last_event_at: None,
            last_jsonl_record_at: None,
            last_main_jsonl_record_at: None,
            last_sidechain_jsonl_record_at: None,
            last_file_event_at: None,
            last_hook_event_at: None,
            last_process_metrics_at: None,
            last_memory_activity_at: None,
            last_tool_call_at: None,
            last_tool_result_at: None,
            last_token_activity_at: None,
            last_compact_at: None,
            compact_count: 0,
            last_tool_name: None,
            last_file_path: None,
            last_command: None,
            consecutive_test_failures: 0,
            last_test_command: None,
            last_test_file: None,
            last_event_was_compact: false,
            awaiting_tool_result: false,
            subagent_count: 0,
            process_alive: true,
            latest_cpu_percent: FloatBits { bits: 0 },
            latest_rss_bytes: 0,
            latest_virtual_bytes: 0,
            latest_io_read_bytes: 0,
            latest_io_write_bytes: 0,
            latest_io_read_rate: FloatBits { bits: 0 },
            latest_io_write_rate: FloatBits { bits: 0 },
            last_io_activity_at: None,
            recent_tool_calls: VecDeque::new(),
            recently_modified_files: VecDeque::new(),
            recent_file_writes: Vec::new(),
            last_loop_file_path: None,
            guard_paths: Vec::new(),
            scope_violation_count: 0,
            latest_scope_violation: None,
            loop_started_at: None,
            session_jsonl_path: None,
            task_list_id: None,
            task_files: Vec::new(),
            task_files_signature: None,
            current_task: None,
            phase: AgentPhase::Initializing,
        };
        assert(r@.task_files =~= seq![]);
        assert(r@.recent_file_writes =~= seq![]);
        r
    }
}

impl Clone for AgentState {
    fn clone(&self) -> (r: Self)
        ensures
            r@ == self@,
    {
        let recent_tool_calls = self.recent_tool_calls.clone();
        assert(recent_tool_calls@ =~= self.recent_tool_calls@);
        let recently_modified_files = self.recently_modified_files.clone();
        assert(recently_modified_files@ =~= self.recently_modified_files@);
        let recent_file_writes = copy_histories(&self.recent_file_writes);
        let task_files = copy_tasks(&self.task_files);
        AgentState {
            session_id: self.session_id.clone(),
            total_input_tokens: self.total_input_tokens,
            total_output_tokens: self.total_output_tokens,
            total_tool_calls: self.total_tool_calls,
            touched_files: copy_texts(&self.touched_files),
            session_started_at: self.session_started_at,
            last_event_at: self.last_event_at,
            last_jsonl_record_at: self.last_jsonl_record_at,
            last_main_jsonl_record_at: self.last_main_jsonl_record_at,
            last_sidechain_jsonl_record_at: self.last_sidechain_jsonl_record_at,
            last_file_event_at: self.last_file_event_at,
            last_hook_event_at: self.last_hook_event_at,
            last_process_metrics_at: self.last_process_metrics_at,
            last_memory_activity_at: self.last_memory_activity_at,
            last_tool_call_at: self.last_tool_call_at,
            last_tool_result_at: self.last_tool_result_at,
            last_token_activity_at: self.last_token_activity_at,
            last_compact_at: self.last_compact_at,
            compact_count: self.compact_count,
            last_tool_name: self.last_tool_name.clone(),
            last_file_path: self.last_file_path.clone(),
            last_command: self.last_command.clone(),
            consecutive_test_failures: self.consecutive_test_failures,
            last_test_command: self.last_test_command.clone(),
            last_test_file: self.last_test_file.clone(),
            last_event_was_compact: self.last_event_was_compact,
            awaiting_tool_result: self.awaiting_tool_result,
            subagent_count: self.subagent_count,
            process_alive: self.process_alive,
            latest_cpu_percent: self.latest_cpu_percent,
            latest_rss_bytes: self.latest_rss_bytes,
            latest_virtual_bytes: self.latest_virtual_bytes,
            latest_io_read_bytes: self.latest_io_read_bytes,
            latest_io_write_bytes: self.latest_io_write_bytes,
            latest_io_read_rate: self.latest_io_read_rate,
            latest_io_write_rate: self.latest_io_write_rate,
            last_io_activity_at: self.last_io_activity_at,
            recent_tool_calls,
            recently_modified_files,
            recent_file_writes,
            last_loop_file_path: self.last_loop_file_path.clone(),
            guard_paths: copy_texts(&self.guard_paths),
            scope_violation_count: self.scope_violation_count,
            latest_scope_violation: self.latest_scope_violation.clone(),
            loop_started_at: self.loop_started_at,
            session_jsonl_path: self.session_jsonl_path.clone(),
            task_list_id: self.task_list_id.clone(),
            task_files,
            task_files_signature: self.task_files_signature,
            current_task: copy_task(&self.current_task),
            phase: self.phase.clone(),
        }
    }
}

/// One more, up to the largest number.
pub open spec fn next_u32(n: u32) -> u32 {
    if n == u32::MAX {
        n
    } else {
        (n + 1) as u32
    }
}

/// One more, up to the largest number.
pub open spec fn next_u64(n: u64) -> u64 {
    if n == u64::MAX {
        n
    } else {
        (n + 1) as u64
    }
}

/// The sum, up to the largest number.
pub open spec fn sum_u64(a: u64, b: u64) -> u64 {
    if a + b > u64::MAX {
        u64::MAX
    } else {
        (a + b) as u64
    }
}

/// A list with one more item at its end, without the oldest items beyond a
/// maximal length.
pub open spec fn bounded_push<T>(list: Seq<T>, item: T, max: nat) -> Seq<T> {
    let longer = list.push(item);
    if longer.len() > max {
        longer.skip(longer.len() - max)
    } else {
        longer
    }
}

/// Appends an item and drops the oldest ones beyond a maximal length.
pub fn push_bounded<T>(deque: &mut VecDeque<T>, value: T, max_len: usize)
    ensures
        final(deque)@ == bounded_push(old(deque)@, value, max_len as nat),
        final(deque)@.len() <= max_len,
{
    let ghost longer = old(deque)@.push(value);
    deque.push_back(value);
    let ghost mut dropped: int = 0;
    assert(longer.skip(0) =~= longer);
    while deque.len() > max_len
        invariant
            0 <= dropped <= longer.len(),
            deque@ == longer.skip(dropped),
            dropped > 0 ==> deque@.len() >= max_len,
        decreases deque@.len(),
    {
        let _ = deque.pop_front();
        proof {
            dropped = dropped + 1;
            assert(deque@ =~= longer.skip(dropped));
        }
    }
}

/// A list of paths with one more path, unless it is there already.
pub open spec fn with_path(list: Seq<String>, path: String) -> Seq<String> {
    if has_path(list, path@) {
        list
    } else {
        list.push(path)
    }
}

/// Whether a list holds a path.
pub open spec fn has_path(list: Seq<String>, path: Seq<char>) -> bool {
    exists|i: int| 0 <= i < list.len() && same_path(#[trigger] list[i]@, path)
}

/// Decides whether a list holds a path.
pub fn holds_path(list: &Vec<String>, path: &str) -> (r: bool)
    ensures
        r == has_path(list@, path@),
{
    let mut i: usize = 0;
    while i < list.len()
        invariant
            i <= list@.len(),
            forall|k: int| 0 <= k < i ==> !same_path(#[trigger] list@[k]@, path@),
        decreases list@.len() - i,
    {
        if paths_equal(list[i].as_str(), path) {
            return true;
        }
        i = i + 1;
    }
    false
}

/// Whether two paths that may be missing are equal.
pub open spec fn same_optional_path(a: Option<String>, b: Option<String>) -> bool {
    match (a, b) {
        (Some(x), Some(y)) => same_path(x@, y@),
        (None, None) => true,
        _ => false,
    }
}

fn optional_paths_equal(a: &Option<String>, b: &Option<String>) -> (r: bool)
    ensures
        r == same_optional_path(*a, *b),
{
    match (a, b) {
        (Some(x), Some(y)) => paths_equal(x.as_str(), y.as_str()),
        (None, None) => true,
        _ => false,
    }
}

/// Whether a command runs tests, as far as the session state is concerned.
pub open spec fn runs_tests(command: Seq<char>) -> bool {
    let list = tokens(command);
    ||| has_sequence(list, seq!["cargo"@, "test"@])
    ||| has_sequence(list, seq!["npm"@, "test"@])
    ||| has_sequence(list, seq!["pytest"@])
    ||| has_sequence(list, seq!["python"@, "-m"@, "pytest"@])
    ||| has_sequence(list, seq!["go"@, "test"@])
}

/// Whether a test run's output reports a failure.
pub open spec fn reports_failure(content: Seq<char>) -> bool {
    ||| has_text(content, "FAILED"@)
    ||| has_text(content, "error[E"@)
    ||| has_text(content, "panicked"@)
    ||| has_text(content, "ERRORS"@)
    ||| has_text(content, "npm ERR!"@)
}

/// Decides whether a test run's output reports a failure.
pub fn contains_test_failure_pattern(content: &str) -> (r: bool)
    ensures
        r == reports_failure(content@),
{
    contains_text(content, "FAILED") || contains_text(content, "error[E") || contains_text(
        content,
        "panicked",
    ) || contains_text(content, "ERRORS") || contains_text(content, "npm ERR!")
}

/// The kind of file activity that a tool call stands for.
pub open spec fn file_change(call: ToolCall) -> Option<FileChangeKind> {
    let name = lowercase(call.tool_name@);
    if name == "read"@ {
        Some(FileChangeKind::Read)
    } else if name == "edit"@ || name == "multiedit"@ || name == "notebookedit"@ {
        Some(FileChangeKind::Modified)
    } else if name == "write"@ {
        if call.line_change is Some && call.line_change->0.removed == 0 {
            Some(FileChangeKind::Created)
        } else {
            Some(FileChangeKind::Modified)
        }
    } else {
        None
    }
}

/// Decides the kind of file activity that a tool call stands for.
pub fn tool_call_file_change_kind(call: &ToolCall) -> (r: Option<FileChangeKind>)
    ensures
        r == file_change(*call),
{
    let name = to_lowercase(call.tool_name.as_str());
    if same_text(name.as_str(), "read") {
        return Some(FileChangeKind::Read);
    }
    if same_text(name.as_str(), "edit") || same_text(name.as_str(), "multiedit") || same_text(
        name.as_str(),
        "notebookedit",
    ) {
        return Some(FileChangeKind::Modified);
    }
    if same_text(name.as_str(), "write") {
        return match call.line_change {
            Some(change) => if change.removed == 0 {
                Some(FileChangeKind::Created)
            } else {
                Some(FileChangeKind::Modified)
            },
            None => Some(FileChangeKind::Modified),
        };
    }
    None
}

/// Whether a write lies longer ago than the loop window reaches. The window goes
/// by the times of the events, so that replaying them gives the same loops; a
/// write after `now` is not stale.
pub open spec fn is_stale(write: FileWrite, now: Timestamp) -> bool {
    match now.since(write.timestamp) {
        Some(elapsed) => elapsed > TOOL_LOOP_WINDOW_NANOS,
        None => false,
    }
}

fn stale(write: FileWrite, now: Timestamp) -> (r: bool)
    ensures
        r == is_stale(write, now),
{
    match now.checked_since(write.timestamp) {
        Some(elapsed) => elapsed.nanos > TOOL_LOOP_WINDOW_NANOS,
        None => false,
    }
}

/// Writes without the stale ones at their front.
pub open spec fn unstale(writes: Seq<FileWrite>, now: Timestamp) -> Seq<FileWrite>
    decreases writes.len(),
{
    if writes.len() > 0 && is_stale(writes[0], now) {
        unstale(writes.drop_first(), now)
    } else {
        writes
    }
}

/// Histories without stale writes, and without the files that have none left.
pub open spec fn pruned(histories: Seq<HistoryView>, now: Timestamp) -> Seq<HistoryView>
    decreases histories.len(),
{
    if histories.len() == 0 {
        seq![]
    } else {
        let rest = pruned(histories.drop_last(), now);
        let last = histories.last();
        let writes = unstale(last.writes, now);
        if writes.len() == 0 {
            rest
        } else {
            rest.push(HistoryView { path: last.path, writes })
        }
    }
}

/// Whether pruning removes the history of a path.
pub open spec fn prunes_path(histories: Seq<HistoryView>, path: Seq<char>, now: Timestamp) -> bool {
    exists|i: int|
        0 <= i < histories.len() && unstale((#[trigger] histories[i]).writes, now).len() == 0
            && same_path(histories[i].path@, path)
}

/// The position of a path's history from a position on; the number of
/// histories where it has none.
pub open spec fn history_index(histories: Seq<HistoryView>, path: Seq<char>, from: int) -> int
    decreases histories.len() - from,
{
    if from < 0 || from >= histories.len() {
        histories.len() as int
    } else if same_path(histories[from].path@, path) {
        from
    } else {
        history_index(histories, path, from + 1)
    }
}

/// The writes of a path.
pub open spec fn writes_of(histories: Seq<HistoryView>, path: Seq<char>) -> Seq<FileWrite> {
    let i = history_index(histories, path, 0);
    if 0 <= i < histories.len() {
        histories[i].writes
    } else {
        seq![]
    }
}

/// Histories with one more write of a path.
pub open spec fn with_write(
    histories: Seq<HistoryView>,
    path: String,
    write: FileWrite,
) -> Seq<HistoryView> {
    let i = history_index(histories, path@, 0);
    if 0 <= i < histories.len() {
        histories.update(
            i,
            HistoryView { path: histories[i].path, writes: histories[i].writes.push(write) },
        )
    } else {
        histories.push(HistoryView { path, writes: seq![write] })
    }
}

fn find_history(histories: &Vec<FileHistory>, path: &str) -> (r: usize)
    ensures
        r == history_index(history_views(histories@), path@, 0),
        r <= histories@.len(),
{
    let mut i: usize = 0;
    while i < histories.len()
        invariant
            i <= histories@.len(),
            history_index(history_views(histories@), path@, 0) == history_index(
                history_views(histories@),
                path@,
                i as int,
            ),
        decreases histories@.len() - i,
    {
        assert(history_views(histories@)[i as int] == histories@[i as int]@);
        if paths_equal(histories[i].path.as_str(), path) {
            return i;
        }
        i = i + 1;
    }
    i
}

fn without_stale(writes: &Vec<FileWrite>, now: Timestamp) -> (r: Vec<FileWrite>)
    ensures
        r@ == unstale(writes@, now),
{
    let mut from: usize = 0;
    assert(writes@.skip(0) =~= writes@);
    while from < writes.len() && stale(writes[from], now)
        invariant
            from <= writes@.len(),
            unstale(writes@, now) == unstale(writes@.skip(from as int), now),
        decreases writes@.len() - from,
    {
        assert(writes@.skip(from as int).drop_first() =~= writes@.skip(from + 1));
        from = from + 1;
    }
    let mut out: Vec<FileWrite> = Vec::new();
    let mut i: usize = from;
    while i < writes.len()
        invariant
            from <= i <= writes@.len(),
            out@ =~= writes@.subrange(from as int, i as int),
        decreases writes@.len() - i,
    {
        out.push(writes[i]);
        i = i + 1;
    }
    assert(out@ =~= writes@.skip(from as int));
    out
}

/// The state after a session record arrived.
pub open spec fn with_jsonl_activity(
    s: StateView,
    timestamp: Timestamp,
    is_sidechain: bool,
) -> StateView {
    if is_sidechain {
        StateView {
            last_jsonl_record_at: Some(timestamp),
            last_sidechain_jsonl_record_at: Some(timestamp),
            subagent_count: next_u32(s.subagent_count),
            last_event_at: if s.last_event_at is Some && !timestamp.is_after(
                s.last_event_at->0,
            ) {
                s.last_event_at
            } else {
                Some(timestamp)
            },
            ..s
        }
    } else {
        StateView {
            last_jsonl_record_at: Some(timestamp),
            last_main_jsonl_record_at: Some(timestamp),
            last_event_at: Some(timestamp),
            ..s
        }
    }
}

/// The state without counted test failures, and without the test context where
/// that is cleared too.
pub open spec fn without_test_loop(s: StateView, clear_context: bool) -> StateView {
    if clear_context {
        StateView {
            consecutive_test_failures: 0,
            last_test_command: None,
            last_test_file: None,
            ..s
        }
    } else {
        StateView { consecutive_test_failures: 0, ..s }
    }
}

/// The state without stale writes.
pub open spec fn with_pruned_writes(s: StateView, now: Timestamp) -> StateView {
    StateView {
        recent_file_writes: pruned(s.recent_file_writes, now),
        last_loop_file_path: match s.last_loop_file_path {
            Some(path) => if prunes_path(s.recent_file_writes, path@, now) {
                None
            } else {
                Some(path)
            },
            None => None,
        },
        ..s
    }
}

/// The state after a write of a file was observed. A write of another file than
/// the last one starts the count anew.
pub open spec fn with_file_write(
    s: StateView,
    path: String,
    timestamp: Timestamp,
) -> StateView {
    let restarted = if s.last_loop_file_path is Some && !same_path(
        s.last_loop_file_path->0@,
        path@,
    ) {
        StateView { recent_file_writes: seq![], loop_started_at: None, ..s }
    } else {
        s
    };
    let kept = with_pruned_writes(restarted, timestamp);
    let histories = with_write(kept.recent_file_writes, path, FileWrite { timestamp });
    let writes = writes_of(histories, path@);
    StateView {
        recent_file_writes: histories,
        last_loop_file_path: Some(path),
        loop_started_at: if writes.len() >= 3 {
            Some(writes[0].timestamp)
        } else {
            None
        },
        ..kept
    }
}

/// The position of the last call that a result belongs to; `-1` where there is
/// none.
pub open spec fn result_position(
    calls: Seq<ToolCall>,
    tool_name: Option<String>,
    is_sidechain: bool,
) -> int
    decreases calls.len(),
{
    if calls.len() == 0 {
        -1
    } else if answers(calls.last(), tool_name, is_sidechain) {
        calls.len() - 1
    } else {
        result_position(calls.drop_last(), tool_name, is_sidechain)
    }
}

/// Whether a result can belong to a call.
pub open spec fn answers(call: ToolCall, tool_name: Option<String>, is_sidechain: bool) -> bool {
    call.is_sidechain == is_sidechain && (tool_name is Some ==> tool_name->0@ == call.tool_name@)
}

fn find_answered_call(
    calls: &VecDeque<ToolCall>,
    tool_name: &Option<String>,
    is_sidechain: bool,
) -> (r: Option<usize>)
    ensures
        match r {
            Some(i) => i < calls@.len() && result_position(calls@, *tool_name, is_sidechain) == i,
            None => result_position(calls@, *tool_name, is_sidechain) == -1,
        },
{
    let mut end: usize = calls.len();
    assert(calls@.take(end as int) =~= calls@);
    while end > 0
        invariant
            end <= calls@.len(),
            result_position(calls@, *tool_name, is_sidechain) == result_position(
                calls@.take(end as int),
                *tool_name,
                is_sidechain,
            ),
        decreases end,
    {
        let call = &calls[end - 1];
        let same_name = match tool_name {
            Some(name) => same_text(name.as_str(), call.tool_name.as_str()),
            None => true,
        };
        assert(calls@.take(end as int).last() == *call);
        assert(calls@.take(end as int).drop_last() =~= calls@.take(end - 1));
        if call.is_sidechain == is_sidechain && same_name {
            return Some(end - 1);
        }
        end = end - 1;
    }
    None
}

/// Whether a test run failed.
pub open spec fn test_failed(
    is_error: bool,
    output: Option<String>,
    stderr: Option<String>,
) -> bool {
    ||| is_error
    ||| stderr is Some && !is_blank(stderr->0@)
    ||| output is Some && reports_failure(output->0@)
}

/// The state after a tool result was matched with its call.
pub open spec fn with_test_result(
    s: StateView,
    tool_name: Option<String>,
    is_sidechain: bool,
    is_error: bool,
    output: Option<String>,
    stderr: Option<String>,
) -> StateView {
    let i = result_position(s.recent_tool_calls, tool_name, is_sidechain);
    if i < 0 {
        s
    } else {
        let call = s.recent_tool_calls[i];
        let t = StateView {
            recent_tool_calls: s.recent_tool_calls.update(i, ToolCall { is_error, ..call }),
            ..s
        };
        if is_sidechain || lowercase(call.tool_name@) != "bash"@ || call.command is None {
            t
        } else if !runs_tests(call.command->0@) {
            without_test_loop(t, true)
        } else {
            with_test_run(t, call.command->0, test_failed(is_error, output, stderr))
        }
    }
}

/// The state after a test run ended.
pub open spec fn with_test_run(s: StateView, command: String, failed: bool) -> StateView {
    let t = StateView {
        last_test_command: Some(command),
        last_test_file: if s.last_test_file is None {
            s.last_file_path
        } else {
            s.last_test_file
        },
        ..s
    };
    if failed {
        StateView { consecutive_test_failures: next_u32(t.consecutive_test_failures), ..t }
    } else {
        without_test_loop(t, false)
    }
}

/// The state after a file outside the guards was touched; unchanged where the
/// file lies within one of them or none is set.
pub open spec fn with_scope_check(s: StateView, path: String) -> StateView {
    if s.guard_paths.len() > 0 && !within_any(path@, s.guard_paths) {
        StateView {
            scope_violation_count: next_u32(s.scope_violation_count),
            latest_scope_violation: Some(path),
            ..s
        }
    } else {
        s
    }
}

/// The effect of a main-session tool call on the test-loop context.
pub open spec fn with_call_test_context(
    s: StateView,
    call: ToolCall,
    previous_file: Option<String>,
) -> StateView {
    if call.is_write {
        if call.file_path is Some && !same_optional_path(s.last_test_file, call.file_path) {
            without_test_loop(s, true)
        } else {
            s
        }
    } else if call.command is Some && !runs_tests(call.command->0@) {
        without_test_loop(s, true)
    } else if call.command is Some {
        StateView {
            last_test_file: if previous_file is Some {
                previous_file
            } else {
                s.last_test_file
            },
            ..s
        }
    } else {
        s
    }
}

/// The effect of a tool call's file on the file history and the scope check.
pub open spec fn with_call_file(s: StateView, call: ToolCall) -> StateView {
    match call.file_path {
        Some(path) => {
            let t = match file_change(call) {
                Some(kind) => StateView {
                    touched_files: if call.is_write {
                        with_path(s.touched_files, path)
                    } else {
                        s.touched_files
                    },
                    recently_modified_files: bounded_push(
                        s.recently_modified_files,
                        FileModification {
                            timestamp: call.timestamp,
                            path,
                            kind,
                            line_change: call.line_change,
                        },
                        MAX_RECENTLY_MODIFIED_FILES as nat,
                    ),
                    ..s
                },
                None => s,
            };
            if call.is_write {
                with_scope_check(t, path)
            } else {
                t
            }
        },
        None => s,
    }
}

/// The state after a tool call.
pub open spec fn with_tool_call(s: StateView, call: ToolCall) -> StateView {
    let marked = StateView {
        last_tool_call_at: Some(call.timestamp),
        last_tool_name: Some(call.tool_name),
        last_file_path: call.file_path,
        last_command: call.command,
        total_tool_calls: next_u64(s.total_tool_calls),
        ..with_jsonl_activity(s, call.timestamp, call.is_sidechain)
    };
    let main = if call.is_sidechain {
        marked
    } else {
        with_call_test_context(
            StateView { last_event_was_compact: false, awaiting_tool_result: true, ..marked },
            call,
            s.last_file_path,
        )
    };
    let filed = with_call_file(main, call);
    StateView {
        recent_tool_calls: bounded_push(
            filed.recent_tool_calls,
            call,
            MAX_RECENT_TOOL_CALLS as nat,
        ),
        ..filed
    }
}

/// The state after a file modification was observed.
pub open spec fn with_file_modified(s: StateView, event: FileModification) -> StateView {
    let marked = StateView {
        last_event_at: Some(event.timestamp),
        last_file_event_at: Some(event.timestamp),
        last_file_path: Some(event.path),
        touched_files: with_path(s.touched_files, event.path),
        ..s
    };
    let noted = if event.kind == FileChangeKind::Created || event.kind
        == FileChangeKind::Modified {
        with_file_write(marked, event.path, event.timestamp)
    } else {
        marked
    };
    with_scope_check(
        StateView {
            recently_modified_files: bounded_push(
                noted.recently_modified_files,
                event,
                MAX_RECENTLY_MODIFIED_FILES as nat,
            ),
            ..noted
        },
        event.path,
    )
}

/// The state after a process sample.
pub open spec fn with_process_metrics(s: StateView, m: ProcessMetrics) -> StateView {
    StateView {
        last_process_metrics_at: Some(m.timestamp),
        process_alive: m.process_alive,
        last_memory_activity_at: if s.latest_rss_bytes != m.rss_bytes || s.latest_virtual_bytes
            != m.virtual_bytes {
            Some(m.timestamp)
        } else {
            s.last_memory_activity_at
        },
        latest_cpu_percent: m.cpu_percent,
        latest_rss_bytes: m.rss_bytes,
        latest_virtual_bytes: m.virtual_bytes,
        latest_io_read_bytes: m.io_read_bytes,
        latest_io_write_bytes: m.io_write_bytes,
        latest_io_read_rate: m.io_read_rate,
        latest_io_write_rate: m.io_write_rate,
        last_io_activity_at: if m.io_read_rate.positive() || m.io_write_rate.positive() {
            Some(m.timestamp)
        } else {
            s.last_io_activity_at
        },
        ..s
    }
}

/// The state after an event.
pub open spec fn applied(s: StateView, event: AgentEvent) -> StateView {
    match event {
        AgentEvent::SessionStart { timestamp, session_id } => without_test_loop(
            StateView {
                session_id: Some(session_id),
                session_started_at: Some(timestamp),
                last_jsonl_record_at: Some(timestamp),
                last_main_jsonl_record_at: Some(timestamp),
                last_event_at: Some(timestamp),
                last_event_was_compact: false,
                awaiting_tool_result: false,
                subagent_count: 0,
                ..s
            },
            true,
        ),
        AgentEvent::UserMessage { timestamp, is_sidechain } => with_jsonl_activity(
            s,
            timestamp,
            is_sidechain,
        ),
        AgentEvent::ToolCall(call) => with_tool_call(s, call),
        AgentEvent::ToolResult {
            timestamp,
            tool_name,
            is_error,
            output,
            stderr,
            is_sidechain,
            ..
        } => {
            let marked = with_jsonl_activity(s, timestamp, is_sidechain);
            with_test_result(
                StateView {
                    last_tool_result_at: Some(timestamp),
                    last_tool_name: if tool_name is Some {
                        tool_name
                    } else {
                        s.last_tool_name
                    },
                    awaiting_tool_result: is_sidechain && s.awaiting_tool_result,
                    ..marked
                },
                tool_name,
                is_sidechain,
                is_error,
                output,
                stderr,
            )
        },
        AgentEvent::TokenActivity(activity) => StateView {
            last_token_activity_at: Some(activity.timestamp),
            total_input_tokens: sum_u64(s.total_input_tokens, activity.input_tokens),
            total_output_tokens: sum_u64(s.total_output_tokens, activity.output_tokens),
            ..with_jsonl_activity(s, activity.timestamp, activity.is_sidechain)
        },
        AgentEvent::FileModified(file_event) => with_file_modified(s, file_event),
        AgentEvent::ProcessMetrics(metrics) => with_process_metrics(s, metrics),
        AgentEvent::CompactBoundary { timestamp, is_sidechain } => {
            let marked = StateView {
                last_compact_at: Some(timestamp),
                ..with_jsonl_activity(s, timestamp, is_sidechain)
            };
            if is_sidechain {
                marked
            } else {
                without_test_loop(
                    StateView {
                        compact_count: next_u64(s.compact_count),
                        last_event_was_compact: true,
                        awaiting_tool_result: false,
                        ..marked
                    },
                    true,
                )
            }
        },
    }
}

impl AgentState {
    /// The number of files touched during the session.
    pub fn touched_file_count(&self) -> (r: usize)
        ensures
            r == self@.touched_files.len(),
    {
        self.touched_files.len()
    }

    fn track_touched_file(&mut self, path: &String)
        ensures
            final(self)@ == (StateView {
                touched_files: with_path(old(self)@.touched_files, *path),
                ..old(self)@
            }),
    {
        if !holds_path(&self.touched_files, path.as_str()) {
            self.touched_files.push(path.clone());
        }
    }

    fn mark_jsonl_activity(&mut self, timestamp: Timestamp, is_sidechain: bool)
        ensures
            final(self)@ == with_jsonl_activity(old(self)@, timestamp, is_sidechain),
    {
        self.last_jsonl_record_at = Some(timestamp);
        if is_sidechain {
            self.last_sidechain_jsonl_record_at = Some(timestamp);
            self.subagent_count = self.subagent_count.saturating_add(1);
            self.last_event_at = match self.last_event_at {
                Some(current) => if timestamp.after(current) {
                    Some(timestamp)
                } else {
                    Some(current)
                },
                None => Some(timestamp),
            };
        } else {
            self.last_main_jsonl_record_at = Some(timestamp);
            self.last_event_at = Some(timestamp);
        }
    }

    /// Decides whether a command runs tests.
    pub fn is_test_command(command: &str) -> (r: bool)
        ensures
            r == runs_tests(command@),
    {
        let list = command_tokens(command);
        let cargo = vec!["cargo", "test"];
        let npm = vec!["npm", "test"];
        let pytest = vec!["pytest"];
        let python = vec!["python", "-m", "pytest"];
        let go = vec!["go", "test"];
        proof {
            assert(slice_views(cargo@) =~= seq!["cargo"@, "test"@]);
            assert(slice_views(npm@) =~= seq!["npm"@, "test"@]);
            assert(slice_views(pytest@) =~= seq!["pytest"@]);
            assert(slice_views(python@) =~= seq!["python"@, "-m"@, "pytest"@]);
            assert(slice_views(go@) =~= seq!["go"@, "test"@]);
        }
        contains_sequence(&list, &cargo) || contains_sequence(&list, &npm) || contains_sequence(
            &list,
            &pytest,
        ) || contains_sequence(&list, &python) || contains_sequence(&list, &go)
    }

    fn reset_test_loop_tracking(&mut self, clear_context: bool)
        ensures
            final(self)@ == without_test_loop(old(self)@, clear_context),
    {
        self.consecutive_test_failures = 0;
        if clear_context {
            self.last_test_command = None;
            self.last_test_file = None;
        }
    }

    fn prune_file_write_history(&mut self, now: Timestamp)
        ensures
            final(self)@ == with_pruned_writes(old(self)@, now),
    {
        let ghost all = self@.recent_file_writes;
        let ghost before = self@;
        let mut kept: Vec<FileHistory> = Vec::new();
        let mut drop_loop_path: bool = false;
        let mut i: usize = 0;
        assert(history_views(kept@) =~= seq![]);
        assert(all.take(0) =~= seq![]);
        while i < self.recent_file_writes.len()
            invariant
                i <= self.recent_file_writes@.len(),
                self@ == before,
                all == history_views(self.recent_file_writes@),
                history_views(kept@) == pruned(all.take(i as int), now),
                self.last_loop_file_path is Some ==> drop_loop_path == prunes_path(
                    all.take(i as int),
                    self.last_loop_file_path->0@,
                    now,
                ),
                self.last_loop_file_path is None ==> !drop_loop_path,
            decreases self.recent_file_writes@.len() - i,
        {
            let ghost next = all.take(i + 1);
            assert(next.drop_last() =~= all.take(i as int));
            assert(next.last() == self.recent_file_writes@[i as int]@);
            assert(forall|k: int| 0 <= k < i ==> #[trigger] next[k] == all.take(i as int)[k]);
            let writes = without_stale(&self.recent_file_writes[i].writes, now);
            if writes.len() == 0 {
                if let Some(path) = &self.last_loop_file_path {
                    if paths_equal(self.recent_file_writes[i].path.as_str(), path.as_str()) {
                        assert(next[i as int] == next.last());
                        drop_loop_path = true;
                    }
                }
            } else {
                let history = FileHistory {
                    path: self.recent_file_writes[i].path.clone(),
                    writes,
                };
                let ghost shorter = history_views(kept@);
                kept.push(history);
                assert(history_views(kept@) =~= shorter.push(history@));
            }
            proof {
                if self.last_loop_file_path is Some {
                    let path = self.last_loop_file_path->0@;
                    let older = all.take(i as int);
                    if prunes_path(older, path, now) {
                        let k = choose|k: int|
                            0 <= k < older.len() && unstale(
                                (#[trigger] older[k]).writes,
                                now,
                            ).len() == 0 && same_path(older[k].path@, path);
                        assert(next[k] == older[k]);
                        assert(prunes_path(next, path, now));
                    }
                    if prunes_path(next, path, now) {
                        let k = choose|k: int|
                            0 <= k < next.len() && unstale(
                                (#[trigger] next[k]).writes,
                                now,
                            ).len() == 0 && same_path(next[k].path@, path);
                        if k < i {
                            assert(next[k] == older[k]);
                            assert(prunes_path(older, path, now));
                        }
                    }
                }
            }
            i = i + 1;
        }
        assert(all.take(i as int) =~= all);
        self.recent_file_writes = kept;
        if drop_loop_path {
            self.last_loop_file_path = None;
        }
    }

    fn note_file_write(&mut self, path: &String, timestamp: Timestamp)
        ensures
            final(self)@ == with_file_write(old(self)@, *path, timestamp),
    {
        let restart = match &self.last_loop_file_path {
            Some(last) => !paths_equal(last.as_str(), path.as_str()),
            None => false,
        };
        if restart {
            self.recent_file_writes = Vec::new();
            self.loop_started_at = None;
            assert(self@.recent_file_writes =~= seq![]);
        }
        self.prune_file_write_history(timestamp);
        let write = FileWrite { timestamp };
        let ghost kept = self@.recent_file_writes;
        let i = find_history(&self.recent_file_writes, path.as_str());
        let mut histories: Vec<FileHistory> = Vec::new();
        std::mem::swap(&mut histories, &mut self.recent_file_writes);
        let ghost all = histories@;
        if i < histories.len() {
            let mut history = histories.remove(i);
            history.writes.push(write);
            histories.insert(i, history);
            assert(history_views(histories@) =~= with_write(kept, *path, write));
        } else {
            let mut writes: Vec<FileWrite> = Vec::new();
            writes.push(write);
            let history = FileHistory { path: path.clone(), writes };
            assert(history@.writes =~= seq![write]);
            histories.push(history);
            assert(history_views(histories@) =~= with_write(kept, *path, write));
        }
        let at = find_history(&histories, path.as_str());
        let started: Option<Timestamp> = if at < histories.len() {
            assert(history_views(histories@)[at as int] == histories@[at as int]@);
            if histories[at].writes.len() >= 3 {
                Some(histories[at].writes[0].timestamp)
            } else {
                None
            }
        } else {
            None
        };
        self.recent_file_writes = histories;
        self.last_loop_file_path = Some(path.clone());
        self.loop_started_at = started;
    }

    fn apply_test_result(
        &mut self,
        tool_name: &Option<String>,
        is_sidechain: bool,
        is_error: bool,
        output: &Option<String>,
        stderr: &Option<String>,
    )
        ensures
            final(self)@ == with_test_result(
                old(self)@,
                *tool_name,
                is_sidechain,
                is_error,
                *output,
                *stderr,
            ),
    {
        let index = match find_answered_call(&self.recent_tool_calls, tool_name, is_sidechain) {
            Some(index) => index,
            None => {
                return ;
            },
        };
        let name = to_lowercase(self.recent_tool_calls[index].tool_name.as_str());
        let command = self.recent_tool_calls[index].command.clone();
        self.set_call_error(index, is_error);
        if is_sidechain || !same_text(name.as_str(), "bash") {
            return ;
        }
        let command = match command {
            Some(command) => command,
            None => {
                return ;
            },
        };
        if !Self::is_test_command(command.as_str()) {
            self.reset_test_loop_tracking(true);
            return ;
        }
        let loud = match stderr {
            Some(text) => !blank(text.as_str()),
            None => false,
        };
        let reported = match output {
            Some(text) => contains_test_failure_pattern(text.as_str()),
            None => false,
        };
        self.note_test_run(command, is_error || loud || reported);
    }

    fn set_call_error(&mut self, index: usize, is_error: bool)
        requires
            index < old(self)@.recent_tool_calls.len(),
        ensures
            final(self)@ == (StateView {
                recent_tool_calls: old(self)@.recent_tool_calls.update(
                    index as int,
                    ToolCall { is_error, ..old(self)@.recent_tool_calls[index as int] },
                ),
                ..old(self)@
            }),
    {
        let ghost calls = self.recent_tool_calls@;
        let mut call = self.recent_tool_calls[index].clone();
        call.is_error = is_error;
        let _ = self.recent_tool_calls.remove(index);
        self.recent_tool_calls.insert(index, call);
        assert(self.recent_tool_calls@ =~= calls.update(
            index as int,
            ToolCall { is_error, ..calls[index as int] },
        ));
    }

    fn note_test_run(&mut self, command: String, failed: bool)
        ensures
            final(self)@ == with_test_run(old(self)@, command, failed),
    {
        self.last_test_command = Some(command);
        if self.last_test_file.is_none() {
            self.last_test_file = self.last_file_path.clone();
        }
        if failed {
            self.consecutive_test_failures = self.consecutive_test_failures.saturating_add(1);
        } else {
            self.reset_test_loop_tracking(false);
        }
    }

    fn check_scope(&mut self, path: &String)
        ensures
            final(self)@ == with_scope_check(old(self)@, *path),
    {
        if self.guard_paths.len() > 0 && !path_within_any(path.as_str(), &self.guard_paths) {
            self.scope_violation_count = self.scope_violation_count.saturating_add(1);
            self.latest_scope_violation = Some(path.clone());
        }
    }

    fn apply_call_test_context(&mut self, call: &ToolCall, previous_file: Option<String>)
        ensures
            final(self)@ == with_call_test_context(old(self)@, *call, previous_file),
    {
        if call.is_write {
            if call.file_path.is_some() && !optional_paths_equal(
                &self.last_test_file,
                &call.file_path,
            ) {
                self.reset_test_loop_tracking(true);
            }
        } else if let Some(command) = &call.command {
            if !Self::is_test_command(command.as_str()) {
                self.reset_test_loop_tracking(true);
            } else if previous_file.is_some() {
                self.last_test_file = previous_file;
            }
        }
    }

    fn apply_call_file(&mut self, call: &ToolCall)
        ensures
            final(self)@ == with_call_file(old(self)@, *call),
    {
        if let Some(path) = &call.file_path {
            if let Some(kind) = tool_call_file_change_kind(call) {
                if call.is_write {
                    self.track_touched_file(path);
                }
                push_bounded(
                    &mut self.recently_modified_files,
                    FileModification {
                        timestamp: call.timestamp,
                        path: path.clone(),
                        kind,
                        line_change: call.line_change,
                    },
                    MAX_RECENTLY_MODIFIED_FILES,
                );
            }
            if call.is_write {
                self.check_scope(path);
            }
        }
    }

    fn apply_tool_call(&mut self, call: &ToolCall)
        ensures
            final(self)@ == with_tool_call(old(self)@, *call),
    {
        self.mark_jsonl_activity(call.timestamp, call.is_sidechain);
        self.last_tool_call_at = Some(call.timestamp);
        self.last_tool_name = Some(call.tool_name.clone());
        let previous_file = self.last_file_path.clone();
        self.last_file_path = call.file_path.clone();
        self.last_command = call.command.clone();
        self.total_tool_calls = self.total_tool_calls.saturating_add(1);
        if !call.is_sidechain {
            self.last_event_was_compact = false;
            self.awaiting_tool_result = true;
            self.apply_call_test_context(call, previous_file);
        }
        self.apply_call_file(call);
        push_bounded(&mut self.recent_tool_calls, call.clone(), MAX_RECENT_TOOL_CALLS);
    }

    fn apply_file_modified(&mut self, event: &FileModification)
        ensures
            final(self)@ == with_file_modified(old(self)@, *event),
    {
        self.last_event_at = Some(event.timestamp);
        self.last_file_event_at = Some(event.timestamp);
        self.last_file_path = Some(event.path.clone());
        self.track_touched_file(&event.path);
        if event.kind == FileChangeKind::Created || event.kind == FileChangeKind::Modified {
            self.note_file_write(&event.path, event.timestamp);
        }
        push_bounded(
            &mut self.recently_modified_files,
            event.clone(),
            MAX_RECENTLY_MODIFIED_FILES,
        );
        self.check_scope(&event.path);
    }

    fn apply_process_metrics(&mut self, metrics: &ProcessMetrics)
        ensures
            final(self)@ == with_process_metrics(old(self)@, *metrics),
    {
        self.last_process_metrics_at = Some(metrics.timestamp);
        self.process_alive = metrics.process_alive;
        if self.latest_rss_bytes != metrics.rss_bytes || self.latest_virtual_bytes
            != metrics.virtual_bytes {
            self.last_memory_activity_at = Some(metrics.timestamp);
        }
        self.latest_cpu_percent = metrics.cpu_percent;
        self.latest_rss_bytes = metrics.rss_bytes;
        self.latest_virtual_bytes = metrics.virtual_bytes;
        self.latest_io_read_bytes = metrics.io_read_bytes;
        self.latest_io_write_bytes = metrics.io_write_bytes;
        self.latest_io_read_rate = metrics.io_read_rate;
        self.latest_io_write_rate = metrics.io_write_rate;
        if metrics.io_read_rate.above_zero() || metrics.io_write_rate.above_zero() {
            self.last_io_activity_at = Some(metrics.timestamp);
        }
    }

    /// Applies an event to the tracked state.
    ///
    /// The update rules distinguish between activity that should reset silence
    /// tracking and passive monitoring signals. In particular, `ProcessMetrics`
    /// updates resource information without advancing `last_event_at`.
    pub fn apply(&mut self, event: &AgentEvent)
        ensures
            final(self)@ == applied(old(self)@, *event),
    {
        match event {
            AgentEvent::SessionStart { timestamp, session_id } => {
                self.session_id = Some(session_id.clone());
                self.session_started_at = Some(*timestamp);
                self.last_jsonl_record_at = Some(*timestamp);
                self.last_main_jsonl_record_at = Some(*timestamp);
                self.last_event_at = Some(*timestamp);
                self.last_event_was_compact = false;
                self.awaiting_tool_result = false;
                self.subagent_count = 0;
                self.reset_test_loop_tracking(true);
            },
            AgentEvent::UserMessage { timestamp, is_sidechain } => {
                self.mark_jsonl_activity(*timestamp, *is_sidechain);
            },
            AgentEvent::ToolCall(call) => {
                self.apply_tool_call(call);
            },
            AgentEvent::ToolResult {
                timestamp,
                tool_name,
                is_error,
                output,
                stderr,
                is_sidechain,
                ..
            } => {
                self.mark_jsonl_activity(*timestamp, *is_sidechain);
                self.last_tool_result_at = Some(*timestamp);
                if let Some(name) = tool_name {
                    self.last_tool_name = Some(name.clone());
                }
                if !*is_sidechain {
                    self.awaiting_tool_result = false;
                }
                self.apply_test_result(tool_name, *is_sidechain, *is_error, output, stderr);
            },
            AgentEvent::TokenActivity(activity) => {
                self.mark_jsonl_activity(activity.timestamp, activity.is_sidechain);
                self.last_token_activity_at = Some(activity.timestamp);
                self.total_input_tokens = self.total_input_tokens.saturating_add(
                    activity.input_tokens,
                );
                self.total_output_tokens = self.total_output_tokens.saturating_add(
                    activity.output_tokens,
                );
            },
            AgentEvent::FileModified(file_event) => {
                self.apply_file_modified(file_event);
            },
            AgentEvent::ProcessMetrics(metrics) => {
                self.apply_process_metrics(metrics);
            },
            AgentEvent::CompactBoundary { timestamp, is_sidechain } => {
                self.mark_jsonl_activity(*timestamp, *is_sidechain);
                self.last_compact_at = Some(*timestamp);
                if !*is_sidechain {
                    self.compact_count = self.compact_count.saturating_add(1);
                    self.last_event_was_compact = true;
                    self.awaiting_tool_result = false;
                    self.reset_test_loop_tracking(true);
                }
            },
        }
    }
}

/// How many writes lie within the loop window before `now`.
pub open spec fn fresh_count(writes: Seq<FileWrite>, now: Timestamp) -> nat
    decreases writes.len(),
{
    if writes.len() == 0 {
        0
    } else {
        fresh_count(writes.drop_last(), now) + (if !is_stale(writes.last(), now) {
            1nat
        } else {
            0nat
        })
    }
}

/// The time of the first write within the loop window before `now`.
pub open spec fn first_fresh(writes: Seq<FileWrite>, now: Timestamp) -> Option<Timestamp>
    decreases writes.len(),
{
    if writes.len() == 0 {
        None
    } else if !is_stale(writes[0], now) {
        Some(writes[0].timestamp)
    } else {
        first_fresh(writes.drop_first(), now)
    }
}

/// Whether any write lies within the loop window before `now`.
pub open spec fn any_fresh(histories: Seq<HistoryView>, now: Timestamp) -> bool {
    exists|i: int| 0 <= i < histories.len() && fresh_count((#[trigger] histories[i]).writes, now) > 0
}

fn count_fresh(writes: &Vec<FileWrite>, now: Timestamp) -> (r: usize)
    ensures
        r == fresh_count(writes@, now),
{
    let mut count: usize = 0;
    let mut i: usize = 0;
    assert(writes@.take(0) =~= seq![]);
    while i < writes.len()
        invariant
            i <= writes@.len(),
            count <= i,
            count == fresh_count(writes@.take(i as int), now),
        decreases writes@.len() - i,
    {
        assert(writes@.take(i + 1).drop_last() =~= writes@.take(i as int));
        if !stale(writes[i], now) {
            count = count + 1;
        }
        i = i + 1;
    }
    assert(writes@.take(i as int) =~= writes@);
    count
}

/// Which kinds of activity a session showed recently.
#[derive(Debug, Clone, Copy, PartialEq, Eq, Structural)]
pub struct ActivitySignals {
    /// Records of the main session.
    pub main: bool,
    /// Records of sidechains.
    pub sidechain: bool,
    /// File events.
    pub file: bool,
    /// Hook events.
    pub hook: bool,
}

/// Whether a time lies no longer ago than a window reaches. A time in the
/// future counts as recent, a missing one does not.
pub open spec fn is_recent(timestamp: Option<Timestamp>, now: Timestamp, window: Span) -> bool {
    match timestamp {
        Some(t) => match now.since(t) {
            Some(elapsed) => elapsed <= window.nanos,
            None => true,
        },
        None => false,
    }
}

/// Decides whether a time lies no longer ago than a window reaches.
pub fn recent(timestamp: Option<Timestamp>, now: Timestamp, window: Span) -> (r: bool)
    ensures
        r == is_recent(timestamp, now, window),
{
    match timestamp {
        Some(t) => match now.checked_since(t) {
            Some(elapsed) => elapsed.nanos <= window.nanos,
            None => true,
        },
        None => false,
    }
}

impl AgentState {
    /// Counts the writes of a file within the loop window before `now`.
    pub fn recent_file_write_count_at(&self, path: &str, now: Timestamp) -> (r: u32)
        ensures
            r == fresh_count(writes_of(self@.recent_file_writes, path@), now) as u32,
    {
        let i = find_history(&self.recent_file_writes, path);
        if i < self.recent_file_writes.len() {
            assert(self@.recent_file_writes[i as int] == self.recent_file_writes@[i as int]@);
            count_fresh(&self.recent_file_writes[i].writes, now) as u32
        } else {
            0
        }
    }

    /// Counts the writes of a file within the loop window before the last file event.
    /// The answer goes by the times of the events alone and does not change as the clock
    /// goes on; `recent_file_write_count_at` answers for another time.
    pub fn recent_file_write_count(&self, path: &str) -> (r: u32)
        ensures
            r == (match self@.last_file_event_at {
                Some(now) => fresh_count(writes_of(self@.recent_file_writes, path@), now) as u32,
                None => 0,
            }),
    {
        match self.last_file_event_at {
            Some(now) => self.recent_file_write_count_at(path, now),
            None => 0,
        }
    }

    /// When the writes of a file within the loop window before `now` began.
    pub fn recent_file_write_started_before(&self, path: &str, now: Timestamp) -> (r: Option<
        Timestamp,
    >)
        ensures
            r == first_fresh(writes_of(self@.recent_file_writes, path@), now),
    {
        let at = find_history(&self.recent_file_writes, path);
        if at == self.recent_file_writes.len() {
            return None;
        }
        assert(self@.recent_file_writes[at as int] == self.recent_file_writes@[at as int]@);
        let writes = &self.recent_file_writes[at].writes;
        let mut i: usize = 0;
        assert(writes@.skip(0) =~= writes@);
        while i < writes.len()
            invariant
                i <= writes@.len(),
                writes@ == writes_of(self@.recent_file_writes, path@),
                first_fresh(writes@, now) == first_fresh(writes@.skip(i as int), now),
            decreases writes@.len() - i,
        {
            if !stale(writes[i], now) {
                return Some(writes[i].timestamp);
            }
            assert(writes@.skip(i as int).drop_first() =~= writes@.skip(i + 1));
            i = i + 1;
        }
        None
    }

    /// When the writes of a file within the loop window before the last file event began.
    /// The answer goes by the times of the events alone and does not change as the clock
    /// goes on; `recent_file_write_started_before` answers for another time.
    pub fn recent_file_write_started_at(&self, path: &str) -> (r: Option<Timestamp>)
        ensures
            r == (match self@.last_file_event_at {
                Some(now) => first_fresh(writes_of(self@.recent_file_writes, path@), now),
                None => None,
            }),
    {
        match self.last_file_event_at {
            Some(now) => self.recent_file_write_started_before(path, now),
            None => None,
        }
    }

    /// Decides whether any write lies within the loop window before `now`.
    pub fn has_recent_file_writes_at(&self, now: Timestamp) -> (r: bool)
        ensures
            r == any_fresh(self@.recent_file_writes, now),
    {
        let mut i: usize = 0;
        while i < self.recent_file_writes.len()
            invariant
                i <= self.recent_file_writes@.len(),
                forall|k: int|
                    0 <= k < i ==> fresh_count(
                        (#[trigger] self@.recent_file_writes[k]).writes,
                        now,
                    ) == 0,
            decreases self.recent_file_writes@.len() - i,
        {
            assert(self@.recent_file_writes[i as int] == self.recent_file_writes@[i as int]@);
            if count_fresh(&self.recent_file_writes[i].writes, now) > 0 {
                return true;
            }
            i = i + 1;
        }
        false
    }

    /// Decides whether any write lies within the loop window before the last file event.
    /// The answer goes by the times of the events alone and does not change as the clock
    /// goes on; `has_recent_file_writes_at` answers for another time.
    pub fn has_recent_file_writes(&self) -> (r: bool)
        ensures
            r == (match self@.last_file_event_at {
                Some(now) => any_fresh(self@.recent_file_writes, now),
                None => false,
            }),
    {
        match self.last_file_event_at {
            Some(now) => self.has_recent_file_writes_at(now),
            None => false,
        }
    }

    /// Which kinds of activity lie no longer ago than a window reaches.
    pub fn activity_signals(&self, now: Timestamp, window: Span) -> (r: ActivitySignals)
        ensures
            r.main == is_recent(self@.last_main_jsonl_record_at, now, window),
            r.sidechain == is_recent(self@.last_sidechain_jsonl_record_at, now, window),
            r.file == is_recent(self@.last_file_event_at, now, window),
            r.hook == is_recent(self@.last_hook_event_at, now, window),
    {
        ActivitySignals {
            main: recent(self.last_main_jsonl_record_at, now, window),
            sidechain: recent(self.last_sidechain_jsonl_record_at, now, window),
            file: recent(self.last_file_event_at, now, window),
            hook: recent(self.last_hook_event_at, now, window),
        }
    }
}

/// The position of an answered call lies within the calls.
pub proof fn lemma_result_position(
    calls: Seq<ToolCall>,
    tool_name: Option<String>,
    is_sidechain: bool,
)
    ensures
        -1 <= result_position(calls, tool_name, is_sidechain) < calls.len(),
    decreases calls.len(),
{
    if calls.len() > 0 && !answers(calls.last(), tool_name, is_sidechain) {
        lemma_result_position(calls.drop_last(), tool_name, is_sidechain);
    }
}

} // verus!
