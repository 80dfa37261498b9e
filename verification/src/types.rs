//! Events and observations of an agent session.

use crate::clock::{Span, Timestamp};
use crate::text::views;
use vstd::prelude::*;

verus! {

/// A single-precision number as its IEEE 754 bit pattern.
///
/// Percentages and rates are carried through and compared with fixed bounds;
/// both work on the bit pattern.
#[derive(Debug, Clone, Copy, PartialEq, Eq, Structural)]
pub struct FloatBits {
    pub bits: u32,
}

impl FloatBits {
    /// Whether the pattern stands for a number.
    pub open spec fn is_number(self) -> bool {
        self.bits <= 0x7f80_0000 || 0x8000_0000 <= self.bits <= 0xff80_0000
    }

    /// Whether the number is less than the positive one whose pattern is `bound`.
    pub open spec fn less_than(self, bound: u32) -> bool {
        self.is_number() && (self.bits >= 0x8000_0000 || self.bits < bound)
    }

    /// Whether the number is greater than zero.
    pub open spec fn positive(self) -> bool {
        0 < self.bits <= 0x7f80_0000
    }

    /// Decides whether the number is less than the positive one whose pattern
    /// is `bound`.
    pub fn below(self, bound: u32) -> (r: bool)
        ensures
            r == self.less_than(bound),
    {
        if self.bits >= 0x8000_0000 {
            self.bits <= 0xff80_0000
        } else {
            self.bits <= 0x7f80_0000 && self.bits < bound
        }
    }

    /// Decides whether the number is greater than zero.
    pub fn above_zero(self) -> (r: bool)
        ensures
            r == self.positive(),
    {
        0 < self.bits && self.bits <= 0x7f80_0000
    }

    /// A whole number that orders the patterns of numbers as the numbers are
    /// ordered.
    pub open spec fn order(self) -> int {
        if self.bits < 0x8000_0000 {
            self.bits as int
        } else {
            0x8000_0000 - self.bits
        }
    }

    /// Whether the number is greater than another one.
    pub open spec fn greater_than(self, other: FloatBits) -> bool {
        self.is_number() && other.is_number() && self.order() > other.order()
    }

    /// Decides whether the number is greater than another one.
    pub fn exceeds(self, other: FloatBits) -> (r: bool)
        ensures
            r == self.greater_than(other),
    {
        let a: i64 = if self.bits < 0x8000_0000 {
            self.bits as i64
        } else {
            0x8000_0000 - self.bits as i64
        };
        let b: i64 = if other.bits < 0x8000_0000 {
            other.bits as i64
        } else {
            0x8000_0000 - other.bits as i64
        };
        self.number() && other.number() && a > b
    }

    /// Decides whether the pattern stands for a number.
    pub fn number(self) -> (r: bool)
        ensures
            r == self.is_number(),
    {
        self.bits <= 0x7f80_0000 || (0x8000_0000 <= self.bits && self.bits <= 0xff80_0000)
    }

    /// The number zero.
    pub fn zero() -> (r: FloatBits)
        ensures
            r.bits == 0,
    {
        FloatBits { bits: 0 }
    }
}

/// The bit pattern of one half.
pub const HALF_BITS: u32 = 0x3f00_0000;

/// The bit pattern of one.
pub const ONE_BITS: u32 = 0x3f80_0000;

/// The view of a text that may be missing.
pub open spec fn text_view(text: Option<String>) -> Option<Seq<char>> {
    match text {
        Some(t) => Some(t@),
        None => None,
    }
}

/// High-level classification of what the agent appears to be doing.
#[derive(Debug, PartialEq, Eq)]
pub enum AgentPhase {
    /// The session has started, but there is not yet enough activity to classify it.
    Initializing,
    /// The agent is actively making forward progress.
    Working,
    /// The agent is active but currently reasoning instead of producing visible output.
    Thinking,
    /// A tool call appears to be stuck waiting on the API for the given duration.
    ApiHang(Span),
    /// The same file is being rewritten repeatedly without meaningful progress.
    ToolLoop {
        /// File path being rewritten in a loop.
        file: String,
        /// Number of recent rewrites observed for the file.
        count: u32,
        /// When the repeating rewrite pattern began.
        since: Timestamp,
    },
    /// The agent is repeatedly running a failing test command.
    TestLoop {
        /// Most recent repeated test command.
        command: String,
        /// Number of consecutive failed test runs.
        failure_count: u32,
    },
    /// The active task is blocked by external dependencies or prerequisites.
    TaskBlocked {
        /// Identifier for the current in-progress task.
        task_id: String,
        /// Blocking task identifiers that are not yet completed.
        blocked_by: Vec<String>,
    },
    /// A compact boundary was observed and the session context was reset.
    ContextReset,
    /// The agent modified files outside the configured allowed scope.
    ScopeLeaking {
        /// File path outside the configured guard.
        violating_file: String,
        /// Guard path the session was expected to stay within.
        guard_path: String,
    },
    /// No meaningful activity has been observed for the given duration.
    Idle(Span),
    /// The session is unresponsive or the backing process is no longer alive.
    Dead,
}

/// The value of an [`AgentPhase`].
pub enum PhaseView {
    Initializing,
    Working,
    Thinking,
    ApiHang(Span),
    ToolLoop { file: Seq<char>, count: u32, since: Timestamp },
    TestLoop { command: Seq<char>, failure_count: u32 },
    TaskBlocked { task_id: Seq<char>, blocked_by: Seq<Seq<char>> },
    ContextReset,
    ScopeLeaking { violating_file: Seq<char>, guard_path: Seq<char> },
    Idle(Span),
    Dead,
}

impl View for AgentPhase {
    type V = PhaseView;

    open spec fn view(&self) -> PhaseView {
        match *self {
            AgentPhase::Initializing => PhaseView::Initializing,
            AgentPhase::Working => PhaseView::Working,
            AgentPhase::Thinking => PhaseView::Thinking,
            AgentPhase::ApiHang(span) => PhaseView::ApiHang(span),
            AgentPhase::ToolLoop { file, count, since } => PhaseView::ToolLoop {
                file: file@,
                count,
                since,
            },
            AgentPhase::TestLoop { command, failure_count } => PhaseView::TestLoop {
                command: command@,
                failure_count,
            },
            AgentPhase::TaskBlocked { task_id, blocked_by } => PhaseView::TaskBlocked {
                task_id: task_id@,
                blocked_by: views(blocked_by@),
            },
            AgentPhase::ContextReset => PhaseView::ContextReset,
            AgentPhase::ScopeLeaking { violating_file, guard_path } => PhaseView::ScopeLeaking {
                violating_file: violating_file@,
                guard_path: guard_path@,
            },
            AgentPhase::Idle(span) => PhaseView::Idle(span),
            AgentPhase::Dead => PhaseView::Dead,
        }
    }
}

impl Clone for AgentPhase {
    fn clone(&self) -> (r: Self)
        ensures
            r@ == self@,
    {
        match self {
            AgentPhase::Initializing => AgentPhase::Initializing,
            AgentPhase::Working => AgentPhase::Working,
            AgentPhase::Thinking => AgentPhase::Thinking,
            AgentPhase::ApiHang(span) => AgentPhase::ApiHang(*span),
            AgentPhase::ToolLoop { file, count, since } => AgentPhase::ToolLoop {
                file: file.clone(),
                count: *count,
                since: *since,
            },
            AgentPhase::TestLoop { command, failure_count } => AgentPhase::TestLoop {
                command: command.clone(),
                failure_count: *failure_count,
            },
            AgentPhase::TaskBlocked { task_id, blocked_by } => {
                let copy = copy_texts(blocked_by);
                AgentPhase::TaskBlocked { task_id: task_id.clone(), blocked_by: copy }
            },
            AgentPhase::ContextReset => AgentPhase::ContextReset,
            AgentPhase::ScopeLeaking { violating_file, guard_path } => AgentPhase::ScopeLeaking {
                violating_file: violating_file.clone(),
                guard_path: guard_path.clone(),
            },
            AgentPhase::Idle(span) => AgentPhase::Idle(*span),
            AgentPhase::Dead => AgentPhase::Dead,
        }
    }
}

impl Default for AgentPhase {
    fn default() -> (r: Self)
        ensures
            r@ == PhaseView::Initializing,
    {
        AgentPhase::Initializing
    }
}

/// Copies a list of texts.
pub fn copy_texts(list: &Vec<String>) -> (r: Vec<String>)
    ensures
        r@ == list@,
{
    let copy = list.clone();
    assert(copy@ =~= list@);
    copy
}

/// Approximate line-level change summary extracted from editable tool inputs.
#[derive(Debug, Clone, Copy, PartialEq, Eq, Structural)]
pub struct ToolLineChange {
    /// Number of lines present in newly written content.
    pub added: u32,
    /// Number of lines replaced or removed from prior content.
    pub removed: u32,
}

/// Normalized record of a single tool invocation.
///
/// This type is stored in `AgentState::recent_tool_calls` so loop detection can
/// work from a compact event history instead of raw session records.
#[derive(Debug, PartialEq, Eq)]
pub struct ToolCall {
    /// When the tool invocation was emitted by the session log.
    pub timestamp: Timestamp,
    /// The tool name, such as `Read` or `Bash`.
    pub tool_name: String,
    /// The primary file path associated with the call, when one exists.
    pub file_path: Option<String>,
    /// The shell command for command-driven tools such as `Bash`, when present.
    pub command: Option<String>,
    /// Approximate line delta derived from tool input when available.
    pub line_change: Option<ToolLineChange>,
    /// Whether the most recently observed result for this call was an error.
    pub is_error: bool,
    /// Whether this tool call is expected to modify a file.
    pub is_write: bool,
    /// Whether the call came from a sidechain record.
    pub is_sidechain: bool,
}

impl Clone for ToolCall {
    fn clone(&self) -> (r: Self)
        ensures
            r == *self,
    {
        ToolCall {
            timestamp: self.timestamp,
            tool_name: self.tool_name.clone(),
            file_path: self.file_path.clone(),
            command: self.command.clone(),
            line_change: self.line_change,
            is_error: self.is_error,
            is_write: self.is_write,
            is_sidechain: self.is_sidechain,
        }
    }
}

/// Summary statistics derived from recent tool activity.
#[derive(Debug, PartialEq, Eq)]
pub struct LoopScore {
    /// Number of recent rewrites to the most frequently written file.
    pub file_rewrites: u32,
    /// File path that appears most often in the recent tool-call window.
    pub most_written_file: Option<String>,
    /// Number of consecutive failed test-oriented tool calls.
    pub consecutive_test_failures: u32,
}

impl Clone for LoopScore {
    fn clone(&self) -> (r: Self)
        ensures
            r == *self,
    {
        LoopScore {
            file_rewrites: self.file_rewrites,
            most_written_file: self.most_written_file.clone(),
            consecutive_test_failures: self.consecutive_test_failures,
        }
    }
}

impl Default for LoopScore {
    fn default() -> (r: Self)
        ensures
            r.file_rewrites == 0,
            r.most_written_file is None,
            r.consecutive_test_failures == 0,
    {
        LoopScore { file_rewrites: 0, most_written_file: None, consecutive_test_failures: 0 }
    }
}

/// Minimal task record loaded from a task list.
#[derive(Debug, PartialEq, Eq)]
pub struct TaskFile {
    /// Task identifier within the task list.
    pub id: String,
    /// Task lifecycle status such as `pending`, `in_progress`, or `completed`.
    pub status: String,
    /// Claimed owner name when the task list belongs to a multi-agent team.
    pub owner: Option<String>,
    /// Identifiers of the tasks that have to be completed first.
    pub blocked_by: Vec<String>,
}

/// The value of a [`TaskFile`].
pub struct TaskView {
    pub id: Seq<char>,
    pub status: Seq<char>,
    pub owner: Option<Seq<char>>,
    pub blocked_by: Seq<Seq<char>>,
}

impl View for TaskFile {
    type V = TaskView;

    open spec fn view(&self) -> TaskView {
        TaskView {
            id: self.id@,
            status: self.status@,
            owner: text_view(self.owner),
            blocked_by: views(self.blocked_by@),
        }
    }
}

impl Clone for TaskFile {
    fn clone(&self) -> (r: Self)
        ensures
            r@ == self@,
    {
        TaskFile {
            id: self.id.clone(),
            status: self.status.clone(),
            owner: self.owner.clone(),
            blocked_by: copy_texts(&self.blocked_by),
        }
    }
}

impl Default for TaskFile {
    fn default() -> (r: Self)
        ensures
            r.id@ == Seq::<char>::empty(),
            r.status@ == Seq::<char>::empty(),
            r.owner is None,
            r.blocked_by@ == Seq::<String>::empty(),
    {
        TaskFile {
            id: String::new(),
            status: String::new(),
            owner: None,
            blocked_by: Vec::new(),
        }
    }
}

/// File-system change kind tracked by the watcher layer and tool activity parser.
#[derive(Debug, Clone, Copy, PartialEq, Eq, Structural)]
pub enum FileChangeKind {
    /// A file was read without modification.
    Read,
    /// A file was created.
    Created,
    /// A file's contents or metadata changed.
    Modified,
    /// A file was deleted.
    Deleted,
}

/// Description of a single file activity event.
#[derive(Debug, PartialEq, Eq)]
pub struct FileModification {
    /// When the file event was observed.
    pub timestamp: Timestamp,
    /// File path associated with the event.
    pub path: String,
    /// What kind of file change occurred.
    pub kind: FileChangeKind,
    /// Approximate line delta extracted from tool input, when available.
    pub line_change: Option<ToolLineChange>,
}

impl Clone for FileModification {
    fn clone(&self) -> (r: Self)
        ensures
            r == *self,
    {
        FileModification {
            timestamp: self.timestamp,
            path: self.path.clone(),
            kind: self.kind,
            line_change: self.line_change,
        }
    }
}

/// Token-level activity reported by session logs.
#[derive(Debug, PartialEq, Eq)]
pub struct TokenActivity {
    /// When the token event was observed.
    pub timestamp: Timestamp,
    /// Number of input tokens counted for the associated turn, when known.
    pub input_tokens: u64,
    /// Number of output tokens produced for the associated turn, when known.
    pub output_tokens: u64,
    /// Stop reason for the turn, such as `tool_use` or `end_turn`.
    pub stop_reason: Option<String>,
    /// Whether the token update came from a sidechain record.
    pub is_sidechain: bool,
}

impl Clone for TokenActivity {
    fn clone(&self) -> (r: Self)
        ensures
            r == *self,
    {
        TokenActivity {
            timestamp: self.timestamp,
            input_tokens: self.input_tokens,
            output_tokens: self.output_tokens,
            stop_reason: self.stop_reason.clone(),
            is_sidechain: self.is_sidechain,
        }
    }
}

/// Point-in-time process snapshot collected from a process monitor.
#[derive(Debug, Clone, Copy, PartialEq, Eq, Structural)]
pub struct ProcessMetrics {
    /// When the snapshot was taken.
    pub timestamp: Timestamp,
    /// Whether the process still exists at sample time.
    pub process_alive: bool,
    /// CPU usage percentage for the sampled interval.
    pub cpu_percent: FloatBits,
    /// Resident memory size in bytes.
    pub rss_bytes: u64,
    /// Virtual memory size in bytes.
    pub virtual_bytes: u64,
    /// Cumulative bytes read from storage.
    pub io_read_bytes: u64,
    /// Cumulative bytes written to storage.
    pub io_write_bytes: u64,
    /// Read throughput in bytes per second over the sampled interval.
    pub io_read_rate: FloatBits,
    /// Write throughput in bytes per second over the sampled interval.
    pub io_write_rate: FloatBits,
}

/// Normalized event stream consumed by the state machine.
///
/// Most variants come directly from session logs. `FileModified` and
/// `ProcessMetrics` are produced by local observers so the classifier can combine
/// user-visible activity with machine-level signals.
#[derive(Debug, PartialEq, Eq)]
pub enum AgentEvent {
    /// Session lifecycle marker carrying the canonical session identifier.
    SessionStart { timestamp: Timestamp, session_id: String },
    /// Plain user-authored activity that should count as recent session activity.
    UserMessage { timestamp: Timestamp, is_sidechain: bool },
    /// Tool invocation.
    ToolCall(ToolCall),
    /// Result emitted after a tool invocation completes.
    ToolResult {
        /// Event timestamp.
        timestamp: Timestamp,
        /// Tool name when the source record provides it.
        tool_name: Option<String>,
        /// Whether the tool result represents an error.
        is_error: bool,
        /// Text content or stdout captured from the tool result, when available.
        output: Option<String>,
        /// Stderr captured from the tool result envelope, when available.
        stderr: Option<String>,
        /// Whether the tool execution was interrupted.
        interrupted: bool,
        /// Path referenced by a `<persisted-output>` pointer, when present.
        persisted_output_path: Option<String>,
        /// Whether the tool result came from a sidechain record.
        is_sidechain: bool,
    },
    /// Token accounting activity observed in the session log.
    TokenActivity(TokenActivity),
    /// File-system activity observed inside the watched project.
    FileModified(FileModification),
    /// Process snapshot observed by the process monitor.
    ProcessMetrics(ProcessMetrics),
    /// Compact boundary marker.
    CompactBoundary { timestamp: Timestamp, is_sidechain: bool },
}

impl AgentEvent {
    /// The canonical timestamp of an event.
    pub open spec fn time(self) -> Timestamp {
        match self {
            AgentEvent::SessionStart { timestamp, .. } => timestamp,
            AgentEvent::UserMessage { timestamp, .. } => timestamp,
            AgentEvent::ToolCall(call) => call.timestamp,
            AgentEvent::ToolResult { timestamp, .. } => timestamp,
            AgentEvent::TokenActivity(activity) => activity.timestamp,
            AgentEvent::FileModified(event) => event.timestamp,
            AgentEvent::ProcessMetrics(metrics) => metrics.timestamp,
            AgentEvent::CompactBoundary { timestamp, .. } => timestamp,
        }
    }

    /// Returns the canonical timestamp for this event.
    pub fn timestamp(&self) -> (r: Timestamp)
        ensures
            r == self.time(),
    {
        match self {
            AgentEvent::SessionStart { timestamp, .. } => *timestamp,
            AgentEvent::UserMessage { timestamp, .. } => *timestamp,
            AgentEvent::ToolCall(call) => call.timestamp,
            AgentEvent::ToolResult { timestamp, .. } => *timestamp,
            AgentEvent::TokenActivity(activity) => activity.timestamp,
            AgentEvent::FileModified(event) => event.timestamp,
            AgentEvent::ProcessMetrics(metrics) => metrics.timestamp,
            AgentEvent::CompactBoundary { timestamp, .. } => *timestamp,
        }
    }
}

impl Clone for AgentEvent {
    fn clone(&self) -> (r: Self)
        ensures
            r == *self,
    {
        match self {
            AgentEvent::SessionStart { timestamp, session_id } => AgentEvent::SessionStart {
                timestamp: *timestamp,
                session_id: session_id.clone(),
            },
            AgentEvent::UserMessage { timestamp, is_sidechain } => AgentEvent::UserMessage {
                timestamp: *timestamp,
                is_sidechain: *is_sidechain,
            },
            AgentEvent::ToolCall(call) => AgentEvent::ToolCall(call.clone()),
            AgentEvent::ToolResult {
                timestamp,
                tool_name,
                is_error,
                output,
                stderr,
                interrupted,
                persisted_output_path,
                is_sidechain,
            } => AgentEvent::ToolResult {
                timestamp: *timestamp,
                tool_name: tool_name.clone(),
                is_error: *is_error,
                output: output.clone(),
                stderr: stderr.clone(),
                interrupted: *interrupted,
                persisted_output_path: persisted_output_path.clone(),
                is_sidechain: *is_sidechain,
            },
            AgentEvent::TokenActivity(activity) => AgentEvent::TokenActivity(activity.clone()),
            AgentEvent::FileModified(event) => AgentEvent::FileModified(event.clone()),
            AgentEvent::ProcessMetrics(metrics) => AgentEvent::ProcessMetrics(*metrics),
            AgentEvent::CompactBoundary { timestamp, is_sidechain } => AgentEvent::CompactBoundary {
                timestamp: *timestamp,
                is_sidechain: *is_sidechain,
            },
        }
    }
}

/// The value of a [`ToolCall`].
pub struct CallView {
    pub timestamp: Timestamp,
    pub tool_name: Seq<char>,
    pub file_path: Option<Seq<char>>,
    pub command: Option<Seq<char>>,
    pub line_change: Option<ToolLineChange>,
    pub is_error: bool,
    pub is_write: bool,
    pub is_sidechain: bool,
}

impl View for ToolCall {
    type V = CallView;

    open spec fn view(&self) -> CallView {
        CallView {
            timestamp: self.timestamp,
            tool_name: self.tool_name@,
            file_path: text_view(self.file_path),
            command: text_view(self.command),
            line_change: self.line_change,
            is_error: self.is_error,
            is_write: self.is_write,
            is_sidechain: self.is_sidechain,
        }
    }
}

/// The value of an [`AgentEvent`].
pub enum EventView {
    SessionStart { timestamp: Timestamp, session_id: Seq<char> },
    UserMessage { timestamp: Timestamp, is_sidechain: bool },
    ToolCall(CallView),
    ToolResult {
        timestamp: Timestamp,
        tool_name: Option<Seq<char>>,
        is_error: bool,
        output: Option<Seq<char>>,
        stderr: Option<Seq<char>>,
        interrupted: bool,
        persisted_output_path: Option<Seq<char>>,
        is_sidechain: bool,
    },
    TokenActivity {
        timestamp: Timestamp,
        input_tokens: u64,
        output_tokens: u64,
        stop_reason: Option<Seq<char>>,
        is_sidechain: bool,
    },
    FileModified {
        timestamp: Timestamp,
        path: Seq<char>,
        kind: FileChangeKind,
        line_change: Option<ToolLineChange>,
    },
    ProcessMetrics(ProcessMetrics),
    CompactBoundary { timestamp: Timestamp, is_sidechain: bool },
}

impl View for AgentEvent {
    type V = EventView;

    open spec fn view(&self) -> EventView {
        match *self {
            AgentEvent::SessionStart { timestamp, session_id } => EventView::SessionStart {
                timestamp,
                session_id: session_id@,
            },
            AgentEvent::UserMessage { timestamp, is_sidechain } => EventView::UserMessage {
                timestamp,
                is_sidechain,
            },
            AgentEvent::ToolCall(call) => EventView::ToolCall(call@),
            AgentEvent::ToolResult {
                timestamp,
                tool_name,
                is_error,
                output,
                stderr,
                interrupted,
                persisted_output_path,
                is_sidechain,
            } => EventView::ToolResult {
                timestamp,
                tool_name: text_view(tool_name),
                is_error,
                output: text_view(output),
                stderr: text_view(stderr),
                interrupted,
                persisted_output_path: text_view(persisted_output_path),
                is_sidechain,
            },
            AgentEvent::TokenActivity(activity) => EventView::TokenActivity {
                timestamp: activity.timestamp,
                input_tokens: activity.input_tokens,
                output_tokens: activity.output_tokens,
                stop_reason: text_view(activity.stop_reason),
                is_sidechain: activity.is_sidechain,
            },
            AgentEvent::FileModified(event) => EventView::FileModified {
                timestamp: event.timestamp,
                path: event.path@,
                kind: event.kind,
                line_change: event.line_change,
            },
            AgentEvent::ProcessMetrics(metrics) => EventView::ProcessMetrics(metrics),
            AgentEvent::CompactBoundary { timestamp, is_sidechain } => EventView::CompactBoundary {
                timestamp,
                is_sidechain,
            },
        }
    }
}

/// The value of an event that may be missing.
pub open spec fn event_view(event: Option<AgentEvent>) -> Option<EventView> {
    match event {
        Some(e) => Some(e@),
        None => None,
    }
}

} // verus!
