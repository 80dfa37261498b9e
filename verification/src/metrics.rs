//! Silence, I/O and token activity.

use crate::clock::{either, first_of, latest, latest_of, Moment, Span, Timestamp};
use crate::json::{Json, JsonMember};
use crate::state::{
    contains_test_failure_pattern, is_recent, recent, reports_failure, AgentState, StateView,
};
use crate::text::{blank, chars_of, is_blank, join, joined, same_text, views};
use crate::types::text_view;
use vstd::prelude::*;

verus! {

/// The most recent externally visible activity of a session.
pub open spec fn last_activity(s: StateView) -> Option<Timestamp> {
    let visible = latest(
        latest(s.last_jsonl_record_at, s.last_file_event_at),
        s.last_hook_event_at,
    );
    first_of(first_of(visible, s.last_event_at), s.session_started_at)
}

/// How long a session has been silent, in nanoseconds. A session without any
/// activity, or with its last activity in the future, is not silent.
pub open spec fn silence(s: StateView, now: Timestamp) -> int {
    match last_activity(s) {
        Some(last) => match now.since(last) {
            Some(elapsed) => elapsed,
            None => 0,
        },
        None => 0,
    }
}

/// Computes silence using the most recent externally visible activity source.
pub fn compute_silence(state: &AgentState, now: Timestamp) -> (r: Span)
    ensures
        r.nanos == silence(state@, now),
{
    let visible = latest_of(
        latest_of(state.last_jsonl_record_at, state.last_file_event_at),
        state.last_hook_event_at,
    );
    match either(either(visible, state.last_event_at), state.session_started_at) {
        Some(last) => match now.checked_since(last) {
            Some(elapsed) => elapsed,
            None => Span::zero(),
        },
        None => Span::zero(),
    }
}

/// Decides whether any I/O was observed within a window before `now`.
pub fn has_recent_io_activity(state: &AgentState, now: Timestamp, window: Span) -> (r: bool)
    ensures
        r == is_recent(state@.last_io_activity_at, now, window),
{
    recent(state.last_io_activity_at, now, window)
}

/// Delta produced when token totals advance.
#[derive(Debug, Clone, Copy, PartialEq, Eq, Structural)]
pub struct TokenDelta {
    pub input: u64,
    pub output: u64,
    pub elapsed: Span,
}

/// Tracks cumulative token counters and detects when they stop moving.
#[derive(Debug, Clone, Copy)]
pub struct TokenTracker {
    last_input: u64,
    last_output: u64,
    last_seen_at: Moment,
}

/// The difference of two counters; zero where the counter went back.
pub open spec fn advance(from: u64, to: u64) -> u64 {
    if to >= from {
        (to - from) as u64
    } else {
        0
    }
}

/// The span between two readings of the monotonic clock, in nanoseconds; zero
/// where the second one is the earlier one.
pub open spec fn span_between(from: Moment, to: Moment) -> int {
    match to.since(from) {
        Some(elapsed) => elapsed,
        None => 0,
    }
}

impl Default for TokenTracker {
    fn default() -> (r: Self)
        ensures
            r.input() == 0,
            r.output() == 0,
    {
        TokenTracker::new(Moment::now())
    }
}

impl TokenTracker {
    /// The input total last seen.
    pub closed spec fn input(self) -> u64 {
        self.last_input
    }

    /// The output total last seen.
    pub closed spec fn output(self) -> u64 {
        self.last_output
    }

    /// When the totals were last seen.
    pub closed spec fn seen_at(self) -> Moment {
        self.last_seen_at
    }

    /// A tracker that has seen no tokens at `now`.
    pub fn new(now: Moment) -> (r: Self)
        ensures
            r.input() == 0,
            r.output() == 0,
            r.seen_at() == now,
    {
        TokenTracker { last_input: 0, last_output: 0, last_seen_at: now }
    }

    /// Records the totals at the current time and returns how far they moved.
    pub fn update(&mut self, input: u64, output: u64) -> (r: TokenDelta)
        ensures
            final(self).input() == input,
            final(self).output() == output,
            r.input == advance(old(self).input(), input),
            r.output == advance(old(self).output(), output),
            r.elapsed.nanos == span_between(old(self).seen_at(), final(self).seen_at()),
    {
        let now = Moment::now();
        self.update_at(input, output, now)
    }

    /// Decides whether the totals were last seen longer ago than a threshold.
    pub fn is_frozen(&self, threshold: Span) -> (r: bool)
        ensures
            exists|now: Moment|
                r == (#[trigger] span_between(self.seen_at(), now) > threshold.nanos),
    {
        let now = Moment::now();
        self.is_frozen_at(now, threshold)
    }

    /// Records the totals at `now` and returns how far they moved.
    pub fn update_at(&mut self, input: u64, output: u64, now: Moment) -> (r: TokenDelta)
        ensures
            final(self).input() == input,
            final(self).output() == output,
            final(self).seen_at() == now,
            r.input == advance(old(self).input(), input),
            r.output == advance(old(self).output(), output),
            r.elapsed.nanos == span_between(old(self).seen_at(), now),
    {
        let delta = TokenDelta {
            input: input.saturating_sub(self.last_input),
            output: output.saturating_sub(self.last_output),
            elapsed: now.saturating_since(self.last_seen_at),
        };
        self.last_input = input;
        self.last_output = output;
        self.last_seen_at = now;
        delta
    }

    /// Decides whether at `now` the totals were last seen longer ago than a
    /// threshold.
    pub fn is_frozen_at(&self, now: Moment, threshold: Span) -> (r: bool)
        ensures
            r == (span_between(self.seen_at(), now) > threshold.nanos),
    {
        now.saturating_since(self.last_seen_at).nanos > threshold.nanos
    }
}

/// Minimal shape of a session record that the metric helpers need.
#[derive(Debug, PartialEq, Eq)]
pub struct JsonlRecord {
    pub record_type: Option<String>,
    pub is_sidechain: Option<bool>,
    pub message: Option<JsonlMessage>,
    pub tool_use_result: Option<ToolUseResult>,
}

/// The message of a session record.
#[derive(Debug, PartialEq, Eq)]
pub struct JsonlMessage {
    pub content: Option<JsonlMessageContent>,
    pub usage: Option<JsonlUsage>,
}

/// The content of a message.
#[derive(Debug, PartialEq, Eq)]
pub enum JsonlMessageContent {
    Text(String),
    Items(Vec<JsonlMessageItem>),
}

/// An item of a message.
#[derive(Debug, PartialEq, Eq)]
pub struct JsonlMessageItem {
    pub item_type: Option<String>,
    pub is_error: Option<bool>,
    pub content: Option<Json>,
}

/// Token totals of a message.
#[derive(Debug, Clone, Copy, PartialEq, Eq, Structural)]
pub struct JsonlUsage {
    pub input_tokens: Option<u64>,
    pub output_tokens: Option<u64>,
}

/// The envelope of a tool result.
#[derive(Debug, PartialEq, Eq)]
pub struct ToolUseResult {
    pub stderr: Option<String>,
    pub interrupted: Option<bool>,
}

/// The items of a record's message.
pub open spec fn record_items(record: JsonlRecord) -> Seq<JsonlMessageItem> {
    match record.message {
        Some(message) => match message.content {
            Some(JsonlMessageContent::Items(items)) => items@,
            _ => seq![],
        },
        None => seq![],
    }
}

/// The position of the first tool result among items from a position on; the
/// number of items where there is none.
pub open spec fn result_index(items: Seq<JsonlMessageItem>, from: int) -> int
    decreases items.len() - from,
{
    if from < 0 || from >= items.len() {
        items.len() as int
    } else if text_view(items[from].item_type) == Some("tool_result"@) {
        from
    } else {
        result_index(items, from + 1)
    }
}

/// The first tool result of a record.
pub open spec fn first_result(record: JsonlRecord) -> Option<JsonlMessageItem> {
    let items = record_items(record);
    let i = result_index(items, 0);
    if 0 <= i < items.len() {
        Some(items[i])
    } else {
        None
    }
}

/// The non-empty texts of a document, in document order.
pub open spec fn all_texts(value: Json) -> Seq<String>
    decreases value, 1int,
{
    match value {
        Json::Text(t) => if t@.len() > 0 {
            seq![t]
        } else {
            seq![]
        },
        Json::Array(items) => all_item_texts(items@),
        Json::Object(members) => all_member_texts(members@),
        _ => seq![],
    }
}

/// The non-empty texts of a list of documents.
pub open spec fn all_item_texts(items: Seq<Json>) -> Seq<String>
    decreases items, 0int,
{
    if items.len() == 0 {
        seq![]
    } else {
        all_item_texts(items.drop_last()) + all_texts(items.last())
    }
}

/// The non-empty texts of the members of an object.
pub open spec fn all_member_texts(members: Seq<JsonMember>) -> Seq<String>
    decreases members, 0int,
{
    if members.len() == 0 {
        seq![]
    } else {
        all_member_texts(members.drop_last()) + all_texts(members.last().value)
    }
}

/// The texts of a document as one text, on lines of their own.
pub open spec fn flattened(value: Json) -> Option<Seq<char>> {
    if all_texts(value).len() == 0 {
        None
    } else {
        Some(joined(views(all_texts(value)), "\n"@))
    }
}

fn collect_strings(value: &Json, strings: &mut Vec<String>)
    ensures
        final(strings)@ == old(strings)@ + all_texts(*value),
    decreases *value,
{
    let ghost before = strings@;
    match value {
        Json::Text(t) => {
            if chars_of(t.as_str()).len() > 0 {
                strings.push(t.clone());
            }
            assert(strings@ =~= before + all_texts(*value));
        },
        Json::Array(items) => {
            let ghost all = items@;
            let mut i: usize = 0;
            assert(decreases_to!(*value => *items));
            assert(strings@ =~= before + all_item_texts(all.take(0)));
            while i < items.len()
                invariant
                    i <= items@.len(),
                    decreases_to!(*value => *items),
                    all == items@,
                    strings@ == before + all_item_texts(all.take(i as int)),
                decreases items@.len() - i,
            {
                proof {
                    assert(decreases_to!(*items => all));
                    assert(decreases_to!(all => all[i as int]));
                    assert(all.take(i + 1).drop_last() =~= all.take(i as int));
                    assert(all.take(i + 1).last() == all[i as int]);
                }
                collect_strings(&items[i], strings);
                assert(strings@ =~= before + all_item_texts(all.take(i + 1)));
                i = i + 1;
            }
            assert(all.take(i as int) =~= all);
        },
        Json::Object(members) => {
            let ghost all = members@;
            let mut i: usize = 0;
            assert(decreases_to!(*value => *members));
            assert(strings@ =~= before + all_member_texts(all.take(0)));
            while i < members.len()
                invariant
                    i <= members@.len(),
                    decreases_to!(*value => *members),
                    all == members@,
                    strings@ == before + all_member_texts(all.take(i as int)),
                decreases members@.len() - i,
            {
                proof {
                    assert(decreases_to!(*members => all));
                    assert(decreases_to!(all => all[i as int]));
                    assert(decreases_to!(all[i as int] => all[i as int].value));
                    assert(all.take(i + 1).drop_last() =~= all.take(i as int));
                    assert(all.take(i + 1).last() == all[i as int]);
                }
                collect_strings(&members[i].value, strings);
                assert(strings@ =~= before + all_member_texts(all.take(i + 1)));
                i = i + 1;
            }
            assert(all.take(i as int) =~= all);
        },
        _ => {
            assert(strings@ =~= before + all_texts(*value));
        },
    }
}

fn flatten_json_strings(value: &Json) -> (r: Option<String>)
    ensures
        text_view(r) == flattened(*value),
{
    let mut strings: Vec<String> = Vec::new();
    collect_strings(value, &mut strings);
    assert(strings@ =~= all_texts(*value));
    if strings.len() == 0 {
        None
    } else {
        Some(join(&strings, "\n"))
    }
}

impl JsonlRecord {
    fn find_result(&self) -> (r: Option<&JsonlMessageItem>)
        ensures
            match r {
                Some(item) => first_result(*self) == Some(*item),
                None => first_result(*self) is None,
            },
    {
        let message = match &self.message {
            Some(message) => message,
            None => {
                return None;
            },
        };
        let items = match &message.content {
            Some(JsonlMessageContent::Items(items)) => items,
            _ => {
                return None;
            },
        };
        let mut i: usize = 0;
        while i < items.len()
            invariant
                i <= items@.len(),
                items@ == record_items(*self),
                result_index(items@, 0) == result_index(items@, i as int),
            decreases items@.len() - i,
        {
            let is_result = match &items[i].item_type {
                Some(t) => same_text(t.as_str(), "tool_result"),
                None => false,
            };
            if is_result {
                return Some(&items[i]);
            }
            i = i + 1;
        }
        None
    }

    /// The error flag of the first tool result.
    pub fn tool_result_is_error(&self) -> (r: Option<bool>)
        ensures
            r == (match first_result(*self) {
                Some(item) => item.is_error,
                None => None,
            }),
    {
        match self.find_result() {
            Some(item) => item.is_error,
            None => None,
        }
    }

    /// The content of the first tool result as one text.
    pub fn tool_result_content(&self) -> (r: Option<String>)
        ensures
            text_view(r) == result_text(*self),
    {
        match self.find_result() {
            Some(item) => match &item.content {
                Some(content) => flatten_json_strings(content),
                None => None,
            },
            None => None,
        }
    }
}

/// The content of a record's first tool result as one text.
pub open spec fn result_text(record: JsonlRecord) -> Option<Seq<char>> {
    match first_result(record) {
        Some(item) => match item.content {
            Some(content) => flattened(content),
            None => None,
        },
        None => None,
    }
}

/// Whether a record reports a failed command: its error flag, something on
/// `stderr`, an interruption, or a failure pattern in its content.
pub open spec fn command_failed(record: JsonlRecord) -> bool {
    ||| first_result(record) is Some && first_result(record)->0.is_error == Some(true)
    ||| record.tool_use_result is Some && record.tool_use_result->0.stderr is Some && !is_blank(
        record.tool_use_result->0.stderr->0@,
    )
    ||| record.tool_use_result is Some && record.tool_use_result->0.interrupted == Some(true)
    ||| result_text(record) is Some && reports_failure(result_text(record)->0)
}

/// Decides whether a record reports a failed command.
pub fn is_bash_failure(record: &JsonlRecord) -> (r: bool)
    ensures
        r == command_failed(*record),
{
    if let Some(true) = record.tool_result_is_error() {
        return true;
    }
    if let Some(result) = &record.tool_use_result {
        if let Some(stderr) = &result.stderr {
            if !blank(stderr.as_str()) {
                return true;
            }
        }
        if let Some(true) = result.interrupted {
            return true;
        }
    }
    match record.tool_result_content() {
        Some(content) => contains_test_failure_pattern(content.as_str()),
        None => false,
    }
}

} // verus!
