//! Hooks: what the agent reports of itself becomes one event.

use crate::clock::Timestamp;
use crate::decode::{
    decode_text, field, is_record, read_field, record_like, target, text_field,
    value_field,
};
use crate::json::{
    find_member, json_text, lemma_member_has_its_key, member, member_text, parse_json, Json,
    JsonMember, JsonNumber,
};
use crate::loop_detector::{is_write_tool, is_write_tool_name};
use crate::paths::{join_path, joined_path};
use crate::session::{
    extract_command, extract_file_path, extract_line_change, input_file, line_change,
};
use crate::text::{
    contains_text, decimal, has_text, join, joined, lemma_views_push, push_decimal, same_text,
    views,
};
use crate::types::{text_view, AgentEvent, CallView, EventView, ToolCall};
use vstd::prelude::*;

verus! {

/// What a hook is told.
#[derive(Debug)]
pub struct HookPayload {
    pub hook_event_name: Option<String>,
    pub session_id: String,
    pub tool_name: Option<String>,
    pub tool_input: Option<Json>,
    pub tool_response: Option<Json>,
}

/// Whether a document is a hook payload. An array holds all of its fields.
pub open spec fn is_payload(json: Json) -> bool {
    &&& is_record(json, 5)
    &&& json matches Json::Array(items) ==> items@.len() == 5
    &&& text_field(field(json, "hook_event_name"@, 0)) is Some
    &&& field(json, "session_id"@, 1) is Some
    &&& field(json, "session_id"@, 1)->0 is Text
    &&& text_field(field(json, "tool_name"@, 2)) is Some
}

/// Whether a payload holds the contents of a document.
pub open spec fn holds_payload(payload: HookPayload, json: Json) -> bool {
    &&& text_field(field(json, "hook_event_name"@, 0)) == Some(payload.hook_event_name)
    &&& field(json, "session_id"@, 1) == Some(Json::Text(payload.session_id))
    &&& text_field(field(json, "tool_name"@, 2)) == Some(payload.tool_name)
    &&& payload.tool_input == value_field(field(json, "tool_input"@, 3))
    &&& payload.tool_response == value_field(field(json, "tool_response"@, 4))
}

/// What stands at a position; `None` beyond the end.
pub open spec fn at<T>(items: Seq<T>, i: int) -> Option<T> {
    if 0 <= i < items.len() {
        Some(items[i])
    } else {
        None
    }
}

fn take_at<T>(items: &mut Vec<T>, i: usize) -> (r: Option<T>)
    ensures
        r == at(old(items)@, i as int),
        forall|k: int| 0 <= k < i ==> #[trigger] at(final(items)@, k) == at(old(items)@, k),
        i >= old(items)@.len() ==> final(items)@ == old(items)@,
{
    if i < items.len() {
        Some(items.swap_remove(i))
    } else {
        None
    }
}

fn take_two<T>(items: Vec<T>, i: usize, j: usize) -> (r: (Option<T>, Option<T>))
    requires
        i != j || i >= items@.len(),
    ensures
        r.0 == at(items@, i as int),
        r.1 == at(items@, j as int),
{
    let mut rest = items;
    if i < j {
        let second = take_at(&mut rest, j);
        let first = take_at(&mut rest, i);
        (first, second)
    } else {
        let first = take_at(&mut rest, i);
        let second = take_at(&mut rest, j);
        (first, second)
    }
}

fn unless_null(value: Option<Json>) -> (r: Option<Json>)
    ensures
        r == value_field(value),
{
    match value {
        Some(Json::Null) => None,
        _ => value,
    }
}

fn take_value(taken: Option<JsonMember>) -> (r: Option<Json>)
    ensures
        r == (match taken {
            Some(m) => Some(m.value),
            None => None,
        }),
{
    match taken {
        Some(m) => Some(m.value),
        None => None,
    }
}

fn take_input_and_response(json: Json) -> (r: (Option<Json>, Option<Json>))
    ensures
        r.0 == value_field(field(json, "tool_input"@, 3)),
        r.1 == value_field(field(json, "tool_response"@, 4)),
{
    match json {
        Json::Array(items) => {
            let (input, response) = take_two(items, 3, 4);
            (unless_null(input), unless_null(response))
        },
        Json::Object(members) => {
            let i = find_member(&members, "tool_input");
            let j = find_member(&members, "tool_response");
            proof {
                lemma_member_has_its_key(members@, "tool_input"@, 0);
                lemma_member_has_its_key(members@, "tool_response"@, 0);
                reveal_strlit("tool_input");
                reveal_strlit("tool_response");
                assert("tool_input"@.len() != "tool_response"@.len());
            }
            let (input, response) = take_two(members, i, j);
            (unless_null(take_value(input)), unless_null(take_value(response)))
        },
        _ => (None, None),
    }
}

impl HookPayload {
    /// Reads a payload from a document.
    pub fn from_json(json: Json) -> (r: Option<HookPayload>)
        ensures
            r is Some <==> is_payload(json),
            r is Some ==> holds_payload(r->0, json),
    {
        if !record_like(&json, 5) {
            return None;
        }
        if let Json::Array(items) = &json {
            if items.len() != 5 {
                return None;
            }
        }
        let hook_event_name = match decode_text(read_field(&json, "hook_event_name", 0)) {
            Some(name) => name,
            None => {
                return None;
            },
        };
        let session_id = match read_field(&json, "session_id", 1) {
            Some(Json::Text(id)) => id.clone(),
            _ => {
                return None;
            },
        };
        let tool_name = match decode_text(read_field(&json, "tool_name", 2)) {
            Some(name) => name,
            None => {
                return None;
            },
        };
        let (tool_input, tool_response) = take_input_and_response(json);
        Some(HookPayload { hook_event_name, session_id, tool_name, tool_input, tool_response })
    }

    /// Reads a payload from the text that a hook is given.
    pub fn parse(raw: &str) -> (r: Option<HookPayload>)
        ensures
            match json_text(raw@) {
                Some(json) => {
                    &&& r is Some <==> is_payload(json)
                    &&& r is Some ==> holds_payload(r->0, json)
                },
                None => r is None,
            },
    {
        match parse_json(raw) {
            Some(json) => HookPayload::from_json(json),
            None => None,
        }
    }
}

/// A number of a document as its text.
pub open spec fn number_shown(n: JsonNumber) -> Seq<char> {
    match n {
        JsonNumber::Unsigned(u) => decimal(u as nat),
        JsonNumber::Negative(i) => if i < 0 {
            "-"@ + decimal((-i) as nat)
        } else {
            decimal(i as nat)
        },
        JsonNumber::Other(t) => t@,
    }
}

fn show_number(n: &JsonNumber) -> (r: String)
    ensures
        r@ == number_shown(*n),
{
    let mut out: String = String::new();
    let ghost empty = out@;
    assert(forall|s: Seq<char>| #[trigger] (empty + s) =~= s);
    match n {
        JsonNumber::Unsigned(u) => {
            push_decimal(&mut out, *u as u128);
        },
        JsonNumber::Negative(i) => {
            if *i < 0 {
                out.append("-");
                push_decimal(&mut out, (-(*i as i128)) as u128);
            } else {
                push_decimal(&mut out, *i as u128);
            }
        },
        JsonNumber::Other(t) => {
            out.append(t.as_str());
        },
    }
    out
}

/// The texts of a document, its pieces on lines of their own. Of an object with
/// a `text` member that member alone counts.
pub open spec fn flattened(value: Json) -> Seq<char>
    decreases value, 1int,
{
    match value {
        Json::Text(t) => t@,
        Json::Array(items) => joined(flattened_items(items@), "\n"@),
        Json::Object(members) => match member_text(value, "text"@) {
            Some(t) => t@,
            None => joined(flattened_members(members@), "\n"@),
        },
        Json::Null => ""@,
        Json::Bool(b) => if b {
            "true"@
        } else {
            "false"@
        },
        Json::Number(n) => number_shown(n),
    }
}

/// The texts of a list of documents.
pub open spec fn flattened_items(items: Seq<Json>) -> Seq<Seq<char>>
    decreases items, 0int,
{
    if items.len() == 0 {
        seq![]
    } else {
        flattened_items(items.drop_last()).push(flattened(items.last()))
    }
}

/// The texts of the members of an object.
pub open spec fn flattened_members(members: Seq<JsonMember>) -> Seq<Seq<char>>
    decreases members, 0int,
{
    if members.len() == 0 {
        seq![]
    } else {
        flattened_members(members.drop_last()).push(flattened(members.last().value))
    }
}

/// Writes the texts of a document on lines of their own.
pub fn flatten_json(value: &Json) -> (r: String)
    ensures
        r@ == flattened(*value),
    decreases *value,
{
    match value {
        Json::Text(t) => t.clone(),
        Json::Array(items) => {
            let ghost all = items@;
            let mut parts: Vec<String> = Vec::new();
            let mut i: usize = 0;
            assert(decreases_to!(*value => *items));
            assert(all.take(0) =~= seq![]);
            assert(views(parts@) =~= flattened_items(all.take(0)));
            while i < items.len()
                invariant
                    i <= items@.len(),
                    decreases_to!(*value => *items),
                    all == items@,
                    views(parts@) == flattened_items(all.take(i as int)),
                decreases items@.len() - i,
            {
                proof {
                    assert(decreases_to!(*items => all));
                    assert(decreases_to!(all => all[i as int]));
                    assert(all.take(i + 1).drop_last() =~= all.take(i as int));
                    assert(all.take(i + 1).last() == all[i as int]);
                }
                let part = flatten_json(&items[i]);
                proof {
                    lemma_views_push(parts@, part);
                }
                parts.push(part);
                i = i + 1;
            }
            assert(all.take(i as int) =~= all);
            join(&parts, "\n")
        },
        Json::Object(members) => {
            if let Some(t) = value.get_text("text") {
                return t;
            }
            let ghost all = members@;
            let mut parts: Vec<String> = Vec::new();
            let mut i: usize = 0;
            assert(decreases_to!(*value => *members));
            assert(all.take(0) =~= seq![]);
            assert(views(parts@) =~= flattened_members(all.take(0)));
            while i < members.len()
                invariant
                    i <= members@.len(),
                    decreases_to!(*value => *members),
                    all == members@,
                    views(parts@) == flattened_members(all.take(i as int)),
                decreases members@.len() - i,
            {
                proof {
                    assert(decreases_to!(*members => all));
                    assert(decreases_to!(all => all[i as int]));
                    assert(decreases_to!(all[i as int] => all[i as int].value));
                    assert(all.take(i + 1).drop_last() =~= all.take(i as int));
                    assert(all.take(i + 1).last() == all[i as int]);
                }
                let part = flatten_json(&members[i].value);
                proof {
                    lemma_views_push(parts@, part);
                }
                parts.push(part);
                i = i + 1;
            }
            assert(all.take(i as int) =~= all);
            join(&parts, "\n")
        },
        Json::Null => "".to_owned(),
        Json::Bool(b) => if *b {
            "true".to_owned()
        } else {
            "false".to_owned()
        },
        Json::Number(n) => show_number(n),
    }
}

/// Whether a response reports a failure: it says so, or speaks of an error.
pub open spec fn response_failed(response: Option<Json>) -> bool {
    match response {
        Some(r) => member(r, "is_error"@) == Some(Json::Bool(true)) || has_text(
            flattened(r),
            "error"@,
        ),
        None => false,
    }
}

/// Decides whether a response reports a failure.
pub fn tool_response_failed(response: Option<&Json>) -> (r: bool)
    ensures
        r == response_failed(target(response)),
{
    match response {
        Some(value) => {
            let flagged = match value.get("is_error") {
                Some(Json::Bool(flag)) => *flag,
                _ => false,
            };
            flagged || contains_text(flatten_json(value).as_str(), "error")
        },
        None => false,
    }
}

/// The file that a tool input names, below the working directory where it is
/// relative.
pub open spec fn rooted_file(input: Option<Json>, cwd: Seq<char>) -> Option<Seq<char>> {
    match input {
        Some(i) => match input_file(i) {
            Some(path) => Some(joined_path(cwd, path@)),
            None => None,
        },
        None => None,
    }
}

fn root_file(input: Option<&Json>, cwd: &str) -> (r: Option<String>)
    ensures
        text_view(r) == rooted_file(target(input), cwd@),
{
    match input {
        Some(i) => match extract_file_path(i) {
            Some(path) => Some(join_path(cwd, path.as_str())),
            None => None,
        },
        None => None,
    }
}

/// Whether a hook announces the start of a session.
pub open spec fn starts_session(payload: HookPayload, session_start: bool) -> bool {
    session_start || text_view(payload.hook_event_name) == Some("SessionStart"@)
}

/// Whether a hook announces a tool call.
pub open spec fn starts_tool(payload: HookPayload, pre: bool) -> bool {
    pre || text_view(payload.hook_event_name) == Some("PreToolUse"@)
}

/// The name of the tool of a hook.
pub open spec fn hook_tool(payload: HookPayload) -> Seq<char> {
    match payload.tool_name {
        Some(name) => name@,
        None => "unknown"@,
    }
}

/// The event that a hook stands for: the start of a session, a tool call, or
/// else the result of one.
pub open spec fn hook_event(
    payload: HookPayload,
    cwd: Seq<char>,
    pre: bool,
    session_start: bool,
    timestamp: Timestamp,
) -> EventView {
    let input = payload.tool_input;
    let response = payload.tool_response;
    if starts_session(payload, session_start) {
        EventView::SessionStart { timestamp, session_id: payload.session_id@ }
    } else if starts_tool(payload, pre) {
        EventView::ToolCall(
            CallView {
                timestamp,
                tool_name: hook_tool(payload),
                file_path: rooted_file(input, cwd),
                command: match input {
                    Some(i) => text_view(member_text(i, "command"@)),
                    None => None,
                },
                line_change: match input {
                    Some(i) => line_change(i),
                    None => None,
                },
                is_error: false,
                is_write: is_write_tool(hook_tool(payload)),
                is_sidechain: false,
            },
        )
    } else {
        EventView::ToolResult {
            timestamp,
            tool_name: text_view(payload.tool_name),
            is_error: response_failed(response),
            output: match response {
                Some(r) => Some(flattened(r)),
                None => None,
            },
            stderr: None,
            interrupted: false,
            persisted_output_path: None,
            is_sidechain: false,
        }
    }
}

fn is_named(name: &Option<String>, expected: &str) -> (r: bool)
    ensures
        r == (text_view(*name) == Some(expected@)),
{
    match name {
        Some(n) => same_text(n.as_str(), expected),
        None => false,
    }
}

/// Turns a hook payload into an event.
pub fn payload_to_event(
    payload: &HookPayload,
    cwd: &str,
    pre: bool,
    session_start: bool,
    timestamp: Timestamp,
) -> (r: AgentEvent)
    ensures
        r@ == hook_event(*payload, cwd@, pre, session_start, timestamp),
{
    if session_start || is_named(&payload.hook_event_name, "SessionStart") {
        return AgentEvent::SessionStart { timestamp, session_id: payload.session_id.clone() };
    }
    if pre || is_named(&payload.hook_event_name, "PreToolUse") {
        let tool_name = match &payload.tool_name {
            Some(name) => name.clone(),
            None => "unknown".to_owned(),
        };
        let is_write = is_write_tool_name(tool_name.as_str());
        return AgentEvent::ToolCall(
            ToolCall {
                timestamp,
                tool_name,
                file_path: root_file(payload.tool_input.as_ref(), cwd),
                command: match &payload.tool_input {
                    Some(input) => extract_command(input),
                    None => None,
                },
                line_change: match &payload.tool_input {
                    Some(input) => extract_line_change(input),
                    None => None,
                },
                is_error: false,
                is_write,
                is_sidechain: false,
            },
        );
    }
    AgentEvent::ToolResult {
        timestamp,
        tool_name: payload.tool_name.clone(),
        is_error: tool_response_failed(payload.tool_response.as_ref()),
        output: match &payload.tool_response {
            Some(response) => Some(flatten_json(response)),
            None => None,
        },
        stderr: None,
        interrupted: false,
        persisted_output_path: None,
        is_sidechain: false,
    }
}

} // verus!
