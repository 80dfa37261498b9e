//! Session records: one JSON document per line becomes one event.

use crate::clock::Timestamp;
use crate::decode::{
    bool_field, count_field, decode_bool, decode_count, decode_text, decode_time, decode_value,
    field, is_record, read_field, record_like, target, text_field, time_field, value_field,
};
use crate::json::{
    find_member, json_text, member, member_index, member_text, parse_json, text, Json, JsonMember,
};
use crate::loop_detector::{is_write_tool, is_write_tool_name};
use crate::state::{contains_test_failure_pattern, reports_failure};
use crate::text::{
    begins_with, blank, chars_of, contains_text, has_text, is_blank, join, joined, lines, same_text,
    split_at_text, split_lines, split_once, starts_with, stripped, trim, views,
};
use crate::types::{
    event_view, text_view, AgentEvent, CallView, EventView, TokenActivity, ToolCall,
    ToolLineChange,
};
use vstd::prelude::*;

verus! {

/// The number of lines of a text.
pub open spec fn line_count(content: Seq<char>) -> u32 {
    lines(content).len() as u32
}

/// Counts the lines of a text.
pub fn count_lines(content: &str) -> (r: u32)
    ensures
        r == line_count(content@),
{
    let list = split_lines(content);
    assert(views(list@).len() == list@.len());
    list.len() as u32
}

/// The texts of a tool result, in document order. Of an object with a `text` or
/// a `content` member that member alone counts; a `type` member never does.
pub open spec fn texts(value: Json) -> Seq<String>
    decreases value, 1int,
{
    match value {
        Json::Text(t) => if t@.len() > 0 {
            seq![t]
        } else {
            seq![]
        },
        Json::Array(items) => list_texts(items@),
        Json::Object(members) => {
            let m = members@;
            let at = member_index(m, "content"@, 0);
            match text(member(value, "text"@)) {
                Some(t) => if t@.len() > 0 {
                    seq![t]
                } else {
                    seq![]
                },
                None => if 0 <= at < m.len() {
                    texts(m[at].value)
                } else {
                    member_texts(m)
                },
            }
        },
        _ => seq![],
    }
}

/// The texts of a list of documents.
pub open spec fn list_texts(items: Seq<Json>) -> Seq<String>
    decreases items, 0int,
{
    if items.len() == 0 {
        seq![]
    } else {
        list_texts(items.drop_last()) + texts(items.last())
    }
}

/// The texts of the members of an object.
pub open spec fn member_texts(members: Seq<JsonMember>) -> Seq<String>
    decreases members, 0int,
{
    if members.len() == 0 {
        seq![]
    } else {
        let rest = member_texts(members.drop_last());
        if members.last().key@ != "type"@ {
            rest + texts(members.last().value)
        } else {
            rest
        }
    }
}

fn collect_text(value: &Json, strings: &mut Vec<String>)
    ensures
        final(strings)@ == old(strings)@ + texts(*value),
    decreases *value,
{
    let ghost before = strings@;
    match value {
        Json::Text(t) => {
            if chars_of(t.as_str()).len() > 0 {
                strings.push(t.clone());
            }
            assert(strings@ =~= before + texts(*value));
        },
        Json::Array(items) => {
            let ghost all = items@;
            let mut i: usize = 0;
            assert(decreases_to!(*value => *items));
            assert(list_texts(all.take(0)) =~= seq![]);
            assert(strings@ =~= before + list_texts(all.take(0)));
            while i < items.len()
                invariant
                    i <= items@.len(),
                    decreases_to!(*value => *items),
                    all == items@,
                    strings@ == before + list_texts(all.take(i as int)),
                decreases items@.len() - i,
            {
                proof {
                    assert(decreases_to!(*items => all));
                    assert(decreases_to!(all => all[i as int]));
                    assert(all.take(i + 1).drop_last() =~= all.take(i as int));
                    assert(all.take(i + 1).last() == all[i as int]);
                }
                collect_text(&items[i], strings);
                assert(strings@ =~= before + list_texts(all.take(i + 1)));
                i = i + 1;
            }
            assert(all.take(i as int) =~= all);
        },
        Json::Object(members) => {
            if let Some(t) = value.get_text("text") {
                if chars_of(t.as_str()).len() > 0 {
                    strings.push(t);
                }
                assert(strings@ =~= before + texts(*value));
                return ;
            }
            let ghost all = members@;
            let at = find_member(members, "content");
            if at < members.len() {
                proof {
                    assert(decreases_to!(*value => *members));
                    assert(decreases_to!(*members => all));
                    assert(decreases_to!(all => all[at as int]));
                    assert(decreases_to!(all[at as int] => all[at as int].value));
                }
                collect_text(&members[at].value, strings);
                return ;
            }
            let mut i: usize = 0;
            assert(decreases_to!(*value => *members));
            assert(member_texts(all.take(0)) =~= seq![]);
            assert(strings@ =~= before + member_texts(all.take(0)));
            while i < members.len()
                invariant
                    i <= members@.len(),
                    decreases_to!(*value => *members),
                    all == members@,
                    strings@ == before + member_texts(all.take(i as int)),
                decreases members@.len() - i,
            {
                proof {
                    assert(decreases_to!(*members => all));
                    assert(decreases_to!(all => all[i as int]));
                    assert(decreases_to!(all[i as int] => all[i as int].value));
                    assert(all.take(i + 1).drop_last() =~= all.take(i as int));
                    assert(all.take(i + 1).last() == all[i as int]);
                }
                if !same_text(members[i].key.as_str(), "type") {
                    collect_text(&members[i].value, strings);
                }
                assert(strings@ =~= before + member_texts(all.take(i + 1)));
                i = i + 1;
            }
            assert(all.take(i as int) =~= all);
        },
        _ => {
            assert(strings@ =~= before + texts(*value));
        },
    }
}

/// The content of a tool result as one text, its pieces on lines of their own.
pub open spec fn result_content(content: Json) -> Option<Seq<char>> {
    if texts(content).len() == 0 {
        None
    } else {
        Some(joined(views(texts(content)), "\n"@))
    }
}

/// Reads the content of a tool result as one text.
pub fn extract_tool_result_content(content: &Json) -> (r: Option<String>)
    ensures
        text_view(r) == result_content(*content),
{
    let mut strings: Vec<String> = Vec::new();
    collect_text(content, &mut strings);
    assert(strings@ =~= texts(*content));
    if strings.len() == 0 {
        None
    } else {
        Some(join(&strings, "\n"))
    }
}

/// The first of two texts that is present.
pub open spec fn text_or(a: Option<String>, b: Option<String>) -> Option<String> {
    match a {
        Some(t) => Some(t),
        None => b,
    }
}

/// The file that a tool input names.
pub open spec fn input_file(input: Json) -> Option<String> {
    text_or(member_text(input, "file_path"@), member_text(input, "notebook_path"@))
}

/// Reads the file that a tool input names.
pub fn extract_file_path(input: &Json) -> (r: Option<String>)
    ensures
        r == input_file(*input),
{
    match input.get_text("file_path") {
        Some(path) => Some(path),
        None => input.get_text("notebook_path"),
    }
}

/// Reads the command that a tool input holds.
pub fn extract_command(input: &Json) -> (r: Option<String>)
    ensures
        r == member_text(*input, "command"@),
{
    input.get_text("command")
}

/// The text that a tool input adds to a file.
pub open spec fn added_text(input: Json) -> Option<String> {
    text_or(member_text(input, "content"@), member_text(input, "new_string"@))
}

/// The text that a tool input takes out of a file.
pub open spec fn removed_text(input: Json) -> Option<String> {
    text_or(
        member_text(input, "old_string"@),
        match member(input, "edit"@) {
            Some(edit) => member_text(edit, "old_string"@),
            None => None,
        },
    )
}

/// The number of lines of a text that may be missing.
pub open spec fn optional_lines(content: Option<String>) -> u32 {
    match content {
        Some(t) => line_count(t@),
        None => 0,
    }
}

/// The line change that a tool input stands for.
pub open spec fn line_change(input: Json) -> Option<ToolLineChange> {
    if added_text(input) is None && removed_text(input) is None {
        None
    } else {
        Some(
            ToolLineChange {
                added: optional_lines(added_text(input)),
                removed: optional_lines(removed_text(input)),
            },
        )
    }
}

fn lines_of(content: &Option<String>) -> (r: u32)
    ensures
        r == optional_lines(*content),
{
    match content {
        Some(t) => count_lines(t.as_str()),
        None => 0,
    }
}

/// Reads the line change that a tool input stands for.
pub fn extract_line_change(input: &Json) -> (r: Option<ToolLineChange>)
    ensures
        r == line_change(*input),
{
    let added = match input.get_text("content") {
        Some(content) => Some(content),
        None => input.get_text("new_string"),
    };
    let removed = match input.get_text("old_string") {
        Some(content) => Some(content),
        None => match input.get("edit") {
            Some(edit) => edit.get_text("old_string"),
            None => None,
        },
    };
    if added.is_none() && removed.is_none() {
        None
    } else {
        Some(ToolLineChange { added: lines_of(&added), removed: lines_of(&removed) })
    }
}

/// Whether a line of a persisted-output notice can be the path it points to.
pub open spec fn names_output(line: Seq<char>) -> bool {
    let t = stripped(line);
    t.len() > 0 && !begins_with(t, "Preview"@) && t != "</persisted-output>"@
}

/// The first line of several that can be a path.
pub open spec fn first_output_path(list: Seq<Seq<char>>) -> Option<Seq<char>>
    decreases list.len(),
{
    if list.len() == 0 {
        None
    } else if names_output(list[0]) {
        Some(stripped(list[0]))
    } else {
        first_output_path(list.drop_first())
    }
}

/// The path that a persisted-output notice points to.
pub open spec fn persisted_path(content: Seq<char>) -> Option<Seq<char>> {
    if !has_text(content, "<persisted-output>"@) {
        None
    } else {
        match split_at_text(content, "Full output saved to:"@) {
            Some((_, rest)) => first_output_path(lines(rest)),
            None => None,
        }
    }
}

/// Reads the path that a persisted-output notice points to.
pub fn extract_persisted_output_path(content: &str) -> (r: Option<String>)
    ensures
        text_view(r) == persisted_path(content@),
{
    if !contains_text(content, "<persisted-output>") {
        return None;
    }
    match split_once(content, "Full output saved to:") {
        Some((_, rest)) => {
            let list = split_lines(rest.as_str());
            let ghost all = views(list@);
            let mut i: usize = 0;
            assert(all.skip(0) =~= all);
            while i < list.len()
                invariant
                    i <= list@.len(),
                    all == views(list@),
                    first_output_path(all) == first_output_path(all.skip(i as int)),
                    persisted_path(content@) == first_output_path(all),
                decreases list@.len() - i,
            {
                let line = trim(list[i].as_str());
                assert(all.skip(i as int)[0] == list@[i as int]@);
                if chars_of(line.as_str()).len() > 0 && !starts_with(line.as_str(), "Preview")
                    && !same_text(line.as_str(), "</persisted-output>") {
                    return Some(line);
                }
                assert(all.skip(i as int).drop_first() =~= all.skip(i + 1));
                i = i + 1;
            }
            None
        },
        None => None,
    }
}

/// The text of an optional text field; absent where the field is of another
/// type.
pub open spec fn field_text(json: Json, name: Seq<char>, index: int) -> Option<String> {
    match text_field(field(json, name, index)) {
        Some(t) => t,
        None => None,
    }
}

/// The truth value of an optional field; false where it is absent.
pub open spec fn field_flag(json: Json, name: Seq<char>, index: int) -> bool {
    bool_field(field(json, name, index)) == Some(Some(true))
}

/// The count of an optional field; zero where it is absent.
pub open spec fn field_count(json: Json, name: Seq<char>, index: int) -> u64 {
    match count_field(field(json, name, index)) {
        Some(Some(n)) => n,
        _ => 0,
    }
}

/// Whether a document is an item of a message.
pub open spec fn is_item(item: Json) -> bool {
    &&& is_record(item, 5)
    &&& text_field(field(item, "type"@, 0)) is Some
    &&& text_field(field(item, "name"@, 1)) is Some
    &&& bool_field(field(item, "is_error"@, 4)) is Some
}

/// Whether a field is the content of a message: items, a text, or nothing.
pub open spec fn is_content(value: Option<Json>) -> bool {
    match value {
        None => true,
        Some(Json::Null) => true,
        Some(Json::Text(_)) => true,
        Some(Json::Array(items)) => all_items(items@),
        _ => false,
    }
}

/// Whether all documents of a list are items of a message.
pub open spec fn all_items(items: Seq<Json>) -> bool {
    forall|i: int| 0 <= i < items.len() ==> is_item(#[trigger] items[i])
}

/// Whether a field is a token usage, or nothing.
pub open spec fn is_usage(value: Option<Json>) -> bool {
    match value_field(value) {
        None => true,
        Some(usage) => {
            &&& is_record(usage, 2)
            &&& count_field(field(usage, "input_tokens"@, 0)) is Some
            &&& count_field(field(usage, "output_tokens"@, 1)) is Some
        },
    }
}

/// Whether a field is a message, or nothing.
pub open spec fn is_message(value: Option<Json>) -> bool {
    match value_field(value) {
        None => true,
        Some(message) => {
            &&& is_record(message, 3)
            &&& is_content(field(message, "content"@, 0))
            &&& is_usage(field(message, "usage"@, 1))
            &&& text_field(field(message, "stop_reason"@, 2)) is Some
        },
    }
}

/// Whether a field is the envelope of a tool result, or nothing.
pub open spec fn is_envelope(value: Option<Json>) -> bool {
    match value_field(value) {
        None => true,
        Some(envelope) => {
            &&& is_record(envelope, 3)
            &&& text_field(field(envelope, "stdout"@, 0)) is Some
            &&& text_field(field(envelope, "stderr"@, 1)) is Some
            &&& bool_field(field(envelope, "interrupted"@, 2)) is Some
        },
    }
}

/// Whether a document is a session record.
pub open spec fn is_session_record(json: Json) -> bool {
    &&& is_record(json, 10)
    &&& text_field(field(json, "type"@, 0)) is Some
    &&& text_field(field(json, "kind"@, 1)) is Some
    &&& text_field(field(json, "subtype"@, 2)) is Some
    &&& time_field(field(json, "ts"@, 3)) is Some
    &&& time_field(field(json, "timestamp"@, 4)) is Some
    &&& text_field(field(json, "session_id"@, 5)) is Some
    &&& text_field(field(json, "sessionId"@, 6)) is Some
    &&& bool_field(field(json, "isSidechain"@, 7)) is Some
    &&& is_message(field(json, "message"@, 8))
    &&& is_envelope(field(json, "toolUseResult"@, 9))
}

fn check_item(item: &Json) -> (r: bool)
    ensures
        r == is_item(*item),
{
    record_like(item, 5) && decode_text(read_field(item, "type", 0)).is_some() && decode_text(
        read_field(item, "name", 1),
    ).is_some() && decode_bool(read_field(item, "is_error", 4)).is_some()
}

fn check_content(value: Option<&Json>) -> (r: bool)
    ensures
        r == is_content(target(value)),
{
    match value {
        None => true,
        Some(Json::Null) => true,
        Some(Json::Text(_)) => true,
        Some(Json::Array(items)) => check_items(items),
        _ => false,
    }
}

fn check_items(items: &Vec<Json>) -> (r: bool)
    ensures
        r == all_items(items@),
{
    let mut i: usize = 0;
    while i < items.len()
        invariant
            i <= items@.len(),
            forall|k: int| 0 <= k < i ==> is_item(#[trigger] items@[k]),
        decreases items@.len() - i,
    {
        if !check_item(&items[i]) {
            return false;
        }
        i = i + 1;
    }
    true
}

fn check_usage(value: Option<&Json>) -> (r: bool)
    ensures
        r == is_usage(target(value)),
{
    match decode_value(value) {
        None => true,
        Some(usage) => record_like(usage, 2) && decode_count(
            read_field(usage, "input_tokens", 0),
        ).is_some() && decode_count(read_field(usage, "output_tokens", 1)).is_some(),
    }
}

fn check_message(value: Option<&Json>) -> (r: bool)
    ensures
        r == is_message(target(value)),
{
    match decode_value(value) {
        None => true,
        Some(message) => record_like(message, 3) && check_content(
            read_field(message, "content", 0),
        ) && check_usage(read_field(message, "usage", 1)) && decode_text(
            read_field(message, "stop_reason", 2),
        ).is_some(),
    }
}

fn check_envelope(value: Option<&Json>) -> (r: bool)
    ensures
        r == is_envelope(target(value)),
{
    match decode_value(value) {
        None => true,
        Some(envelope) => record_like(envelope, 3) && decode_text(
            read_field(envelope, "stdout", 0),
        ).is_some() && decode_text(read_field(envelope, "stderr", 1)).is_some() && decode_bool(
            read_field(envelope, "interrupted", 2),
        ).is_some(),
    }
}

fn check_record(json: &Json) -> (r: bool)
    ensures
        r == is_session_record(*json),
{
    record_like(json, 10) && decode_text(read_field(json, "type", 0)).is_some() && decode_text(
        read_field(json, "kind", 1),
    ).is_some() && decode_text(read_field(json, "subtype", 2)).is_some() && decode_time(
        read_field(json, "ts", 3),
    ).is_some() && decode_time(read_field(json, "timestamp", 4)).is_some() && decode_text(
        read_field(json, "session_id", 5),
    ).is_some() && decode_text(read_field(json, "sessionId", 6)).is_some() && decode_bool(
        read_field(json, "isSidechain", 7),
    ).is_some() && check_message(read_field(json, "message", 8)) && check_envelope(
        read_field(json, "toolUseResult", 9),
    )
}

fn text_at(json: &Json, name: &str, index: usize) -> (r: Option<String>)
    ensures
        r == field_text(*json, name@, index as int),
{
    match decode_text(read_field(json, name, index)) {
        Some(t) => t,
        None => None,
    }
}

fn flag_at(json: &Json, name: &str, index: usize) -> (r: bool)
    ensures
        r == field_flag(*json, name@, index as int),
{
    match decode_bool(read_field(json, name, index)) {
        Some(Some(b)) => b,
        _ => false,
    }
}

fn count_at(json: &Json, name: &str, index: usize) -> (r: u64)
    ensures
        r == field_count(*json, name@, index as int),
{
    match decode_count(read_field(json, name, index)) {
        Some(Some(n)) => n,
        _ => 0,
    }
}

/// The time of a record: its `timestamp`, or else its `ts`.
pub open spec fn record_time(json: Json) -> Option<Timestamp> {
    match time_field(field(json, "timestamp"@, 4)) {
        Some(Some(t)) => Some(t),
        _ => match time_field(field(json, "ts"@, 3)) {
            Some(t) => t,
            None => None,
        },
    }
}

fn time_of(json: &Json) -> (r: Option<Timestamp>)
    ensures
        r == record_time(*json),
{
    match decode_time(read_field(json, "timestamp", 4)) {
        Some(Some(t)) => Some(t),
        _ => match decode_time(read_field(json, "ts", 3)) {
            Some(t) => t,
            None => None,
        },
    }
}

/// The type of a record: its `type`, or else its `kind`.
pub open spec fn record_type(json: Json) -> Option<String> {
    text_or(field_text(json, "type"@, 0), field_text(json, "kind"@, 1))
}

/// Whether a record says that it is a compact boundary.
pub open spec fn is_compact_boundary(json: Json) -> bool {
    text_view(field_text(json, "subtype"@, 2)) == Some("compact_boundary"@) || text_view(
        field_text(json, "kind"@, 1),
    ) == Some("compact_boundary"@)
}

fn says(value: &Option<String>, word: &str) -> (r: bool)
    ensures
        r == (text_view(*value) == Some(word@)),
{
    match value {
        Some(t) => same_text(t.as_str(), word),
        None => false,
    }
}

/// The items of a record's message.
pub open spec fn message_items(json: Json) -> Seq<Json> {
    match value_field(field(json, "message"@, 8)) {
        Some(message) => match field(message, "content"@, 0) {
            Some(Json::Array(items)) => items@,
            _ => seq![],
        },
        None => seq![],
    }
}

/// The first item of a type, from a position on.
pub open spec fn item_of_type(items: Seq<Json>, kind: Seq<char>, from: int) -> Option<Json>
    decreases items.len() - from,
{
    if from < 0 || from >= items.len() {
        None
    } else if text_view(field_text(items[from], "type"@, 0)) == Some(kind) {
        Some(items[from])
    } else {
        item_of_type(items, kind, from + 1)
    }
}

fn find_item<'a>(json: &'a Json, kind: &str) -> (r: Option<&'a Json>)
    ensures
        target(r) == item_of_type(message_items(*json), kind@, 0),
{
    match decode_value(read_field(json, "message", 8)) {
        Some(message) => match read_field(message, "content", 0) {
            Some(Json::Array(items)) => {
                let mut i: usize = 0;
                while i < items.len()
                    invariant
                        i <= items@.len(),
                        items@ == message_items(*json),
                        item_of_type(items@, kind@, 0) == item_of_type(
                            items@,
                            kind@,
                            i as int,
                        ),
                    decreases items@.len() - i,
                {
                    if says(&text_at(&items[i], "type", 0), kind) {
                        return Some(&items[i]);
                    }
                    i = i + 1;
                }
                None
            },
            _ => None,
        },
        None => None,
    }
}

/// The tool call that a `tool_use` item stands for.
pub open spec fn tool_use_call(item: Json, timestamp: Timestamp, is_sidechain: bool) -> CallView {
    let name = match field_text(item, "name"@, 1) {
        Some(t) => t@,
        None => "unknown"@,
    };
    let input = value_field(field(item, "input"@, 2));
    CallView {
        timestamp,
        tool_name: name,
        file_path: match input {
            Some(i) => text_view(input_file(i)),
            None => None,
        },
        command: match input {
            Some(i) => text_view(member_text(i, "command"@)),
            None => None,
        },
        line_change: match input {
            Some(i) => line_change(i),
            None => None,
        },
        is_error: false,
        is_write: is_write_tool(name),
        is_sidechain,
    }
}

/// The event of an assistant record: its first tool use, or else its token
/// usage.
pub open spec fn assistant_event(
    json: Json,
    timestamp: Timestamp,
    is_sidechain: bool,
) -> Option<EventView> {
    match item_of_type(message_items(json), "tool_use"@, 0) {
        Some(item) => Some(EventView::ToolCall(tool_use_call(item, timestamp, is_sidechain))),
        None => match value_field(field(json, "message"@, 8)) {
            Some(message) => match value_field(field(message, "usage"@, 1)) {
                Some(usage) => Some(
                    EventView::TokenActivity {
                        timestamp,
                        input_tokens: field_count(usage, "input_tokens"@, 0),
                        output_tokens: field_count(usage, "output_tokens"@, 1),
                        stop_reason: text_view(field_text(message, "stop_reason"@, 2)),
                        is_sidechain,
                    },
                ),
                None => None,
            },
            None => None,
        },
    }
}

fn parse_tool_use(item: &Json, timestamp: Timestamp, is_sidechain: bool) -> (r: ToolCall)
    ensures
        r@ == tool_use_call(*item, timestamp, is_sidechain),
{
    let tool_name = match text_at(item, "name", 1) {
        Some(name) => name,
        None => "unknown".to_owned(),
    };
    let is_write = is_write_tool_name(tool_name.as_str());
    let (file_path, command, change) = match decode_value(read_field(item, "input", 2)) {
        Some(input) => (
            extract_file_path(input),
            extract_command(input),
            extract_line_change(input),
        ),
        None => (None, None, None),
    };
    ToolCall {
        timestamp,
        tool_name,
        file_path,
        command,
        line_change: change,
        is_error: false,
        is_write,
        is_sidechain,
    }
}

fn parse_assistant_record(json: &Json, timestamp: Timestamp, is_sidechain: bool) -> (r: Option<
    AgentEvent,
>)
    ensures
        event_view(r) == assistant_event(*json, timestamp, is_sidechain),
{
    if let Some(item) = find_item(json, "tool_use") {
        return Some(AgentEvent::ToolCall(parse_tool_use(item, timestamp, is_sidechain)));
    }
    let message = match decode_value(read_field(json, "message", 8)) {
        Some(message) => message,
        None => {
            return None;
        },
    };
    let usage = match decode_value(read_field(message, "usage", 1)) {
        Some(usage) => usage,
        None => {
            return None;
        },
    };
    Some(
        AgentEvent::TokenActivity(
            TokenActivity {
                timestamp,
                input_tokens: count_at(usage, "input_tokens", 0),
                output_tokens: count_at(usage, "output_tokens", 1),
                stop_reason: text_at(message, "stop_reason", 2),
                is_sidechain,
            },
        ),
    )
}

/// The output of a tool result: its content, or else the envelope's `stdout`.
pub open spec fn result_output(item: Json, envelope: Option<Json>) -> Option<Seq<char>> {
    let content = match value_field(field(item, "content"@, 3)) {
        Some(c) => result_content(c),
        None => None,
    };
    match content {
        Some(t) => Some(t),
        None => match envelope {
            Some(e) => text_view(field_text(e, "stdout"@, 0)),
            None => None,
        },
    }
}

/// Whether a tool result reports a failure: its error flag, something on
/// `stderr`, an interruption, or a failure pattern in its content.
pub open spec fn result_failed(item: Json, envelope: Option<Json>) -> bool {
    ||| field_flag(item, "is_error"@, 4)
    ||| envelope is Some && field_text(envelope->0, "stderr"@, 1) is Some && !is_blank(
        field_text(envelope->0, "stderr"@, 1)->0@,
    )
    ||| envelope is Some && field_flag(envelope->0, "interrupted"@, 2)
    ||| value_field(field(item, "content"@, 3)) is Some && result_content(
        value_field(field(item, "content"@, 3))->0,
    ) is Some && reports_failure(result_content(value_field(field(item, "content"@, 3))->0)->0)
}

/// The event of a user record: its first tool result, or else a message.
pub open spec fn user_event(json: Json, timestamp: Timestamp, is_sidechain: bool) -> EventView {
    match item_of_type(message_items(json), "tool_result"@, 0) {
        Some(item) => {
            let envelope = value_field(field(json, "toolUseResult"@, 9));
            let output = result_output(item, envelope);
            EventView::ToolResult {
                timestamp,
                tool_name: None,
                is_error: result_failed(item, envelope),
                output,
                stderr: match envelope {
                    Some(e) => text_view(field_text(e, "stderr"@, 1)),
                    None => None,
                },
                interrupted: envelope is Some && field_flag(envelope->0, "interrupted"@, 2),
                persisted_output_path: match output {
                    Some(t) => persisted_path(t),
                    None => None,
                },
                is_sidechain,
            }
        },
        None => EventView::UserMessage { timestamp, is_sidechain },
    }
}

fn is_tool_result_failure(item: &Json, envelope: Option<&Json>, content: &Option<String>) -> (r:
    bool)
    requires
        text_view(*content) == (match value_field(field(*item, "content"@, 3)) {
            Some(c) => result_content(c),
            None => None,
        }),
    ensures
        r == result_failed(*item, target(envelope)),
{
    let (loud, interrupted) = match envelope {
        Some(e) => (
            match text_at(e, "stderr", 1) {
                Some(t) => !blank(t.as_str()),
                None => false,
            },
            flag_at(e, "interrupted", 2),
        ),
        None => (false, false),
    };
    let reported = match content {
        Some(t) => contains_test_failure_pattern(t.as_str()),
        None => false,
    };
    flag_at(item, "is_error", 4) || loud || interrupted || reported
}

fn parse_user_record(json: &Json, timestamp: Timestamp, is_sidechain: bool) -> (r: AgentEvent)
    ensures
        r@ == user_event(*json, timestamp, is_sidechain),
{
    let item = match find_item(json, "tool_result") {
        Some(item) => item,
        None => {
            return AgentEvent::UserMessage { timestamp, is_sidechain };
        },
    };
    let envelope = decode_value(read_field(json, "toolUseResult", 9));
    let content = match decode_value(read_field(item, "content", 3)) {
        Some(value) => extract_tool_result_content(value),
        None => None,
    };
    let is_error = is_tool_result_failure(item, envelope, &content);
    let output = match content {
        Some(t) => Some(t),
        None => match envelope {
            Some(e) => text_at(e, "stdout", 0),
            None => None,
        },
    };
    let persisted_output_path = match &output {
        Some(t) => extract_persisted_output_path(t.as_str()),
        None => None,
    };
    let (stderr, interrupted) = match envelope {
        Some(e) => (text_at(e, "stderr", 1), flag_at(e, "interrupted", 2)),
        None => (None, false),
    };
    AgentEvent::ToolResult {
        timestamp,
        tool_name: None,
        is_error,
        output,
        stderr,
        interrupted,
        persisted_output_path,
        is_sidechain,
    }
}

/// The event of a record of a given time.
pub open spec fn event_at(json: Json, timestamp: Timestamp) -> Option<EventView> {
    let is_sidechain = field_flag(json, "isSidechain"@, 7);
    let kind = text_view(record_type(json));
    if kind == Some("session_started"@) {
        match text_or(field_text(json, "session_id"@, 5), field_text(json, "sessionId"@, 6)) {
            Some(id) => Some(EventView::SessionStart { timestamp, session_id: id@ }),
            None => None,
        }
    } else if kind == Some("assistant"@) {
        assistant_event(json, timestamp, is_sidechain)
    } else if kind == Some("user"@) {
        Some(user_event(json, timestamp, is_sidechain))
    } else if is_compact_boundary(json) || (kind is Some && has_text(kind->0, "compact"@)) {
        Some(EventView::CompactBoundary { timestamp, is_sidechain })
    } else {
        None
    }
}

/// The event that a document stands for.
pub open spec fn record_event(json: Json) -> Option<EventView> {
    if is_session_record(json) && record_time(json) is Some {
        event_at(json, record_time(json)->0)
    } else {
        None
    }
}

/// The event that a line of a session log stands for.
pub open spec fn line_event(line: Seq<char>) -> Option<EventView> {
    match json_text(line) {
        Some(json) => record_event(json),
        None => None,
    }
}

/// A line of a session log.
pub struct SessionRecord;

impl SessionRecord {
    /// Reads the event of a line. A line that is no JSON, no session record, of
    /// a type without events or without a time stands for none.
    pub fn parse(line: &str) -> (r: Option<AgentEvent>)
        ensures
            event_view(r) == line_event(line@),
    {
        match parse_json(line) {
            Some(json) => SessionRecord::from_json(&json),
            None => None,
        }
    }

    /// Reads the event of a document.
    pub fn from_json(json: &Json) -> (r: Option<AgentEvent>)
        ensures
            event_view(r) == record_event(*json),
    {
        if !check_record(json) {
            return None;
        }
        let timestamp = match time_of(json) {
            Some(timestamp) => timestamp,
            None => {
                return None;
            },
        };
        let is_sidechain = flag_at(json, "isSidechain", 7);
        let own_type = text_at(json, "type", 0);
        let own_kind = text_at(json, "kind", 1);
        let compact = says(&text_at(json, "subtype", 2), "compact_boundary") || says(
            &own_kind,
            "compact_boundary",
        );
        let kind = match own_type {
            Some(t) => Some(t),
            None => own_kind,
        };
        if says(&kind, "session_started") {
            let id = match text_at(json, "session_id", 5) {
                Some(id) => Some(id),
                None => text_at(json, "sessionId", 6),
            };
            return match id {
                Some(session_id) => Some(AgentEvent::SessionStart { timestamp, session_id }),
                None => None,
            };
        }
        if says(&kind, "assistant") {
            return parse_assistant_record(json, timestamp, is_sidechain);
        }
        if says(&kind, "user") {
            return Some(parse_user_record(json, timestamp, is_sidechain));
        }
        let named_compact = match &kind {
            Some(t) => contains_text(t.as_str(), "compact"),
            None => false,
        };
        if compact || named_compact {
            return Some(AgentEvent::CompactBoundary { timestamp, is_sidechain });
        }
        None
    }
}

} // verus!
