//! Laws of session records: how a document is read, and which event it stands for.

use crate::clock::{timestamp_of, Timestamp};
use crate::decode::{bool_field, count_field, field, text_field, time_field, value_field};
use crate::json::{member, member_index, Json, JsonMember};
use crate::session::{
    first_output_path, names_output, is_item, is_session_record, item_of_type, line_change,
    list_texts, member_texts, message_items, persisted_path, record_event, result_content, texts,
};
use crate::test_laws::has_failure_mark;
use crate::text::{
    has_text, is_space, joined, lemma_match_from, lines, lowercase, match_from, matches_at, stripped,
    views,
};
use crate::text_laws::{
    blank_texts_are_white_space, joined_texts_hold_their_parts,
    texts_are_split_at_the_first_separator,
};
use crate::types::EventView;
use vstd::prelude::*;

verus! {

proof fn lemma_member_index(members: Seq<JsonMember>, key: Seq<char>, i: int, from: int)
    requires
        0 <= from <= i <= members.len(),
        i < members.len() ==> members[i].key@ == key,
        forall|k: int| from <= k < i ==> (#[trigger] members[k]).key@ != key,
    ensures
        member_index(members, key, from) == i,
    decreases i - from,
{
    if from < i {
        assert(members[from].key@ != key);
        lemma_member_index(members, key, i, from + 1);
    }
}

/// A member of an object is found by its key; the first one counts. Objects without such a
/// member, and documents that are no objects, have none.
pub proof fn members_are_found_by_their_key(members: Vec<JsonMember>, key: Seq<char>, i: int)
    requires
        0 <= i <= members@.len(),
        i < members@.len() ==> members@[i].key@ == key,
        forall|k: int| 0 <= k < i ==> (#[trigger] members@[k]).key@ != key,
    ensures
        i < members@.len() ==> member(Json::Object(members), key) == Some(members@[i].value),
        i == members@.len() ==> member(Json::Object(members), key) is None,
        forall|json: Json| !(json is Object) ==> (#[trigger] member(json, key)) is None,
{
    lemma_member_index(members@, key, i, 0);
}

/// A field of a record is found by its name in an object and by its place in an array.
pub proof fn fields_are_found_by_name_or_place(json: Json, name: Seq<char>, place: int)
    ensures
        json is Object ==> field(json, name, place) == member(json, name),
        json is Array && 0 <= place < json->Array_0@.len() ==> field(json, name, place) == Some(
            json->Array_0@[place],
        ),
        json is Array && !(0 <= place < json->Array_0@.len()) ==> field(json, name, place) is None,
        !(json is Object) && !(json is Array) ==> field(json, name, place) is None,
{
}

/// Whether an optional field is absent: it is missing, or `null`.
pub open spec fn absent(value: Option<Json>) -> bool {
    value is None || value == Some(Json::Null)
}

/// An optional field of a type is absent, or of that type; anything else is a mistake.
pub proof fn optional_fields_are_read_by_type(value: Option<Json>)
    ensures
        absent(value) ==> text_field(value) == Some(None::<String>) && bool_field(value) == Some(
            None::<bool>,
        ) && count_field(value) == Some(None::<u64>) && time_field(value) == Some(
            None::<Timestamp>,
        ) && value_field(value) is None,
        !absent(value) ==> value_field(value) == value,
        !absent(value) && value->0 is Text ==> text_field(value) == Some(Some(value->0->Text_0)),
        !absent(value) && !(value->0 is Text) ==> text_field(value) is None,
        !absent(value) && value->0 is Bool ==> bool_field(value) == Some(Some(value->0->Bool_0)),
        !absent(value) && !(value->0 is Bool) ==> bool_field(value) is None,
        !absent(value) && value->0 is Number && value->0->Number_0 is Unsigned ==> count_field(
            value,
        ) == Some(Some(value->0->Number_0->Unsigned_0)),
        !absent(value) && !(value->0 is Number && value->0->Number_0 is Unsigned) ==> count_field(
            value,
        ) is None,
        !absent(value) && value->0 is Text && timestamp_of(value->0->Text_0@) is Some
            ==> time_field(value) == Some(timestamp_of(value->0->Text_0@)),
        !absent(value) && !(value->0 is Text && timestamp_of(value->0->Text_0@) is Some)
            ==> time_field(value) is None,
{
}

/// Whether an optional field is absent or a text.
pub open spec fn maybe_text(value: Option<Json>) -> bool {
    absent(value) || value->0 is Text
}

/// Whether an optional field is absent or a truth value.
pub open spec fn maybe_bool(value: Option<Json>) -> bool {
    absent(value) || value->0 is Bool
}

/// Whether an optional field is absent or a whole number that is not negative.
pub open spec fn maybe_count(value: Option<Json>) -> bool {
    absent(value) || value->0 is Number && value->0->Number_0 is Unsigned
}

/// Whether an optional field is absent or a text that is a time.
pub open spec fn maybe_time(value: Option<Json>) -> bool {
    absent(value) || value->0 is Text && timestamp_of(value->0->Text_0@) is Some
}

/// Whether a document is a list of message items: records with a type, a name and an error
/// flag, as far as they are there.
pub open spec fn are_items(items: Seq<Json>) -> bool {
    forall|i: int|
        0 <= i < items.len() ==> {
            &&& (#[trigger] items[i]) is Object || items[i] is Array
                && items[i]->Array_0@.len() <= 5
            &&& maybe_text(field(items[i], "type"@, 0))
            &&& maybe_text(field(items[i], "name"@, 1))
            &&& maybe_bool(field(items[i], "is_error"@, 4))
        }
}

/// Whether the fields of an object are those of a session record, as far as they are there.
pub open spec fn has_record_fields(json: Json) -> bool {
    let message = member(json, "message"@);
    let envelope = member(json, "toolUseResult"@);
    &&& maybe_text(member(json, "type"@))
    &&& maybe_text(member(json, "kind"@))
    &&& maybe_text(member(json, "subtype"@))
    &&& maybe_time(member(json, "ts"@))
    &&& maybe_time(member(json, "timestamp"@))
    &&& maybe_text(member(json, "session_id"@))
    &&& maybe_text(member(json, "sessionId"@))
    &&& maybe_bool(member(json, "isSidechain"@))
    &&& absent(message) || {
        let m = message->0;
        let content = field(m, "content"@, 0);
        let usage = field(m, "usage"@, 1);
        &&& m is Object || m is Array && m->Array_0@.len() <= 3
        &&& maybe_text(content) || content->0 is Array && are_items(content->0->Array_0@)
        &&& absent(usage) || {
            &&& usage->0 is Object || usage->0 is Array && usage->0->Array_0@.len() <= 2
            &&& maybe_count(field(usage->0, "input_tokens"@, 0))
            &&& maybe_count(field(usage->0, "output_tokens"@, 1))
        }
        &&& maybe_text(field(m, "stop_reason"@, 2))
    }
    &&& absent(envelope) || {
        let e = envelope->0;
        &&& e is Object || e is Array && e->Array_0@.len() <= 3
        &&& maybe_text(field(e, "stdout"@, 0))
        &&& maybe_text(field(e, "stderr"@, 1))
        &&& maybe_bool(field(e, "interrupted"@, 2))
    }
}

/// An object is a session record where its known fields have their types; other fields do
/// not matter, and a known field of another type makes it no record.
pub proof fn objects_with_sound_fields_are_records(json: Json)
    requires
        json is Object,
    ensures
        is_session_record(json) <==> has_record_fields(json),
{
    let message = member(json, "message"@);
    if !absent(message) {
        let content = field(message->0, "content"@, 0);
        if content is Some && content->0 is Array {
            let items = content->0->Array_0@;
            assert(are_items(items) <==> crate::session::all_items(items)) by {
                assert forall|i: int| 0 <= i < items.len() implies (is_item(#[trigger] items[i])
                    <==> {
                    &&& items[i] is Object || items[i] is Array && items[i]->Array_0@.len() <= 5
                    &&& maybe_text(field(items[i], "type"@, 0))
                    &&& maybe_text(field(items[i], "name"@, 1))
                    &&& maybe_bool(field(items[i], "is_error"@, 4))
                }) by {
                }
            }
        }
    }
}

/// Whether a field of an object is the text `word`.
pub open spec fn says_word(json: Json, key: Seq<char>, word: Seq<char>) -> bool {
    member(json, key) is Some && member(json, key)->0 is Text && member(json, key)->0->Text_0@
        == word
}

/// The type of a record in an object: its `type`, or else its `kind`.
pub open spec fn type_text(json: Json) -> Option<Seq<char>> {
    either_text(text_of(json, "type"@), text_of(json, "kind"@))
}

/// Whether a record in an object is of a type.
pub open spec fn is_typed(json: Json, word: Seq<char>) -> bool {
    type_text(json) == Some(word)
}

/// The time of a record in an object: its `timestamp`, or else its `ts`.
pub open spec fn stamped(json: Json, at: Timestamp) -> bool {
    time_field(member(json, "timestamp"@)) == Some(Some(at)) || time_field(
        member(json, "timestamp"@),
    ) == Some(None::<Timestamp>) && time_field(member(json, "ts"@)) == Some(Some(at))
}

/// A record without a time stands for no event, and neither does what is no record.
pub proof fn records_without_a_time_stand_for_nothing(json: Json)
    requires
        json is Object,
    ensures
        !has_record_fields(json) ==> record_event(json) is None,
        absent(member(json, "timestamp"@)) && absent(member(json, "ts"@)) ==> record_event(
            json,
        ) is None,
{
    objects_with_sound_fields_are_records(json);
}

/// The side of a record: its `isSidechain`, or else the main session.
pub open spec fn is_side(json: Json) -> bool {
    member(json, "isSidechain"@) == Some(Json::Bool(true))
}

/// A record of the start of a session names it, by `session_id` or else by `sessionId`.
pub proof fn session_starts_are_read(json: Json, at: Timestamp)
    requires
        json is Object,
        has_record_fields(json),
        stamped(json, at),
        is_typed(json, "session_started"@),
    ensures
        !absent(member(json, "session_id"@)) ==> record_event(json) == Some(
            EventView::SessionStart {
                timestamp: at,
                session_id: member(json, "session_id"@)->0->Text_0@,
            },
        ),
        absent(member(json, "session_id"@)) && !absent(member(json, "sessionId"@)) ==> record_event(
            json,
        ) == Some(
            EventView::SessionStart {
                timestamp: at,
                session_id: member(json, "sessionId"@)->0->Text_0@,
            },
        ),
        absent(member(json, "session_id"@)) && absent(member(json, "sessionId"@)) ==> record_event(
            json,
        ) is None,
{
    objects_with_sound_fields_are_records(json);
}

/// The items of the message of a record.
pub open spec fn has_items(json: Json, items: Seq<Json>) -> bool {
    &&& !absent(member(json, "message"@))
    &&& ({
        let content = field(member(json, "message"@)->0, "content"@, 0);
        content is Some && content->0 is Array && content->0->Array_0@ == items
    })
}

/// Whether an item is of a type.
pub open spec fn is_of_type(item: Json, word: Seq<char>) -> bool {
    let kind = field(item, "type"@, 0);
    kind is Some && kind->0 is Text && kind->0->Text_0@ == word
}

/// Whether an item is the first of its type.
pub open spec fn is_first_of_type(items: Seq<Json>, word: Seq<char>, i: int) -> bool {
    &&& 0 <= i < items.len()
    &&& is_of_type(items[i], word)
    &&& forall|k: int| 0 <= k < i ==> !is_of_type(#[trigger] items[k], word)
}

proof fn lemma_item_of_type(items: Seq<Json>, word: Seq<char>, i: int, from: int)
    requires
        0 <= from <= i <= items.len(),
        i < items.len() ==> is_of_type(items[i], word),
        forall|k: int| from <= k < i ==> !is_of_type(#[trigger] items[k], word),
    ensures
        i < items.len() ==> item_of_type(items, word, from) == Some(items[i]),
        i == items.len() ==> item_of_type(items, word, from) is None,
    decreases i - from,
{
    if from < i {
        assert(!is_of_type(items[from], word));
        lemma_item_of_type(items, word, i, from + 1);
    }
}

/// A text of the input of a tool use.
pub open spec fn input_text(item: Json, key: Seq<char>) -> Option<Seq<char>> {
    let input = field(item, "input"@, 2);
    if input is Some && member(input->0, key) is Some && member(input->0, key)->0 is Text {
        Some(member(input->0, key)->0->Text_0@)
    } else {
        None
    }
}

/// The first of two texts that is there.
pub open spec fn either_text(a: Option<Seq<char>>, b: Option<Seq<char>>) -> Option<Seq<char>> {
    if a is Some {
        a
    } else {
        b
    }
}

/// An assistant record with a tool use stands for the call of the first one: with the name
/// of its tool, the file and the command of its input, and as a write where the tool writes
/// files. It is no error.
pub proof fn tool_uses_are_read(json: Json, at: Timestamp, items: Seq<Json>, i: int)
    requires
        json is Object,
        has_record_fields(json),
        stamped(json, at),
        is_typed(json, "assistant"@),
        has_items(json, items),
        is_first_of_type(items, "tool_use"@, i),
    ensures
        ({
            let event = record_event(json);
            let call = event->0->ToolCall_0;
            let name = field(items[i], "name"@, 1);
            let lowered = lowercase(call.tool_name);
            &&& event is Some
            &&& event->0 is ToolCall
            &&& call.timestamp == at
            &&& call.is_sidechain == is_side(json)
            &&& !call.is_error
            &&& absent(name) ==> call.tool_name == "unknown"@
            &&& !absent(name) ==> call.tool_name == name->0->Text_0@
            &&& call.file_path == either_text(
                input_text(items[i], "file_path"@),
                input_text(items[i], "notebook_path"@),
            )
            &&& call.command == input_text(items[i], "command"@)
            &&& call.is_write <==> lowered == "edit"@ || lowered == "write"@ || lowered
                == "notebookedit"@ || lowered == "multiedit"@
        }),
{
    objects_with_sound_fields_are_records(json);
    lemma_item_of_type(items, "tool_use"@, i, 0);
    reveal_strlit("session_started");
    reveal_strlit("assistant");
    assert("session_started"@.len() != "assistant"@.len());
    assert(message_items(json) == items);
    let m = member(json, "message"@)->0;
    assert(are_items(items));
    assert(maybe_text(field(items[i], "name"@, 1)));
}

/// The change of a call is known where its input holds text that is added or text that is
/// removed; it counts the lines of both. What is added is the `content`, or else the
/// `new_string`; what is removed the `old_string`, of the input or else of its `edit`.
pub proof fn changes_are_counted_in_lines(input: Json)
    ensures
        ({
            let added = either_text(text_of(input, "content"@), text_of(input, "new_string"@));
            let removed = either_text(
                text_of(input, "old_string"@),
                if member(input, "edit"@) is Some {
                    text_of(member(input, "edit"@)->0, "old_string"@)
                } else {
                    None
                },
            );
            &&& line_change(input) is None <==> added is None && removed is None
            &&& added is Some ==> line_change(input) is Some && line_change(input)->0.added
                == lines(added->0).len() as u32
            &&& removed is Some ==> line_change(input) is Some && line_change(input)->0.removed
                == lines(removed->0).len() as u32
            &&& added is None && removed is Some ==> line_change(input)->0.added == 0
            &&& removed is None && added is Some ==> line_change(input)->0.removed == 0
        }),
{
}

/// The text of a member of a document.
pub open spec fn text_of(json: Json, key: Seq<char>) -> Option<Seq<char>> {
    if member(json, key) is Some && member(json, key)->0 is Text {
        Some(member(json, key)->0->Text_0@)
    } else {
        None
    }
}

/// An assistant record without a tool use stands for its token usage, where it has one;
/// counts that are absent are zero.
pub proof fn token_usage_is_read(json: Json, at: Timestamp)
    requires
        json is Object,
        has_record_fields(json),
        stamped(json, at),
        is_typed(json, "assistant"@),
        forall|items: Seq<Json>, i: int|
            has_items(json, items) ==> !(#[trigger] is_first_of_type(items, "tool_use"@, i)),
    ensures
        ({
            let event = record_event(json);
            let message = member(json, "message"@);
            let usage = field(message->0, "usage"@, 1);
            let stop = field(message->0, "stop_reason"@, 2);
            &&& absent(message) || absent(usage) ==> event is None
            &&& !absent(message) && !absent(usage) ==> event is Some && event->0 is TokenActivity
                && {
                let input = field(usage->0, "input_tokens"@, 0);
                let output = field(usage->0, "output_tokens"@, 1);
                &&& event->0->TokenActivity_timestamp == at
                &&& event->0->TokenActivity_is_sidechain == is_side(json)
                &&& absent(input) ==> event->0->input_tokens == 0
                &&& !absent(input) ==> event->0->input_tokens == input->0->Number_0->Unsigned_0
                &&& absent(output) ==> event->0->output_tokens == 0
                &&& !absent(output) ==> event->0->output_tokens == output->0->Number_0->Unsigned_0
                &&& absent(stop) ==> event->0->stop_reason is None
                &&& !absent(stop) ==> event->0->stop_reason == Some(stop->0->Text_0@)
            }
        }),
{
    objects_with_sound_fields_are_records(json);
    reveal_strlit("session_started");
    reveal_strlit("assistant");
    assert("session_started"@.len() != "assistant"@.len());
    let items = message_items(json);
    lemma_no_item(items, "tool_use"@);
    if item_of_type(items, "tool_use"@, 0) is Some {
        let i = choose|i: int| #[trigger] is_first_of_type(items, "tool_use"@, i);
        assert(has_items(json, items));
        assert(!is_first_of_type(items, "tool_use"@, i));
    }
}

proof fn lemma_no_item(items: Seq<Json>, word: Seq<char>)
    ensures
        item_of_type(items, word, 0) is Some ==> exists|i: int| #[trigger]
            is_first_of_type(items, word, i),
{
    if exists|k: int| 0 <= k < items.len() && is_of_type(#[trigger] items[k], word) {
        let k = choose|k: int| 0 <= k < items.len() && is_of_type(#[trigger] items[k], word);
        lemma_first(items, word, k);
    } else {
        lemma_item_of_type(items, word, items.len() as int, 0);
    }
}

proof fn lemma_first(items: Seq<Json>, word: Seq<char>, k: int)
    requires
        0 <= k < items.len(),
        is_of_type(items[k], word),
    ensures
        exists|i: int| #[trigger] is_first_of_type(items, word, i),
    decreases k,
{
    if exists|j: int| 0 <= j < k && is_of_type(#[trigger] items[j], word) {
        let j = choose|j: int| 0 <= j < k && is_of_type(#[trigger] items[j], word);
        lemma_first(items, word, j);
    } else {
        assert(is_first_of_type(items, word, k));
    }
}

/// A user record without a tool result is a message of the user.
pub proof fn user_messages_are_read(json: Json, at: Timestamp)
    requires
        json is Object,
        has_record_fields(json),
        stamped(json, at),
        is_typed(json, "user"@),
        forall|items: Seq<Json>, i: int|
            has_items(json, items) ==> !(#[trigger] is_first_of_type(items, "tool_result"@, i)),
    ensures
        record_event(json) == Some(
            EventView::UserMessage { timestamp: at, is_sidechain: is_side(json) },
        ),
{
    objects_with_sound_fields_are_records(json);
    reveal_strlit("session_started");
    reveal_strlit("assistant");
    reveal_strlit("user");
    assert("session_started"@.len() != "user"@.len());
    assert("assistant"@.len() != "user"@.len());
    let items = message_items(json);
    lemma_no_item(items, "tool_result"@);
    if item_of_type(items, "tool_result"@, 0) is Some {
        let i = choose|i: int| #[trigger] is_first_of_type(items, "tool_result"@, i);
        assert(has_items(json, items));
        assert(!is_first_of_type(items, "tool_result"@, i));
    }
}

/// A compact boundary is known by its `subtype` or its `kind`, or by a type that speaks of
/// compacting, unless the type is one of those that stand for other events.
pub proof fn compact_boundaries_are_read(json: Json, at: Timestamp)
    requires
        json is Object,
        has_record_fields(json),
        stamped(json, at),
        !is_typed(json, "session_started"@),
        !is_typed(json, "assistant"@),
        !is_typed(json, "user"@),
    ensures
        record_event(json) == if says_word(json, "subtype"@, "compact_boundary"@) || says_word(
            json,
            "kind"@,
            "compact_boundary"@,
        ) || type_text(json) is Some && has_text(type_text(json)->0, "compact"@) {
            Some(EventView::CompactBoundary { timestamp: at, is_sidechain: is_side(json) })
        } else {
            None
        },
{
    objects_with_sound_fields_are_records(json);
}

/// The texts of a list are those of its items, one after the other.
pub proof fn texts_of_a_list_are_those_of_its_items(a: Seq<Json>, b: Seq<Json>)
    ensures
        list_texts(a + b) == list_texts(a) + list_texts(b),
    decreases b.len(),
{
    if b.len() == 0 {
        assert(a + b =~= a);
        assert(list_texts(a) + list_texts(b) =~= list_texts(a));
    } else {
        assert((a + b).drop_last() =~= a + b.drop_last());
        texts_of_a_list_are_those_of_its_items(a, b.drop_last());
        assert(list_texts(a + b) =~= list_texts(a) + list_texts(b));
    }
}

/// Whether a document is a block of text: an object whose `text` is not empty.
pub open spec fn is_text_block(block: Json) -> bool {
    text_of(block, "text"@) is Some && text_of(block, "text"@)->0.len() > 0
}

/// The texts of a list of blocks are the texts of the blocks, in their order. A text that
/// is not empty stands for itself, and of an object without a text the `content` counts.
pub proof fn blocks_hold_their_texts(blocks: Vec<Json>)
    requires
        forall|i: int| 0 <= i < blocks@.len() ==> is_text_block(#[trigger] blocks@[i]),
    ensures
        views(texts(Json::Array(blocks))) == Seq::new(
            blocks@.len(),
            |i: int| text_of(blocks@[i], "text"@)->0,
        ),
{
    lemma_block_texts(blocks@);
}

proof fn lemma_block_texts(blocks: Seq<Json>)
    requires
        forall|i: int| 0 <= i < blocks.len() ==> is_text_block(#[trigger] blocks[i]),
    ensures
        views(list_texts(blocks)) == Seq::new(
            blocks.len(),
            |i: int| text_of(blocks[i], "text"@)->0,
        ),
    decreases blocks.len(),
{
    let all = Seq::new(blocks.len(), |i: int| text_of(blocks[i], "text"@)->0);
    if blocks.len() > 0 {
        let head = blocks.drop_last();
        assert forall|i: int| 0 <= i < head.len() implies is_text_block(#[trigger] head[i]) by {
            assert(head[i] == blocks[i]);
        }
        lemma_block_texts(head);
        let rest = Seq::new(head.len(), |i: int| text_of(head[i], "text"@)->0);
        let last = blocks.last();
        assert(is_text_block(blocks[blocks.len() - 1]));
        let t = member(last, "text"@)->0->Text_0;
        assert(texts(last) == seq![t]);
        assert(views(list_texts(head) + seq![t]) =~= views(list_texts(head)).push(t@));
        assert(all =~= rest.push(t@));
    } else {
        assert(views(list_texts(blocks)) =~= all);
    }
}

/// A plain text stands for itself, an object with a text for that text, an object with a
/// content but no text for the content; numbers, truth values and `null` for nothing. Empty
/// texts do not count.
pub proof fn documents_hold_their_texts(json: Json)
    ensures
        json is Text && json->Text_0@.len() > 0 ==> texts(json) == seq![json->Text_0],
        json is Text && json->Text_0@.len() == 0 ==> texts(json).len() == 0,
        json is Null || json is Bool || json is Number ==> texts(json).len() == 0,
        is_text_block(json) ==> texts(json) == seq![member(json, "text"@)->0->Text_0],
        text_of(json, "text"@) is None && member(json, "content"@) is Some ==> texts(json)
            == texts(member(json, "content"@)->0),
        text_of(json, "text"@) is Some && text_of(json, "text"@)->0.len() == 0 ==> texts(
            json,
        ).len() == 0,
{
}

/// Of an object with neither text nor content all members but the type count, in their
/// order.
pub proof fn members_hold_their_texts(members: Seq<JsonMember>, last: JsonMember)
    ensures
        member_texts(Seq::<JsonMember>::empty()).len() == 0,
        last.key@ == "type"@ ==> member_texts(members.push(last)) == member_texts(members),
        last.key@ != "type"@ ==> member_texts(members.push(last)) == member_texts(members) + texts(
            last.value,
        ),
{
    assert(members.push(last).drop_last() =~= members);
}

/// The content of a result is its texts on lines of their own; without any text it has
/// none.
pub proof fn contents_are_texts_on_lines(content: Json)
    ensures
        texts(content).len() == 0 ==> result_content(content) is None,
        texts(content).len() > 0 ==> result_content(content) == Some(
            joined(views(texts(content)), seq!['\n']),
        ),
{
    reveal_strlit("\n");
    assert("\n"@ =~= seq!['\n']);
}

/// Whether a field holds anything but white space.
pub open spec fn has_ink(value: Option<Json>) -> bool {
    value is Some && value->0 is Text && exists|i: int|
        0 <= i < value->0->Text_0@.len() && !is_space(#[trigger] value->0->Text_0@[i])
}

/// A user record with a tool result stands for the first one. Its output is its content or
/// else the `stdout` of the envelope. It is an error where it says so, where the envelope
/// has anything on `stderr` or was interrupted, or where the content holds a mark of a
/// failure; in no other case.
pub proof fn tool_results_are_read(json: Json, at: Timestamp, items: Seq<Json>, i: int)
    requires
        json is Object,
        has_record_fields(json),
        stamped(json, at),
        is_typed(json, "user"@),
        has_items(json, items),
        is_first_of_type(items, "tool_result"@, i),
    ensures
        ({
            let event = record_event(json);
            let e = member(json, "toolUseResult"@);
            let content = field(items[i], "content"@, 3);
            let written = if absent(content) {
                None
            } else {
                result_content(content->0)
            };
            let stdout = field(e->0, "stdout"@, 0);
            let stderr = field(e->0, "stderr"@, 1);
            let interrupted = !absent(e) && field(e->0, "interrupted"@, 2) == Some(
                Json::Bool(true),
            );
            &&& event is Some
            &&& event->0 is ToolResult
            &&& event->0->ToolResult_timestamp == at
            &&& event->0->tool_name is None
            &&& event->0->ToolResult_is_sidechain == is_side(json)
            &&& written is Some ==> event->0->output == written
            &&& written is None && !absent(e) && !absent(stdout) ==> event->0->output == Some(
                stdout->0->Text_0@,
            )
            &&& written is None && (absent(e) || absent(stdout)) ==> event->0->output is None
            &&& !absent(e) && !absent(stderr) ==> event->0->stderr == Some(stderr->0->Text_0@)
            &&& absent(e) || absent(stderr) ==> event->0->stderr is None
            &&& event->0->interrupted == interrupted
            &&& event->0->ToolResult_is_error <==> {
                ||| field(items[i], "is_error"@, 4) == Some(Json::Bool(true))
                ||| !absent(e) && has_ink(stderr)
                ||| interrupted
                ||| written is Some && has_failure_mark(written->0)
            }
            &&& event->0->output is None ==> event->0->persisted_output_path is None
            &&& event->0->output is Some ==> event->0->persisted_output_path == persisted_path(
                event->0->output->0,
            )
        }),
{
    objects_with_sound_fields_are_records(json);
    lemma_item_of_type(items, "tool_result"@, i, 0);
    reveal_strlit("session_started");
    reveal_strlit("assistant");
    reveal_strlit("user");
    assert("session_started"@.len() != "user"@.len());
    assert("assistant"@.len() != "user"@.len());
    assert(message_items(json) == items);
    assert(are_items(items));
    assert(maybe_bool(field(items[i], "is_error"@, 4)));
    let e = member(json, "toolUseResult"@);
    if !absent(e) {
        let stderr = field(e->0, "stderr"@, 1);
        if !absent(stderr) {
            blank_texts_are_white_space(stderr->0->Text_0@);
        }
    }
}

/// A tool result whose content is a list of text blocks has their texts, on lines of their
/// own, as its output, and is an error wherever one of them holds a mark of a failure.
pub proof fn results_in_blocks_are_read(
    json: Json,
    at: Timestamp,
    items: Seq<Json>,
    i: int,
    blocks: Vec<Json>,
)
    requires
        json is Object,
        has_record_fields(json),
        stamped(json, at),
        is_typed(json, "user"@),
        has_items(json, items),
        is_first_of_type(items, "tool_result"@, i),
        field(items[i], "content"@, 3) == Some(Json::Array(blocks)),
        blocks@.len() > 0,
        forall|k: int| 0 <= k < blocks@.len() ==> is_text_block(#[trigger] blocks@[k]),
    ensures
        ({
            let event = record_event(json)->0;
            let list = Seq::new(blocks@.len(), |k: int| text_of(blocks@[k], "text"@)->0);
            &&& record_event(json) is Some
            &&& event is ToolResult
            &&& event->output == Some(joined(list, seq!['\n']))
            &&& (exists|k: int|
                0 <= k < blocks@.len() && has_failure_mark(
                    text_of(#[trigger] blocks@[k], "text"@)->0,
                )) ==> event->ToolResult_is_error
        }),
{
    tool_results_are_read(json, at, items, i);
    blocks_hold_their_texts(blocks);
    contents_are_texts_on_lines(Json::Array(blocks));
    let list = Seq::new(blocks@.len(), |k: int| text_of(blocks@[k], "text"@)->0);
    assert(views(texts(Json::Array(blocks))).len() == texts(Json::Array(blocks)).len());
    if exists|k: int|
        0 <= k < blocks@.len() && has_failure_mark(text_of(#[trigger] blocks@[k], "text"@)->0) {
        let k = choose|k: int|
            0 <= k < blocks@.len() && has_failure_mark(
                text_of(#[trigger] blocks@[k], "text"@)->0,
            );
        let t = list[k];
        if has_text(t, "FAILED"@) {
            joined_texts_hold_their_parts(list, seq!['\n'], k, "FAILED"@);
        }
        if has_text(t, "error[E"@) {
            joined_texts_hold_their_parts(list, seq!['\n'], k, "error[E"@);
        }
        if has_text(t, "panicked"@) {
            joined_texts_hold_their_parts(list, seq!['\n'], k, "panicked"@);
        }
        if has_text(t, "ERRORS"@) {
            joined_texts_hold_their_parts(list, seq!['\n'], k, "ERRORS"@);
        }
        if has_text(t, "npm ERR!"@) {
            joined_texts_hold_their_parts(list, seq!['\n'], k, "npm ERR!"@);
        }
    }
}

/// Whether a line of a notice can name the file of the output: it is not blank, and neither
/// the preview nor the end of the notice.
pub open spec fn can_name_output(line: Seq<char>) -> bool {
    let t = stripped(line);
    &&& t.len() > 0
    &&& !(t.len() >= 7 && t.take(7) == "Preview"@)
    &&& t != "</persisted-output>"@
}

proof fn lemma_first_output(list: Seq<Seq<char>>, i: int)
    requires
        0 <= i <= list.len(),
        i < list.len() ==> can_name_output(list[i]),
        forall|k: int| 0 <= k < i ==> !can_name_output(#[trigger] list[k]),
    ensures
        i < list.len() ==> first_output_path(list) == Some(stripped(list[i])),
        i == list.len() ==> first_output_path(list) is None,
    decreases i,
{
    reveal_strlit("Preview");
    if list.len() > 0 {
        let t = stripped(list[0]);
        assert(t.len() >= 7 ==> t.subrange(0, 7) =~= t.take(7));
        assert(names_output(list[0]) == can_name_output(list[0]));
        if i > 0 {
            assert(!can_name_output(list[0]));
            let rest = list.drop_first();
            assert forall|k: int| 0 <= k < i - 1 implies !can_name_output(#[trigger] rest[k]) by {
                assert(rest[k] == list[k + 1]);
            }
            lemma_first_output(rest, i - 1);
        }
    }
}

/// A notice of persisted output points to the first line, after the words that introduce
/// it, that can name a file.
pub proof fn persisted_outputs_are_named(before: Seq<char>, after: Seq<char>, i: int)
    requires
        has_text(before + "Full output saved to:"@ + after, "<persisted-output>"@),
        forall|k: int|
            0 <= k < before.len() ==> !#[trigger] matches_at(
                before + "Full output saved to:"@ + after,
                "Full output saved to:"@,
                k,
            ),
        0 <= i <= lines(after).len(),
        i < lines(after).len() ==> can_name_output(lines(after)[i]),
        forall|k: int| 0 <= k < i ==> !can_name_output(#[trigger] lines(after)[k]),
    ensures
        ({
            let path = persisted_path(before + "Full output saved to:"@ + after);
            &&& i < lines(after).len() ==> path == Some(stripped(lines(after)[i]))
            &&& i == lines(after).len() ==> path is None
        }),
{
    let p = "Full output saved to:"@;
    let s = before + p + after;
    assert(s.subrange(before.len() as int, (before.len() + p.len()) as int) =~= p);
    assert(matches_at(s, p, before.len() as int));
    lemma_match_from(s, p, 0);
    let at = match_from(s, p, 0);
    assert(at is Some) by {
        assert(matches_at(s, p, before.len() as int));
    }
    if at->0 < before.len() {
        assert(!matches_at(s, p, at->0));
    }
    assert(at == Some(before.len() as int));
    assert(s.skip((before.len() + p.len()) as int) =~= after);
    lemma_first_output(lines(after), i);
}

/// A path to persisted output is looked for only in an output that says so, and only after
/// the words that introduce it.
pub proof fn persisted_outputs_are_announced(content: Seq<char>)
    ensures
        !has_text(content, "<persisted-output>"@) ==> persisted_path(content) is None,
        !has_text(content, "Full output saved to:"@) ==> persisted_path(content) is None,
{
    texts_are_split_at_the_first_separator(content, "Full output saved to:"@);
}

} // verus!
