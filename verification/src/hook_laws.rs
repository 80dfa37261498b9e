//! Laws of hooks: which event a hook payload becomes.

use crate::clock::Timestamp;
use crate::hook::{
    flattened, flattened_items, flattened_members, holds_payload, hook_event, is_payload,
    HookPayload,
};
use crate::json::{member, Json, JsonMember};
use crate::paths::within_any;
use crate::record_laws::{absent, either_text, text_of};
use crate::session::line_change;
use crate::state::{applied, StateView};
use crate::text::{decimal, has_text, joined, lowercase};
use crate::types::{text_view, AgentEvent, EventView};
use vstd::prelude::*;

verus! {

/// Whether a hook announces the start of a session: it was called as such, or its payload
/// says so.
pub open spec fn announces_session(payload: HookPayload, session_start: bool) -> bool {
    session_start || payload.hook_event_name is Some && payload.hook_event_name->0@
        == "SessionStart"@
}

/// Whether a hook announces a tool call: it was called as such, or its payload says so, and
/// it does not announce a session.
pub open spec fn announces_call(payload: HookPayload, pre: bool, session_start: bool) -> bool {
    !announces_session(payload, session_start) && (pre || payload.hook_event_name is Some
        && payload.hook_event_name->0@ == "PreToolUse"@)
}

/// A hook at the start of a session becomes that start, with the session of the payload.
pub proof fn session_hooks_start_the_session(
    payload: HookPayload,
    cwd: Seq<char>,
    pre: bool,
    session_start: bool,
    at: Timestamp,
)
    requires
        announces_session(payload, session_start),
    ensures
        hook_event(payload, cwd, pre, session_start, at) == (EventView::SessionStart {
            timestamp: at,
            session_id: payload.session_id@,
        }),
{
}

/// A text of the input of a hook.
pub open spec fn hook_text(payload: HookPayload, key: Seq<char>) -> Option<Seq<char>> {
    if payload.tool_input is Some {
        text_of(payload.tool_input->0, key)
    } else {
        None
    }
}

/// The name of the tool of a hook.
pub open spec fn tool_of(payload: HookPayload) -> Seq<char> {
    if payload.tool_name is Some {
        payload.tool_name->0@
    } else {
        "unknown"@
    }
}

/// Whether a tool of this name writes files: it edits or writes, in any letter case.
pub open spec fn names_writing_tool(name: Seq<char>) -> bool {
    let lowered = lowercase(name);
    lowered == "edit"@ || lowered == "write"@ || lowered == "multiedit"@ || lowered
        == "notebookedit"@
}

/// A hook before a tool call becomes that call of the main session: with the tool, the
/// command and the change of its input. It is a write where the tool writes files, and no
/// error. The file of the input lies below the working directory unless it is absolute.
pub proof fn tool_hooks_become_calls(
    payload: HookPayload,
    cwd: Seq<char>,
    pre: bool,
    session_start: bool,
    at: Timestamp,
)
    requires
        announces_call(payload, pre, session_start),
    ensures
        ({
            let event = hook_event(payload, cwd, pre, session_start, at);
            let call = event->ToolCall_0;
            let file = either_text(
                hook_text(payload, "file_path"@),
                hook_text(payload, "notebook_path"@),
            );
            &&& event is ToolCall
            &&& call.timestamp == at
            &&& call.tool_name == tool_of(payload)
            &&& call.command == hook_text(payload, "command"@)
            &&& call.is_write <==> names_writing_tool(tool_of(payload))
            &&& !call.is_error
            &&& !call.is_sidechain
            &&& file is None ==> call.file_path is None
            &&& file is Some && file->0.len() > 0 && file->0[0] == '/' ==> call.file_path == file
            &&& file is Some && !(file->0.len() > 0 && file->0[0] == '/') && cwd.len() > 0
                && cwd.last() != '/' ==> call.file_path == Some(cwd + seq!['/'] + file->0)
            &&& file is Some && !(file->0.len() > 0 && file->0[0] == '/') && (cwd.len() == 0
                || cwd.last() == '/') ==> call.file_path == Some(cwd + file->0)
            &&& payload.tool_input is None ==> call.line_change is None
            &&& payload.tool_input is Some ==> call.line_change == line_change(
                payload.tool_input->0,
            )
        }),
{
    let file = either_text(
        hook_text(payload, "file_path"@),
        hook_text(payload, "notebook_path"@),
    );
    if file is Some {
        assert(cwd.push('/') + file->0 =~= cwd + seq!['/'] + file->0);
    }
}

/// Any other hook becomes a result of the main session: an error where the response says so
/// or its text speaks of an error, with that text as its output.
pub proof fn other_hooks_become_results(
    payload: HookPayload,
    cwd: Seq<char>,
    pre: bool,
    session_start: bool,
    at: Timestamp,
)
    requires
        !announces_session(payload, session_start),
        !announces_call(payload, pre, session_start),
    ensures
        ({
            let event = hook_event(payload, cwd, pre, session_start, at);
            let response = payload.tool_response;
            &&& event is ToolResult
            &&& event->ToolResult_timestamp == at
            &&& event->tool_name == text_view(payload.tool_name)
            &&& !event->ToolResult_is_sidechain
            &&& !event->interrupted
            &&& event->stderr is None
            &&& event->persisted_output_path is None
            &&& response is None ==> !event->ToolResult_is_error && event->output is None
            &&& response is Some ==> event->output == Some(flattened(response->0))
            &&& response is Some ==> (event->ToolResult_is_error <==> member(
                response->0,
                "is_error"@,
            ) == Some(Json::Bool(true)) || has_text(flattened(response->0), "error"@))
        }),
{
}

/// A hook before a write outside all guards is a violation of the scope: applied to a
/// session it counts one more, and the file is the latest violation.
pub proof fn hooked_writes_outside_the_guards_are_violations(
    s: StateView,
    payload: HookPayload,
    cwd: Seq<char>,
    pre: bool,
    session_start: bool,
    at: Timestamp,
    event: AgentEvent,
)
    requires
        announces_call(payload, pre, session_start),
        names_writing_tool(tool_of(payload)),
        event@ == hook_event(payload, cwd, pre, session_start, at),
        event is ToolCall,
        event->ToolCall_0.file_path is Some,
        s.guard_paths.len() > 0,
        !within_any(event->ToolCall_0.file_path->0@, s.guard_paths),
        s.scope_violation_count < u32::MAX,
    ensures
        applied(s, event).scope_violation_count == s.scope_violation_count + 1,
        applied(s, event).latest_scope_violation == event->ToolCall_0.file_path,
{
    tool_hooks_become_calls(payload, cwd, pre, session_start, at);
    assert(event->ToolCall_0@ == hook_event(payload, cwd, pre, session_start, at)->ToolCall_0);
}

/// An object is a payload where it names a session and its other texts are texts; the
/// payload holds what the object does.
pub proof fn payloads_hold_the_fields_of_their_object(json: Json, payload: HookPayload)
    requires
        json is Object,
    ensures
        is_payload(json) <==> {
            &&& text_of(json, "session_id"@) is Some
            &&& absent(member(json, "hook_event_name"@)) || text_of(
                json,
                "hook_event_name"@,
            ) is Some
            &&& absent(member(json, "tool_name"@)) || text_of(json, "tool_name"@) is Some
        },
        is_payload(json) && holds_payload(payload, json) ==> {
            &&& Some(payload.session_id@) == text_of(json, "session_id"@)
            &&& text_view(payload.hook_event_name) == text_of(json, "hook_event_name"@)
            &&& text_view(payload.tool_name) == text_of(json, "tool_name"@)
            &&& absent(member(json, "tool_input"@)) ==> payload.tool_input is None
            &&& !absent(member(json, "tool_input"@)) ==> payload.tool_input == member(
                json,
                "tool_input"@,
            )
            &&& absent(member(json, "tool_response"@)) ==> payload.tool_response is None
            &&& !absent(member(json, "tool_response"@)) ==> payload.tool_response == member(
                json,
                "tool_response"@,
            )
        },
{
}

/// A payload may also be a list of its five fields, each in its place.
pub proof fn payloads_hold_the_items_of_their_list(json: Json, payload: HookPayload)
    requires
        json is Array,
        is_payload(json),
        holds_payload(payload, json),
    ensures
        ({
            let items = json->Array_0@;
            &&& items.len() == 5
            &&& items[0] is Text ==> payload.hook_event_name == Some(items[0]->Text_0)
            &&& items[0] is Null ==> payload.hook_event_name is None
            &&& items[1] == Json::Text(payload.session_id)
            &&& items[2] is Text ==> payload.tool_name == Some(items[2]->Text_0)
            &&& items[2] is Null ==> payload.tool_name is None
            &&& items[3] is Null ==> payload.tool_input is None
            &&& !(items[3] is Null) ==> payload.tool_input == Some(items[3])
            &&& items[4] is Null ==> payload.tool_response is None
            &&& !(items[4] is Null) ==> payload.tool_response == Some(items[4])
        }),
{
}

/// What is neither an object nor a list of five values is no payload.
pub proof fn other_documents_are_no_payloads(json: Json)
    requires
        !(json is Object),
        !(json is Array && json->Array_0@.len() == 5),
    ensures
        !is_payload(json),
{
}

/// The text of a document: a text is its own, truth values and numbers are written out,
/// `null` is empty, and an object with a text is that text.
pub proof fn documents_are_flattened(json: Json)
    ensures
        json is Text ==> flattened(json) == json->Text_0@,
        json == Json::Bool(true) ==> flattened(json) == "true"@,
        json == Json::Bool(false) ==> flattened(json) == "false"@,
        json is Null ==> flattened(json).len() == 0,
        text_of(json, "text"@) is Some ==> flattened(json) == text_of(json, "text"@)->0,
        json is Array ==> flattened(json) == joined(flattened_items(json->Array_0@), seq!['\n']),
        json is Object && text_of(json, "text"@) is None ==> flattened(json) == joined(
            flattened_members(json->Object_0@),
            seq!['\n'],
        ),
        json is Number && json->Number_0 is Unsigned ==> flattened(json) == decimal(
            json->Number_0->Unsigned_0 as nat,
        ),
{
    reveal_strlit("\n");
    reveal_strlit("");
    assert("\n"@ =~= seq!['\n']);
}

/// The pieces of a list or an object are those of its values, in their order.
pub proof fn pieces_are_flattened_in_order(items: Seq<Json>, members: Seq<JsonMember>)
    ensures
        flattened_items(items).len() == items.len(),
        forall|i: int|
            0 <= i < items.len() ==> #[trigger] flattened_items(items)[i] == flattened(items[i]),
        flattened_members(members).len() == members.len(),
        forall|i: int|
            0 <= i < members.len() ==> #[trigger] flattened_members(members)[i] == flattened(
                members[i].value,
            ),
    decreases items.len() + members.len(),
{
    let none = Seq::<Json>::empty();
    let nothing = Seq::<JsonMember>::empty();
    if items.len() > 0 {
        pieces_are_flattened_in_order(items.drop_last(), nothing);
        assert forall|i: int| 0 <= i < items.len() implies #[trigger] flattened_items(items)[i]
            == flattened(items[i]) by {
            if i < items.len() - 1 {
                assert(flattened_items(items.drop_last())[i] == flattened(items.drop_last()[i]));
            }
        }
    }
    if members.len() > 0 {
        pieces_are_flattened_in_order(none, members.drop_last());
        assert forall|i: int| 0 <= i < members.len() implies #[trigger] flattened_members(
            members,
        )[i] == flattened(members[i].value) by {
            if i < members.len() - 1 {
                assert(flattened_members(members.drop_last())[i] == flattened(
                    members.drop_last()[i].value,
                ));
            }
        }
    }
}

} // verus!
