//! Laws of test runs and writes: which commands and tools count, and how they are counted.

use crate::classifier::{classified, ClassifierConfig};
use crate::clock::Timestamp;
use crate::commands::{has_sequence, sequence_at, tokens};
use crate::loop_detector::{
    failed_test, in_window, is_test_run, is_write_tool, latest_call, scored_calls, window_calls,
    writes_file,
};
use crate::phase_laws::{outweighs_tests, repeated_test_failures_are_a_loop};
use crate::state::{applied, reports_failure, result_position, runs_tests, test_failed, StateView};
use crate::text::{has_text, is_space, lowercase};
use crate::text_laws::blank_texts_are_white_space;
use crate::types::{AgentEvent, ToolCall};
use vstd::prelude::*;

verus! {

/// Whether two words follow one another in a list of words.
pub open spec fn two_words(list: Seq<Seq<char>>, a: Seq<char>, b: Seq<char>) -> bool {
    exists|i: int| 0 <= i < list.len() - 1 && #[trigger] list[i] == a && list[i + 1] == b
}

/// Whether three words follow one another in a list of words.
pub open spec fn three_words(
    list: Seq<Seq<char>>,
    a: Seq<char>,
    b: Seq<char>,
    c: Seq<char>,
) -> bool {
    exists|i: int|
        0 <= i < list.len() - 2 && #[trigger] list[i] == a && list[i + 1] == b && list[i + 2] == c
}

/// Whether the words of a command are those of a test run of a session: `cargo test`,
/// `npm test`, `go test`, or `pytest`, by itself or as a module of `python`.
pub open spec fn words_run_tests(list: Seq<Seq<char>>) -> bool {
    ||| two_words(list, "cargo"@, "test"@)
    ||| two_words(list, "npm"@, "test"@)
    ||| two_words(list, "go"@, "test"@)
    ||| list.contains("pytest"@)
    ||| three_words(list, "python"@, "-m"@, "pytest"@)
}

/// Whether the words of a command are those of a test run that loop detection looks for.
pub open spec fn words_run_any_tests(list: Seq<Seq<char>>) -> bool {
    ||| words_run_tests(list)
    ||| two_words(list, "cargo"@, "nextest"@)
    ||| three_words(list, "npm"@, "run"@, "test"@)
    ||| two_words(list, "pnpm"@, "test"@)
    ||| three_words(list, "pnpm"@, "run"@, "test"@)
    ||| two_words(list, "yarn"@, "test"@)
    ||| two_words(list, "bun"@, "test"@)
}

proof fn lemma_one(list: Seq<Seq<char>>, a: Seq<char>)
    ensures
        has_sequence(list, seq![a]) == list.contains(a),
{
    if has_sequence(list, seq![a]) {
        let words = seq![a];
        let i = choose|i: int| #[trigger] sequence_at(list, words, i);
        assert(list.subrange(i, i + 1)[0] == list[i]);
        assert(seq![a][0] == a);
    }
    if list.contains(a) {
        let i = list.index_of(a);
        assert(list.subrange(i, i + 1) =~= seq![a]);
        assert(sequence_at(list, seq![a], i));
    }
}

proof fn lemma_two(list: Seq<Seq<char>>, a: Seq<char>, b: Seq<char>)
    ensures
        has_sequence(list, seq![a, b]) == two_words(list, a, b),
{
    if has_sequence(list, seq![a, b]) {
        let words = seq![a, b];
        let i = choose|i: int| #[trigger] sequence_at(list, words, i);
        let sub = list.subrange(i, i + 2);
        assert(sub[0] == list[i] && sub[1] == list[i + 1]);
        assert(seq![a, b][0] == a && seq![a, b][1] == b);
    }
    if two_words(list, a, b) {
        let i = choose|i: int|
            0 <= i < list.len() - 1 && #[trigger] list[i] == a && list[i + 1] == b;
        assert(list.subrange(i, i + 2) =~= seq![a, b]);
        assert(sequence_at(list, seq![a, b], i));
    }
}

proof fn lemma_three(list: Seq<Seq<char>>, a: Seq<char>, b: Seq<char>, c: Seq<char>)
    ensures
        has_sequence(list, seq![a, b, c]) == three_words(list, a, b, c),
{
    if has_sequence(list, seq![a, b, c]) {
        let words = seq![a, b, c];
        let i = choose|i: int| #[trigger] sequence_at(list, words, i);
        let sub = list.subrange(i, i + 3);
        assert(sub[0] == list[i] && sub[1] == list[i + 1] && sub[2] == list[i + 2]);
        assert(seq![a, b, c][0] == a && seq![a, b, c][1] == b && seq![a, b, c][2] == c);
    }
    if three_words(list, a, b, c) {
        let i = choose|i: int|
            0 <= i < list.len() - 2 && #[trigger] list[i] == a && list[i + 1] == b && list[i + 2]
                == c;
        assert(list.subrange(i, i + 3) =~= seq![a, b, c]);
        assert(sequence_at(list, seq![a, b, c], i));
    }
}

/// A command is a test run by its words, whatever stands before and after them.
pub proof fn test_runs_are_known_by_their_words(command: Seq<char>)
    ensures
        runs_tests(command) <==> words_run_tests(tokens(command)),
        is_test_run(command) <==> words_run_any_tests(tokens(command)),
{
    let list = tokens(command);
    lemma_two(list, "cargo"@, "test"@);
    lemma_two(list, "npm"@, "test"@);
    lemma_two(list, "go"@, "test"@);
    lemma_one(list, "pytest"@);
    lemma_three(list, "python"@, "-m"@, "pytest"@);
    lemma_two(list, "cargo"@, "nextest"@);
    lemma_three(list, "npm"@, "run"@, "test"@);
    lemma_two(list, "pnpm"@, "test"@);
    lemma_three(list, "pnpm"@, "run"@, "test"@);
    lemma_two(list, "yarn"@, "test"@);
    lemma_two(list, "bun"@, "test"@);
}

/// Whether the output of a test run holds one of the marks of a failure.
pub open spec fn has_failure_mark(output: Seq<char>) -> bool {
    ||| has_text(output, "FAILED"@)
    ||| has_text(output, "error[E"@)
    ||| has_text(output, "panicked"@)
    ||| has_text(output, "ERRORS"@)
    ||| has_text(output, "npm ERR!"@)
}

/// Whether a result tells of a failure: by its error flag, by anything but white space on
/// its error output, or by a mark in its output.
pub open spec fn tells_failure(result: AgentEvent) -> bool {
    ||| result->ToolResult_is_error
    ||| result->stderr is Some && exists|i: int|
        0 <= i < result->stderr->0@.len() && !is_space(#[trigger] result->stderr->0@[i])
    ||| result->output is Some && has_failure_mark(result->output->0@)
}

/// Whether a call of the main session runs a command in the shell.
pub open spec fn is_shell_call(call: ToolCall) -> bool {
    lowercase(call.tool_name@) == "bash"@ && call.command is Some && !call.is_write
        && !call.is_sidechain
}

/// Whether a result of the main session can be that of a call.
pub open spec fn can_answer(result: AgentEvent, call: ToolCall) -> bool {
    result is ToolResult && !result->ToolResult_is_sidechain && (result->tool_name is Some
        ==> result->tool_name->0@ == call.tool_name@)
}

/// The state after a call and its result.
pub open spec fn after_run(s: StateView, call: ToolCall, result: AgentEvent) -> StateView {
    applied(applied(s, AgentEvent::ToolCall(call)), result)
}

/// A test run of the main session counts one more failure where its result tells of one,
/// and ends the count where it does not; either way it becomes the last test command. Any
/// other command ends the count and forgets the last test command.
pub proof fn runs_of_tests_are_counted(s: StateView, call: ToolCall, result: AgentEvent)
    requires
        is_shell_call(call),
        can_answer(result, call),
    ensures
        ({
            let t = after_run(s, call, result);
            let tests = words_run_tests(tokens(call.command->0@));
            &&& tests ==> t.last_test_command == Some(call.command->0)
            &&& !tests ==> t.last_test_command is None
            &&& tests && tells_failure(result) && s.consecutive_test_failures < u32::MAX
                ==> t.consecutive_test_failures == s.consecutive_test_failures + 1
            &&& tests && !tells_failure(result) ==> t.consecutive_test_failures == 0
            &&& !tests ==> t.consecutive_test_failures == 0
        }),
{
    test_runs_are_known_by_their_words(call.command->0@);
    let m = applied(s, AgentEvent::ToolCall(call));
    let calls = m.recent_tool_calls;
    assert(calls.len() > 0 && calls.last() == call);
    assert(result_position(calls, result->tool_name, false) == calls.len() - 1);
    if result->stderr is Some {
        blank_texts_are_white_space(result->stderr->0@);
    }
    assert(tells_failure(result) == test_failed(
        result->ToolResult_is_error,
        result->output,
        result->stderr,
    ));
}

/// Three test runs in a row whose results tell of failures are a test loop at the default
/// limit, unless a tool loop or something more urgent is found. The phase names the last
/// command.
pub proof fn three_failing_runs_are_a_test_loop(
    s: StateView,
    calls: Seq<ToolCall>,
    results: Seq<AgentEvent>,
    now: Timestamp,
    cfg: ClassifierConfig,
)
    requires
        calls.len() == 3,
        results.len() == 3,
        forall|i: int|
            0 <= i < 3 ==> is_shell_call(#[trigger] calls[i]) && words_run_tests(
                tokens(calls[i].command->0@),
            ),
        forall|i: int|
            0 <= i < 3 ==> can_answer(#[trigger] results[i], calls[i]) && tells_failure(
                results[i],
            ),
        s.consecutive_test_failures <= u32::MAX - 3,
        s.recent_tool_calls.len() <= u32::MAX - 3,
        cfg.test_loop_failures == 3,
    ensures
        ({
            let t = after_run(
                after_run(after_run(s, calls[0], results[0]), calls[1], results[1]),
                calls[2],
                results[2],
            );
            let phase = classified(t, now, cfg);
            &&& outweighs_tests(phase) || phase is TestLoop
            &&& phase is TestLoop ==> phase->command == calls[2].command->0@
                && phase->failure_count >= s.consecutive_test_failures + 3
            &&& t.consecutive_test_failures == s.consecutive_test_failures + 3
        }),
{
    let a = after_run(s, calls[0], results[0]);
    let b = after_run(a, calls[1], results[1]);
    let t = after_run(b, calls[2], results[2]);
    runs_of_tests_are_counted(s, calls[0], results[0]);
    runs_of_tests_are_counted(a, calls[1], results[1]);
    runs_of_tests_are_counted(b, calls[2], results[2]);
    lemma_history_len(s, calls[0], results[0]);
    lemma_history_len(a, calls[1], results[1]);
    lemma_history_len(b, calls[2], results[2]);
    repeated_test_failures_are_a_loop(t, now, cfg);
}

proof fn lemma_history_len(s: StateView, call: ToolCall, result: AgentEvent)
    requires
        result is ToolResult,
    ensures
        after_run(s, call, result).recent_tool_calls.len() <= s.recent_tool_calls.len() + 1,
{
    let m = applied(s, AgentEvent::ToolCall(call));
    crate::state::lemma_result_position(
        m.recent_tool_calls,
        result->tool_name,
        result->ToolResult_is_sidechain,
    );
}

/// The tools that write files are `Edit`, `Write`, `NotebookEdit` and `MultiEdit`, in any
/// letter case.
pub proof fn writing_tools_are_known_by_name(name: Seq<char>)
    ensures
        is_write_tool(name) <==> lowercase(name) == "edit"@ || lowercase(name) == "write"@
            || lowercase(name) == "notebookedit"@ || lowercase(name) == "multiedit"@,
{
}

/// A call writes a file where it names one and its tool writes files.
pub proof fn calls_write_the_files_they_name(call: ToolCall)
    ensures
        writes_file(call) <==> call.file_path is Some && (lowercase(call.tool_name@) == "edit"@
            || lowercase(call.tool_name@) == "write"@ || lowercase(call.tool_name@)
            == "notebookedit"@ || lowercase(call.tool_name@) == "multiedit"@),
{
}

/// A call is a failed test run where the shell ran a test command and its result was an
/// error.
pub proof fn failed_test_calls_ran_tests(call: ToolCall)
    ensures
        failed_test(call) <==> lowercase(call.tool_name@) == "bash"@ && call.is_error
            && call.command is Some && words_run_any_tests(tokens(call.command->0@)),
{
    if call.command is Some {
        test_runs_are_known_by_their_words(call.command->0@);
    }
}

/// Whether a time is the latest of several calls.
pub open spec fn is_latest(calls: Seq<ToolCall>, end: Timestamp) -> bool {
    &&& exists|i: int| 0 <= i < calls.len() && (#[trigger] calls[i]).timestamp == end
    &&& forall|i: int|
        0 <= i < calls.len() ==> !(#[trigger] calls[i]).timestamp.is_after(end)
}

proof fn lemma_latest_call(calls: Seq<ToolCall>)
    requires
        calls.len() > 0,
    ensures
        latest_call(calls) is Some,
        is_latest(calls, latest_call(calls)->0),
    decreases calls.len(),
{
    let head = calls.drop_last();
    assert(calls[calls.len() - 1] == calls.last());
    let end = latest_call(calls)->0;
    if head.len() > 0 {
        lemma_latest_call(head);
        let k = choose|i: int|
            0 <= i < head.len() && (#[trigger] head[i]).timestamp == latest_call(head)->0;
        assert(calls[k] == head[k]);
        assert forall|i: int| 0 <= i < calls.len() implies !(
        #[trigger] calls[i]).timestamp.is_after(end) by {
            if i < head.len() {
                assert(head[i] == calls[i]);
            }
        }
    }
}

proof fn lemma_window_calls(calls: Seq<ToolCall>, end: Timestamp)
    ensures
        window_calls(calls, end) == calls.filter(|c: ToolCall| in_window(c.timestamp, end)),
    decreases calls.len(),
{
    reveal(Seq::filter);
    if calls.len() > 0 {
        lemma_window_calls(calls.drop_last(), end);
    }
}

/// Loop detection looks at the calls of the five minutes before the latest call, in their
/// order, and at no others.
pub proof fn loops_are_looked_for_within_five_minutes(calls: Seq<ToolCall>, end: Timestamp)
    requires
        is_latest(calls, end),
        !end.is_leap(),
    ensures
        scored_calls(calls) == calls.filter(
            |c: ToolCall|
                c.timestamp.secs > end.secs - 300 || c.timestamp.secs == end.secs - 300
                    && c.timestamp.nanos >= end.nanos,
        ),
{
    lemma_latest_call(calls);
    let latest = latest_call(calls)->0;
    let i = choose|i: int| 0 <= i < calls.len() && (#[trigger] calls[i]).timestamp == latest;
    let k = choose|k: int| 0 <= k < calls.len() && (#[trigger] calls[k]).timestamp == end;
    assert(!calls[i].timestamp.is_after(end));
    assert(!calls[k].timestamp.is_after(latest));
    assert(latest == end);
    lemma_window_calls(calls, end);
    let p = |c: ToolCall| in_window(c.timestamp, end);
    let q = |c: ToolCall|
        c.timestamp.secs > end.secs - 300 || c.timestamp.secs == end.secs - 300
            && c.timestamp.nanos >= end.nanos;
    lemma_filters_agree(calls, p, q);
}

proof fn lemma_filters_agree(
    calls: Seq<ToolCall>,
    p: spec_fn(ToolCall) -> bool,
    q: spec_fn(ToolCall) -> bool,
)
    requires
        forall|c: ToolCall| #[trigger] p(c) == q(c),
    ensures
        calls.filter(p) == calls.filter(q),
    decreases calls.len(),
{
    reveal(Seq::filter);
    if calls.len() > 0 {
        lemma_filters_agree(calls.drop_last(), p, q);
        assert(p(calls.last()) == q(calls.last()));
    }
}

/// The output of a test run that holds a mark of a failure tells of one, whatever stands
/// around the mark.
pub proof fn failure_marks_are_found(output: Seq<char>)
    ensures
        reports_failure(output) <==> has_failure_mark(output),
{
}

} // verus!
