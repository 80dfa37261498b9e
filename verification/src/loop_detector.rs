//! Detection of repeated rewrites and repeated test failures.

use crate::clock::{latest, latest_of, Timestamp, NANOS_PER_SEC};
use crate::commands::{command_tokens, contains_sequence, has_sequence, slice_views, tokens};
use crate::paths::{path_before, path_less, paths_equal, same_path};
use crate::text::{lowercase, same_text, to_lowercase};
use crate::types::{LoopScore, ToolCall};
use std::collections::VecDeque;
use vstd::prelude::*;

verus! {

/// How far before the latest call other calls still count, in nanoseconds.
pub const LOOP_WINDOW_SECS: u64 = 300;

/// The latest time among calls.
pub open spec fn latest_call(calls: Seq<ToolCall>) -> Option<Timestamp>
    decreases calls.len(),
{
    if calls.len() == 0 {
        None
    } else {
        latest(latest_call(calls.drop_last()), Some(calls.last().timestamp))
    }
}

/// The seconds of the start of the loop window before a time. The window before a leap
/// second is counted from the second after it.
pub open spec fn window_start(end: Timestamp) -> int {
    if end.is_leap() {
        end.secs + 1 - LOOP_WINDOW_SECS
    } else {
        end.secs - LOOP_WINDOW_SECS
    }
}

/// Whether a time lies within the loop window before another one, or after it.
pub open spec fn in_window(at: Timestamp, end: Timestamp) -> bool {
    let nanos = if end.is_leap() {
        end.nanos - NANOS_PER_SEC
    } else {
        end.nanos as int
    };
    at.secs > window_start(end) || at.secs == window_start(end) && at.nanos >= nanos
}

fn inside_window(at: Timestamp, end: Timestamp) -> (r: bool)
    ensures
        r == in_window(at, end),
{
    let (start, nanos): (i128, u32) = if end.nanos >= 1_000_000_000 {
        (end.secs as i128 + 1 - LOOP_WINDOW_SECS as i128, end.nanos - 1_000_000_000)
    } else {
        (end.secs as i128 - LOOP_WINDOW_SECS as i128, end.nanos)
    };
    at.secs as i128 > start || (at.secs as i128 == start && at.nanos >= nanos)
}

/// The calls within the loop window before a time.
pub open spec fn window_calls(calls: Seq<ToolCall>, end: Timestamp) -> Seq<ToolCall>
    decreases calls.len(),
{
    if calls.len() == 0 {
        seq![]
    } else {
        let rest = window_calls(calls.drop_last(), end);
        if in_window(calls.last().timestamp, end) {
            rest.push(calls.last())
        } else {
            rest
        }
    }
}

/// Whether a tool of this name writes files.
pub open spec fn is_write_tool(name: Seq<char>) -> bool {
    let lowered = lowercase(name);
    lowered == "edit"@ || lowered == "write"@ || lowered == "notebookedit"@ || lowered
        == "multiedit"@
}

/// Decides whether a tool of this name writes files.
pub fn is_write_tool_name(tool_name: &str) -> (r: bool)
    ensures
        r == is_write_tool(tool_name@),
{
    let name = to_lowercase(tool_name);
    same_text(name.as_str(), "edit") || same_text(name.as_str(), "write") || same_text(
        name.as_str(),
        "notebookedit",
    ) || same_text(name.as_str(), "multiedit")
}

/// Whether a call writes a file.
pub open spec fn writes_file(call: ToolCall) -> bool {
    call.file_path is Some && is_write_tool(call.tool_name@)
}

/// Decides whether a call writes a file.
pub fn is_file_write(call: &ToolCall) -> (r: bool)
    ensures
        r == writes_file(*call),
{
    call.file_path.is_some() && is_write_tool_name(call.tool_name.as_str())
}

/// How often a file was written, and when last.
pub struct RewriteView {
    pub path: String,
    pub count: nat,
    pub last: Timestamp,
}

struct Rewrite {
    path: String,
    count: u32,
    last: Timestamp,
}

impl Rewrite {
    spec fn value(self) -> RewriteView {
        RewriteView { path: self.path, count: self.count as nat, last: self.last }
    }
}

/// The position of a path's tally from a position on; the number of tallies
/// where it has none.
pub open spec fn rewrite_index(list: Seq<RewriteView>, path: Seq<char>, from: int) -> int
    decreases list.len() - from,
{
    if from < 0 || from >= list.len() {
        list.len() as int
    } else if same_path(list[from].path@, path) {
        from
    } else {
        rewrite_index(list, path, from + 1)
    }
}

/// Tallies with one more write.
pub open spec fn with_rewrite(
    list: Seq<RewriteView>,
    path: String,
    timestamp: Timestamp,
) -> Seq<RewriteView> {
    let i = rewrite_index(list, path@, 0);
    if 0 <= i < list.len() {
        list.update(
            i,
            RewriteView { path: list[i].path, count: list[i].count + 1, last: timestamp },
        )
    } else {
        list.push(RewriteView { path, count: 1, last: timestamp })
    }
}

/// The tally of each file that the calls write, in the order in which the files
/// first occur.
pub open spec fn rewrites(calls: Seq<ToolCall>) -> Seq<RewriteView>
    decreases calls.len(),
{
    if calls.len() == 0 {
        seq![]
    } else {
        let rest = rewrites(calls.drop_last());
        let call = calls.last();
        if writes_file(call) {
            with_rewrite(rest, call.file_path->0, call.timestamp)
        } else {
            rest
        }
    }
}

/// Whether a tally outranks another one: more writes, or as many and a later
/// last write, or both equal and a path that comes first.
pub open spec fn outranks(a: RewriteView, b: RewriteView) -> bool {
    ||| a.count > b.count
    ||| a.count == b.count && a.last.is_after(b.last)
    ||| a.count == b.count && a.last == b.last && path_less(a.path@, b.path@)
}

/// The tally that outranks the others.
pub open spec fn top_rewrite(list: Seq<RewriteView>) -> Option<RewriteView>
    decreases list.len(),
{
    if list.len() == 0 {
        None
    } else {
        match top_rewrite(list.drop_last()) {
            Some(best) => if outranks(list.last(), best) {
                Some(list.last())
            } else {
                Some(best)
            },
            None => Some(list.last()),
        }
    }
}

/// Whether a command runs tests, as far as loop detection is concerned.
pub open spec fn is_test_run(command: Seq<char>) -> bool {
    let list = tokens(command);
    ||| has_sequence(list, seq!["cargo"@, "test"@])
    ||| has_sequence(list, seq!["cargo"@, "nextest"@])
    ||| has_sequence(list, seq!["npm"@, "test"@])
    ||| has_sequence(list, seq!["npm"@, "run"@, "test"@])
    ||| has_sequence(list, seq!["pnpm"@, "test"@])
    ||| has_sequence(list, seq!["pnpm"@, "run"@, "test"@])
    ||| has_sequence(list, seq!["yarn"@, "test"@])
    ||| has_sequence(list, seq!["bun"@, "test"@])
    ||| has_sequence(list, seq!["python"@, "-m"@, "pytest"@])
    ||| has_sequence(list, seq!["go"@, "test"@])
    ||| has_sequence(list, seq!["pytest"@])
}

fn has_words(list: &Vec<String>, a: &str, b: &str) -> (r: bool)
    ensures
        r == has_sequence(crate::text::views(list@), seq![a@, b@]),
{
    let sequence = vec![a, b];
    assert(slice_views(sequence@) =~= seq![a@, b@]);
    contains_sequence(list, &sequence)
}

fn has_three_words(list: &Vec<String>, a: &str, b: &str, c: &str) -> (r: bool)
    ensures
        r == has_sequence(crate::text::views(list@), seq![a@, b@, c@]),
{
    let sequence = vec![a, b, c];
    assert(slice_views(sequence@) =~= seq![a@, b@, c@]);
    contains_sequence(list, &sequence)
}

/// Decides whether a command runs tests.
pub fn is_test_command(command: &str) -> (r: bool)
    ensures
        r == is_test_run(command@),
{
    let list = command_tokens(command);
    let pytest = vec!["pytest"];
    assert(slice_views(pytest@) =~= seq!["pytest"@]);
    has_words(&list, "cargo", "test") || has_words(&list, "cargo", "nextest") || has_words(
        &list,
        "npm",
        "test",
    ) || has_three_words(&list, "npm", "run", "test") || has_words(&list, "pnpm", "test")
        || has_three_words(&list, "pnpm", "run", "test") || has_words(&list, "yarn", "test")
        || has_words(&list, "bun", "test") || has_three_words(&list, "python", "-m", "pytest")
        || has_words(&list, "go", "test") || contains_sequence(&list, &pytest)
}

/// Whether a call is a test run that failed.
pub open spec fn failed_test(call: ToolCall) -> bool {
    lowercase(call.tool_name@) == "bash"@ && call.is_error && call.command is Some && is_test_run(
        call.command->0@,
    )
}

/// Decides whether a call is a test run that failed.
pub fn is_failed_test_call(call: &ToolCall) -> (r: bool)
    ensures
        r == failed_test(*call),
{
    let name = to_lowercase(call.tool_name.as_str());
    same_text(name.as_str(), "bash") && call.is_error && match &call.command {
        Some(command) => is_test_command(command.as_str()),
        None => false,
    }
}

/// How many failed test runs stand at the end of the calls, with nothing else
/// between them.
pub open spec fn trailing_failures(calls: Seq<ToolCall>) -> nat
    decreases calls.len(),
{
    if calls.len() > 0 && failed_test(calls.last()) {
        1 + trailing_failures(calls.drop_last())
    } else {
        0
    }
}

/// The calls that loop detection looks at.
pub open spec fn scored_calls(calls: Seq<ToolCall>) -> Seq<ToolCall> {
    match latest_call(calls) {
        Some(end) => window_calls(calls, end),
        None => seq![],
    }
}

/// The most rewritten file of a session, if any.
pub open spec fn most_rewritten(calls: Seq<ToolCall>) -> Option<RewriteView> {
    top_rewrite(rewrites(scored_calls(calls)))
}

spec fn values(list: Seq<Rewrite>) -> Seq<RewriteView> {
    list.map_values(|r: Rewrite| r.value())
}

fn find_rewrite(list: &Vec<Rewrite>, path: &str) -> (r: usize)
    ensures
        r == rewrite_index(values(list@), path@, 0),
        r <= list@.len(),
{
    let mut i: usize = 0;
    while i < list.len()
        invariant
            i <= list@.len(),
            rewrite_index(values(list@), path@, 0) == rewrite_index(
                values(list@),
                path@,
                i as int,
            ),
        decreases list@.len() - i,
    {
        assert(values(list@)[i as int] == list@[i as int].value());
        if paths_equal(list[i].path.as_str(), path) {
            return i;
        }
        i = i + 1;
    }
    i
}

proof fn lemma_rewrites_len(calls: Seq<ToolCall>)
    ensures
        rewrites(calls).len() <= calls.len(),
        forall|i: int|
            0 <= i < rewrites(calls).len() ==> (#[trigger] rewrites(calls)[i]).count
                <= calls.len(),
    decreases calls.len(),
{
    if calls.len() > 0 {
        lemma_rewrites_len(calls.drop_last());
        let rest = rewrites(calls.drop_last());
        let call = calls.last();
        assert forall|i: int| 0 <= i < rewrites(calls).len() implies (#[trigger] rewrites(
            calls,
        )[i]).count <= calls.len() by {
            if i < rest.len() {
                assert(rest[i].count <= calls.len() - 1);
            }
        }
    }
}

fn tally(calls: &Vec<&ToolCall>) -> (r: Vec<Rewrite>)
    requires
        calls@.len() <= u32::MAX,
    ensures
        values(r@) == rewrites(unref(calls@)),
{
    let ghost all = unref(calls@);
    let mut list: Vec<Rewrite> = Vec::new();
    let mut i: usize = 0;
    assert(all.take(0) =~= seq![]);
    assert(values(list@) =~= seq![]);
    while i < calls.len()
        invariant
            i <= calls@.len() <= u32::MAX,
            all == unref(calls@),
            values(list@) == rewrites(all.take(i as int)),
        decreases calls@.len() - i,
    {
        let call = calls[i];
        let ghost next = all.take(i + 1);
        let ghost before = values(list@);
        proof {
            assert(next.drop_last() =~= all.take(i as int));
            assert(next.last() == *call);
            lemma_rewrites_len(all.take(i as int));
        }
        if is_file_write(call) {
            if let Some(path) = &call.file_path {
                let at = find_rewrite(&list, path.as_str());
                if at < list.len() {
                    assert(before[at as int] == list@[at as int].value());
                    let mut entry = list.remove(at);
                    entry.count = entry.count + 1;
                    entry.last = call.timestamp;
                    list.insert(at, entry);
                    assert(values(list@) =~= with_rewrite(before, *path, call.timestamp));
                } else {
                    list.push(Rewrite { path: path.clone(), count: 1, last: call.timestamp });
                    assert(values(list@) =~= with_rewrite(before, *path, call.timestamp));
                }
            }
        }
        i = i + 1;
    }
    assert(all.take(i as int) =~= all);
    list
}

spec fn unref(calls: Seq<&ToolCall>) -> Seq<ToolCall> {
    calls.map_values(|c: &ToolCall| *c)
}

fn beats(a: &Rewrite, b: &Rewrite) -> (r: bool)
    ensures
        r == outranks(a.value(), b.value()),
{
    if a.count != b.count {
        return a.count > b.count;
    }
    if a.last.after(b.last) {
        return true;
    }
    if b.last.after(a.last) {
        return false;
    }
    path_before(a.path.as_str(), b.path.as_str())
}

/// Finds the most rewritten file among calls.
fn compute_file_rewrites(calls: &Vec<&ToolCall>) -> (r: (u32, Option<String>))
    requires
        calls@.len() <= u32::MAX,
    ensures
        match top_rewrite(rewrites(unref(calls@))) {
            Some(best) => r.0 == best.count && r.1 == Some(best.path),
            None => r.0 == 0 && r.1 is None,
        },
{
    let list = tally(calls);
    let ghost all = values(list@);
    if list.len() == 0 {
        return (0, None);
    }
    let mut best: usize = 0;
    let mut i: usize = 1;
    assert(all.take(1).drop_last() =~= seq![]);
    assert(all.take(1).last() == list@[0].value());
    assert(top_rewrite(all.take(1).drop_last()) is None);
    while i < list.len()
        invariant
            1 <= i <= list@.len(),
            best < i,
            all == values(list@),
            top_rewrite(all.take(i as int)) == Some(list@[best as int].value()),
        decreases list@.len() - i,
    {
        assert(all.take(i + 1).drop_last() =~= all.take(i as int));
        assert(all.take(i + 1).last() == list@[i as int].value());
        if beats(&list[i], &list[best]) {
            best = i;
        }
        i = i + 1;
    }
    assert(all.take(i as int) =~= all);
    (list[best].count, Some(list[best].path.clone()))
}

fn compute_consecutive_test_failures(calls: &Vec<&ToolCall>) -> (r: u32)
    requires
        calls@.len() <= u32::MAX,
    ensures
        r == trailing_failures(unref(calls@)),
{
    let ghost all = unref(calls@);
    let mut failures: u32 = 0;
    let mut end: usize = calls.len();
    assert(all.take(end as int) =~= all);
    while end > 0
        invariant
            end <= calls@.len() <= u32::MAX,
            all == unref(calls@),
            failures == calls@.len() - end,
            trailing_failures(all) == failures + trailing_failures(all.take(end as int)),
        decreases end,
    {
        let call = calls[end - 1];
        assert(all.take(end as int).last() == *call);
        assert(all.take(end as int).drop_last() =~= all.take(end - 1));
        if !is_failed_test_call(call) {
            return failures;
        }
        failures = failures + 1;
        end = end - 1;
    }
    failures
}

/// Scores how much recent tool activity looks like a loop.
///
/// Only calls within five minutes of the latest one count.
pub fn compute_loop_score(recent_calls: &VecDeque<ToolCall>) -> (r: LoopScore)
    requires
        recent_calls@.len() <= u32::MAX,
    ensures
        match most_rewritten(recent_calls@) {
            Some(best) => r.file_rewrites == best.count && r.most_written_file == Some(best.path),
            None => r.file_rewrites == 0 && r.most_written_file is None,
        },
        r.consecutive_test_failures == trailing_failures(scored_calls(recent_calls@)),
{
    let ghost all = recent_calls@;
    let mut newest: Option<Timestamp> = None;
    let mut i: usize = 0;
    assert(all.take(0) =~= seq![]);
    while i < recent_calls.len()
        invariant
            i <= all.len(),
            all == recent_calls@,
            newest == latest_call(all.take(i as int)),
        decreases all.len() - i,
    {
        assert(all.take(i + 1).drop_last() =~= all.take(i as int));
        assert(all.take(i + 1).last() == all[i as int]);
        newest = latest_of(newest, Some(recent_calls[i].timestamp));
        i = i + 1;
    }
    assert(all.take(i as int) =~= all);
    let end = match newest {
        Some(end) => end,
        None => {
            return LoopScore::default();
        },
    };
    let mut calls: Vec<&ToolCall> = Vec::new();
    let mut k: usize = 0;
    assert(unref(calls@) =~= seq![]);
    while k < recent_calls.len()
        invariant
            k <= all.len() <= u32::MAX,
            all == recent_calls@,
            calls@.len() <= k,
            unref(calls@) == window_calls(all.take(k as int), end),
        decreases all.len() - k,
    {
        let call = &recent_calls[k];
        assert(all.take(k + 1).drop_last() =~= all.take(k as int));
        assert(all.take(k + 1).last() == *call);
        let inside = inside_window(call.timestamp, end);
        if inside {
            let ghost before = unref(calls@);
            calls.push(call);
            assert(unref(calls@) =~= before.push(*call));
        }
        k = k + 1;
    }
    assert(all.take(k as int) =~= all);
    let (file_rewrites, most_written_file) = compute_file_rewrites(&calls);
    let consecutive_test_failures = compute_consecutive_test_failures(&calls);
    LoopScore { file_rewrites, most_written_file, consecutive_test_failures }
}

} // verus!
