//! Laws of a session log that is read in pieces.

use crate::jsonl_tail::{
    complete_lines, leftover, lemma_newline_at, line_events, located, measured, newline_at,
    with_retry, TailView, MAX_RETRY_BACKOFF_NANOS,
};
use crate::clock::Moment;
use crate::paths::same_path;
use vstd::prelude::*;

verus! {

/// The bytes of complete lines, each with its line feed.
pub open spec fn with_line_feeds(list: Seq<Seq<u8>>) -> Seq<u8>
    decreases list.len(),
{
    if list.len() == 0 {
        seq![]
    } else {
        list[0] + seq![10u8] + with_line_feeds(list.drop_first())
    }
}

/// Splitting a log loses nothing: its complete lines and what is left over make it up.
pub proof fn lines_make_up_the_log(bytes: Seq<u8>)
    ensures
        with_line_feeds(complete_lines(bytes)) + leftover(bytes) == bytes,
    decreases bytes.len(),
{
    lemma_newline_at(bytes);
    let n = newline_at(bytes);
    if 0 <= n < bytes.len() {
        let rest = bytes.skip(n + 1);
        lines_make_up_the_log(rest);
        let list = complete_lines(bytes);
        assert(list.drop_first() =~= complete_lines(rest));
        assert(bytes =~= bytes.take(n) + seq![10u8] + rest);
        assert(with_line_feeds(list) + leftover(bytes) =~= bytes.take(n) + seq![10u8] + (
        with_line_feeds(complete_lines(rest)) + leftover(rest)));
    } else {
        assert(complete_lines(bytes) =~= seq![]);
        assert(with_line_feeds(complete_lines(bytes)) =~= seq![]);
        assert(with_line_feeds(complete_lines(bytes)) + leftover(bytes) =~= bytes);
    }
}

proof fn lemma_newline_in_front(a: Seq<u8>, b: Seq<u8>)
    requires
        0 <= newline_at(a) < a.len(),
    ensures
        newline_at(a + b) == newline_at(a),
    decreases a.len(),
{
    if a[0] != 10 {
        assert((a + b).drop_first() =~= a.drop_first() + b);
        lemma_newline_at(a.drop_first());
        lemma_newline_in_front(a.drop_first(), b);
    }
}

/// How a log is cut into pieces does not matter: reading one piece and then the other,
/// with what the first left over, gives the lines of both.
pub proof fn pieces_do_not_matter(first: Seq<u8>, second: Seq<u8>)
    ensures
        complete_lines(first + second) == complete_lines(first) + complete_lines(
            leftover(first) + second,
        ),
        leftover(first + second) == leftover(leftover(first) + second),
    decreases first.len(),
{
    lemma_newline_at(first);
    let n = newline_at(first);
    if 0 <= n < first.len() {
        lemma_newline_in_front(first, second);
        let rest = first.skip(n + 1);
        pieces_do_not_matter(rest, second);
        assert((first + second).skip(n + 1) =~= rest + second);
        assert((first + second).take(n) =~= first.take(n));
        assert(complete_lines(first + second) =~= complete_lines(first) + complete_lines(
            leftover(first) + second,
        ));
    } else {
        assert(complete_lines(first) =~= seq![]);
        assert(complete_lines(first + second) =~= complete_lines(first) + complete_lines(
            leftover(first) + second,
        ));
    }
}

/// The events of a log that is read in two pieces are those of the log read at once.
pub proof fn events_do_not_depend_on_pieces(first: Seq<u8>, second: Seq<u8>)
    ensures
        line_events(complete_lines(first + second)) == line_events(complete_lines(first))
            + line_events(complete_lines(leftover(first) + second)),
{
    pieces_do_not_matter(first, second);
    lemma_events_of_both(complete_lines(first), complete_lines(leftover(first) + second));
}

proof fn lemma_events_of_both(first: Seq<Seq<u8>>, second: Seq<Seq<u8>>)
    ensures
        line_events(first + second) == line_events(first) + line_events(second),
    decreases second.len(),
{
    if second.len() == 0 {
        assert(first + second =~= first);
        assert(line_events(first) + line_events(second) =~= line_events(first));
    } else {
        assert((first + second).drop_last() =~= first + second.drop_last());
        assert((first + second).last() == second.last());
        lemma_events_of_both(first, second.drop_last());
        assert(line_events(first + second) =~= line_events(first) + line_events(second));
    }
}

/// What is left over never holds a line feed, so no complete line waits for more bytes.
pub proof fn leftovers_hold_no_line(bytes: Seq<u8>)
    ensures
        forall|i: int| 0 <= i < leftover(bytes).len() ==> #[trigger] leftover(bytes)[i] != 10,
        complete_lines(leftover(bytes)) == Seq::<Seq<u8>>::empty(),
        leftover(leftover(bytes)) == leftover(bytes),
    decreases bytes.len(),
{
    lemma_newline_at(bytes);
    let n = newline_at(bytes);
    if 0 <= n < bytes.len() {
        leftovers_hold_no_line(bytes.skip(n + 1));
    }
}

/// A log that became shorter is read again from its start, without what was buffered of
/// the old one; any other is read on.
pub proof fn truncated_logs_are_read_again(t: TailView, file_len: u64)
    ensures
        file_len < t.byte_offset ==> measured(t, file_len).byte_offset == 0 && measured(
            t,
            file_len,
        ).buffer.len() == 0,
        file_len >= t.byte_offset ==> measured(t, file_len) == t,
        measured(t, file_len).byte_offset <= file_len,
{
}

/// Another log than the one before is read from its start.
pub proof fn other_logs_are_read_from_their_start(t: TailView, path: String, now: Moment)
    ensures
        !same_path(path@, t.active_path@) ==> located(t, Some(path), now).byte_offset == 0
            && located(t, Some(path), now).buffer.len() == 0,
        same_path(path@, t.active_path@) ==> located(t, Some(path), now).byte_offset
            == t.byte_offset && located(t, Some(path), now).buffer == t.buffer,
{
}

/// The time between two looks for a missing log never grows beyond its limit.
pub proof fn retries_never_cease(t: TailView, now: Moment)
    requires
        t.retry_backoff.nanos <= MAX_RETRY_BACKOFF_NANOS,
    ensures
        with_retry(t, now).retry_backoff.nanos <= MAX_RETRY_BACKOFF_NANOS,
        with_retry(t, now).next_retry_at.nanos <= now.nanos + MAX_RETRY_BACKOFF_NANOS,
{
}

} // verus!
