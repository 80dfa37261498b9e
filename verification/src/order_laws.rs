//! Laws of order and place: how texts and paths are ordered, what a list keeps, and what a
//! watcher begins with.

use crate::clock::Moment;
use crate::common::SessionSelection;
use crate::hook::number_shown;
use crate::json::{Json, JsonNumber};
use crate::jsonl_tail::{JsonlTailMode, JsonlTailer, JsonlTailerOptions};
use crate::paths::{parent_parts, part_less, parts, parts_less, path_less, text_less};
use crate::runtime::{is_target, WatcherRuntimeOptions, WatcherRuntimeTarget};
use crate::session::{record_event, record_type};
use crate::state::bounded_push;
use crate::text::decimal;
use vstd::prelude::*;

verus! {

/// Texts are ordered by the first character in which they differ; a text comes before the
/// longer ones that begin with it, and never before itself.
pub proof fn texts_are_ordered_by_their_characters(
    common: Seq<char>,
    a: Seq<char>,
    b: Seq<char>,
)
    ensures
        !text_less(a, a),
        a.len() > 0 ==> text_less(common, common + a) && !text_less(common + a, common),
        a.len() > 0 && b.len() > 0 && a[0] < b[0] ==> text_less(common + a, common + b)
            && !text_less(common + b, common + a),
{
    lemma_same_text(a);
    lemma_common_start(common, a, b);
    lemma_common_start(common, b, a);
    lemma_common_start(common, a, Seq::empty());
    lemma_common_start(common, Seq::empty(), a);
    assert(common + Seq::<char>::empty() =~= common);
}

proof fn lemma_same_text(a: Seq<char>)
    ensures
        !text_less(a, a),
    decreases a.len(),
{
    if a.len() > 0 {
        lemma_same_text(a.drop_first());
    }
}

proof fn lemma_common_start(common: Seq<char>, a: Seq<char>, b: Seq<char>)
    ensures
        text_less(common + a, common + b) == text_less(a, b),
    decreases common.len(),
{
    if common.len() > 0 {
        lemma_common_start(common.drop_first(), a, b);
        assert((common + a).drop_first() =~= common.drop_first() + a);
        assert((common + b).drop_first() =~= common.drop_first() + b);
    } else {
        assert(common + a =~= a);
        assert(common + b =~= b);
    }
}

/// Components are ordered with the root first, then the directory itself, its parent, and
/// the names in the order of their texts.
pub proof fn components_are_ordered_by_kind(a: Seq<char>, b: Seq<char>)
    requires
        a != seq!['/'] && a != seq!['.'] && a != seq!['.', '.'],
        b != seq!['/'] && b != seq!['.'] && b != seq!['.', '.'],
    ensures
        part_less(a, b) <==> text_less(a, b),
        part_less(seq!['/'], seq!['.']) && part_less(seq!['.'], seq!['.', '.']) && part_less(
            seq!['.', '.'],
            a,
        ),
        part_less(seq!['/'], a) && part_less(seq!['.'], a) && part_less(seq!['/'], seq!['.', '.']),
        !part_less(a, seq!['/']) && !part_less(a, seq!['.']) && !part_less(a, seq!['.', '.']),
        !part_less(seq!['.'], seq!['/']) && !part_less(seq!['.', '.'], seq!['.']),
        !part_less(seq!['/'], seq!['/']) && !part_less(seq!['.'], seq!['.']),
{
    assert(seq!['/'][0] == '/');
    assert(seq!['.'][0] == '.');
    assert(seq!['.', '.'].len() == 2);
    assert(seq!['.'].len() == 1);
}

/// Paths are ordered by the first component in which they differ; a directory comes before
/// what lies in it.
pub proof fn paths_are_ordered_by_their_components(
    common: Seq<Seq<char>>,
    a: Seq<Seq<char>>,
    b: Seq<Seq<char>>,
    p: Seq<char>,
    q: Seq<char>,
)
    ensures
        path_less(p, q) == parts_less(parts(p), parts(q)),
        parts_less(common + a, common + b) == parts_less(a, b),
        a.len() > 0 ==> parts_less(common, common + a) && !parts_less(common + a, common),
        a.len() > 0 && b.len() > 0 && a[0] != b[0] ==> parts_less(a, b) == part_less(a[0], b[0]),
{
    lemma_common_parts(common, a, b);
    lemma_common_parts(common, a, Seq::empty());
    lemma_common_parts(common, Seq::empty(), a);
    assert(common + Seq::<Seq<char>>::empty() =~= common);
}

proof fn lemma_common_parts(common: Seq<Seq<char>>, a: Seq<Seq<char>>, b: Seq<Seq<char>>)
    ensures
        parts_less(common + a, common + b) == parts_less(a, b),
    decreases common.len(),
{
    if common.len() > 0 {
        lemma_common_parts(common.drop_first(), a, b);
        assert((common + a).drop_first() =~= common.drop_first() + a);
        assert((common + b).drop_first() =~= common.drop_first() + b);
    } else {
        assert(common + a =~= a);
        assert(common + b =~= b);
    }
}

/// The parent of a path lacks its last component; the root and the empty path have none.
pub proof fn parents_lack_the_last_component(path: Seq<char>)
    ensures
        parent_parts(path) is None <==> parts(path).len() == 0 || parts(path).last() == seq!['/'],
        parent_parts(path) is Some ==> parent_parts(path)->0.push(parts(path).last()) == parts(
            path,
        ),
{
    if parts(path).len() > 0 {
        assert(parts(path).drop_last().push(parts(path).last()) =~= parts(path));
    }
}

/// A bounded list takes each new item at its end, and gives up its oldest items only where
/// it would grow too long.
pub proof fn bounded_lists_keep_the_latest<T>(list: Seq<T>, item: T, max: nat)
    requires
        max > 0,
    ensures
        bounded_push(list, item, max).len() == if list.len() < max {
            list.len() + 1
        } else {
            max
        },
        bounded_push(list, item, max).last() == item,
        forall|i: int|
            0 <= i < bounded_push(list, item, max).len() - 1 ==> #[trigger] bounded_push(
                list,
                item,
                max,
            )[i] == list[list.len() - bounded_push(list, item, max).len() + 1 + i],
{
}

/// A watcher of a named log takes its directory, process and session from the options; any
/// other one takes them, and the log, from the session that was found.
pub proof fn targets_are_taken_from_the_options(
    target: WatcherRuntimeTarget,
    options: WatcherRuntimeOptions,
    session: Option<SessionSelection>,
)
    requires
        is_target(target, options, session),
    ensures
        options.file is Some ==> {
            &&& target.jsonl_path == options.file->0
            &&& target.cwd == options.cwd
            &&& target.pid == options.pid
            &&& target.session_id == options.session_id
        },
        options.file is None ==> {
            &&& session is Some
            &&& target.jsonl_path == session->0.jsonl_path
            &&& target.cwd@ == session->0.session.directory()
            &&& target.pid == Some(session->0.pid)
            &&& target.session_id == Some(session->0.session.session_id)
        },
{
}

/// A log is followed from its start, with nothing read yet and nothing observed, and is
/// polled from the start only where that is asked for.
pub proof fn logs_are_followed_from_their_start(
    tail: JsonlTailer,
    path: Seq<char>,
    options: JsonlTailerOptions,
    now: Moment,
)
    requires
        tail.is_fresh(path, options, now),
    ensures
        tail.file_path@ == path && tail.active_path@ == path,
        tail.byte_offset == 0 && tail@.buffer.len() == 0,
        tail.mode == JsonlTailMode::Polling <==> options.force_poll,
        tail.force_poll == options.force_poll,
        tail.follow_newest == options.follow_newest,
        tail.process_pid == options.process_pid,
        tail.next_retry_at == now && tail.last_notify_event_at == now,
        !tail.notify_confirmed && tail.last_observed_snapshot is None,
{
}

/// Numbers are shown in decimal, with a minus sign in front of those below zero.
pub proof fn numbers_are_shown_in_decimal(u: u64, i: i64, text: String)
    ensures
        number_shown(JsonNumber::Unsigned(u)) == decimal(u as nat),
        i < 0 ==> number_shown(JsonNumber::Negative(i)) == "-"@ + decimal((-i) as nat),
        i >= 0 ==> number_shown(JsonNumber::Negative(i)) == decimal(i as nat),
        number_shown(JsonNumber::Other(text)) == text@,
{
}

/// A record may also be a list of its fields in their places: it is named by the first one,
/// else by the second, and stands for nothing where neither its fourth nor its fifth tells a
/// time.
pub proof fn listed_records_are_read_by_place(json: Json)
    requires
        json is Array,
        json->Array_0@.len() > 4,
    ensures
        ({
            let items = json->Array_0@;
            &&& items[0] is Text ==> record_type(json) == Some(items[0]->Text_0)
            &&& items[0] is Null && items[1] is Text ==> record_type(json) == Some(
                items[1]->Text_0,
            )
            &&& items[0] is Null && items[1] is Null ==> record_type(json) is None
            &&& items[3] is Null && items[4] is Null ==> record_event(json) is None
        }),
{
}

} // verus!
