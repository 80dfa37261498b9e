//! Laws of paths and of the guards that are typed in.

use crate::common::rooted;
use crate::paths::{
    is_absolute, is_within, joined_path, keeps_segment, kept_end, kept_from, kept_segments,
    nth_kept, parts, relative_path, same_path,
};
use crate::text::{
    in_class, joined, lemma_run_len, lemma_run_len_bounds, lemma_trimmed_same, pieces, run_len,
    stripped, CharClass,
};
use crate::tui::{edited, filled, guards_in, steered, Key, KeyPress, TuiView};
use vstd::prelude::*;

verus! {

/// A path lies within itself, and what lies within a path lies within all paths that it
/// lies within.
pub proof fn containment_is_an_order(a: Seq<char>, b: Seq<char>, c: Seq<char>)
    ensures
        is_within(a, a),
        is_within(a, b) && is_within(b, c) ==> is_within(a, c),
        is_within(a, b) && is_within(b, a) <==> same_path(a, b),
{
    let (x, y, z) = (parts(a), parts(b), parts(c));
    assert(x.take(x.len() as int) =~= x);
    if is_within(a, b) && is_within(b, c) {
        assert(x.take(z.len() as int) =~= x.take(y.len() as int).take(z.len() as int));
    }
    if is_within(a, b) && is_within(b, a) {
        assert(x.take(y.len() as int) =~= x);
    }
}

/// Whether a path lies within another one depends on the paths alone, not on how they are
/// written.
pub proof fn containment_respects_spelling(
    a: Seq<char>,
    b: Seq<char>,
    other_a: Seq<char>,
    other_b: Seq<char>,
)
    requires
        same_path(a, other_a),
        same_path(b, other_b),
    ensures
        is_within(a, b) == is_within(other_a, other_b),
{
}

proof fn lemma_pieces_of_both(a: Seq<char>, sep: char, b: Seq<char>, class: CharClass)
    requires
        in_class(sep, class),
    ensures
        pieces(a.push(sep) + b, class) == pieces(a, class) + pieces(b, class),
    decreases a.len(),
{
    let whole = a.push(sep) + b;
    lemma_run_len_bounds(a, class, false);
    let n = run_len(a, class, false);
    if n >= a.len() {
        assert forall|k: int| 0 <= k < n implies in_class(#[trigger] whole[k], class)
            == false by {
            assert(whole[k] == a[k]);
        }
        assert(whole[n as int] == sep);
        lemma_run_len(whole, class, false, n);
        assert(whole.take(n as int) =~= a);
        assert(whole.skip(n as int + 1) =~= b);
    } else {
        let rest = a.skip(n as int + 1);
        assert forall|k: int| 0 <= k < n implies in_class(#[trigger] whole[k], class)
            == false by {
            assert(whole[k] == a[k]);
        }
        assert(whole[n as int] == a[n as int]);
        lemma_run_len(whole, class, false, n);
        assert(whole.take(n as int) =~= a.take(n as int));
        assert(whole.skip(n as int + 1) =~= rest.push(sep) + b);
        lemma_pieces_of_both(rest, sep, b, class);
        assert(pieces(whole, class) =~= pieces(a, class) + pieces(b, class));
    }
}

proof fn lemma_no_pieces(class: CharClass)
    ensures
        pieces(seq![], class) == seq![Seq::<char>::empty()],
{
    lemma_run_len_bounds(seq![], class, false);
}

proof fn lemma_kept_prefix(a: Seq<Seq<char>>, b: Seq<Seq<char>>)
    ensures
        kept_segments(a).len() <= kept_segments(a + b).len(),
        kept_segments(a + b).take(kept_segments(a).len() as int) == kept_segments(a),
    decreases b.len(),
{
    if b.len() == 0 {
        assert(a + b =~= a);
        assert(kept_segments(a).take(kept_segments(a).len() as int) =~= kept_segments(a));
    } else {
        let whole = a + b;
        assert(whole.drop_last() =~= a + b.drop_last());
        lemma_kept_prefix(a, b.drop_last());
        assert(kept_segments(whole).take(kept_segments(a).len() as int) =~= kept_segments(
            whole.drop_last(),
        ).take(kept_segments(a).len() as int));
    }
}

/// A relative path that is joined to a base lies within the base; an absolute one stands
/// for itself.
pub proof fn joined_paths_lie_within_their_base(base: Seq<char>, path: Seq<char>)
    ensures
        is_absolute(path) ==> joined_path(base, path) == path,
        !is_absolute(path) ==> is_within(joined_path(base, path), base),
{
    if !is_absolute(path) {
        let whole = joined_path(base, path);
        if base.len() == 0 {
            lemma_no_pieces(CharClass::Slash);
            assert(base =~= seq![]);
            reveal_with_fuel(kept_segments, 2);
            assert(seq![Seq::<char>::empty()].drop_last() =~= Seq::<Seq<char>>::empty());
            assert(parts(base) =~= Seq::<Seq<char>>::empty());
            assert(parts(whole).take(0) =~= Seq::<Seq<char>>::empty());
        } else {
            let stem = if base.last() == '/' {
                base.drop_last()
            } else {
                base
            };
            assert(whole =~= stem.push('/') + path);
            lemma_pieces_of_both(stem, '/', path, CharClass::Slash);
            let kept = kept_segments(pieces(stem, CharClass::Slash));
            lemma_kept_prefix(pieces(stem, CharClass::Slash), pieces(path, CharClass::Slash));
            if base.last() == '/' {
                let none = Seq::<char>::empty();
                assert(base =~= stem.push('/') + none);
                lemma_pieces_of_both(stem, '/', none, CharClass::Slash);
                lemma_no_pieces(CharClass::Slash);
                let segments = pieces(base, CharClass::Slash);
                assert(segments.drop_last() =~= pieces(stem, CharClass::Slash));
                assert(!keeps_segment(segments.len() - 1, segments.last()));
            }
            assert(kept_segments(pieces(base, CharClass::Slash)) == kept);
            assert(whole[0] == base[0]);
            assert(is_absolute(whole) == is_absolute(base));
            assert(parts(whole).take(parts(base).len() as int) =~= parts(base));
        }
    }
}

/// The segments that are components where they do not start a path.
pub open spec fn kept_later(segments: Seq<Seq<char>>) -> Seq<Seq<char>>
    decreases segments.len(),
{
    if segments.len() == 0 {
        seq![]
    } else {
        let rest = kept_later(segments.drop_last());
        if keeps_segment(1, segments.last()) {
            rest.push(segments.last())
        } else {
            rest
        }
    }
}

proof fn lemma_kept_of_both(a: Seq<Seq<char>>, b: Seq<Seq<char>>)
    requires
        a.len() > 0,
    ensures
        kept_segments(a + b) == kept_segments(a) + kept_later(b),
    decreases b.len(),
{
    if b.len() == 0 {
        assert(a + b =~= a);
        assert(kept_segments(a) + kept_later(b) =~= kept_segments(a));
    } else {
        assert((a + b).drop_last() =~= a + b.drop_last());
        assert((a + b).last() == b.last());
        lemma_kept_of_both(a, b.drop_last());
        assert(kept_segments(a + b) =~= kept_segments(a) + kept_later(b));
    }
}

proof fn lemma_kept_later_of_both(a: Seq<Seq<char>>, b: Seq<Seq<char>>)
    ensures
        kept_later(a + b) == kept_later(a) + kept_later(b),
    decreases b.len(),
{
    if b.len() == 0 {
        assert(a + b =~= a);
        assert(kept_later(a) + kept_later(b) =~= kept_later(a));
    } else {
        assert((a + b).drop_last() =~= a + b.drop_last());
        assert((a + b).last() == b.last());
        lemma_kept_later_of_both(a, b.drop_last());
        assert(kept_later(a + b) =~= kept_later(a) + kept_later(b));
    }
}

proof fn lemma_none_kept(b: Seq<Seq<char>>)
    requires
        forall|i: int| 0 <= i < b.len() ==> !keeps_segment(1, #[trigger] b[i]),
    ensures
        kept_later(b) == Seq::<Seq<char>>::empty(),
    decreases b.len(),
{
    if b.len() > 0 {
        let head = b.drop_last();
        assert forall|i: int| 0 <= i < head.len() implies !keeps_segment(1, #[trigger] head[i]) by {
            assert(head[i] == b[i]);
        }
        lemma_none_kept(head);
        assert(b[b.len() - 1] == b.last());
    }
}

proof fn lemma_kept_from(segments: Seq<Seq<char>>, from: int)
    requires
        0 <= from <= segments.len(),
    ensures
        from <= kept_from(segments, from) <= segments.len(),
        kept_from(segments, from) < segments.len() ==> keeps_segment(
            kept_from(segments, from),
            segments[kept_from(segments, from)],
        ),
        kept_segments(segments.take(kept_from(segments, from))) == kept_segments(
            segments.take(from),
        ),
    decreases segments.len() - from,
{
    if from < segments.len() && !keeps_segment(from, segments[from]) {
        lemma_kept_from(segments, from + 1);
        let longer = segments.take(from + 1);
        assert(longer.drop_last() =~= segments.take(from));
        assert(longer.last() == segments[from]);
    }
}

proof fn lemma_nth_kept(segments: Seq<Seq<char>>, n: nat)
    ensures
        0 <= nth_kept(segments, n) <= segments.len(),
        nth_kept(segments, n) < segments.len() ==> keeps_segment(
            nth_kept(segments, n),
            segments[nth_kept(segments, n)],
        ) && kept_segments(segments.take(nth_kept(segments, n))).len() == n,
        nth_kept(segments, n) == segments.len() ==> kept_segments(segments).len() <= n,
    decreases n,
{
    if n == 0 {
        lemma_kept_from(segments, 0);
        assert(kept_segments(segments.take(0)).len() == 0);
    } else {
        let before = nth_kept(segments, (n - 1) as nat);
        lemma_nth_kept(segments, (n - 1) as nat);
        if before < segments.len() {
            lemma_kept_from(segments, before + 1);
            let longer = segments.take(before + 1);
            assert(longer.drop_last() =~= segments.take(before));
            assert(longer.last() == segments[before]);
        }
    }
    if nth_kept(segments, n) == segments.len() {
        assert(segments.take(segments.len() as int) =~= segments);
    }
}

proof fn lemma_kept_end(segments: Seq<Seq<char>>)
    ensures
        0 <= kept_end(segments) <= segments.len(),
        kept_end(segments) > 0 ==> keeps_segment(
            kept_end(segments) - 1,
            segments[kept_end(segments) - 1],
        ),
        kept_segments(segments.take(kept_end(segments))) == kept_segments(segments),
        forall|i: int|
            kept_end(segments) <= i < segments.len() ==> !keeps_segment(i, #[trigger] segments[i]),
    decreases segments.len(),
{
    if segments.len() > 0 && !keeps_segment(segments.len() - 1, segments.last()) {
        let head = segments.drop_last();
        lemma_kept_end(head);
        assert(segments.take(kept_end(head)) =~= head.take(kept_end(head)));
        assert forall|i: int| kept_end(segments) <= i < segments.len() implies !keeps_segment(
            i,
            #[trigger] segments[i],
        ) by {
            if i < head.len() {
                assert(head[i] == segments[i]);
            }
        }
    } else {
        assert(segments.take(segments.len() as int) =~= segments);
    }
}

/// Whether no text of a list holds a separator.
pub open spec fn are_segments(list: Seq<Seq<char>>) -> bool {
    forall|i: int, k: int|
        0 <= i < list.len() && 0 <= k < list[i].len() ==> #[trigger] list[i][k] != '/'
}

proof fn lemma_pieces_are_segments(text: Seq<char>)
    ensures
        are_segments(pieces(text, CharClass::Slash)),
        pieces(text, CharClass::Slash).len() > 0,
        is_absolute(text) ==> pieces(text, CharClass::Slash)[0].len() == 0,
        text.len() > 0 && !is_absolute(text) ==> pieces(text, CharClass::Slash)[0].len() > 0,
        is_absolute(text) ==> pieces(text, CharClass::Slash).len() > 1,
    decreases text.len(),
{
    lemma_run_len_bounds(text, CharClass::Slash, false);
    let n = run_len(text, CharClass::Slash, false) as int;
    if n >= text.len() {
        let list = seq![text];
        assert forall|i: int, k: int| 0 <= i < list.len() && 0 <= k < list[i].len() implies
            #[trigger] list[i][k] != '/' by {
            assert(in_class(text[k], CharClass::Slash) == false);
        }
        if is_absolute(text) {
            assert(in_class(text[0], CharClass::Slash));
        }
    } else {
        let rest = pieces(text.skip(n + 1), CharClass::Slash);
        lemma_pieces_are_segments(text.skip(n + 1));
        let list = seq![text.take(n)] + rest;
        assert forall|i: int, k: int| 0 <= i < list.len() && 0 <= k < list[i].len() implies
            #[trigger] list[i][k] != '/' by {
            if i == 0 {
                assert(list[i][k] == text[k]);
                assert(in_class(text[k], CharClass::Slash) == false);
            } else {
                assert(list[i] == rest[i - 1]);
            }
        }
        if is_absolute(text) {
            assert(in_class(text[0], CharClass::Slash));
            assert(n == 0);
        }
    }
}

proof fn lemma_pieces_of_joined(list: Seq<Seq<char>>)
    requires
        list.len() > 0,
        are_segments(list),
    ensures
        pieces(joined(list, "/"@), CharClass::Slash) == list,
    decreases list.len(),
{
    reveal_strlit("/");
    let last = list.last();
    assert forall|k: int| 0 <= k < last.len() implies in_class(
        #[trigger] last[k],
        CharClass::Slash,
    ) == false by {
        assert(list[list.len() - 1][k] != '/');
    }
    lemma_run_len(last, CharClass::Slash, false, last.len());
    assert(pieces(last, CharClass::Slash) == seq![last]);
    if list.len() > 1 {
        let head = list.drop_last();
        assert forall|i: int, k: int| 0 <= i < head.len() && 0 <= k < head[i].len() implies
            #[trigger] head[i][k] != '/' by {
            assert(head[i] == list[i]);
            assert(list[i][k] != '/');
        }
        lemma_pieces_of_joined(head);
        let front = joined(head, "/"@);
        assert(joined(list, "/"@) =~= front.push('/') + last);
        lemma_pieces_of_both(front, '/', last, CharClass::Slash);
        assert(list =~= head + seq![last]);
    } else {
        assert(list =~= seq![last]);
    }
}

proof fn lemma_joined_starts(list: Seq<Seq<char>>)
    requires
        list.len() > 0,
    ensures
        joined(list, "/"@).len() >= list[0].len(),
        forall|k: int| 0 <= k < list[0].len() ==> #[trigger] joined(list, "/"@)[k] == list[0][k],
        list.len() > 1 && list[0].len() == 0 ==> joined(list, "/"@).len() > 0 && joined(
            list,
            "/"@,
        )[0] == '/',
    decreases list.len(),
{
    reveal_strlit("/");
    if list.len() > 1 {
        let head = list.drop_last();
        lemma_joined_starts(head);
        assert(head[0] == list[0]);
        if list[0].len() == 0 && head.len() == 1 {
            assert(joined(head, "/"@).len() == 0);
            assert(joined(list, "/"@)[0] == '/');
        }
    }
}

/// The components of a text that joins segments of which the first is not empty.
proof fn lemma_parts_of_joined(list: Seq<Seq<char>>)
    requires
        list.len() > 0,
        are_segments(list),
        list[0].len() > 0,
    ensures
        !is_absolute(joined(list, "/"@)),
        parts(joined(list, "/"@)) == kept_segments(list),
{
    lemma_pieces_of_joined(list);
    lemma_joined_starts(list);
    assert(list[0][0] != '/');
    assert(joined(list, "/"@)[0] == list[0][0]);
    assert(parts(joined(list, "/"@)) =~= kept_segments(list));
}

proof fn lemma_rest_of_segments(segments: Seq<Seq<char>>, from: int)
    requires
        0 <= from < segments.len(),
        keeps_segment(from, segments[from]),
    ensures
        from < kept_end(segments),
        kept_segments(segments) == kept_segments(segments.take(from)) + kept_segments(
            segments.subrange(from, kept_end(segments)),
        ),
        kept_segments(segments.subrange(from, kept_end(segments))) == seq![segments[from]]
            + kept_later(segments.subrange(from + 1, kept_end(segments))),
{
    lemma_kept_end(segments);
    let end = kept_end(segments);
    if end <= from {
        assert(!keeps_segment(from, segments[from]));
    }
    let list = segments.subrange(from, end);
    let first = seq![segments[from]];
    let later = segments.subrange(from + 1, end);
    assert(list =~= first + later);
    lemma_kept_of_both(first, later);
    reveal_with_fuel(kept_segments, 2);
    assert(first.drop_last() =~= Seq::<Seq<char>>::empty());
    assert(kept_segments(first) =~= first);
    if from == 0 {
        assert(segments.take(end) =~= list);
        assert(kept_segments(segments.take(from)) =~= Seq::<Seq<char>>::empty());
        assert(kept_segments(segments) =~= kept_segments(segments.take(from)) + kept_segments(
            list,
        ));
    } else {
        let before = segments.take(from);
        assert(segments.take(end) =~= before + list);
        lemma_kept_of_both(before, list);
        lemma_kept_later_of_both(first, later);
        assert(keeps_segment(1, segments[from]));
        reveal_with_fuel(kept_later, 2);
        assert(kept_later(first) =~= first);
    }
}

/// A path relative to a base at or above it has exactly the components behind those of the
/// base.
pub proof fn relative_paths_keep_the_rest(path: Seq<char>, base: Seq<char>)
    requires
        is_within(path, base),
        parts(base).len() > 0,
    ensures
        parts(relative_path(path, base)->0) == parts(path).skip(parts(base).len() as int),
        !is_absolute(relative_path(path, base)->0),
{
    let segments = pieces(path, CharClass::Slash);
    let n = parts(base).len();
    let skipped = (if is_absolute(path) {
        n - 1
    } else {
        n as int
    }) as nat;
    let from = nth_kept(segments, skipped);
    let end = kept_end(segments);
    lemma_pieces_are_segments(path);
    lemma_nth_kept(segments, skipped);
    lemma_kept_end(segments);
    if from < segments.len() {
        lemma_rest_of_segments(segments, from);
        let list = segments.subrange(from, end);
        assert forall|i: int, k: int| 0 <= i < list.len() && 0 <= k < list[i].len() implies
            #[trigger] list[i][k] != '/' by {
            assert(list[i] == segments[from + i]);
            assert(segments[from + i][k] != '/');
        }
        lemma_parts_of_joined(list);
        assert(parts(path).skip(n as int) =~= kept_segments(list));
    } else {
        lemma_no_pieces(CharClass::Slash);
        let none = Seq::<char>::empty();
        assert(relative_path(path, base)->0 =~= none);
        reveal_with_fuel(kept_segments, 2);
        assert(seq![none].drop_last() =~= Seq::<Seq<char>>::empty());
        assert(parts(none) =~= Seq::<Seq<char>>::empty());
        assert(parts(path).skip(n as int) =~= Seq::<Seq<char>>::empty());
    }
}

/// A path that is shown relative to a base stands for itself: joined to the base again it
/// names the same file.
pub proof fn relative_paths_lead_back(path: Seq<char>, base: Seq<char>)
    requires
        is_within(path, base),
        parts(base).len() > 0,
    ensures
        same_path(joined_path(base, relative_path(path, base)->0), path),
{
    let relative = relative_path(path, base)->0;
    let whole = joined_path(base, relative);
    relative_paths_keep_the_rest(path, base);
    lemma_pieces_are_segments(relative);
    let tail = pieces(relative, CharClass::Slash);
    let stem = if base.last() == '/' {
        base.drop_last()
    } else {
        base
    };
    if base.len() == 0 {
        lemma_no_pieces(CharClass::Slash);
        assert(base =~= seq![]);
        reveal_with_fuel(kept_segments, 2);
        assert(seq![Seq::<char>::empty()].drop_last() =~= Seq::<Seq<char>>::empty());
        assert(parts(base) =~= Seq::<Seq<char>>::empty());
    } else {
        assert(whole =~= stem.push('/') + relative);
        lemma_pieces_of_both(stem, '/', relative, CharClass::Slash);
        lemma_pieces_are_segments(stem);
        if base.last() == '/' {
            let none = Seq::<char>::empty();
            assert(base =~= stem.push('/') + none);
            lemma_pieces_of_both(stem, '/', none, CharClass::Slash);
            lemma_no_pieces(CharClass::Slash);
            let all = pieces(base, CharClass::Slash);
            assert(all.drop_last() =~= pieces(stem, CharClass::Slash));
            assert(!keeps_segment(all.len() - 1, all.last()));
        }
        let kept = kept_segments(pieces(stem, CharClass::Slash));
        assert(kept_segments(pieces(base, CharClass::Slash)) == kept);
        lemma_kept_of_both(pieces(stem, CharClass::Slash), tail);
        assert(whole[0] == base[0]);
        assert(is_absolute(whole) == is_absolute(base));
        lemma_relative_start(path, base);
        assert(kept_later(tail) == kept_segments(tail));
        assert(parts(relative) =~= kept_segments(tail));
        assert(parts(whole) =~= parts(base) + parts(relative));
        assert(parts(path) =~= parts(base) + parts(path).skip(parts(base).len() as int));
    }
}

/// A relative path does not start with a `.` component, so it means the same behind a base.
proof fn lemma_relative_start(path: Seq<char>, base: Seq<char>)
    requires
        is_within(path, base),
        parts(base).len() > 0,
    ensures
        kept_later(pieces(relative_path(path, base)->0, CharClass::Slash)) == kept_segments(
            pieces(relative_path(path, base)->0, CharClass::Slash),
        ),
{
    let segments = pieces(path, CharClass::Slash);
    let n = parts(base).len();
    let skipped = (if is_absolute(path) {
        n - 1
    } else {
        n as int
    }) as nat;
    let from = nth_kept(segments, skipped);
    let end = kept_end(segments);
    lemma_pieces_are_segments(path);
    lemma_nth_kept(segments, skipped);
    lemma_kept_end(segments);
    let relative = relative_path(path, base)->0;
    if from < segments.len() {
        lemma_rest_of_segments(segments, from);
        let list = segments.subrange(from, end);
        assert forall|i: int, k: int| 0 <= i < list.len() && 0 <= k < list[i].len() implies
            #[trigger] list[i][k] != '/' by {
            assert(list[i] == segments[from + i]);
            assert(segments[from + i][k] != '/');
        }
        lemma_pieces_of_joined(list);
        let first = seq![segments[from]];
        let later = segments.subrange(from + 1, end);
        assert(list =~= first + later);
        lemma_kept_later_of_both(first, later);
        reveal_with_fuel(kept_later, 2);
        if from == 0 {
            // A relative path whose base has a component starts behind it; an absolute one
            // starts with the empty segment before its root.
            if is_absolute(path) {
                assert(segments[0].len() == 0);
            } else {
                assert(kept_segments(segments.take(0)).len() == 0);
            }
            assert(false);
        }
        assert(keeps_segment(1, segments[from]));
        assert(kept_later(first) =~= first);
        assert(kept_later(list) =~= kept_segments(list));
    } else {
        lemma_no_pieces(CharClass::Slash);
        let none = Seq::<char>::empty();
        assert(relative =~= none);
        reveal_with_fuel(kept_segments, 2);
        reveal_with_fuel(kept_later, 2);
        assert(seq![none].drop_last() =~= Seq::<Seq<char>>::empty());
        assert(kept_later(seq![none]) =~= kept_segments(seq![none]));
    }
}

/// A guard that is given relative to the project lies within the project, and one that is
/// absolute stays as it is.
pub proof fn guards_are_resolved_in_the_project(cwd: Seq<char>, guards: Seq<Seq<char>>)
    ensures
        rooted(cwd, guards).len() == guards.len(),
        forall|i: int|
            0 <= i < guards.len() ==> if is_absolute(guards[i]) {
                #[trigger] rooted(cwd, guards)[i] == guards[i]
            } else {
                is_within(rooted(cwd, guards)[i], cwd)
            },
{
    assert forall|i: int| 0 <= i < guards.len() implies if is_absolute(guards[i]) {
        #[trigger] rooted(cwd, guards)[i] == guards[i]
    } else {
        is_within(rooted(cwd, guards)[i], cwd)
    } by {
        joined_paths_lie_within_their_base(cwd, guards[i]);
    }
}

/// Whether a guard can be typed in: it is not empty, holds no comma and has no white space
/// around it.
pub open spec fn can_be_typed(guard: Seq<char>) -> bool {
    &&& guard.len() > 0
    &&& !in_class(guard[0], CharClass::Space)
    &&& !in_class(guard.last(), CharClass::Space)
    &&& forall|i: int| 0 <= i < guard.len() ==> !in_class(#[trigger] guard[i], CharClass::Comma)
}

proof fn lemma_single_piece(text: Seq<char>)
    requires
        forall|i: int| 0 <= i < text.len() ==> !in_class(#[trigger] text[i], CharClass::Comma),
    ensures
        pieces(text, CharClass::Comma) == seq![text],
{
    lemma_run_len(text, CharClass::Comma, false, text.len());
}

proof fn lemma_pieces_of_list(list: Seq<Seq<char>>)
    requires
        list.len() > 0,
        forall|i: int| 0 <= i < list.len() ==> can_be_typed(#[trigger] list[i]),
    ensures
        pieces(joined(list, ","@), CharClass::Comma) == list,
    decreases list.len(),
{
    reveal_strlit(",");
    assert(can_be_typed(list[list.len() - 1]));
    lemma_single_piece(list.last());
    if list.len() > 1 {
        let head = list.drop_last();
        assert forall|i: int| 0 <= i < head.len() implies can_be_typed(#[trigger] head[i]) by {
            assert(head[i] == list[i]);
        }
        lemma_pieces_of_list(head);
        let front = joined(head, ","@);
        assert(joined(list, ","@) =~= front.push(',') + list.last());
        lemma_pieces_of_both(front, ',', list.last(), CharClass::Comma);
        assert(list =~= head + seq![list.last()]);
    } else {
        assert(list =~= seq![list.last()]);
    }
}

proof fn lemma_filled(list: Seq<Seq<char>>)
    requires
        forall|i: int| 0 <= i < list.len() ==> can_be_typed(#[trigger] list[i]),
    ensures
        filled(list) == list,
    decreases list.len(),
{
    if list.len() > 0 {
        let head = list.drop_last();
        assert forall|i: int| 0 <= i < head.len() implies can_be_typed(#[trigger] head[i]) by {
            assert(head[i] == list[i]);
        }
        lemma_filled(head);
        assert(can_be_typed(list[list.len() - 1]));
        lemma_trimmed_same(list.last(), CharClass::Space);
        assert(filled(list) =~= list);
    } else {
        assert(filled(list) =~= list);
    }
}

/// Guards that are written into one text, with commas between them, are read back from it.
pub proof fn typed_guards_are_read_back(guards: Seq<Seq<char>>)
    requires
        forall|i: int| 0 <= i < guards.len() ==> can_be_typed(#[trigger] guards[i]),
    ensures
        guards_in(joined(guards, ","@)) == guards,
{
    if guards.len() == 0 {
        lemma_no_pieces(CharClass::Comma);
        assert(joined(guards, ","@) =~= Seq::<char>::empty());
        let single = seq![Seq::<char>::empty()];
        reveal_with_fuel(filled, 2);
        assert(single.drop_last() =~= Seq::<Seq<char>>::empty());
        assert(stripped(single.last()).len() == 0);
        assert(guards_in(joined(guards, ","@)) =~= guards);
    } else {
        lemma_pieces_of_list(guards);
        lemma_filled(guards);
    }
}

/// Opening the guard dialog and confirming it at once leaves everything as it was.
pub proof fn unedited_dialogs_change_nothing(
    v: TuiView,
    press: KeyPress,
    max_files: u16,
    max_alerts: u16,
)
    requires
        v.guard_input is None,
        press.key == Key::Enter,
        forall|i: int| 0 <= i < v.guards.len() ==> can_be_typed(#[trigger] v.guards[i]),
    ensures
        ({
            let opened = steered(v, Key::Char('g'), max_files, max_alerts);
            opened.guard_input is Some && edited(opened, opened.guard_input->0, press) == v
        }),
{
    typed_guards_are_read_back(v.guards);
}

} // verus!
