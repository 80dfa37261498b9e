//! Slash-separated paths as sequences of components.
//!
//! A path is held as its text. Two texts name the same path when they have the
//! same components: repeated separators, a trailing separator and `.`
//! components after the first do not count.

use crate::text::{
    chars_of, join, joined, lemma_views_push, pieces, same_text, slice_text, split_class, views,
    CharClass,
};
use crate::types::text_view;
use vstd::prelude::*;

verus! {

/// Whether a segment of a path is one of its components. A `.` counts only
/// where the path starts with it.
pub open spec fn keeps_segment(index: int, segment: Seq<char>) -> bool {
    segment.len() > 0 && (segment != seq!['.'] || index == 0)
}

/// The segments that are components.
pub open spec fn kept_segments(segments: Seq<Seq<char>>) -> Seq<Seq<char>>
    decreases segments.len(),
{
    if segments.len() == 0 {
        seq![]
    } else {
        let rest = kept_segments(segments.drop_last());
        if keeps_segment(segments.len() - 1, segments.last()) {
            rest.push(segments.last())
        } else {
            rest
        }
    }
}

/// Whether a path starts at the root directory.
pub open spec fn is_absolute(path: Seq<char>) -> bool {
    path.len() > 0 && path[0] == '/'
}

/// The components of a path. The root directory is the component `/`.
pub open spec fn parts(path: Seq<char>) -> Seq<Seq<char>> {
    let root: Seq<Seq<char>> = if is_absolute(path) {
        seq![seq!['/']]
    } else {
        seq![]
    };
    root + kept_segments(pieces(path, CharClass::Slash))
}

/// Whether two texts name the same path.
pub open spec fn same_path(a: Seq<char>, b: Seq<char>) -> bool {
    parts(a) == parts(b)
}

/// Whether a path lies at or below another one.
pub open spec fn is_within(path: Seq<char>, base: Seq<char>) -> bool {
    parts(base).len() <= parts(path).len() && parts(path).take(parts(base).len() as int) == parts(
        base,
    )
}

/// Whether a path lies at or below one of several.
pub open spec fn within_any(path: Seq<char>, bases: Seq<String>) -> bool {
    exists|i: int| 0 <= i < bases.len() && is_within(path, #[trigger] bases[i]@)
}

/// The number of leading components that two sequences share.
pub open spec fn shared_len(a: Seq<Seq<char>>, b: Seq<Seq<char>>) -> nat
    decreases a.len(),
{
    if a.len() > 0 && b.len() > 0 && a[0] == b[0] {
        1 + shared_len(a.drop_first(), b.drop_first())
    } else {
        0
    }
}

/// Decides whether a path starts at the root directory.
pub fn absolute(path: &str) -> (r: bool)
    ensures
        r == is_absolute(path@),
{
    let chars = chars_of(path);
    chars.len() > 0 && chars[0] == '/'
}

fn is_dot(segment: &str) -> (r: bool)
    ensures
        r == (segment@ == seq!['.']),
{
    let chars = chars_of(segment);
    if chars.len() == 1 && chars[0] == '.' {
        assert(segment@ =~= seq!['.']);
        true
    } else {
        assert(segment@ != seq!['.']) by {
            if segment@ == seq!['.'] {
                assert(chars@.len() == 1 && chars@[0] == '.');
            }
        }
        false
    }
}

/// Splits a path into its components.
pub fn components(path: &str) -> (r: Vec<String>)
    ensures
        views(r@) == parts(path@),
{
    let segments = split_class(path, CharClass::Slash);
    let mut out: Vec<String> = Vec::new();
    if absolute(path) {
        let mut root = String::new();
        root.push('/');
        assert(root@ =~= seq!['/']);
        proof {
            lemma_views_push(out@, root);
        }
        out.push(root);
    }
    let ghost root = views(out@);
    let ghost all = views(segments@);
    let mut i: usize = 0;
    assert(all.take(0) =~= seq![]);
    assert(root + kept_segments(seq![]) =~= root);
    assert(root =~= if is_absolute(path@) {
        seq![seq!['/']]
    } else {
        seq![]
    });
    while i < segments.len()
        invariant
            i <= segments@.len(),
            all == views(segments@),
            views(out@) == root + kept_segments(all.take(i as int)),
        decreases segments@.len() - i,
    {
        let ghost next = all.take(i + 1);
        assert(next.drop_last() =~= all.take(i as int));
        assert(next.last() == segments@[i as int]@);
        let nonempty = chars_of(segments[i].as_str()).len() > 0;
        if nonempty && (i == 0 || !is_dot(segments[i].as_str())) {
            let segment = segments[i].clone();
            proof {
                lemma_views_push(out@, segment);
                assert(root + kept_segments(next) =~= (root + kept_segments(
                    all.take(i as int),
                )).push(segment@));
            }
            out.push(segment);
        }
        i = i + 1;
    }
    assert(all.take(i as int) =~= all);
    out
}

fn same_parts(a: &Vec<String>, b: &Vec<String>, n: usize) -> (r: bool)
    requires
        n <= a@.len(),
        n <= b@.len(),
    ensures
        r == (views(a@).take(n as int) == views(b@).take(n as int)),
{
    let mut i: usize = 0;
    while i < n
        invariant
            i <= n <= a@.len(),
            n <= b@.len(),
            forall|k: int| 0 <= k < i ==> a@[k]@ == #[trigger] b@[k]@,
        decreases n - i,
    {
        if !same_text(a[i].as_str(), b[i].as_str()) {
            assert(views(a@).take(n as int)[i as int] != views(b@).take(n as int)[i as int]);
            return false;
        }
        i = i + 1;
    }
    assert(views(a@).take(n as int) =~= views(b@).take(n as int));
    true
}

/// Decides whether two texts name the same path.
pub fn paths_equal(a: &str, b: &str) -> (r: bool)
    ensures
        r == same_path(a@, b@),
{
    let x = components(a);
    let y = components(b);
    if x.len() != y.len() {
        assert(views(x@).len() != views(y@).len());
        return false;
    }
    let r = same_parts(&x, &y, x.len());
    assert(views(x@).take(x@.len() as int) =~= views(x@));
    assert(views(y@).take(x@.len() as int) =~= views(y@));
    r
}

/// Decides whether a path lies at or below another one.
pub fn path_within(path: &str, base: &str) -> (r: bool)
    ensures
        r == is_within(path@, base@),
{
    let x = components(path);
    let y = components(base);
    if y.len() > x.len() {
        return false;
    }
    let r = same_parts(&x, &y, y.len());
    assert(views(y@).take(y@.len() as int) =~= views(y@));
    r
}

/// Decides whether a path lies at or below one of several.
pub fn path_within_any(path: &str, bases: &Vec<String>) -> (r: bool)
    ensures
        r == within_any(path@, bases@),
{
    let mut i: usize = 0;
    while i < bases.len()
        invariant
            i <= bases@.len(),
            forall|k: int| 0 <= k < i ==> !is_within(path@, #[trigger] bases@[k]@),
        decreases bases@.len() - i,
    {
        if path_within(path, bases[i].as_str()) {
            return true;
        }
        i = i + 1;
    }
    false
}

/// Counts the leading components that two paths share.
pub fn shared_components(a: &Vec<String>, b: &Vec<String>) -> (r: usize)
    ensures
        r == shared_len(views(a@), views(b@)),
{
    let ghost x = views(a@);
    let ghost y = views(b@);
    let mut i: usize = 0;
    assert(x.skip(0) =~= x);
    assert(y.skip(0) =~= y);
    while i < a.len() && i < b.len()
        invariant
            i <= a@.len(),
            i <= b@.len(),
            x == views(a@),
            y == views(b@),
            shared_len(x, y) == i + shared_len(x.skip(i as int), y.skip(i as int)),
        decreases a@.len() - i,
    {
        assert(x.skip(i as int)[0] == a@[i as int]@);
        assert(y.skip(i as int)[0] == b@[i as int]@);
        if !same_text(a[i].as_str(), b[i].as_str()) {
            return i;
        }
        assert(x.skip(i as int).drop_first() =~= x.skip(i + 1));
        assert(y.skip(i as int).drop_first() =~= y.skip(i + 1));
        i = i + 1;
    }
    i
}

/// The order of component kinds: the root, `.`, `..`, then names.
pub open spec fn part_rank(part: Seq<char>) -> int {
    if part == seq!['/'] {
        0
    } else if part == seq!['.'] {
        1
    } else if part == seq!['.', '.'] {
        2
    } else {
        3
    }
}

/// Whether a text comes before another one, character by character.
pub open spec fn text_less(a: Seq<char>, b: Seq<char>) -> bool
    decreases a.len(),
{
    if b.len() == 0 {
        false
    } else if a.len() == 0 {
        true
    } else if a[0] != b[0] {
        a[0] < b[0]
    } else {
        text_less(a.drop_first(), b.drop_first())
    }
}

/// Whether a component comes before another one.
pub open spec fn part_less(a: Seq<char>, b: Seq<char>) -> bool {
    if part_rank(a) != part_rank(b) {
        part_rank(a) < part_rank(b)
    } else {
        part_rank(a) == 3 && text_less(a, b)
    }
}

/// Whether a sequence of components comes before another one.
pub open spec fn parts_less(a: Seq<Seq<char>>, b: Seq<Seq<char>>) -> bool
    decreases a.len(),
{
    if b.len() == 0 {
        false
    } else if a.len() == 0 {
        true
    } else if a[0] != b[0] {
        part_less(a[0], b[0])
    } else {
        parts_less(a.drop_first(), b.drop_first())
    }
}

/// Whether a path comes before another one in the order of their components.
pub open spec fn path_less(a: Seq<char>, b: Seq<char>) -> bool {
    parts_less(parts(a), parts(b))
}

/// Decides whether a text comes before another one.
pub fn text_before(a: &str, b: &str) -> (r: bool)
    ensures
        r == text_less(a@, b@),
{
    let x = chars_of(a);
    let y = chars_of(b);
    let mut i: usize = 0;
    assert(a@.skip(0) =~= a@);
    assert(b@.skip(0) =~= b@);
    while i < x.len() && i < y.len()
        invariant
            i <= x@.len(),
            i <= y@.len(),
            x@ == a@,
            y@ == b@,
            text_less(a@, b@) == text_less(a@.skip(i as int), b@.skip(i as int)),
        decreases x@.len() - i,
    {
        assert(a@.skip(i as int)[0] == x@[i as int]);
        assert(b@.skip(i as int)[0] == y@[i as int]);
        if x[i] != y[i] {
            return x[i] < y[i];
        }
        assert(a@.skip(i as int).drop_first() =~= a@.skip(i + 1));
        assert(b@.skip(i as int).drop_first() =~= b@.skip(i + 1));
        i = i + 1;
    }
    i < y.len()
}

fn rank_of(part: &str) -> (r: u8)
    ensures
        r == part_rank(part@),
{
    let chars = chars_of(part);
    if chars.len() == 1 && chars[0] == '/' {
        assert(part@ =~= seq!['/']);
        return 0;
    }
    if chars.len() == 1 && chars[0] == '.' {
        assert(part@ =~= seq!['.']);
        assert(part@[0] != seq!['/'][0]);
        return 1;
    }
    if chars.len() == 2 && chars[0] == '.' && chars[1] == '.' {
        assert(part@ =~= seq!['.', '.']);
        assert(part@.len() != seq!['/'].len());
        return 2;
    }
    proof {
        if part@ == seq!['/'] {
            assert(chars@.len() == 1 && chars@[0] == '/');
        }
        if part@ == seq!['.'] {
            assert(chars@.len() == 1 && chars@[0] == '.');
        }
        if part@ == seq!['.', '.'] {
            assert(chars@.len() == 2 && chars@[0] == '.' && chars@[1] == '.');
        }
    }
    3
}

fn part_before(a: &str, b: &str) -> (r: bool)
    ensures
        r == part_less(a@, b@),
{
    let x = rank_of(a);
    let y = rank_of(b);
    if x != y {
        x < y
    } else {
        x == 3 && text_before(a, b)
    }
}

/// Decides whether a path comes before another one.
pub fn path_before(a: &str, b: &str) -> (r: bool)
    ensures
        r == path_less(a@, b@),
{
    let p = components(a);
    let q = components(b);
    let ghost x = parts(a@);
    let ghost y = parts(b@);
    let mut i: usize = 0;
    assert(x.skip(0) =~= x);
    assert(y.skip(0) =~= y);
    while i < p.len() && i < q.len()
        invariant
            i <= p@.len(),
            i <= q@.len(),
            x == views(p@),
            y == views(q@),
            x == parts(a@),
            y == parts(b@),
            parts_less(x, y) == parts_less(x.skip(i as int), y.skip(i as int)),
        decreases p@.len() - i,
    {
        assert(x.skip(i as int)[0] == p@[i as int]@);
        assert(y.skip(i as int)[0] == q@[i as int]@);
        if !same_text(p[i].as_str(), q[i].as_str()) {
            return part_before(p[i].as_str(), q[i].as_str());
        }
        assert(x.skip(i as int).drop_first() =~= x.skip(i + 1));
        assert(y.skip(i as int).drop_first() =~= y.skip(i + 1));
        i = i + 1;
    }
    i < q.len()
}

/// A path below a base: the base, a separator where it needs one, and the
/// relative path. An absolute path replaces the base.
pub open spec fn joined_path(base: Seq<char>, path: Seq<char>) -> Seq<char> {
    if is_absolute(path) {
        path
    } else if base.len() == 0 || base.last() == '/' {
        base + path
    } else {
        base.push('/') + path
    }
}

/// Joins a path to a base.
pub fn join_path(base: &str, path: &str) -> (r: String)
    ensures
        r@ == joined_path(base@, path@),
{
    if absolute(path) {
        return path.to_owned();
    }
    let chars = chars_of(base);
    let mut out: String = base.to_owned();
    if chars.len() > 0 && chars[chars.len() - 1] != '/' {
        out.push('/');
    }
    out.append(path);
    out
}

/// The position of the first segment that is a component, from a position on;
/// the number of segments where there is none.
pub open spec fn kept_from(segments: Seq<Seq<char>>, from: int) -> int
    decreases segments.len() - from,
{
    if from < 0 || from >= segments.len() {
        segments.len() as int
    } else if keeps_segment(from, segments[from]) {
        from
    } else {
        kept_from(segments, from + 1)
    }
}

/// The position of the segment after `n` components.
pub open spec fn nth_kept(segments: Seq<Seq<char>>, n: nat) -> int
    decreases n,
{
    if n == 0 {
        kept_from(segments, 0)
    } else {
        kept_from(segments, nth_kept(segments, (n - 1) as nat) + 1)
    }
}

/// One past the position of the last segment that is a component; zero where
/// there is none.
pub open spec fn kept_end(segments: Seq<Seq<char>>) -> int
    decreases segments.len(),
{
    if segments.len() == 0 {
        0
    } else if keeps_segment(segments.len() - 1, segments.last()) {
        segments.len() as int
    } else {
        kept_end(segments.drop_last())
    }
}

/// The text of a path after its first `n` components, without separators at
/// its ends.
pub open spec fn text_after(path: Seq<char>, n: nat) -> Seq<char> {
    let segments = pieces(path, CharClass::Slash);
    let end = kept_end(segments);
    if n == 0 {
        if end == 0 && is_absolute(path) {
            seq!['/']
        } else {
            joined(segments.take(end), "/"@)
        }
    } else {
        let from = nth_kept(
            segments,
            (if is_absolute(path) {
                n - 1
            } else {
                n as int
            }) as nat,
        );
        if from < end {
            joined(segments.subrange(from, end), "/"@)
        } else {
            seq![]
        }
    }
}

/// A path relative to a base at or above it; `None` where it lies elsewhere.
pub open spec fn relative_path(path: Seq<char>, base: Seq<char>) -> Option<Seq<char>> {
    if is_within(path, base) {
        Some(text_after(path, parts(base).len()))
    } else {
        None
    }
}

/// A path as it is shown: relative to the base where it lies below it.
pub open spec fn shown_path(base: Seq<char>, path: Seq<char>) -> Seq<char> {
    match relative_path(path, base) {
        Some(relative) => relative,
        None => path,
    }
}

fn keeps(index: usize, segment: &str) -> (r: bool)
    ensures
        r == keeps_segment(index as int, segment@),
{
    chars_of(segment).len() > 0 && (index == 0 || !is_dot(segment))
}

proof fn lemma_kept_from_bounds(segments: Seq<Seq<char>>, from: int)
    requires
        0 <= from,
    ensures
        kept_from(segments, from) <= segments.len(),
        from <= segments.len() ==> from <= kept_from(segments, from),
    decreases segments.len() - from,
{
    if from < segments.len() && !keeps_segment(from, segments[from]) {
        lemma_kept_from_bounds(segments, from + 1);
    }
}

fn find_kept(segments: &Vec<String>, from: usize) -> (r: usize)
    requires
        from <= segments@.len(),
    ensures
        r == kept_from(views(segments@), from as int),
        from <= r <= segments@.len(),
{
    let ghost all = views(segments@);
    let mut i: usize = from;
    while i < segments.len()
        invariant
            from <= i <= segments@.len(),
            all == views(segments@),
            kept_from(all, from as int) == kept_from(all, i as int),
        decreases segments@.len() - i,
    {
        assert(all[i as int] == segments@[i as int]@);
        if keeps(i, segments[i].as_str()) {
            return i;
        }
        i = i + 1;
    }
    i
}

fn find_kept_end(segments: &Vec<String>) -> (r: usize)
    ensures
        r == kept_end(views(segments@)),
        r <= segments@.len(),
{
    let ghost all = views(segments@);
    let mut end: usize = segments.len();
    assert(all.take(end as int) =~= all);
    while end > 0
        invariant
            end <= segments@.len(),
            all == views(segments@),
            kept_end(all) == kept_end(all.take(end as int)),
        decreases end,
    {
        assert(all.take(end as int).last() == segments@[end - 1]@);
        assert(all.take(end as int).drop_last() =~= all.take(end - 1));
        if keeps(end - 1, segments[end - 1].as_str()) {
            return end;
        }
        end = end - 1;
    }
    end
}

fn join_segments(segments: &Vec<String>, from: usize, to: usize) -> (r: String)
    requires
        from <= to <= segments@.len(),
    ensures
        r@ == joined(views(segments@).subrange(from as int, to as int), "/"@),
{
    let mut list: Vec<String> = Vec::new();
    let mut i: usize = from;
    while i < to
        invariant
            from <= i <= to <= segments@.len(),
            list@ == segments@.subrange(from as int, i as int),
        decreases to - i,
    {
        let segment = segments[i].clone();
        list.push(segment);
        i = i + 1;
        assert(list@ =~= segments@.subrange(from as int, i as int));
    }
    assert(views(list@) =~= views(segments@).subrange(from as int, to as int));
    join(&list, "/")
}

/// Writes a path relative to a base at or above it.
pub fn strip_base(path: &str, base: &str) -> (r: Option<String>)
    ensures
        text_view(r) == relative_path(path@, base@),
{
    if !path_within(path, base) {
        return None;
    }
    let n = components(base);
    assert(views(n@).len() == n@.len());
    let segments = split_class(path, CharClass::Slash);
    let ghost all = views(segments@);
    let end = find_kept_end(&segments);
    if n.len() == 0 {
        if end == 0 && absolute(path) {
            let mut root: String = String::new();
            root.push('/');
            assert(root@ =~= seq!['/']);
            return Some(root);
        }
        assert(all.take(end as int) =~= all.subrange(0, end as int));
        return Some(join_segments(&segments, 0, end));
    }
    let skip: usize = if absolute(path) {
        n.len() - 1
    } else {
        n.len()
    };
    let mut from: usize = find_kept(&segments, 0);
    let mut k: usize = 0;
    while k < skip
        invariant
            k <= skip,
            all == views(segments@),
            from <= segments@.len(),
            k > 0 || from == kept_from(all, 0),
            from == nth_kept(all, k as nat),
        decreases skip - k,
    {
        proof {
            lemma_nth_kept_at_end(all, k as nat);
        }
        if from < segments.len() {
            from = find_kept(&segments, from + 1);
        }
        k = k + 1;
    }
    if from < end {
        Some(join_segments(&segments, from, end))
    } else {
        let empty = String::new();
        assert(empty@ =~= seq![]);
        Some(empty)
    }
}

proof fn lemma_nth_kept_at_end(segments: Seq<Seq<char>>, n: nat)
    ensures
        nth_kept(segments, n) == segments.len() ==> nth_kept(segments, n + 1) == segments.len(),
{
}

/// Writes a path as it is shown, relative to a base where it lies below it.
pub fn show_path(base: &str, path: &str) -> (r: String)
    ensures
        r@ == shown_path(base@, path@),
{
    match strip_base(path, base) {
        Some(relative) => relative,
        None => path.to_owned(),
    }
}

/// The components of the directory that holds a path; `None` for the root and
/// the empty path.
pub open spec fn parent_parts(path: Seq<char>) -> Option<Seq<Seq<char>>> {
    let list = parts(path);
    if list.len() == 0 || list.last() == seq!['/'] {
        None
    } else {
        Some(list.drop_last())
    }
}

/// The last component of a path where it is a name.
pub open spec fn base_name(path: Seq<char>) -> Option<Seq<char>> {
    let list = parts(path);
    if list.len() > 0 && part_rank(list.last()) == 3 {
        Some(list.last())
    } else {
        None
    }
}

/// The position of the last dot of a name; `-1` where there is none.
pub open spec fn last_dot(name: Seq<char>) -> int
    decreases name.len(),
{
    if name.len() == 0 {
        -1
    } else if name.last() == '.' {
        name.len() - 1
    } else {
        last_dot(name.drop_last())
    }
}

/// The part of a name after its last dot; `None` where there is no dot but one
/// at its start.
pub open spec fn name_extension(name: Seq<char>) -> Option<Seq<char>> {
    if last_dot(name) > 0 {
        Some(name.skip(last_dot(name) + 1))
    } else {
        None
    }
}

/// The extension of a path's last component.
pub open spec fn file_extension(path: Seq<char>) -> Option<Seq<char>> {
    match base_name(path) {
        Some(name) => name_extension(name),
        None => None,
    }
}

/// The last component of a path where it is a name.
pub fn file_name(path: &str) -> (r: Option<String>)
    ensures
        text_view(r) == base_name(path@),
{
    let list = components(path);
    assert(views(list@).len() == list@.len());
    if list.len() == 0 {
        return None;
    }
    assert(views(list@).last() == list@.last()@);
    let last = list[list.len() - 1].clone();
    if rank_of(last.as_str()) == 3 {
        Some(last)
    } else {
        None
    }
}

/// Decides whether a path has an extension.
pub fn extension_is(path: &str, wanted: &str) -> (r: bool)
    ensures
        r == (file_extension(path@) == Some(wanted@)),
{
    let name = match file_name(path) {
        Some(name) => name,
        None => {
            return false;
        },
    };
    let chars = chars_of(name.as_str());
    let ghost all = name@;
    let mut end: usize = chars.len();
    assert(all.take(end as int) =~= all);
    while end > 0
        invariant
            end <= chars@.len(),
            chars@ == all,
            base_name(path@) == Some(all),
            last_dot(all) == last_dot(all.take(end as int)),
        decreases end,
    {
        assert(all.take(end as int).last() == chars@[end - 1]);
        assert(all.take(end as int).drop_last() =~= all.take(end - 1));
        if chars[end - 1] == '.' {
            if end == 1 {
                return false;
            }
            let extension = slice_text(&chars, end, chars.len());
            assert(extension@ =~= all.skip(end as int));
            return same_text(extension.as_str(), wanted);
        }
        end = end - 1;
    }
    false
}

/// Decides whether a path lies directly in a directory.
pub fn lies_directly_in(path: &str, dir: &str) -> (r: bool)
    ensures
        r == (parent_parts(path@) == Some(parts(dir@))),
{
    let x = components(path);
    let y = components(dir);
    assert(views(x@).len() == x@.len());
    assert(views(y@).len() == y@.len());
    if x.len() == 0 {
        return false;
    }
    assert(views(x@).last() == x@.last()@);
    if rank_of(x[x.len() - 1].as_str()) == 0 {
        return false;
    }
    if x.len() - 1 != y.len() {
        assert(views(x@).drop_last().len() != views(y@).len());
        return false;
    }
    let r = same_parts(&x, &y, y.len());
    assert(views(x@).take(y@.len() as int) =~= views(x@).drop_last());
    assert(views(y@).take(y@.len() as int) =~= views(y@));
    r
}

} // verus!
