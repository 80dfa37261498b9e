//! Text operations on sequences of characters.
//!
//! Every function reads its input as the sequence of Unicode scalar values
//! that `str::chars` yields, and states its result over that sequence.

use vstd::prelude::*;

verus! {

/// `std::string::String::push`: appends one character to the text.
pub assume_specification[ std::string::String::push ](s: &mut std::string::String, ch: char)
    ensures
        final(s)@ == old(s)@.push(ch),
;

/// Characters with the Unicode `White_Space` property.
pub open spec fn is_space(c: char) -> bool {
    let n = c as int;
    ||| 0x09 <= n <= 0x0d
    ||| n == 0x20
    ||| n == 0x85
    ||| n == 0xa0
    ||| n == 0x1680
    ||| 0x2000 <= n <= 0x200a
    ||| n == 0x2028
    ||| n == 0x2029
    ||| n == 0x202f
    ||| n == 0x205f
    ||| n == 0x3000
}

/// Sets of characters that text can be trimmed of or split at.
#[derive(Debug, Clone, Copy, PartialEq, Eq, Structural)]
pub enum CharClass {
    /// Unicode white space.
    Space,
    /// Quotes, backticks and semicolons around shell words.
    Quote,
    /// The line feed.
    LineFeed,
    /// The comma.
    Comma,
    /// The path separator.
    Slash,
    /// Decimal digits.
    Digit,
}

pub open spec fn in_class(c: char, class: CharClass) -> bool {
    match class {
        CharClass::Space => is_space(c),
        CharClass::Quote => c == '"' || c == '\'' || c == '`' || c == ';',
        CharClass::LineFeed => c == '\n',
        CharClass::Comma => c == ',',
        CharClass::Slash => c == '/',
        CharClass::Digit => '0' <= c && c <= '9',
    }
}

/// Decides whether a character belongs to a class.
pub fn char_in_class(c: char, class: CharClass) -> (r: bool)
    ensures
        r == in_class(c, class),
{
    match class {
        CharClass::Space => {
            let n: u32 = c as u32;
            (0x09 <= n && n <= 0x0d) || n == 0x20 || n == 0x85 || n == 0xa0 || n == 0x1680 || (
            0x2000 <= n && n <= 0x200a) || n == 0x2028 || n == 0x2029 || n == 0x202f || n == 0x205f
                || n == 0x3000
        },
        CharClass::Quote => c == '"' || c == '\'' || c == '`' || c == ';',
        CharClass::LineFeed => c == '\n',
        CharClass::Comma => c == ',',
        CharClass::Slash => c == '/',
        CharClass::Digit => '0' <= c && c <= '9',
    }
}

/// Reads a text as its characters.
pub fn chars_of(s: &str) -> (r: Vec<char>)
    ensures
        r@ == s@,
{
    let mut out: Vec<char> = Vec::new();
    for c in it: s.chars()
        invariant
            out@ == it.seq().take(it.index()),
            it.seq() == s@,
    {
        out.push(c);
        assert(it.seq().take(it.index() + 1) =~= it.seq().take(it.index()).push(c));
    }
    assert(s@.take(s@.len() as int) =~= s@);
    out
}

/// Writes `chars[from..to]` as a text.
pub fn slice_text(chars: &Vec<char>, from: usize, to: usize) -> (r: String)
    requires
        from <= to <= chars@.len(),
    ensures
        r@ == chars@.subrange(from as int, to as int),
{
    let mut out: String = String::new();
    let mut i: usize = from;
    while i < to
        invariant
            from <= i <= to <= chars@.len(),
            out@ == chars@.subrange(from as int, i as int),
        decreases to - i,
    {
        out.push(chars[i]);
        i = i + 1;
        assert(chars@.subrange(from as int, i as int) =~= chars@.subrange(from as int, i - 1).push(
            chars@[i - 1],
        ));
    }
    out
}

/// Decides whether two texts hold the same characters.
pub fn same_text(a: &str, b: &str) -> (r: bool)
    ensures
        r == (a@ == b@),
{
    let left = chars_of(a);
    let right = chars_of(b);
    same_chars(&left, &right)
}

/// Decides whether two character sequences are equal.
pub fn same_chars(a: &Vec<char>, b: &Vec<char>) -> (r: bool)
    ensures
        r == (a@ == b@),
{
    if a.len() != b.len() {
        return false;
    }
    let mut i: usize = 0;
    while i < a.len()
        invariant
            i <= a@.len() == b@.len(),
            forall|k: int| 0 <= k < i ==> a@[k] == b@[k],
        decreases a@.len() - i,
    {
        if a[i] != b[i] {
            return false;
        }
        i = i + 1;
    }
    assert(a@ =~= b@);
    true
}

/// The ASCII lower case of a character; other characters stay as they are.
pub open spec fn lower(c: char) -> char {
    if 'A' <= c && c <= 'Z' {
        ((c as int) + 32) as char
    } else {
        c
    }
}

/// The ASCII lower case of a text.
pub open spec fn lowercase(s: Seq<char>) -> Seq<char> {
    s.map_values(|c: char| lower(c))
}

fn lower_char(c: char) -> (r: char)
    ensures
        r == lower(c),
{
    if 'A' <= c && c <= 'Z' {
        ((c as u8) + 32) as char
    } else {
        c
    }
}

/// The text with its ASCII letters in lower case.
pub fn to_lowercase(s: &str) -> (r: String)
    ensures
        r@ == lowercase(s@),
{
    let chars = chars_of(s);
    let mut out: String = String::new();
    let mut i: usize = 0;
    while i < chars.len()
        invariant
            i <= chars@.len(),
            chars@ == s@,
            out@ == lowercase(s@).take(i as int),
        decreases chars@.len() - i,
    {
        out.push(lower_char(chars[i]));
        i = i + 1;
        assert(lowercase(s@).take(i as int) =~= lowercase(s@).take(i - 1).push(
            lower(chars@[i - 1]),
        ));
    }
    assert(lowercase(s@).take(i as int) =~= lowercase(s@));
    out
}

/// Length of the longest prefix whose characters are all inside (or all
/// outside) a class.
pub open spec fn run_len(s: Seq<char>, class: CharClass, inside: bool) -> nat
    decreases s.len(),
{
    if s.len() > 0 && in_class(s[0], class) == inside {
        1 + run_len(s.drop_first(), class, inside)
    } else {
        0
    }
}

/// Length of the longest suffix whose characters all belong to a class.
pub open spec fn tail_len(s: Seq<char>, class: CharClass) -> nat
    decreases s.len(),
{
    if s.len() > 0 && in_class(s.last(), class) {
        1 + tail_len(s.drop_last(), class)
    } else {
        0
    }
}

/// A prefix that is uniform and cannot be extended is the longest run.
pub proof fn lemma_run_len(s: Seq<char>, class: CharClass, inside: bool, n: nat)
    requires
        n <= s.len(),
        forall|k: int| 0 <= k < n ==> in_class(#[trigger] s[k], class) == inside,
        n == s.len() || in_class(s[n as int], class) != inside,
    ensures
        run_len(s, class, inside) == n,
    decreases n,
{
    if n > 0 {
        let t = s.drop_first();
        assert forall|k: int| 0 <= k < n - 1 implies in_class(#[trigger] t[k], class) == inside by {
            assert(t[k] == s[k + 1]);
        }
        assert(in_class(s[0], class) == inside);
        lemma_run_len(t, class, inside, (n - 1) as nat);
    }
}

/// What the longest run looks like.
pub proof fn lemma_run_len_bounds(s: Seq<char>, class: CharClass, inside: bool)
    ensures
        run_len(s, class, inside) <= s.len(),
        forall|k: int|
            0 <= k < run_len(s, class, inside) ==> in_class(#[trigger] s[k], class) == inside,
        run_len(s, class, inside) < s.len() ==> in_class(
            s[run_len(s, class, inside) as int],
            class,
        ) != inside,
    decreases s.len(),
{
    if s.len() > 0 && in_class(s[0], class) == inside {
        let t = s.drop_first();
        lemma_run_len_bounds(t, class, inside);
        assert forall|k: int| 0 <= k < run_len(s, class, inside) implies in_class(
            #[trigger] s[k],
            class,
        ) == inside by {
            if k > 0 {
                assert(s[k] == t[k - 1]);
            }
        }
    }
}

proof fn lemma_tail_len(s: Seq<char>, class: CharClass, n: nat)
    requires
        n <= s.len(),
        forall|k: int| s.len() - n <= k < s.len() ==> in_class(#[trigger] s[k], class),
        n == s.len() || !in_class(s[s.len() - n - 1], class),
    ensures
        tail_len(s, class) == n,
    decreases n,
{
    if n > 0 {
        let t = s.drop_last();
        assert forall|k: int| t.len() - (n - 1) <= k < t.len() implies in_class(
            #[trigger] t[k],
            class,
        ) by {
            assert(t[k] == s[k]);
        }
        assert(in_class(s.last(), class));
        lemma_tail_len(t, class, (n - 1) as nat);
    }
}

/// Finds where the run that starts at `from` ends.
pub fn run_end(chars: &Vec<char>, from: usize, class: CharClass, inside: bool) -> (r: usize)
    requires
        from <= chars@.len(),
    ensures
        from <= r <= chars@.len(),
        r - from == run_len(chars@.skip(from as int), class, inside),
{
    let mut i: usize = from;
    while i < chars.len() && char_in_class(chars[i], class) == inside
        invariant
            from <= i <= chars@.len(),
            forall|k: int| from <= k < i ==> in_class(#[trigger] chars@[k], class) == inside,
        decreases chars@.len() - i,
    {
        i = i + 1;
    }
    proof {
        let t = chars@.skip(from as int);
        assert forall|k: int| 0 <= k < i - from implies in_class(#[trigger] t[k], class)
            == inside by {
            assert(t[k] == chars@[from + k]);
        }
        lemma_run_len(t, class, inside, (i - from) as nat);
    }
    i
}

/// A text without the characters of a class at its start and end.
pub open spec fn trimmed(s: Seq<char>, class: CharClass) -> Seq<char> {
    let t = s.skip(run_len(s, class, true) as int);
    t.take(t.len() - tail_len(t, class))
}

/// Trims the characters of a class off both ends of a text.
pub fn trim_class(s: &str, class: CharClass) -> (r: String)
    ensures
        r@ == trimmed(s@, class),
{
    let chars = chars_of(s);
    let from = run_end(&chars, 0, class, true);
    let ghost t = s@.skip(from as int);
    assert(s@.skip(0) =~= s@);
    let mut to: usize = chars.len();
    while to > from && char_in_class(chars[to - 1], class)
        invariant
            from <= to <= chars@.len(),
            chars@ == s@,
            t == s@.skip(from as int),
            forall|k: int| to - from <= k < t.len() ==> in_class(#[trigger] t[k], class),
        decreases to,
    {
        to = to - 1;
        assert(t[to - from] == chars@[to as int]);
    }
    proof {
        if to > from {
            assert(t[to - from - 1] == chars@[to - 1]);
        }
        lemma_tail_len(t, class, (t.len() - (to - from)) as nat);
        assert(chars@.subrange(from as int, to as int) =~= t.take(to - from));
    }
    slice_text(&chars, from, to)
}

/// A text without white space at its start and end.
pub open spec fn stripped(s: Seq<char>) -> Seq<char> {
    trimmed(s, CharClass::Space)
}

/// Trims white space off both ends of a text.
pub fn trim(s: &str) -> (r: String)
    ensures
        r@ == stripped(s@),
{
    trim_class(s, CharClass::Space)
}

/// Whether a text holds anything but white space.
pub open spec fn is_blank(s: Seq<char>) -> bool {
    stripped(s).len() == 0
}

/// Decides whether a text is empty or made of white space alone.
pub fn blank(s: &str) -> (r: bool)
    ensures
        r == is_blank(s@),
{
    let t = chars_of(trim(s).as_str());
    t.len() == 0
}

/// The words of a text: its maximal runs of characters that are no white space.
pub open spec fn words(s: Seq<char>) -> Seq<Seq<char>>
    decreases s.len(),
    via words_decreases
{
    let t = s.skip(run_len(s, CharClass::Space, true) as int);
    if t.len() == 0 {
        seq![]
    } else {
        let n = run_len(t, CharClass::Space, false) as int;
        seq![t.take(n)] + words(t.skip(n))
    }
}

#[via_fn]
proof fn words_decreases(s: Seq<char>) {
    lemma_run_len_bounds(s, CharClass::Space, true);
    let t = s.skip(run_len(s, CharClass::Space, true) as int);
    lemma_run_len_bounds(t, CharClass::Space, false);
    lemma_run_len_bounds(t, CharClass::Space, true);
    if t.len() > 0 {
        assert(t[0] == s[run_len(s, CharClass::Space, true) as int]);
        assert(run_len(t, CharClass::Space, false) > 0);
    }
}

/// The views of a list of texts.
pub open spec fn views(texts: Seq<String>) -> Seq<Seq<char>> {
    texts.map_values(|t: String| t@)
}

pub proof fn lemma_views_push(texts: Seq<String>, t: String)
    ensures
        views(texts.push(t)) == views(texts).push(t@),
{
    assert(views(texts.push(t)) =~= views(texts).push(t@));
}

/// Splits a text at white space.
pub fn split_words(s: &str) -> (r: Vec<String>)
    ensures
        views(r@) == words(s@),
{
    let chars = chars_of(s);
    let mut out: Vec<String> = Vec::new();
    let mut i: usize = 0;
    let mut done: bool = false;
    assert(s@.skip(0) =~= s@);
    assert(views(out@) + words(s@) =~= words(s@));
    while !done
        invariant
            i <= chars@.len(),
            chars@ == s@,
            !done ==> views(out@) + words(s@.skip(i as int)) == words(s@),
            done ==> views(out@) == words(s@),
        decreases chars@.len() - i, (if done { 0int } else { 1int }),
    {
        let from = run_end(&chars, i, CharClass::Space, true);
        let ghost u = s@.skip(i as int);
        let ghost t = u.skip(from - i);
        proof {
            assert(t =~= s@.skip(from as int));
            lemma_run_len_bounds(u, CharClass::Space, true);
        }
        if from == chars.len() {
            assert(words(u) =~= seq![]);
            assert(views(out@) + words(u) =~= views(out@));
            done = true;
        } else {
            let to = run_end(&chars, from, CharClass::Space, false);
            let word = slice_text(&chars, from, to);
            proof {
                lemma_run_len_bounds(t, CharClass::Space, false);
                assert(t[0] == u[from - i]);
                assert(to > from);
                assert(word@ =~= t.take(to - from));
                assert(t.skip(to - from) =~= s@.skip(to as int));
                lemma_views_push(out@, word);
                assert(views(out@).push(word@) + words(s@.skip(to as int)) =~= views(out@) + (
                seq![word@] + words(s@.skip(to as int))));
            }
            out.push(word);
            i = to;
        }
    }
    out
}

/// Whether `p` stands in `s` at position `i`.
pub open spec fn matches_at(s: Seq<char>, p: Seq<char>, i: int) -> bool {
    0 <= i <= s.len() - p.len() && s.subrange(i, i + p.len()) == p
}

/// Whether `p` stands somewhere in `s`.
pub open spec fn has_text(s: Seq<char>, p: Seq<char>) -> bool {
    exists|i: int| #[trigger] matches_at(s, p, i)
}

/// The first position from `i` on at which `p` stands in `s`.
pub open spec fn match_from(s: Seq<char>, p: Seq<char>, i: int) -> Option<int>
    decreases s.len() - i + 1,
{
    if i < 0 || i + p.len() > s.len() {
        None
    } else if matches_at(s, p, i) {
        Some(i)
    } else {
        match_from(s, p, i + 1)
    }
}

/// What a first match says about the other positions.
pub proof fn lemma_match_from(s: Seq<char>, p: Seq<char>, i: int)
    requires
        0 <= i,
    ensures
        match match_from(s, p, i) {
            Some(j) => i <= j && matches_at(s, p, j) && forall|k: int|
                i <= k < j ==> !#[trigger] matches_at(s, p, k),
            None => forall|k: int| i <= k ==> !#[trigger] matches_at(s, p, k),
        },
    decreases s.len() - i + 1,
{
    if i + p.len() <= s.len() && !matches_at(s, p, i) {
        lemma_match_from(s, p, i + 1);
    }
}

fn chars_match_at(s: &Vec<char>, p: &Vec<char>, i: usize) -> (r: bool)
    requires
        i + p@.len() <= s@.len(),
    ensures
        r == matches_at(s@, p@, i as int),
{
    let mut k: usize = 0;
    let total: usize = s.len();
    while k < p.len()
        invariant
            k <= p@.len(),
            i + p@.len() <= s@.len(),
            total == s@.len(),
            forall|j: int| 0 <= j < k ==> s@[i + j] == #[trigger] p@[j],
        decreases p@.len() - k,
    {
        if s[i + k] != p[k] {
            assert(s@.subrange(i as int, i + p@.len())[k as int] != p@[k as int]);
            return false;
        }
        k = k + 1;
    }
    assert(s@.subrange(i as int, i + p@.len()) =~= p@);
    true
}

/// Finds the first position at which `p` stands in `s`.
pub fn find_chars(s: &Vec<char>, p: &Vec<char>) -> (r: Option<usize>)
    ensures
        match r {
            Some(i) => match_from(s@, p@, 0) == Some(i as int),
            None => match_from(s@, p@, 0) is None,
        },
{
    if p.len() > s.len() {
        return None;
    }
    let mut i: usize = 0;
    while i <= s.len() - p.len()
        invariant
            p@.len() <= s@.len(),
            i <= s@.len() - p@.len() + 1,
            match_from(s@, p@, 0) == match_from(s@, p@, i as int),
        decreases s@.len() + 1 - i,
    {
        if chars_match_at(s, p, i) {
            return Some(i);
        }
        if i == s.len() - p.len() {
            assert(match_from(s@, p@, i + 1) is None);
            return None;
        }
        i = i + 1;
    }
    None
}

/// Decides whether `p` stands somewhere in `s`.
pub fn contains_text(s: &str, p: &str) -> (r: bool)
    ensures
        r == has_text(s@, p@),
{
    let sc = chars_of(s);
    let pc = chars_of(p);
    proof {
        lemma_match_from(s@, p@, 0);
    }
    match find_chars(&sc, &pc) {
        Some(i) => true,
        None => {
            assert forall|k: int| !#[trigger] matches_at(s@, p@, k) by {}
            false
        },
    }
}

/// The texts before and after the first occurrence of `p`.
pub open spec fn split_at_text(s: Seq<char>, p: Seq<char>) -> Option<(Seq<char>, Seq<char>)> {
    match match_from(s, p, 0) {
        Some(i) => Some((s.take(i), s.skip(i + p.len()))),
        None => None,
    }
}

/// Splits a text around the first occurrence of `p`.
pub fn split_once(s: &str, p: &str) -> (r: Option<(String, String)>)
    ensures
        match r {
            Some((a, b)) => split_at_text(s@, p@) == Some((a@, b@)),
            None => split_at_text(s@, p@) is None,
        },
{
    let sc = chars_of(s);
    let pc = chars_of(p);
    match find_chars(&sc, &pc) {
        Some(i) => {
            proof {
                lemma_match_from(s@, p@, 0);
            }
            let a = slice_text(&sc, 0, i);
            let total: usize = sc.len();
            let b = slice_text(&sc, i + pc.len(), total);
            assert(a@ =~= s@.take(i as int));
            assert(b@ =~= s@.skip(i + p@.len()));
            Some((a, b))
        },
        None => None,
    }
}

/// Whether `s` begins with `p`.
pub open spec fn begins_with(s: Seq<char>, p: Seq<char>) -> bool {
    matches_at(s, p, 0)
}

/// Decides whether `s` begins with `p`.
pub fn starts_with(s: &str, p: &str) -> (r: bool)
    ensures
        r == begins_with(s@, p@),
{
    let sc = chars_of(s);
    let pc = chars_of(p);
    if pc.len() > sc.len() {
        return false;
    }
    chars_match_at(&sc, &pc, 0)
}

/// The pieces of a text between the characters of a class; a text without
/// such a character is its own single piece.
pub open spec fn pieces(s: Seq<char>, class: CharClass) -> Seq<Seq<char>>
    decreases s.len(),
{
    let n = run_len(s, class, false) as int;
    if n >= s.len() {
        seq![s]
    } else {
        seq![s.take(n)] + pieces(s.skip(n + 1), class)
    }
}

/// Splits a text at every character of a class.
pub fn split_class(s: &str, class: CharClass) -> (r: Vec<String>)
    ensures
        views(r@) == pieces(s@, class),
        r@.len() > 0,
{
    let chars = chars_of(s);
    let mut out: Vec<String> = Vec::new();
    let mut i: usize = 0;
    assert(s@.skip(0) =~= s@);
    assert(views(out@) + pieces(s@, class) =~= pieces(s@, class));
    loop
        invariant
            i <= chars@.len(),
            chars@ == s@,
            views(out@) + pieces(s@.skip(i as int), class) == pieces(s@, class),
        decreases chars@.len() - i,
    {
        let ghost u = s@.skip(i as int);
        let to = run_end(&chars, i, class, false);
        let piece = slice_text(&chars, i, to);
        proof {
            lemma_run_len_bounds(u, class, false);
            lemma_views_push(out@, piece);
            assert(piece@ =~= u.take(to - i));
        }
        if to == chars.len() {
            proof {
                assert(u.take(to - i) =~= u);
                assert(views(out@).push(piece@) =~= views(out@) + seq![u]);
            }
            out.push(piece);
            return out;
        }
        proof {
            assert(u.skip(to - i + 1) =~= s@.skip(to + 1));
            assert(views(out@).push(piece@) + pieces(s@.skip(to + 1), class) =~= views(out@) + (
            seq![piece@] + pieces(s@.skip(to + 1), class)));
        }
        out.push(piece);
        i = to + 1;
    }
}

/// A line without the carriage return before its line feed.
pub open spec fn without_cr(line: Seq<char>) -> Seq<char> {
    if line.len() > 0 && line.last() == '\r' {
        line.drop_last()
    } else {
        line
    }
}

/// The lines of a text. A line ends at a line feed, with or without a carriage
/// return before it; a last line without a line feed counts as well.
pub open spec fn lines(s: Seq<char>) -> Seq<Seq<char>>
    decreases s.len(),
{
    if s.len() == 0 {
        seq![]
    } else {
        let n = run_len(s, CharClass::LineFeed, false) as int;
        if n >= s.len() {
            seq![s]
        } else {
            seq![without_cr(s.take(n))] + lines(s.skip(n + 1))
        }
    }
}

/// Splits a text into its lines.
pub fn split_lines(s: &str) -> (r: Vec<String>)
    ensures
        views(r@) == lines(s@),
{
    let chars = chars_of(s);
    let mut out: Vec<String> = Vec::new();
    let mut i: usize = 0;
    assert(s@.skip(0) =~= s@);
    assert(views(out@) + lines(s@) =~= lines(s@));
    while i < chars.len()
        invariant
            i <= chars@.len(),
            chars@ == s@,
            views(out@) + lines(s@.skip(i as int)) == lines(s@),
        decreases chars@.len() - i,
    {
        let ghost u = s@.skip(i as int);
        let to = run_end(&chars, i, CharClass::LineFeed, false);
        proof {
            lemma_run_len_bounds(u, CharClass::LineFeed, false);
        }
        if to == chars.len() {
            let line = slice_text(&chars, i, to);
            proof {
                assert(line@ =~= u);
                lemma_views_push(out@, line);
                assert(views(out@).push(line@) =~= views(out@) + seq![u]);
            }
            out.push(line);
            return out;
        }
        let end: usize = if to > i && chars[to - 1] == '\r' {
            to - 1
        } else {
            to
        };
        let line = slice_text(&chars, i, end);
        proof {
            let raw = u.take(to - i);
            if to > i {
                assert(raw.last() == chars@[to - 1]);
            }
            assert(line@ =~= without_cr(raw));
            lemma_views_push(out@, line);
            assert(u.skip(to - i + 1) =~= s@.skip(to + 1));
            assert(views(out@).push(line@) + lines(s@.skip(to + 1)) =~= views(out@) + (seq![line@]
                + lines(s@.skip(to + 1))));
        }
        out.push(line);
        i = to + 1;
    }
    proof {
        assert(s@.skip(i as int).len() == 0);
        assert(views(out@) + lines(s@.skip(i as int)) =~= views(out@));
    }
    out
}

/// Texts written one after the other with a separator between them.
pub open spec fn joined(parts: Seq<Seq<char>>, sep: Seq<char>) -> Seq<char>
    decreases parts.len(),
{
    if parts.len() == 0 {
        seq![]
    } else if parts.len() == 1 {
        parts[0]
    } else {
        joined(parts.drop_last(), sep) + sep + parts.last()
    }
}

/// Joins texts with a separator.
pub fn join(parts: &Vec<String>, sep: &str) -> (r: String)
    ensures
        r@ == joined(views(parts@), sep@),
{
    let mut out: String = String::new();
    let mut i: usize = 0;
    assert(views(parts@).take(0) =~= seq![]);
    while i < parts.len()
        invariant
            i <= parts@.len(),
            out@ == joined(views(parts@).take(i as int), sep@),
        decreases parts@.len() - i,
    {
        let ghost before = views(parts@).take(i as int);
        let ghost after = views(parts@).take(i + 1);
        assert(after.drop_last() =~= before);
        assert(after.last() == parts@[i as int]@);
        if i > 0 {
            out.append(sep);
        } else {
            assert(out@ + parts@[0]@ =~= parts@[0]@);
        }
        out.append(parts[i].as_str());
        i = i + 1;
    }
    assert(views(parts@).take(i as int) =~= views(parts@));
    out
}

/// The decimal digit of a number below ten.
pub open spec fn digit(d: nat) -> char {
    (48 + d) as char
}

/// A number in decimal notation.
pub open spec fn decimal(n: nat) -> Seq<char>
    decreases n,
{
    if n < 10 {
        seq![digit(n)]
    } else {
        decimal(n / 10).push(digit(n % 10))
    }
}

/// Appends a number in decimal notation.
pub fn push_decimal(out: &mut String, n: u128)
    ensures
        final(out)@ == old(out)@ + decimal(n as nat),
    decreases n,
{
    let ghost before = out@;
    if n >= 10 {
        push_decimal(out, n / 10);
    }
    let d: u8 = (n % 10) as u8;
    out.push((48 + d) as char);
    proof {
        if n >= 10 {
            assert(out@ =~= before + decimal(n as nat));
        } else {
            assert(out@ =~= before + decimal(n as nat));
        }
    }
}

/// A number in decimal notation, with a zero in front where it has one digit.
pub open spec fn two_digits(n: nat) -> Seq<char> {
    if n < 10 {
        seq!['0', digit(n)]
    } else {
        decimal(n)
    }
}

/// Writes a number with at least two digits.
pub fn two_digit_text(n: u128) -> (r: String)
    ensures
        r@ == two_digits(n as nat),
{
    let mut out: String = String::new();
    if n < 10 {
        out.push('0');
    }
    push_decimal(&mut out, n);
    assert(out@ =~= two_digits(n as nat));
    out
}

/// Whether a character is a decimal digit.
pub open spec fn is_digit(c: char) -> bool {
    '0' <= c && c <= '9'
}

/// The number that a sequence of decimal digits stands for.
pub open spec fn digits_value(s: Seq<char>) -> nat
    decreases s.len(),
{
    if s.len() == 0 {
        0
    } else {
        digits_value(s.drop_last()) * 10 + ((s.last() as int - 48) as nat)
    }
}

/// Whether every character is a decimal digit.
pub open spec fn all_digits(s: Seq<char>) -> bool {
    forall|i: int| 0 <= i < s.len() ==> is_digit(#[trigger] s[i])
}

/// A number's text without the plus sign that may stand before its digits.
pub open spec fn without_plus(s: Seq<char>) -> Seq<char> {
    if s.len() > 1 && s[0] == '+' {
        s.drop_first()
    } else {
        s
    }
}

/// The number that a text stands for: digits, with an optional plus sign.
pub open spec fn parsed_number(s: Seq<char>) -> Option<nat> {
    let t = without_plus(s);
    if t.len() > 0 && all_digits(t) {
        Some(digits_value(t))
    } else {
        None
    }
}

/// Reads a decimal number that fits in 64 bits.
pub fn parse_u64(s: &str) -> (r: Option<u64>)
    ensures
        match r {
            Some(n) => parsed_number(s@) == Some(n as nat),
            None => parsed_number(s@) is None || parsed_number(s@)->0 > u64::MAX,
        },
{
    let chars = chars_of(s);
    let from: usize = if chars.len() > 1 && chars[0] == '+' {
        1
    } else {
        0
    };
    let ghost t = without_plus(s@);
    assert(t =~= s@.skip(from as int));
    if chars.len() == from {
        return None;
    }
    let mut value: u64 = 0;
    let mut over: bool = false;
    let mut i: usize = from;
    assert(t.take(0) =~= seq![]);
    while i < chars.len()
        invariant
            from <= i <= chars@.len(),
            chars@ == s@,
            t == s@.skip(from as int),
            t == without_plus(s@),
            forall|k: int| 0 <= k < i - from ==> is_digit(#[trigger] t[k]),
            !over ==> value == digits_value(t.take(i - from)),
            over ==> digits_value(t.take(i - from)) > u64::MAX,
        decreases chars@.len() - i,
    {
        let c = chars[i];
        assert(t[i - from] == c);
        if !('0' <= c && c <= '9') {
            assert(!is_digit(t[i - from]));
            return None;
        }
        assert(t.take(i - from + 1).drop_last() =~= t.take(i - from));
        let d: u64 = (c as u32 - 48) as u64;
        if !over {
            match value.checked_mul(10) {
                Some(m) => match m.checked_add(d) {
                    Some(a) => {
                        value = a;
                    },
                    None => {
                        over = true;
                    },
                },
                None => {
                    over = true;
                },
            }
        }
        i = i + 1;
    }
    assert(t.take(i - from) =~= t);
    if over {
        None
    } else {
        Some(value)
    }
}

/// The decimal notation of a number consists of digits and reads back as the
/// number.
pub proof fn lemma_decimal(n: nat)
    ensures
        decimal(n).len() > 0,
        all_digits(decimal(n)),
        digits_value(decimal(n)) == n,
    decreases n,
{
    if n < 10 {
        let s = decimal(n);
        assert(s.drop_last() =~= seq![]);
        assert(digits_value(seq![]) == 0);
        assert(s.last() as int == 48 + n);
    } else {
        lemma_decimal(n / 10);
        let s = decimal(n);
        assert(s.drop_last() =~= decimal(n / 10));
        assert(s.last() as int == 48 + n % 10);
        assert forall|i: int| 0 <= i < s.len() implies is_digit(#[trigger] s[i]) by {
            if i < s.len() - 1 {
                assert(s[i] == decimal(n / 10)[i]);
            }
        }
    }
}

/// A text that neither starts nor ends with a character of a class stays as it
/// is when it is trimmed.
pub proof fn lemma_trimmed_same(s: Seq<char>, class: CharClass)
    requires
        s.len() > 0,
        !in_class(s[0], class),
        !in_class(s.last(), class),
    ensures
        trimmed(s, class) == s,
{
    assert(s.skip(0) =~= s);
    assert(s.take(s.len() as int) =~= s);
}

} // verus!
