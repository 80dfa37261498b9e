//! Laws of texts: letter case, searching, splitting and joining.

use crate::commands::{normalized, normalized_words, tokens};
use crate::text::{
    has_text, in_class, is_blank, is_space, joined, lemma_run_len, lines, lowercase, matches_at,
    pieces, run_len, split_at_text, stripped, tail_len, trimmed, words, lemma_match_from, match_from,
    CharClass,
};
use vstd::prelude::*;

verus! {

/// Among the ASCII characters the blank, the tab and the line breaks are white space, and
/// no others are.
pub proof fn blanks_and_line_breaks_are_white_space(c: char)
    requires
        (c as int) < 0x80,
    ensures
        is_space(c) <==> c == ' ' || c == '\t' || c == '\n' || c == '\r' || c as int == 0x0b
            || c as int == 0x0c,
{
}

/// Capital ASCII letters become small ones; every other character is kept.
pub proof fn capitals_become_small_letters(s: Seq<char>)
    ensures
        lowercase(s).len() == s.len(),
        forall|i: int|
            0 <= i < s.len() && 65 <= (#[trigger] s[i]) as int <= 90 ==> lowercase(s)[i] as int
                == s[i] as int + 32,
        forall|i: int|
            0 <= i < s.len() && !(65 <= (#[trigger] s[i]) as int <= 90) ==> lowercase(s)[i]
                == s[i],
        lowercase(lowercase(s)) == lowercase(s),
{
    assert(lowercase(lowercase(s)) =~= lowercase(s));
}

/// A text is found wherever it stands between two others, and nowhere else.
pub proof fn texts_are_found_where_they_stand(s: Seq<char>, p: Seq<char>)
    ensures
        has_text(s, p) <==> exists|a: Seq<char>, b: Seq<char>| s == #[trigger] (a + p + b),
{
    if has_text(s, p) {
        let i = choose|i: int| #[trigger] matches_at(s, p, i);
        let a = s.take(i);
        let b = s.skip(i + p.len());
        assert(s =~= a + p + b);
    }
    if exists|a: Seq<char>, b: Seq<char>| s == #[trigger] (a + p + b) {
        let (a, b) = choose|a: Seq<char>, b: Seq<char>| s == #[trigger] (a + p + b);
        assert(s.subrange(a.len() as int, (a.len() + p.len()) as int) =~= p);
        assert(matches_at(s, p, a.len() as int));
    }
}

/// A text is split at its first separator: the two parts lead back to it, and the first
/// part with the separator holds no earlier one.
pub proof fn texts_are_split_at_the_first_separator(s: Seq<char>, p: Seq<char>)
    ensures
        split_at_text(s, p) is Some <==> has_text(s, p),
        split_at_text(s, p) is Some ==> s == (split_at_text(s, p)->0).0 + p + (split_at_text(
            s,
            p,
        )->0).1,
        split_at_text(s, p) is Some ==> forall|i: int|
            0 <= i < (split_at_text(s, p)->0).0.len() ==> !#[trigger] matches_at(s, p, i),
{
    lemma_match_from(s, p, 0);
    if let Some(i) = match_from(s, p, 0) {
        assert(s =~= s.take(i) + p + s.skip(i + p.len()));
    } else if has_text(s, p) {
        let i = choose|i: int| #[trigger] matches_at(s, p, i);
        assert(!matches_at(s, p, i));
    }
}

/// Whether every character of a text is of a class.
pub open spec fn all_of(s: Seq<char>, class: CharClass) -> bool {
    forall|i: int| 0 <= i < s.len() ==> in_class(#[trigger] s[i], class)
}

/// Whether no character of a text is of a class.
pub open spec fn none_of(s: Seq<char>, class: CharClass) -> bool {
    forall|i: int| 0 <= i < s.len() ==> !in_class(#[trigger] s[i], class)
}

/// The characters of the classes other than white space.
pub proof fn classes_hold_their_characters(c: char)
    ensures
        in_class(c, CharClass::Space) == is_space(c),
        in_class(c, CharClass::Quote) <==> c as int == 34 || c as int == 39 || c as int == 96
            || c as int == 59,
        in_class(c, CharClass::LineFeed) <==> c as int == 10,
        in_class(c, CharClass::Comma) <==> c as int == 44,
        in_class(c, CharClass::Slash) <==> c as int == 47,
        in_class(c, CharClass::Digit) <==> 48 <= c as int <= 57,
{
}

proof fn lemma_tail_len(s: Seq<char>, class: CharClass, n: nat)
    requires
        n <= s.len(),
        forall|k: int| s.len() - n <= k < s.len() ==> in_class(#[trigger] s[k], class),
        n == s.len() || !in_class(s[s.len() - n - 1], class),
    ensures
        tail_len(s, class) == n,
    decreases s.len(),
{
    if n > 0 {
        let t = s.drop_last();
        assert(in_class(s[s.len() - 1], class));
        assert forall|k: int| t.len() - (n - 1) <= k < t.len() implies in_class(
            #[trigger] t[k],
            class,
        ) by {
            assert(t[k] == s[k]);
        }
        lemma_tail_len(t, class, (n - 1) as nat);
    }
}

/// Trimming takes away all characters of a class at both ends, and no others.
pub proof fn trimming_takes_both_ends(
    before: Seq<char>,
    core: Seq<char>,
    after: Seq<char>,
    class: CharClass,
)
    requires
        all_of(before, class),
        all_of(after, class),
        core.len() > 0 ==> !in_class(core[0], class) && !in_class(core.last(), class),
    ensures
        trimmed(before + core + after, class) == core,
{
    let s = before + core + after;
    if core.len() == 0 {
        assert forall|k: int| 0 <= k < s.len() implies in_class(#[trigger] s[k], class) by {
            if k >= before.len() {
                assert(s[k] == after[k - before.len()]);
            } else {
                assert(s[k] == before[k]);
            }
        }
        lemma_run_len(s, class, true, s.len());
        assert(trimmed(s, class) =~= core);
    } else {
        assert forall|k: int| 0 <= k < before.len() implies in_class(#[trigger] s[k], class) by {
            assert(s[k] == before[k]);
        }
        assert(s[before.len() as int] == core[0]);
        lemma_run_len(s, class, true, before.len());
        let t = s.skip(before.len() as int);
        assert(t =~= core + after);
        assert forall|k: int| t.len() - after.len() <= k < t.len() implies in_class(
            #[trigger] t[k],
            class,
        ) by {
            assert(t[k] == after[k - core.len()]);
        }
        assert(t[t.len() - after.len() - 1] == core.last());
        lemma_tail_len(t, class, after.len());
        assert(trimmed(s, class) =~= core);
    }
}

/// A text is blank where all of its characters are white space.
pub proof fn blank_texts_are_white_space(s: Seq<char>)
    ensures
        is_blank(s) <==> forall|i: int| 0 <= i < s.len() ==> is_space(#[trigger] s[i]),
{
    let none = Seq::<char>::empty();
    if forall|i: int| 0 <= i < s.len() ==> is_space(#[trigger] s[i]) {
        assert(s + none + none =~= s);
        assert(all_of(s, CharClass::Space));
        trimming_takes_both_ends(s, none, none, CharClass::Space);
    } else {
        let i = choose|i: int| 0 <= i < s.len() && !is_space(#[trigger] s[i]);
        lemma_kept(s, CharClass::Space, i);
    }
}

proof fn lemma_kept(s: Seq<char>, class: CharClass, i: int)
    requires
        0 <= i < s.len(),
        !in_class(s[i], class),
    ensures
        trimmed(s, class).len() > 0,
{
    lemma_run_stops(s, class, i);
    let n = run_len(s, class, true) as int;
    let t = s.skip(n);
    assert(t[i - n] == s[i]);
    lemma_tail_stops(t, class, i - n);
}

proof fn lemma_run_stops(s: Seq<char>, class: CharClass, i: int)
    requires
        0 <= i < s.len(),
        !in_class(s[i], class),
    ensures
        run_len(s, class, true) <= i,
    decreases s.len(),
{
    if in_class(s[0], class) {
        assert(s.drop_first()[i - 1] == s[i]);
        lemma_run_stops(s.drop_first(), class, i - 1);
    }
}

proof fn lemma_tail_stops(s: Seq<char>, class: CharClass, i: int)
    requires
        0 <= i < s.len(),
        !in_class(s[i], class),
    ensures
        tail_len(s, class) < s.len() - i,
    decreases s.len(),
{
    if in_class(s.last(), class) {
        assert(s.drop_last()[i] == s[i]);
        lemma_tail_stops(s.drop_last(), class, i);
    }
}

/// The words of a text are what stands between its white space: a word at the start is
/// the first one, and white space before a word does not count.
pub proof fn words_stand_between_white_space(word: Seq<char>, gap: Seq<char>, rest: Seq<char>)
    requires
        word.len() > 0,
        none_of(word, CharClass::Space),
        gap.len() > 0,
        all_of(gap, CharClass::Space),
    ensures
        words(Seq::<char>::empty()) == Seq::<Seq<char>>::empty(),
        words(word) == seq![word],
        words(word + gap + rest) == seq![word] + words(rest),
        words(gap + rest) == words(rest),
{
    let none = Seq::<char>::empty();
    assert(none.skip(0) =~= none);
    lemma_words_after_gap(gap, rest);
    lemma_run_len(word, CharClass::Space, true, 0);
    lemma_run_len(word, CharClass::Space, false, word.len());
    assert(word.skip(0) =~= word);
    assert(word.take(word.len() as int) =~= word);
    assert(word.skip(word.len() as int) =~= none);
    assert(words(none) =~= Seq::<Seq<char>>::empty());
    assert(words(word) =~= seq![word]);
    let s = word + gap + rest;
    assert(s[0] == word[0]);
    lemma_run_len(s, CharClass::Space, true, 0);
    assert forall|k: int| 0 <= k < word.len() implies in_class(#[trigger] s[k], CharClass::Space)
        == false by {
        assert(s[k] == word[k]);
    }
    assert(s[word.len() as int] == gap[0]);
    lemma_run_len(s, CharClass::Space, false, word.len());
    assert(s.skip(0) =~= s);
    assert(s.take(word.len() as int) =~= word);
    assert(s.skip(word.len() as int) =~= gap + rest);
}

proof fn lemma_words_after_gap(gap: Seq<char>, rest: Seq<char>)
    requires
        all_of(gap, CharClass::Space),
    ensures
        words(gap + rest) == words(rest),
{
    let s = gap + rest;
    let n = run_len(rest, CharClass::Space, true);
    lemma_run_prefix(gap, rest, CharClass::Space);
    crate::text::lemma_run_len_bounds(rest, CharClass::Space, true);
    assert(s.skip((gap.len() + n) as int) =~= rest.skip(n as int));
}

proof fn lemma_run_prefix(gap: Seq<char>, rest: Seq<char>, class: CharClass)
    requires
        all_of(gap, class),
    ensures
        run_len(gap + rest, class, true) == gap.len() + run_len(rest, class, true),
    decreases gap.len(),
{
    if gap.len() == 0 {
        assert(gap + rest =~= rest);
    } else {
        let t = gap.drop_first();
        assert forall|i: int| 0 <= i < t.len() implies in_class(#[trigger] t[i], class) by {
            assert(t[i] == gap[i + 1]);
        }
        assert((gap + rest).drop_first() =~= t + rest);
        assert((gap + rest)[0] == gap[0]);
        lemma_run_prefix(t, rest, class);
    }
}

proof fn lemma_normalized_words_add(a: Seq<Seq<char>>, b: Seq<Seq<char>>)
    ensures
        normalized_words(a + b) == normalized_words(a) + normalized_words(b),
    decreases b.len(),
{
    if b.len() == 0 {
        assert(a + b =~= a);
        assert(normalized_words(a) + normalized_words(b) =~= normalized_words(a));
    } else {
        assert((a + b).drop_last() =~= a + b.drop_last());
        assert((a + b).last() == b.last());
        lemma_normalized_words_add(a, b.drop_last());
        assert(normalized_words(a + b) =~= normalized_words(a) + normalized_words(b));
    }
}

/// A command is read word by word: each word counts in small letters and without the
/// quotes around it, and a word that is nothing but quotes does not count.
pub proof fn commands_are_read_word_by_word(
    open: Seq<char>,
    core: Seq<char>,
    close: Seq<char>,
    gap: Seq<char>,
    rest: Seq<char>,
)
    requires
        all_of(open, CharClass::Quote),
        all_of(close, CharClass::Quote),
        core.len() > 0 ==> !in_class(core[0], CharClass::Quote) && !in_class(
            core.last(),
            CharClass::Quote,
        ),
        (open + core + close).len() > 0,
        none_of(open + core + close, CharClass::Space),
        gap.len() > 0,
        all_of(gap, CharClass::Space),
    ensures
        tokens(Seq::<char>::empty()) == Seq::<Seq<char>>::empty(),
        tokens(gap + rest) == tokens(rest),
        core.len() > 0 ==> tokens(open + core + close) == seq![lowercase(core)],
        core.len() > 0 ==> tokens(open + core + close + gap + rest) == seq![lowercase(core)]
            + tokens(rest),
        core.len() == 0 ==> tokens(open + core + close) == Seq::<Seq<char>>::empty(),
        core.len() == 0 ==> tokens(open + core + close + gap + rest) == tokens(rest),
{
    let word = open + core + close;
    words_stand_between_white_space(word, gap, rest);
    trimming_takes_both_ends(open, core, close, CharClass::Quote);
    assert(normalized(word) == lowercase(core));
    assert(lowercase(core).len() == core.len());
    assert(seq![word].drop_last() =~= Seq::<Seq<char>>::empty());
    assert(normalized_words(Seq::<Seq<char>>::empty()) =~= Seq::<Seq<char>>::empty());
    let one = normalized_words(seq![word]);
    assert(seq![word].last() == word);
    assert(normalized_words(seq![word].drop_last()) =~= Seq::<Seq<char>>::empty());
    if core.len() > 0 {
        assert(one =~= seq![lowercase(core)]);
    } else {
        assert(one =~= Seq::<Seq<char>>::empty());
    }
    lemma_normalized_words_add(seq![word], words(rest));
    assert(one + tokens(rest) =~= tokens(word + gap + rest));
    if core.len() == 0 {
        assert(one + tokens(rest) =~= tokens(rest));
    }
}

/// Texts are joined in order with the separator between them, not before or after them.
pub proof fn joined_texts_stand_in_order(list: Seq<Seq<char>>, last: Seq<char>, sep: Seq<char>)
    ensures
        joined(Seq::<Seq<char>>::empty(), sep) == Seq::<char>::empty(),
        joined(seq![last], sep) == last,
        list.len() > 0 ==> joined(list.push(last), sep) == joined(list, sep) + sep + last,
{
    assert(list.push(last).drop_last() =~= list);
    assert(joined(Seq::<Seq<char>>::empty(), sep) =~= Seq::<char>::empty());
}

/// A text that is one of several that are joined is found in the whole.
pub proof fn joined_texts_hold_their_parts(
    list: Seq<Seq<char>>,
    sep: Seq<char>,
    i: int,
    p: Seq<char>,
)
    requires
        0 <= i < list.len(),
        has_text(list[i], p),
    ensures
        has_text(joined(list, sep), p),
    decreases list.len(),
{
    if list.len() > 1 {
        let head = list.drop_last();
        let front = joined(head, sep) + sep;
        if i == list.len() - 1 {
            lemma_found_after(front, list.last(), p);
        } else {
            assert(head[i] == list[i]);
            joined_texts_hold_their_parts(head, sep, i, p);
            lemma_found_before(joined(head, sep), sep + list.last(), p);
            assert(joined(head, sep) + (sep + list.last()) =~= joined(list, sep));
        }
    }
}

/// What is found in a text is found in it with another text before it.
pub proof fn lemma_found_after(front: Seq<char>, s: Seq<char>, p: Seq<char>)
    requires
        has_text(s, p),
    ensures
        has_text(front + s, p),
{
    let k = choose|k: int| #[trigger] matches_at(s, p, k);
    assert((front + s).subrange(front.len() + k, front.len() + k + p.len()) =~= s.subrange(
        k,
        k + p.len(),
    ));
    assert(matches_at(front + s, p, front.len() + k));
}

/// What is found in a text is found in it with another text after it.
pub proof fn lemma_found_before(s: Seq<char>, back: Seq<char>, p: Seq<char>)
    requires
        has_text(s, p),
    ensures
        has_text(s + back, p),
{
    let k = choose|k: int| #[trigger] matches_at(s, p, k);
    assert((s + back).subrange(k, k + p.len()) =~= s.subrange(k, k + p.len()));
    assert(matches_at(s + back, p, k));
}

/// The lines of a text end at its line feeds. A carriage return before a line feed does
/// not count, and neither does nothing after the last line feed.
pub proof fn lines_end_at_line_feeds(line: Seq<char>, rest: Seq<char>)
    requires
        none_of(line, CharClass::LineFeed),
    ensures
        lines(Seq::<char>::empty()) == Seq::<Seq<char>>::empty(),
        line.len() > 0 ==> lines(line) == seq![line],
        line.len() == 0 || line.last() != '\r' ==> lines(line.push('\n') + rest) == seq![line]
            + lines(rest),
        lines(line.push('\r').push('\n') + rest) == seq![line] + lines(rest),
{
    lemma_run_len(line, CharClass::LineFeed, false, line.len());
    lemma_one_line(line, rest);
    let returned = line.push('\r');
    assert forall|i: int| 0 <= i < returned.len() implies !in_class(
        #[trigger] returned[i],
        CharClass::LineFeed,
    ) by {
        if i < line.len() {
            assert(returned[i] == line[i]);
        }
    }
    lemma_one_line(returned, rest);
    assert(returned.drop_last() =~= line);
}

proof fn lemma_one_line(line: Seq<char>, rest: Seq<char>)
    requires
        none_of(line, CharClass::LineFeed),
    ensures
        lines(line.push('\n') + rest) == seq![crate::text::without_cr(line)] + lines(rest),
{
    let s = line.push('\n') + rest;
    assert forall|k: int| 0 <= k < line.len() implies in_class(#[trigger] s[k], CharClass::LineFeed)
        == false by {
        assert(s[k] == line[k]);
    }
    assert(s[line.len() as int] == '\n');
    lemma_run_len(s, CharClass::LineFeed, false, line.len());
    assert(s.take(line.len() as int) =~= line);
    assert(s.skip((line.len() + 1) as int) =~= rest);
}

/// A text is cut into pieces at every separator of a class; empty pieces are kept.
pub proof fn pieces_stand_between_separators(
    piece: Seq<char>,
    sep: char,
    rest: Seq<char>,
    class: CharClass,
)
    requires
        none_of(piece, class),
        in_class(sep, class),
    ensures
        pieces(piece, class) == seq![piece],
        pieces(piece.push(sep) + rest, class) == seq![piece] + pieces(rest, class),
{
    lemma_run_len(piece, class, false, piece.len());
    let s = piece.push(sep) + rest;
    assert forall|k: int| 0 <= k < piece.len() implies in_class(#[trigger] s[k], class)
        == false by {
        assert(s[k] == piece[k]);
    }
    assert(s[piece.len() as int] == sep);
    lemma_run_len(s, class, false, piece.len());
    assert(s.take(piece.len() as int) =~= piece);
    assert(s.skip((piece.len() + 1) as int) =~= rest);
}

/// White space at both ends of a text is stripped, and nothing else.
pub proof fn stripping_takes_white_space(before: Seq<char>, core: Seq<char>, after: Seq<char>)
    requires
        forall|i: int| 0 <= i < before.len() ==> is_space(#[trigger] before[i]),
        forall|i: int| 0 <= i < after.len() ==> is_space(#[trigger] after[i]),
        core.len() > 0 ==> !is_space(core[0]) && !is_space(core.last()),
    ensures
        stripped(before + core + after) == core,
{
    trimming_takes_both_ends(before, core, after, CharClass::Space);
}

} // verus!
