//! Shell commands as sequences of normalized words.

use crate::text::{
    chars_of, lemma_views_push, lowercase, same_text, split_words, to_lowercase, trim_class,
    trimmed, views, words, CharClass,
};
use vstd::prelude::*;

verus! {

/// A word without the quotes around it, in lower case.
pub open spec fn normalized(word: Seq<char>) -> Seq<char> {
    lowercase(trimmed(word, CharClass::Quote))
}

/// Strips the quotes around a word and lowers its case.
pub fn normalize_token(token: &str) -> (r: String)
    ensures
        r@ == normalized(token@),
{
    to_lowercase(trim_class(token, CharClass::Quote).as_str())
}

/// The normalized words that are not empty.
pub open spec fn normalized_words(list: Seq<Seq<char>>) -> Seq<Seq<char>>
    decreases list.len(),
{
    if list.len() == 0 {
        seq![]
    } else {
        let rest = normalized_words(list.drop_last());
        let word = normalized(list.last());
        if word.len() > 0 {
            rest.push(word)
        } else {
            rest
        }
    }
}

/// The normalized words of a command.
pub open spec fn tokens(command: Seq<char>) -> Seq<Seq<char>> {
    normalized_words(words(command))
}

/// Splits a command into its normalized words.
pub fn command_tokens(command: &str) -> (r: Vec<String>)
    ensures
        views(r@) == tokens(command@),
{
    let list = split_words(command);
    let ghost all = views(list@);
    let mut out: Vec<String> = Vec::new();
    let mut i: usize = 0;
    assert(all.take(0) =~= seq![]);
    assert(views(out@) =~= seq![]);
    while i < list.len()
        invariant
            i <= list@.len(),
            all == views(list@),
            views(out@) == normalized_words(all.take(i as int)),
        decreases list@.len() - i,
    {
        let ghost next = all.take(i + 1);
        assert(next.drop_last() =~= all.take(i as int));
        assert(next.last() == list@[i as int]@);
        let word = normalize_token(list[i].as_str());
        if chars_of(word.as_str()).len() > 0 {
            proof {
                lemma_views_push(out@, word);
            }
            out.push(word);
        }
        i = i + 1;
    }
    assert(all.take(i as int) =~= all);
    out
}

/// Whether a sequence of words stands somewhere in a list of words.
pub open spec fn has_sequence(list: Seq<Seq<char>>, sequence: Seq<Seq<char>>) -> bool {
    exists|i: int| #[trigger] sequence_at(list, sequence, i)
}

/// Whether a sequence of words stands in a list of words at a position.
pub open spec fn sequence_at(list: Seq<Seq<char>>, sequence: Seq<Seq<char>>, i: int) -> bool {
    0 <= i <= list.len() - sequence.len() && list.subrange(i, i + sequence.len()) == sequence
}

/// The views of a list of string slices.
pub open spec fn slice_views(list: Seq<&str>) -> Seq<Seq<char>> {
    list.map_values(|s: &str| s@)
}

/// Decides whether a sequence of words stands somewhere in a list of words.
pub fn contains_sequence(list: &Vec<String>, sequence: &Vec<&str>) -> (r: bool)
    ensures
        r == has_sequence(views(list@), slice_views(sequence@)),
{
    if sequence.len() > list.len() {
        return false;
    }
    let total: usize = list.len();
    let mut i: usize = 0;
    while i <= total - sequence.len()
        invariant
            total == list@.len(),
            sequence@.len() <= list@.len(),
            i <= list@.len() - sequence@.len() + 1,
            forall|j: int|
                0 <= j < i ==> !#[trigger] sequence_at(
                    views(list@),
                    slice_views(sequence@),
                    j,
                ),
        decreases list@.len() - i + 1,
    {
        let ghost at = views(list@).subrange(i as int, i + sequence@.len());
        let mut k: usize = 0;
        let mut same: bool = true;
        while k < sequence.len() && same
            invariant
                k <= sequence@.len(),
                total == list@.len(),
                i + sequence@.len() <= list@.len(),
                at == views(list@).subrange(i as int, i + sequence@.len()),
                same ==> forall|j: int|
                    0 <= j < k ==> at[j] == #[trigger] slice_views(sequence@)[j],
                !same ==> at != slice_views(sequence@),
            decreases sequence@.len() - k + (if same { 1int } else { 0int }),
        {
            if same_text(list[i + k].as_str(), sequence[k]) {
                assert(at[k as int] == slice_views(sequence@)[k as int]);
                k = k + 1;
            } else {
                assert(at[k as int] != slice_views(sequence@)[k as int]);
                same = false;
            }
        }
        if same {
            assert(at =~= slice_views(sequence@));
            assert(sequence_at(views(list@), slice_views(sequence@), i as int));
            return true;
        }
        if i == total - sequence.len() {
            return false;
        }
        i = i + 1;
    }
    false
}

} // verus!
