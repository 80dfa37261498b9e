//! The coding agent whose sessions are watched.

use crate::paths::{join_path, joined_path, text_before, text_less};
use crate::text::{chars_of, slice_text};
use vstd::prelude::*;

verus! {

/// A coding agent: the name that it goes by, and the name of the directory below
/// the user's home in which it keeps its records.
#[derive(Debug, PartialEq, Eq)]
pub struct Agent {
    pub name: String,
    pub dir: String,
}

impl Clone for Agent {
    fn clone(&self) -> (r: Self)
        ensures
            r == *self,
    {
        Agent { name: self.name.clone(), dir: self.dir.clone() }
    }
}

/// The ASCII upper case of a character.
pub open spec fn upper(c: char) -> char {
    if 'a' <= c && c <= 'z' {
        ((c as int) - 32) as char
    } else {
        c
    }
}

fn upper_char(c: char) -> (r: char)
    ensures
        r == upper(c),
{
    if 'a' <= c && c <= 'z' {
        ((c as u8) - 32) as char
    } else {
        c
    }
}

/// A text with its first character in upper case.
pub open spec fn capitalized(text: Seq<char>) -> Seq<char> {
    if text.len() == 0 {
        text
    } else {
        seq![upper(text[0])] + text.skip(1)
    }
}

/// The name of the agent with a directory: that of the directory without the dot
/// that hides it, capitalized.
pub open spec fn agent_name(dir: Seq<char>) -> Seq<char> {
    if dir.len() > 0 && dir[0] == '.' {
        capitalized(dir.skip(1))
    } else {
        capitalized(dir)
    }
}

impl Agent {
    /// The agent that keeps its records in a directory of this name.
    pub fn of_dir(dir: &str) -> (r: Self)
        ensures
            r.dir@ == dir@,
            r.name@ == agent_name(dir@),
    {
        let chars = chars_of(dir);
        let from: usize = if chars.len() > 0 && chars[0] == '.' {
            1
        } else {
            0
        };
        let ghost bare = dir@.skip(from as int);
        assert(dir@.skip(0) =~= dir@);
        let mut name: String = String::new();
        if from < chars.len() {
            name.push(upper_char(chars[from]));
            name.append(slice_text(&chars, from + 1, chars.len()).as_str());
            assert(name@ =~= capitalized(bare));
        } else {
            assert(name@ =~= capitalized(bare));
        }
        Agent { name, dir: dir.to_owned() }
    }

    /// Where the agent keeps its records.
    pub fn dir_in(&self, home: &str) -> (r: String)
        ensures
            r@ == joined_path(home@, self.dir@),
    {
        join_path(home, self.dir.as_str())
    }
}

/// A directory in the user's home, and which directories it holds.
#[derive(Debug, PartialEq, Eq)]
pub struct HomeEntry {
    pub name: String,
    pub has_sessions: bool,
    pub has_projects: bool,
}

/// Whether a directory holds the records of an agent: it is hidden, and holds
/// sessions and projects.
pub open spec fn keeps_records(entry: HomeEntry) -> bool {
    entry.name@.len() > 0 && entry.name@[0] == '.' && entry.has_sessions && entry.has_projects
}

fn holds_records(entry: &HomeEntry) -> (r: bool)
    ensures
        r == keeps_records(*entry),
{
    let chars = chars_of(entry.name.as_str());
    chars.len() > 0 && chars[0] == '.' && entry.has_sessions && entry.has_projects
}

/// Whether an entry is the first by name of those that hold records.
pub open spec fn is_first(entries: Seq<HomeEntry>, i: int) -> bool {
    &&& 0 <= i < entries.len()
    &&& keeps_records(entries[i])
    &&& forall|k: int|
        0 <= k < entries.len() && keeps_records(#[trigger] entries[k]) ==> !text_less(
            entries[k].name@,
            entries[i].name@,
        )
}

/// Finds the agent that keeps its records in the user's home.
pub fn find_agent(entries: &Vec<HomeEntry>) -> (r: Option<Agent>)
    ensures
        match r {
            Some(agent) => agent.name@ == agent_name(agent.dir@) && exists|i: int|
                #[trigger] is_first(entries@, i) && entries@[i].name@ == agent.dir@,
            None => forall|i: int| 0 <= i < entries@.len() ==> !keeps_records(#[trigger] entries@[i]),
        },
{
    let mut best: Option<usize> = None;
    let mut i: usize = 0;
    while i < entries.len()
        invariant
            i <= entries@.len(),
            match best {
                Some(b) => b < i && is_first(entries@.take(i as int), b as int),
                None => forall|k: int| 0 <= k < i ==> !keeps_records(#[trigger] entries@[k]),
            },
        decreases entries@.len() - i,
    {
        let ghost before = entries@.take(i as int);
        let ghost after = entries@.take(i + 1);
        assert(forall|k: int| 0 <= k < i ==> #[trigger] after[k] == before[k]);
        assert(after[i as int] == entries@[i as int]);
        if holds_records(&entries[i]) {
            best = match best {
                Some(b) => if text_before(entries[i].name.as_str(), entries[b].name.as_str()) {
                    proof {
                        assert(before[b as int] == entries@[b as int]);
                        assert forall|k: int|
                            0 <= k < after.len() && keeps_records(
                                #[trigger] after[k],
                            ) implies !text_less(after[k].name@, after[i as int].name@) by {
                            if k < i {
                                assert(after[k] == before[k]);
                                if text_less(after[k].name@, after[i as int].name@) {
                                    lemma_text_order(
                                        after[k].name@,
                                        after[i as int].name@,
                                        before[b as int].name@,
                                    );
                                }
                            } else {
                                lemma_text_irreflexive(after[k].name@);
                            }
                        }
                    }
                    Some(i)
                } else {
                    Some(b)
                },
                None => {
                    proof {
                        lemma_text_irreflexive(entries@[i as int].name@);
                    }
                    Some(i)
                },
            };
        }
        i = i + 1;
    }
    assert(entries@.take(i as int) =~= entries@);
    match best {
        Some(b) => {
            let agent = Agent::of_dir(entries[b].name.as_str());
            assert(is_first(entries@, b as int));
            Some(agent)
        },
        None => None,
    }
}

proof fn lemma_text_irreflexive(a: Seq<char>)
    ensures
        !text_less(a, a),
    decreases a.len(),
{
    if a.len() > 0 {
        lemma_text_irreflexive(a.drop_first());
    }
}

proof fn lemma_text_order(a: Seq<char>, b: Seq<char>, c: Seq<char>)
    requires
        text_less(a, b),
        text_less(b, c),
    ensures
        text_less(a, c),
    decreases a.len(),
{
    if a.len() > 0 && a[0] == b[0] && b[0] == c[0] {
        lemma_text_order(a.drop_first(), b.drop_first(), c.drop_first());
    }
}

} // verus!
