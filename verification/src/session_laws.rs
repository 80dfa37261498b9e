//! Laws of sessions: how they are found, listed, chosen and replayed.

use crate::clock::Timestamp;
use crate::common::{
    any_preferred, chosen_index, chosen_session, exit_code, guarded_state, holds_session, hooked,
    in_directory, is_session_file, latest_session, log_events, log_path, ranked, replayed,
    requested_session, rooted, slug, with_pid, with_session_id, SessionCandidate, SessionFile,
    SessionSelection, SlugStyle,
};
use crate::json::{member, Json};
use crate::list_laws::sessions_are_listed_by_recency;
use crate::paths::same_path;
use crate::record_laws::text_of;
use crate::session::line_event;
use crate::state::{applied, initial_state, StateView};
use crate::text::{decimal, is_blank, is_space, lemma_decimal, parsed_number};
use crate::text_laws::stripping_takes_white_space;
use crate::types::{AgentEvent, PhaseView};
use vstd::prelude::*;

verus! {

/// The exit code tells the phase: one for a session that hangs or is dead, two for one in a
/// loop, three for one that leaks, four for an idle one, and zero for all others.
pub proof fn exit_codes_tell_the_phase(phase: PhaseView)
    ensures
        exit_code(phase) == 1 <==> phase is ApiHang || phase is Dead,
        exit_code(phase) == 2 <==> phase is ToolLoop || phase is TestLoop,
        exit_code(phase) == 3 <==> phase is ScopeLeaking,
        exit_code(phase) == 4 <==> phase is Idle,
        exit_code(phase) == 0 <==> phase is Initializing || phase is Working || phase is Thinking
            || phase is TaskBlocked || phase is ContextReset,
{
}

/// The name of a session's log directory is the working directory with dashes for slashes;
/// where all separators count, for backslashes and colons too. Nothing else changes.
pub proof fn slugs_replace_separators(path: Seq<char>, style: SlugStyle)
    ensures
        slug(path, style).len() == path.len(),
        forall|i: int|
            0 <= i < path.len() ==> ((#[trigger] path[i]) == '/' ==> slug(path, style)[i] == '-'),
        forall|i: int|
            0 <= i < path.len() ==> ((#[trigger] path[i]) == '\\' || path[i] == ':' ==> slug(
                path,
                style,
            )[i] == if style == SlugStyle::Separators {
                '-'
            } else {
                path[i]
            }),
        forall|i: int|
            0 <= i < path.len() && (#[trigger] path[i]) != '/' && path[i] != '\\' && path[i] != ':'
                ==> slug(path, style)[i] == path[i],
{
}

/// The log of a session lies in the directory of its project, under its identifier.
pub proof fn logs_lie_with_their_project(dir: Seq<char>, session: SessionFile, style: SlugStyle)
    requires
        dir.len() > 0,
        dir.last() != '/',
    ensures
        log_path(dir, session, style) == dir + "/projects/"@ + slug(session.cwd@, style) + "/"@
            + session.session_id@ + ".jsonl"@,
{
    reveal_strlit("projects/");
    reveal_strlit("/projects/");
    let rest = "projects/"@ + slug(session.cwd@, style) + "/"@ + session.session_id@ + ".jsonl"@;
    assert(rest[0] == 'p');
    assert("/projects/"@ =~= seq!['/'] + "projects/"@);
    assert(dir.push('/') + rest =~= dir + "/projects/"@ + slug(session.cwd@, style) + "/"@
        + session.session_id@ + ".jsonl"@);
}

/// Sessions are listed with the one that started last first, and of those that started
/// together the one whose log was written last.
pub proof fn recent_sessions_come_first(
    dir: Seq<char>,
    candidates: Seq<SessionCandidate>,
    style: SlugStyle,
    i: int,
    j: int,
)
    requires
        0 <= i < j < ranked(dir, candidates, style).len(),
    ensures
        ({
            let a = ranked(dir, candidates, style)[i];
            let b = ranked(dir, candidates, style)[j];
            &&& a.session.started_at >= b.session.started_at
            &&& a.session.started_at == b.session.started_at ==> a.log_modified >= b.log_modified
        }),
{
    sessions_are_listed_by_recency(dir, candidates, style);
}

/// The sessions of a directory are those whose working directory is the same path, in their
/// order; without a directory all sessions count.
pub proof fn sessions_are_filtered_by_directory(
    list: Seq<SessionSelection>,
    cwd: Option<Seq<char>>,
)
    ensures
        in_directory(list, cwd) == list.filter(
            |s: SessionSelection|
                cwd is None || same_path(
                    if s.session.resolved_cwd is Some {
                        s.session.resolved_cwd->0@
                    } else {
                        s.session.cwd@
                    },
                    cwd->0,
                ),
        ),
    decreases list.len(),
{
    reveal(Seq::filter);
    if list.len() > 0 {
        sessions_are_filtered_by_directory(list.drop_last(), cwd);
    }
}

proof fn lemma_with_pid(list: Seq<SessionSelection>, pid: u32, i: int, from: int)
    requires
        0 <= from <= i <= list.len(),
        i < list.len() ==> list[i].pid == pid,
        forall|k: int| from <= k < i ==> (#[trigger] list[k]).pid != pid,
    ensures
        i < list.len() ==> with_pid(list, pid, from) == Some(list[i]),
        i == list.len() ==> with_pid(list, pid, from) is None,
    decreases i - from,
{
    if from < i {
        assert(list[from].pid != pid);
        lemma_with_pid(list, pid, i, from + 1);
    }
}

proof fn lemma_with_session_id(list: Seq<SessionSelection>, id: Seq<char>, i: int, from: int)
    requires
        0 <= from <= i <= list.len(),
        i < list.len() ==> list[i].session.session_id@ == id,
        forall|k: int| from <= k < i ==> (#[trigger] list[k]).session.session_id@ != id,
    ensures
        i < list.len() ==> with_session_id(list, id, from) == Some(list[i]),
        i == list.len() ==> with_session_id(list, id, from) is None,
    decreases i - from,
{
    if from < i {
        assert(list[from].session.session_id@ != id);
        lemma_with_session_id(list, id, i, from + 1);
    }
}

/// A request for a process finds the first session with that process, wherever it runs, and
/// none where there is none.
pub proof fn processes_are_found(
    list: Seq<SessionSelection>,
    cwd: Option<Seq<char>>,
    pid: u32,
    id: Option<Seq<char>>,
    i: int,
)
    requires
        0 <= i <= list.len(),
        i < list.len() ==> list[i].pid == pid,
        forall|k: int| 0 <= k < i ==> (#[trigger] list[k]).pid != pid,
    ensures
        i < list.len() ==> requested_session(list, cwd, Some(pid), id) == Some(list[i]),
        i == list.len() ==> requested_session(list, cwd, Some(pid), id) is None,
{
    lemma_with_pid(list, pid, i, 0);
}

/// A request for a session finds the first one with that identifier, wherever it runs.
pub proof fn sessions_are_found_by_identifier(
    list: Seq<SessionSelection>,
    cwd: Option<Seq<char>>,
    id: Seq<char>,
    i: int,
)
    requires
        0 <= i <= list.len(),
        i < list.len() ==> list[i].session.session_id@ == id,
        forall|k: int| 0 <= k < i ==> (#[trigger] list[k]).session.session_id@ != id,
    ensures
        i < list.len() ==> requested_session(list, cwd, None, Some(id)) == Some(list[i]),
        i == list.len() ==> requested_session(list, cwd, None, Some(id)) is None,
{
    lemma_with_session_id(list, id, i, 0);
}

/// A request that names neither finds the first session of the directory.
pub proof fn the_first_session_of_a_directory_is_meant(
    list: Seq<SessionSelection>,
    cwd: Option<Seq<char>>,
)
    ensures
        in_directory(list, cwd).len() > 0 ==> requested_session(list, cwd, None, None) == Some(
            in_directory(list, cwd)[0],
        ),
        in_directory(list, cwd).len() == 0 ==> requested_session(list, cwd, None, None) is None,
{
}

/// Whether a session runs in a directory.
pub open spec fn runs_in(session: SessionFile, cwd: Option<Seq<char>>) -> bool {
    cwd is None || same_path(
        if session.resolved_cwd is Some {
            session.resolved_cwd->0@
        } else {
            session.cwd@
        },
        cwd->0,
    )
}

proof fn lemma_latest(list: Seq<(u32, SessionFile)>, cwd: Option<Seq<char>>)
    ensures
        match latest_session(list, cwd) {
            Some(best) => list.contains(best) && runs_in(best.1, cwd) && forall|i: int|
                0 <= i < list.len() && runs_in((#[trigger] list[i]).1, cwd) ==> list[i].1.started_at
                    <= best.1.started_at,
            None => forall|i: int| 0 <= i < list.len() ==> !runs_in((#[trigger] list[i]).1, cwd),
        },
    decreases list.len(),
{
    if list.len() > 0 {
        let head = list.drop_last();
        lemma_latest(head, cwd);
        assert(list[list.len() - 1] == list.last());
        match latest_session(list, cwd) {
            Some(best) => {
                if latest_session(head, cwd) == Some(best) && head.contains(best) {
                    assert(list[head.index_of(best)] == best);
                }
                assert forall|i: int|
                    0 <= i < list.len() && runs_in((#[trigger] list[i]).1, cwd) implies
                    list[i].1.started_at <= best.1.started_at by {
                    if i < head.len() {
                        assert(head[i] == list[i]);
                    }
                }
            },
            None => {
                assert forall|i: int| 0 <= i < list.len() implies !runs_in(
                    (#[trigger] list[i]).1,
                    cwd,
                ) by {
                    if i < head.len() {
                        assert(head[i] == list[i]);
                    }
                }
            },
        }
    }
}

/// The session that is chosen started last of those in the directory, or last of all where
/// none runs there; there is none only where no session runs.
pub proof fn the_latest_session_is_chosen(
    list: Seq<(u32, SessionFile)>,
    cwd: Option<Seq<char>>,
)
    ensures
        ({
            let local = exists|i: int| 0 <= i < list.len() && runs_in((#[trigger] list[i]).1, cwd);
            let chosen = chosen_session(list, cwd);
            &&& chosen is None <==> list.len() == 0
            &&& chosen is Some ==> list.contains(chosen->0)
            &&& local ==> chosen is Some && runs_in((chosen->0).1, cwd) && forall|i: int|
                0 <= i < list.len() && runs_in((#[trigger] list[i]).1, cwd) ==> list[i].1.started_at
                    <= (chosen->0).1.started_at
            &&& !local ==> forall|i: int|
                0 <= i < list.len() ==> (#[trigger] list[i]).1.started_at <= (
                chosen->0).1.started_at
        }),
{
    lemma_latest(list, cwd);
    lemma_latest(list, None);
    let local = exists|i: int| 0 <= i < list.len() && runs_in((#[trigger] list[i]).1, cwd);
    if any_preferred(list, cwd) {
        let i = choose|i: int|
            0 <= i < list.len() && crate::common::prefers((#[trigger] list[i]).1, cwd);
        assert(runs_in(list[i].1, cwd));
    }
    if local {
        let i = choose|i: int| 0 <= i < list.len() && runs_in((#[trigger] list[i]).1, cwd);
        assert(crate::common::prefers(list[i].1, cwd));
    }
    if list.len() > 0 {
        assert(runs_in(list[0].1, None));
    }
}

/// A choice is made by the number of the item, counted from one, with white space around it
/// or not. An empty answer takes the first item, and a number beyond the list none.
pub proof fn choices_are_made_by_number(
    before: Seq<char>,
    n: nat,
    after: Seq<char>,
    count: nat,
)
    requires
        forall|i: int| 0 <= i < before.len() ==> is_space(#[trigger] before[i]),
        forall|i: int| 0 <= i < after.len() ==> is_space(#[trigger] after[i]),
    ensures
        chosen_index(before + after, count) == Some(0nat),
        1 <= n <= count ==> chosen_index(before + decimal(n) + after, count) == Some(
            (n - 1) as nat,
        ),
        !(1 <= n <= count) ==> chosen_index(before + decimal(n) + after, count) is None,
{
    let none = Seq::<char>::empty();
    stripping_takes_white_space(before, none, after);
    assert(before + none + after =~= before + after);
    lemma_decimal(n);
    let d = decimal(n);
    assert(!is_space(d[0]) && !is_space(d.last()));
    stripping_takes_white_space(before, d, after);
    assert(parsed_number(d) == Some(n));
}

/// Replaying applies the events one after the other.
pub proof fn events_are_replayed_in_order(
    s: StateView,
    events: Seq<AgentEvent>,
    last: AgentEvent,
)
    ensures
        replayed(s, Seq::<AgentEvent>::empty()) == s,
        replayed(s, events.push(last)) == applied(replayed(s, events), last),
{
    assert(events.push(last).drop_last() =~= events);
}

/// The events of a log are those of its lines, in their order; blank lines and lines that
/// stand for none do not count.
pub proof fn logs_hold_the_events_of_their_lines(list: Seq<Seq<char>>, line: Seq<char>)
    ensures
        log_events(Seq::<Seq<char>>::empty()).len() == 0,
        !is_blank(line) && line_event(line) is Some ==> log_events(list.push(line)) == log_events(
            list,
        ).push(line_event(line)->0),
        is_blank(line) || line_event(line) is None ==> log_events(list.push(line)) == log_events(
            list,
        ),
{
    assert(list.push(line).drop_last() =~= list);
}

/// Hook events count only where they are later than the last record of the log. One that
/// counts is applied, and its time is the last one of the hooks unless a later one came
/// before.
pub proof fn hook_events_count_after_the_log(
    s: StateView,
    cutoff: Option<Timestamp>,
    events: Seq<AgentEvent>,
    last: AgentEvent,
)
    ensures
        ({
            let t = hooked(s, cutoff, events);
            let u = hooked(s, cutoff, events.push(last));
            let at = last.time();
            let counts = cutoff is None || at.secs > cutoff->0.secs || at.secs == cutoff->0.secs
                && at.nanos > cutoff->0.nanos;
            let seen = if t.last_hook_event_at is Some && t.last_hook_event_at->0.is_after(at) {
                t.last_hook_event_at
            } else {
                Some(at)
            };
            &&& !counts ==> u == t
            &&& counts ==> u == applied(StateView { last_hook_event_at: seen, ..t }, last)
            &&& hooked(s, cutoff, Seq::<AgentEvent>::empty()) == s
        }),
{
    assert(events.push(last).drop_last() =~= events);
}

/// A session that is set up with guards has them and nothing else.
pub proof fn guarded_sessions_start_fresh(guards: Seq<String>)
    ensures
        guarded_state(guards).guard_paths == guards,
        guarded_state(guards) == (StateView { guard_paths: guards, ..initial_state() }),
{
}

/// Guards are paths below the working directory; absolute ones are kept.
pub proof fn guards_are_rooted(cwd: Seq<char>, guards: Seq<Seq<char>>, i: int)
    requires
        0 <= i < guards.len(),
        cwd.len() > 0,
        cwd.last() != '/',
    ensures
        rooted(cwd, guards).len() == guards.len(),
        guards[i].len() > 0 && guards[i][0] == '/' ==> rooted(cwd, guards)[i] == guards[i],
        !(guards[i].len() > 0 && guards[i][0] == '/') ==> rooted(cwd, guards)[i] == cwd + seq!['/']
            + guards[i],
{
    assert(cwd.push('/') + guards[i] =~= cwd + seq!['/'] + guards[i]);
}

/// Whether a member of a document is a whole number that is not negative.
pub open spec fn count_of(json: Json, key: Seq<char>) -> Option<u64> {
    if member(json, key) is Some && member(json, key)->0 is Number && member(
        json,
        key,
    )->0->Number_0 is Unsigned {
        Some(member(json, key)->0->Number_0->Unsigned_0)
    } else {
        None
    }
}

/// An object is a session file where it has a process, an identifier, a working directory
/// and a start; the file holds what the object does.
pub proof fn session_files_hold_their_fields(json: Json, file: SessionFile)
    requires
        json is Object,
    ensures
        is_session_file(json) <==> {
            &&& count_of(json, "pid"@) is Some
            &&& count_of(json, "pid"@)->0 <= u32::MAX
            &&& text_of(json, "sessionId"@) is Some
            &&& text_of(json, "cwd"@) is Some
            &&& count_of(json, "startedAt"@) is Some
        },
        is_session_file(json) && holds_session(file, json) ==> {
            &&& count_of(json, "pid"@) == Some(file.pid as u64)
            &&& text_of(json, "sessionId"@) == Some(file.session_id@)
            &&& text_of(json, "cwd"@) == Some(file.cwd@)
            &&& count_of(json, "startedAt"@) == Some(file.started_at)
            &&& file.resolved_cwd is None
            &&& file.session_file_path is None
        },
{
}

} // verus!
