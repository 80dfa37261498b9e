//! Sessions of an agent: discovery, selection and status.

use crate::alerter::slice_view;
use crate::agent::Agent;
use crate::clock::{latest, latest_of, Timestamp};
use crate::decode::{field, is_record, read_field, record_like, target};
use crate::json::{json_text, parse_json, Json, JsonNumber};
use crate::jsonl_tail::event_views;
use crate::paths::{join_path, joined_path, paths_equal, same_path, show_path, shown_path};
use crate::session::{line_event, SessionRecord};
use crate::state::{applied, initial_state, AgentState, StateView};
use crate::text::{
    blank, chars_of, decimal, is_blank, lemma_views_push, parse_u64, parsed_number, push_decimal,
    same_text, stripped, trim, views,
};
use crate::types::{copy_texts, text_view, AgentEvent, AgentPhase, EventView, PhaseView};
use vstd::prelude::*;

verus! {

/// A session file of an agent.
#[derive(Debug, PartialEq, Eq)]
pub struct SessionFile {
    pub pid: u32,
    pub session_id: String,
    pub cwd: String,
    /// When the session started, in milliseconds since the Unix epoch.
    pub started_at: u64,
    /// Where the session file lies, when known.
    pub session_file_path: Option<String>,
    /// The working directory without symbolic links, when it could be resolved.
    pub resolved_cwd: Option<String>,
}

impl Clone for SessionFile {
    fn clone(&self) -> (r: Self)
        ensures
            r == *self,
    {
        SessionFile {
            pid: self.pid,
            session_id: self.session_id.clone(),
            cwd: self.cwd.clone(),
            started_at: self.started_at,
            session_file_path: self.session_file_path.clone(),
            resolved_cwd: self.resolved_cwd.clone(),
        }
    }
}

impl SessionFile {
    /// The working directory, resolved where that was possible.
    pub open spec fn directory(self) -> Seq<char> {
        match self.resolved_cwd {
            Some(path) => path@,
            None => self.cwd@,
        }
    }

    /// The working directory, resolved where that was possible.
    pub fn cwd_path(&self) -> (r: String)
        ensures
            r@ == self.directory(),
    {
        match &self.resolved_cwd {
            Some(path) => path.clone(),
            None => self.cwd.clone(),
        }
    }
}

/// A required text.
pub open spec fn required_text(value: Option<Json>) -> Option<Seq<char>> {
    match value {
        Some(Json::Text(t)) => Some(t@),
        _ => None,
    }
}

fn read_text(value: Option<&Json>) -> (r: Option<String>)
    ensures
        text_view(r) == required_text(target(value)),
{
    match value {
        Some(Json::Text(t)) => Some(t.clone()),
        _ => None,
    }
}

/// A required count.
pub open spec fn required_count(value: Option<Json>) -> Option<u64> {
    match value {
        Some(Json::Number(JsonNumber::Unsigned(n))) => Some(n),
        _ => None,
    }
}

fn read_count(value: Option<&Json>) -> (r: Option<u64>)
    ensures
        r == required_count(target(value)),
{
    match value {
        Some(Json::Number(JsonNumber::Unsigned(n))) => Some(*n),
        _ => None,
    }
}

/// Whether a document is a session file with these contents.
pub open spec fn is_session_file(json: Json) -> bool {
    &&& is_record(json, 4)
    &&& required_count(field(json, "pid"@, 0)) is Some
    &&& required_count(field(json, "pid"@, 0))->0 <= u32::MAX
    &&& required_text(field(json, "sessionId"@, 1)) is Some
    &&& required_text(field(json, "cwd"@, 2)) is Some
    &&& required_count(field(json, "startedAt"@, 3)) is Some
}

/// Whether a session file holds the contents of a document.
pub open spec fn holds_session(file: SessionFile, json: Json) -> bool {
    &&& required_count(field(json, "pid"@, 0)) == Some(file.pid as u64)
    &&& required_text(field(json, "sessionId"@, 1)) == Some(file.session_id@)
    &&& required_text(field(json, "cwd"@, 2)) == Some(file.cwd@)
    &&& required_count(field(json, "startedAt"@, 3)) == Some(file.started_at)
    &&& file.session_file_path is None
    &&& file.resolved_cwd is None
}

impl SessionFile {
    /// Reads a session file from a document.
    pub fn from_json(json: &Json) -> (r: Option<SessionFile>)
        ensures
            r is Some <==> is_session_file(*json),
            r is Some ==> holds_session(r->0, *json),
    {
        if !record_like(json, 4) {
            return None;
        }
        let pid = match read_count(read_field(json, "pid", 0)) {
            Some(pid) => pid,
            None => {
                return None;
            },
        };
        if pid > u32::MAX as u64 {
            return None;
        }
        let session_id = match read_text(read_field(json, "sessionId", 1)) {
            Some(id) => id,
            None => {
                return None;
            },
        };
        let cwd = match read_text(read_field(json, "cwd", 2)) {
            Some(cwd) => cwd,
            None => {
                return None;
            },
        };
        let started_at = match read_count(read_field(json, "startedAt", 3)) {
            Some(started_at) => started_at,
            None => {
                return None;
            },
        };
        Some(
            SessionFile {
                pid: pid as u32,
                session_id,
                cwd,
                started_at,
                session_file_path: None,
                resolved_cwd: None,
            },
        )
    }

    /// Reads a session file from its text.
    pub fn parse(raw: &str) -> (r: Option<SessionFile>)
        ensures
            match json_text(raw@) {
                Some(json) => (r is Some <==> is_session_file(json)) && (r is Some
                    ==> holds_session(r->0, json)),
                None => r is None,
            },
    {
        match parse_json(raw) {
            Some(json) => SessionFile::from_json(&json),
            None => None,
        }
    }
}

/// A session that runs and has a log.
#[derive(Debug, PartialEq, Eq)]
pub struct SessionSelection {
    pub pid: u32,
    pub session: SessionFile,
    pub jsonl_path: String,
}

impl Clone for SessionSelection {
    fn clone(&self) -> (r: Self)
        ensures
            r == *self,
    {
        SessionSelection {
            pid: self.pid,
            session: self.session.clone(),
            jsonl_path: self.jsonl_path.clone(),
        }
    }
}

/// Which characters of a path a slug replaces.
#[derive(Debug, Clone, Copy, PartialEq, Eq, Structural)]
pub enum SlugStyle {
    /// Slashes alone.
    Slashes,
    /// Slashes, backslashes and colons.
    Separators,
}

/// Whether a slug replaces a character.
pub open spec fn slug_replaces(c: char, style: SlugStyle) -> bool {
    c == '/' || (style == SlugStyle::Separators && (c == '\\' || c == ':'))
}

/// A path with its separators replaced by dashes.
pub open spec fn slug(path: Seq<char>, style: SlugStyle) -> Seq<char> {
    path.map_values(
        |c: char|
            if slug_replaces(c, style) {
                '-'
            } else {
                c
            },
    )
}

/// Replaces the separators of a path by dashes.
pub fn slug_of(path: &str, style: SlugStyle) -> (r: String)
    ensures
        r@ == slug(path@, style),
{
    let chars = chars_of(path);
    let mut out: String = String::new();
    let mut i: usize = 0;
    assert(slug(path@, style).take(0) =~= seq![]);
    while i < chars.len()
        invariant
            i <= chars@.len(),
            chars@ == path@,
            out@ == slug(path@, style).take(i as int),
        decreases chars@.len() - i,
    {
        let replaced = chars[i] == '/' || (style == SlugStyle::Separators && (chars[i] == '\\'
            || chars[i] == ':'));
        let c = if replaced {
            '-'
        } else {
            chars[i]
        };
        out.push(c);
        assert(slug(path@, style).take(i + 1) =~= slug(path@, style).take(i as int).push(c));
        i = i + 1;
    }
    assert(slug(path@, style).take(i as int) =~= slug(path@, style));
    out
}

/// Replaces the slashes of a path by dashes.
pub fn path_to_slug(path: &str) -> (r: String)
    ensures
        r@ == slug(path@, SlugStyle::Slashes),
{
    slug_of(path, SlugStyle::Slashes)
}

/// Where the log of a session lies below the directory in which the agent keeps its
/// records.
pub open spec fn log_path(agent_dir: Seq<char>, session: SessionFile, style: SlugStyle) -> Seq<char> {
    joined_path(
        agent_dir,
        "projects/"@ + slug(session.cwd@, style) + "/"@ + session.session_id@ + ".jsonl"@,
    )
}

/// Builds the path at which the log of a session lies.
pub fn build_log_path(agent_dir: &str, session: &SessionFile, style: SlugStyle) -> (r: String)
    ensures
        r@ == log_path(agent_dir@, *session, style),
{
    let mut name: String = "projects/".to_owned();
    name.append(slug_of(session.cwd.as_str(), style).as_str());
    name.append("/");
    name.append(session.session_id.as_str());
    name.append(".jsonl");
    join_path(agent_dir, name.as_str())
}

/// The complaint about a session without a log.
pub open spec fn missing_log(session: SessionFile, path: Seq<char>) -> Seq<char> {
    "session "@ + session.session_id@ + " for PID "@ + decimal(session.pid as nat)
        + " does not have a jsonl log at "@ + path
}

/// Where the log of a session lies; an error where there is no such file.
pub fn styled_jsonl_path(agent_dir: &str, session: &SessionFile, exists: bool, style: SlugStyle) -> (r:
    Result<String, String>)
    ensures
        match r {
            Ok(path) => exists && path@ == log_path(agent_dir@, *session, style),
            Err(message) => !exists && message@ == missing_log(
                *session,
                log_path(agent_dir@, *session, style),
            ),
        },
{
    let path = build_log_path(agent_dir, session, style);
    if exists {
        return Ok(path);
    }
    let mut message: String = "session ".to_owned();
    message.append(session.session_id.as_str());
    message.append(" for PID ");
    push_decimal(&mut message, session.pid as u128);
    message.append(" does not have a jsonl log at ");
    message.append(path.as_str());
    Err(message)
}

/// Where the log of a session lies; an error where there is no such file.
pub fn session_jsonl_path(agent_dir: &str, session: &SessionFile, exists: bool) -> (r: Result<
    String,
    String,
>)
    ensures
        match r {
            Ok(path) => exists && path@ == log_path(agent_dir@, *session, SlugStyle::Slashes),
            Err(message) => !exists && message@ == missing_log(
                *session,
                log_path(agent_dir@, *session, SlugStyle::Slashes),
            ),
        },
{
    styled_jsonl_path(agent_dir, session, exists, SlugStyle::Slashes)
}

/// A session file with what the machine says of its process and log.
#[derive(Debug, PartialEq, Eq)]
pub struct SessionCandidate {
    pub session: SessionFile,
    pub is_alive: bool,
    pub has_log: bool,
    /// When the log was last modified, in nanoseconds since the Unix epoch; zero
    /// where that is not known.
    pub log_modified: u128,
}

/// A selected session with the time at which its log was last modified.
pub struct RankedSession {
    pub selection: SessionSelection,
    pub log_modified: u128,
}

/// The value of a [`RankedSession`].
pub struct RankedView {
    pub pid: u32,
    pub session: SessionFile,
    pub jsonl_path: Seq<char>,
    pub log_modified: u128,
}

impl View for RankedSession {
    type V = RankedView;

    open spec fn view(&self) -> RankedView {
        RankedView {
            pid: self.selection.pid,
            session: self.selection.session,
            jsonl_path: self.selection.jsonl_path@,
            log_modified: self.log_modified,
        }
    }
}

/// Whether a session ranks strictly below another one: it started earlier, or
/// at the same time with an older log.
pub open spec fn ranks_below(a: RankedView, b: RankedView) -> bool {
    a.session.started_at < b.session.started_at || (a.session.started_at == b.session.started_at
        && a.log_modified < b.log_modified)
}

/// A ranked list with one more session, behind those that it does not outrank.
pub open spec fn ranked_insert(list: Seq<RankedView>, item: RankedView) -> Seq<RankedView>
    decreases list.len(),
{
    if list.len() > 0 && ranks_below(list.last(), item) {
        ranked_insert(list.drop_last(), item).push(list.last())
    } else {
        list.push(item)
    }
}

/// The sessions that run and have a log, most recent first.
pub open spec fn ranked(agent_dir: Seq<char>, candidates: Seq<SessionCandidate>, style: SlugStyle) -> Seq<
    RankedView,
>
    decreases candidates.len(),
{
    if candidates.len() == 0 {
        seq![]
    } else {
        let rest = ranked(agent_dir, candidates.drop_last(), style);
        let c = candidates.last();
        if c.is_alive && c.has_log {
            ranked_insert(
                rest,
                RankedView {
                    pid: c.session.pid,
                    session: c.session,
                    jsonl_path: log_path(agent_dir, c.session, style),
                    log_modified: c.log_modified,
                },
            )
        } else {
            rest
        }
    }
}

spec fn ranked_views(list: Seq<RankedSession>) -> Seq<RankedView> {
    list.map_values(|r: RankedSession| r@)
}

fn insert_ranked(list: &mut Vec<RankedSession>, item: RankedSession)
    ensures
        ranked_views(final(list)@) == ranked_insert(ranked_views(old(list)@), item@),
{
    let ghost all = ranked_views(list@);
    let ghost before = list@;
    let mut at: usize = list.len();
    let ghost mut tail: Seq<RankedView> = seq![];
    assert(all.take(at as int) =~= all);
    assert(ranked_insert(all, item@) =~= ranked_insert(all.take(at as int), item@) + tail);
    while at > 0 && (list[at - 1].selection.session.started_at < item.selection.session.started_at
        || (list[at - 1].selection.session.started_at == item.selection.session.started_at
        && list[at - 1].log_modified < item.log_modified))
        invariant
            at <= list@.len(),
            list@ == before,
            all == ranked_views(before),
            tail == all.skip(at as int),
            ranked_insert(all, item@) == ranked_insert(all.take(at as int), item@) + tail,
        decreases at,
    {
        proof {
            assert(all[at - 1] == list@[at - 1]@);
            let head = all.take(at as int);
            assert(head.last() == all[at - 1]);
            assert(head.drop_last() =~= all.take(at - 1));
            assert(ranked_insert(head, item@) == ranked_insert(all.take(at - 1), item@).push(
                all[at - 1],
            ));
            let wider = all.skip(at - 1);
            assert(ranked_insert(all.take(at - 1), item@).push(all[at - 1]) + tail =~= ranked_insert(
                all.take(at - 1),
                item@,
            ) + wider);
            tail = wider;
        }
        at = at - 1;
    }
    proof {
        let head = all.take(at as int);
        if at > 0 {
            assert(head.last() == list@[at - 1]@);
        }
        assert(ranked_insert(head, item@) == head.push(item@));
    }
    let ghost placed = item@;
    list.insert(at, item);
    assert(ranked_views(list@) =~= all.take(at as int).push(placed) + all.skip(at as int));
}

/// Lists the sessions that run and have a log, most recent first.
pub fn list_alive_session_selections(agent_dir: &str, candidates: &Vec<SessionCandidate>) -> (r: Vec<
    SessionSelection,
>)
    ensures
        selection_views(r@) == ranked(agent_dir@, candidates@, SlugStyle::Slashes).map_values(
            |x: RankedView| selection_part(x),
        ),
{
    list_sessions(agent_dir, candidates, SlugStyle::Slashes)
}

/// Lists the sessions that run and have a log, most recent first, with their
/// logs named in a style.
pub fn list_sessions(agent_dir: &str, candidates: &Vec<SessionCandidate>, style: SlugStyle) -> (r: Vec<
    SessionSelection,
>)
    ensures
        selection_views(r@) == ranked(agent_dir@, candidates@, style).map_values(
            |x: RankedView| selection_part(x),
        ),
{
    let ghost all = candidates@;
    let mut list: Vec<RankedSession> = Vec::new();
    let mut i: usize = 0;
    assert(all.take(0) =~= seq![]);
    assert(ranked_views(list@) =~= seq![]);
    while i < candidates.len()
        invariant
            i <= all.len(),
            all == candidates@,
            ranked_views(list@) == ranked(agent_dir@, all.take(i as int), style),
        decreases all.len() - i,
    {
        assert(all.take(i + 1).drop_last() =~= all.take(i as int));
        assert(all.take(i + 1).last() == all[i as int]);
        let c = &candidates[i];
        if c.is_alive {
            if let Ok(jsonl_path) = styled_jsonl_path(agent_dir, &c.session, c.has_log, style) {
                let item = RankedSession {
                    selection: SessionSelection {
                        pid: c.session.pid,
                        session: c.session.clone(),
                        jsonl_path,
                    },
                    log_modified: c.log_modified,
                };
                insert_ranked(&mut list, item);
            }
        }
        i = i + 1;
    }
    assert(all.take(i as int) =~= all);
    let ghost sorted = ranked(agent_dir@, all, style);
    let mut out: Vec<SessionSelection> = Vec::new();
    let mut k: usize = 0;
    while k < list.len()
        invariant
            k <= list@.len(),
            ranked_views(list@) == sorted,
            selection_views(out@) == sorted.map_values(|x: RankedView| selection_part(x)).take(
                k as int,
            ),
        decreases list@.len() - k,
    {
        let selection = list[k].selection.clone();
        let ghost shorter = selection_views(out@);
        assert(sorted[k as int] == list@[k as int]@);
        out.push(selection);
        assert(selection_views(out@) =~= shorter.push(selection_view(selection)));
        assert(sorted.map_values(|x: RankedView| selection_part(x)).take(k + 1)
            =~= sorted.map_values(|x: RankedView| selection_part(x)).take(k as int).push(
            selection_part(sorted[k as int]),
        ));
        k = k + 1;
    }
    assert(selection_views(out@) =~= sorted.map_values(|x: RankedView| selection_part(x)));
    out
}

/// The value of a [`SessionSelection`].
pub struct SelectionView {
    pub pid: u32,
    pub session: SessionFile,
    pub jsonl_path: Seq<char>,
}

/// The value of a selection.
pub open spec fn selection_view(s: SessionSelection) -> SelectionView {
    SelectionView { pid: s.pid, session: s.session, jsonl_path: s.jsonl_path@ }
}

/// The values of a list of selections.
pub open spec fn selection_views(list: Seq<SessionSelection>) -> Seq<SelectionView> {
    list.map_values(|s: SessionSelection| selection_view(s))
}

/// The selection of a ranked session.
pub open spec fn selection_part(x: RankedView) -> SelectionView {
    SelectionView { pid: x.pid, session: x.session, jsonl_path: x.jsonl_path }
}

/// The sessions of a working directory; all of them where none is named.
pub open spec fn in_directory(list: Seq<SessionSelection>, cwd: Option<Seq<char>>) -> Seq<
    SessionSelection,
>
    decreases list.len(),
{
    if list.len() == 0 {
        seq![]
    } else {
        let rest = in_directory(list.drop_last(), cwd);
        let s = list.last();
        if cwd is None || same_path(s.session.directory(), cwd->0) {
            rest.push(s)
        } else {
            rest
        }
    }
}

/// Picks the sessions of a working directory; all of them where none is named.
pub fn sessions_for_cwd(sessions: &Vec<SessionSelection>, cwd: Option<&str>) -> (r: Vec<
    SessionSelection,
>)
    ensures
        r@ == in_directory(sessions@, slice_view(cwd)),
{
    let ghost all = sessions@;
    let mut out: Vec<SessionSelection> = Vec::new();
    let mut i: usize = 0;
    assert(all.take(0) =~= seq![]);
    while i < sessions.len()
        invariant
            i <= all.len(),
            all == sessions@,
            out@ == in_directory(all.take(i as int), slice_view(cwd)),
        decreases all.len() - i,
    {
        assert(all.take(i + 1).drop_last() =~= all.take(i as int));
        assert(all.take(i + 1).last() == all[i as int]);
        let matches = match cwd {
            Some(preferred) => paths_equal(
                sessions[i].session.cwd_path().as_str(),
                preferred,
            ),
            None => true,
        };
        if matches {
            out.push(sessions[i].clone());
        }
        i = i + 1;
    }
    assert(all.take(i as int) =~= all);
    out
}

/// The first session with a process.
pub open spec fn with_pid(list: Seq<SessionSelection>, pid: u32, from: int) -> Option<
    SessionSelection,
>
    decreases list.len() - from,
{
    if from < 0 || from >= list.len() {
        None
    } else if list[from].pid == pid {
        Some(list[from])
    } else {
        with_pid(list, pid, from + 1)
    }
}

/// The first session with an identifier.
pub open spec fn with_session_id(list: Seq<SessionSelection>, id: Seq<char>, from: int) -> Option<
    SessionSelection,
>
    decreases list.len() - from,
{
    if from < 0 || from >= list.len() {
        None
    } else if list[from].session.session_id@ == id {
        Some(list[from])
    } else {
        with_session_id(list, id, from + 1)
    }
}

/// The first item of a list.
pub open spec fn first_session(list: Seq<SessionSelection>) -> Option<SessionSelection> {
    if list.len() > 0 {
        Some(list[0])
    } else {
        None
    }
}

/// The session that a request means: the one with the process, else the one
/// with the identifier, else the first one of the working directory.
pub open spec fn requested_session(
    list: Seq<SessionSelection>,
    cwd: Option<Seq<char>>,
    pid: Option<u32>,
    session_id: Option<Seq<char>>,
) -> Option<SessionSelection> {
    match pid {
        Some(p) => with_pid(list, p, 0),
        None => match session_id {
            Some(id) => with_session_id(list, id, 0),
            None => first_session(in_directory(list, cwd)),
        },
    }
}

/// Picks the session that a request means.
pub fn resolve_session_selection(
    sessions: &Vec<SessionSelection>,
    cwd: Option<&str>,
    pid: Option<u32>,
    session_id: Option<&str>,
) -> (r: Option<SessionSelection>)
    ensures
        r == requested_session(sessions@, slice_view(cwd), pid, slice_view(session_id)),
{
    if let Some(wanted) = pid {
        let mut i: usize = 0;
        while i < sessions.len()
            invariant
                i <= sessions@.len(),
                pid == Some(wanted),
                with_pid(sessions@, wanted, 0) == with_pid(sessions@, wanted, i as int),
            decreases sessions@.len() - i,
        {
            if sessions[i].pid == wanted {
                return Some(sessions[i].clone());
            }
            i = i + 1;
        }
        return None;
    }
    if let Some(wanted) = session_id {
        let mut i: usize = 0;
        while i < sessions.len()
            invariant
                i <= sessions@.len(),
                pid is None,
                session_id == Some(wanted),
                with_session_id(sessions@, wanted@, 0) == with_session_id(
                    sessions@,
                    wanted@,
                    i as int,
                ),
            decreases sessions@.len() - i,
        {
            if same_text(sessions[i].session.session_id.as_str(), wanted) {
                return Some(sessions[i].clone());
            }
            i = i + 1;
        }
        return None;
    }
    let list = sessions_for_cwd(sessions, cwd);
    if list.len() > 0 {
        Some(list[0].clone())
    } else {
        None
    }
}

/// The complaint that no session of an agent runs.
pub open spec fn no_session(agent: Agent, cwd: Option<Seq<char>>) -> Seq<char> {
    "no running "@ + agent.name@ + " sessions found in ~/"@ + agent.dir@ + "/sessions"@ + (
    match cwd {
        Some(path) => " for "@ + path,
        None => seq![],
    })
}

/// Complains that no session of an agent runs.
pub fn complain_of_no_session(agent: &Agent, cwd: Option<&str>) -> (r: String)
    ensures
        r@ == no_session(*agent, slice_view(cwd)),
{
    let mut message: String = "no running ".to_owned();
    message.append(agent.name.as_str());
    message.append(" sessions found in ~/");
    message.append(agent.dir.as_str());
    message.append("/sessions");
    let ghost head = message@;
    if let Some(path) = cwd {
        message.append(" for ");
        message.append(path);
        assert(message@ =~= head + (" for "@ + path@));
    } else {
        assert(message@ =~= head + Seq::<char>::empty());
    }
    message
}

/// Picks the most recent session of a working directory.
pub fn find_claude_session(
    sessions: &Vec<SessionSelection>,
    cwd: Option<&str>,
    agent: &Agent,
) -> (r: Result<(u32, SessionFile), String>)
    ensures
        match first_session(in_directory(sessions@, slice_view(cwd))) {
            Some(s) => r == Ok::<(u32, SessionFile), String>((s.pid, s.session)),
            None => r is Err && r->Err_0@ == no_session(*agent, slice_view(cwd)),
        },
{
    match resolve_session_selection(sessions, cwd, None, None) {
        Some(selection) => Ok((selection.pid, selection.session)),
        None => Err(complain_of_no_session(agent, cwd)),
    }
}

/// Whether a session counts for a preferred working directory.
pub open spec fn prefers(session: SessionFile, cwd: Option<Seq<char>>) -> bool {
    cwd is None || same_path(session.directory(), cwd->0)
}

/// Whether any session counts for a preferred working directory.
pub open spec fn any_preferred(list: Seq<(u32, SessionFile)>, cwd: Option<Seq<char>>) -> bool {
    exists|i: int| 0 <= i < list.len() && prefers((#[trigger] list[i]).1, cwd)
}

/// The latest of the sessions that count; the last one of several that started
/// at the same time.
pub open spec fn latest_session(list: Seq<(u32, SessionFile)>, cwd: Option<Seq<char>>) -> Option<
    (u32, SessionFile),
>
    decreases list.len(),
{
    if list.len() == 0 {
        None
    } else {
        let best = latest_session(list.drop_last(), cwd);
        let item = list.last();
        if prefers(item.1, cwd) && (best is None || item.1.started_at >= (best->0).1.started_at) {
            Some(item)
        } else {
            best
        }
    }
}

/// The latest session of a working directory; the latest of all where none
/// belongs to it.
pub open spec fn chosen_session(list: Seq<(u32, SessionFile)>, cwd: Option<Seq<char>>) -> Option<
    (u32, SessionFile),
> {
    if any_preferred(list, cwd) {
        latest_session(list, cwd)
    } else {
        latest_session(list, None)
    }
}

fn session_counts(session: &SessionFile, cwd: Option<&str>) -> (r: bool)
    ensures
        r == prefers(*session, slice_view(cwd)),
{
    match cwd {
        Some(preferred) => paths_equal(session.cwd_path().as_str(), preferred),
        None => true,
    }
}

fn pick_latest(sessions: &[(u32, SessionFile)], cwd: Option<&str>) -> (r: Option<usize>)
    ensures
        match r {
            Some(i) => i < sessions@.len() && latest_session(sessions@, slice_view(cwd)) == Some(
                sessions@[i as int],
            ),
            None => latest_session(sessions@, slice_view(cwd)) is None,
        },
        r is Some <==> any_preferred(sessions@, slice_view(cwd)),
{
    let ghost all = sessions@;
    let mut best: Option<usize> = None;
    let mut i: usize = 0;
    assert(all.take(0) =~= seq![]);
    while i < sessions.len()
        invariant
            i <= all.len(),
            all == sessions@,
            match best {
                Some(b) => b < i && latest_session(all.take(i as int), slice_view(cwd)) == Some(
                    all[b as int],
                ) && prefers(all[b as int].1, slice_view(cwd)),
                None => latest_session(all.take(i as int), slice_view(cwd)) is None && forall|k: int|
                    0 <= k < i ==> !prefers((#[trigger] all[k]).1, slice_view(cwd)),
            },
        decreases all.len() - i,
    {
        assert(all.take(i + 1).drop_last() =~= all.take(i as int));
        assert(all.take(i + 1).last() == all[i as int]);
        if session_counts(&sessions[i].1, cwd) {
            let replaces = match best {
                Some(b) => sessions[i].1.started_at >= sessions[b].1.started_at,
                None => true,
            };
            if replaces {
                best = Some(i);
            }
        }
        i = i + 1;
    }
    assert(all.take(i as int) =~= all);
    best
}

/// Picks the latest session of a working directory, or the latest of all where
/// none belongs to it.
pub fn choose_session(sessions: &[(u32, SessionFile)], cwd: Option<&str>) -> (r: Option<
    (u32, SessionFile),
>)
    ensures
        r == chosen_session(sessions@, slice_view(cwd)),
{
    match pick_latest(sessions, cwd) {
        Some(i) => Some((sessions[i].0, sessions[i].1.clone())),
        None => match pick_latest(sessions, None) {
            Some(i) => Some((sessions[i].0, sessions[i].1.clone())),
            None => None,
        },
    }
}

/// The answer to a numbered choice, counted from zero: the first item for an
/// empty answer, `None` for an answer that is no number of the list.
pub open spec fn chosen_index(input: Seq<char>, count: nat) -> Option<nat> {
    let answer = stripped(input);
    if answer.len() == 0 {
        Some(0)
    } else {
        match parsed_number(answer) {
            Some(n) => if 1 <= n <= count {
                Some((n - 1) as nat)
            } else {
                None
            },
            None => None,
        }
    }
}

/// Reads the answer to a numbered choice.
pub fn parse_session_choice(input: &str, count: usize) -> (r: Option<usize>)
    ensures
        match r {
            Some(i) => chosen_index(input@, count as nat) == Some(i as nat),
            None => chosen_index(input@, count as nat) is None,
        },
{
    let answer = trim(input);
    if chars_of(answer.as_str()).len() == 0 {
        return Some(0);
    }
    match parse_u64(answer.as_str()) {
        Some(n) => if 1 <= n && n <= count as u64 {
            Some((n - 1) as usize)
        } else {
            None
        },
        None => None,
    }
}

/// A line of the list from which a session is chosen.
pub open spec fn choice_line(number: nat, s: SessionSelection) -> Seq<char> {
    "  ["@ + decimal(number) + "] "@ + s.session.session_id@ + "  pid="@ + decimal(s.pid as nat)
        + "  started="@ + decimal(s.session.started_at as nat) + "  source="@ + s.jsonl_path@
}

/// Writes a line of the list from which a session is chosen.
pub fn session_choice_line(number: usize, selection: &SessionSelection) -> (r: String)
    ensures
        r@ == choice_line(number as nat, *selection),
{
    let mut out: String = "  [".to_owned();
    push_decimal(&mut out, number as u128);
    out.append("] ");
    out.append(selection.session.session_id.as_str());
    out.append("  pid=");
    push_decimal(&mut out, selection.pid as u128);
    out.append("  started=");
    push_decimal(&mut out, selection.session.started_at as u128);
    out.append("  source=");
    out.append(selection.jsonl_path.as_str());
    out
}

/// Where the hook events of a session are logged.
pub fn hook_log_path(project_dir: &str, session_id: &str) -> (r: String)
    ensures
        r@ == joined_path(joined_path(project_dir@, ".saw/hooks"@), session_id@ + ".jsonl"@),
{
    let mut name: String = session_id.to_owned();
    name.append(".jsonl");
    join_path(join_path(project_dir, ".saw/hooks").as_str(), name.as_str())
}

/// Guards as paths below the working directory, absolute ones as they are.
pub open spec fn rooted(cwd: Seq<char>, guards: Seq<Seq<char>>) -> Seq<Seq<char>> {
    guards.map_values(|g: Seq<char>| joined_path(cwd, g))
}

/// Makes guards absolute.
pub fn normalize_guard_paths(cwd: &str, guards: &Vec<String>) -> (r: Vec<String>)
    ensures
        views(r@) == rooted(cwd@, views(guards@)),
{
    let mut out: Vec<String> = Vec::new();
    let mut i: usize = 0;
    assert(views(out@) =~= rooted(cwd@, views(guards@)).take(0));
    while i < guards.len()
        invariant
            i <= guards@.len(),
            views(out@) == rooted(cwd@, views(guards@)).take(i as int),
        decreases guards@.len() - i,
    {
        let path = join_path(cwd, guards[i].as_str());
        proof {
            lemma_views_push(out@, path);
            assert(rooted(cwd@, views(guards@)).take(i + 1) =~= rooted(
                cwd@,
                views(guards@),
            ).take(i as int).push(path@));
        }
        out.push(path);
        i = i + 1;
    }
    assert(rooted(cwd@, views(guards@)).take(i as int) =~= rooted(cwd@, views(guards@)));
    out
}

/// Writes a path relative to the working directory where it lies below it.
pub fn display_path(cwd: &str, path: &str) -> (r: String)
    ensures
        r@ == shown_path(cwd@, path@),
{
    show_path(cwd, path)
}

/// The exit code that reports a phase.
pub open spec fn exit_code(phase: PhaseView) -> i32 {
    match phase {
        PhaseView::ApiHang(_) => 1,
        PhaseView::Dead => 1,
        PhaseView::ToolLoop { .. } => 2,
        PhaseView::TestLoop { .. } => 2,
        PhaseView::ScopeLeaking { .. } => 3,
        PhaseView::Idle(_) => 4,
        _ => 0,
    }
}

/// The exit code that reports a phase.
pub fn status_exit_code(phase: &AgentPhase) -> (r: i32)
    ensures
        r == exit_code(phase@),
{
    match phase {
        AgentPhase::ApiHang(_) => 1,
        AgentPhase::Dead => 1,
        AgentPhase::ToolLoop { .. } => 2,
        AgentPhase::TestLoop { .. } => 2,
        AgentPhase::ScopeLeaking { .. } => 3,
        AgentPhase::Idle(_) => 4,
        _ => 0,
    }
}

/// The state after a list of events.
pub open spec fn replayed(s: StateView, events: Seq<AgentEvent>) -> StateView
    decreases events.len(),
{
    if events.len() == 0 {
        s
    } else {
        applied(replayed(s, events.drop_last()), events.last())
    }
}

/// The events of the lines of a session log; blank lines stand for none.
pub open spec fn log_events(list: Seq<Seq<char>>) -> Seq<EventView>
    decreases list.len(),
{
    if list.len() == 0 {
        seq![]
    } else {
        let rest = log_events(list.drop_last());
        let line = list.last();
        if is_blank(line) {
            rest
        } else {
            match line_event(line) {
                Some(event) => rest.push(event),
                None => rest,
            }
        }
    }
}

/// Applies the events of the lines of a session log.
pub fn replay_lines(state: &mut AgentState, list: &Vec<String>)
    ensures
        exists|events: Seq<AgentEvent>|
            event_views(events) == log_events(views(list@)) && final(state)@
                == #[trigger] replayed(old(state)@, events),
{
    let ghost all = views(list@);
    let ghost mut events: Seq<AgentEvent> = seq![];
    let mut i: usize = 0;
    assert(all.take(0) =~= seq![]);
    assert(event_views(events) =~= seq![]);
    while i < list.len()
        invariant
            i <= list@.len(),
            all == views(list@),
            event_views(events) == log_events(all.take(i as int)),
            state@ == replayed(old(state)@, events),
        decreases list@.len() - i,
    {
        assert(all.take(i + 1).drop_last() =~= all.take(i as int));
        assert(all.take(i + 1).last() == list@[i as int]@);
        if !blank(list[i].as_str()) {
            if let Some(event) = SessionRecord::parse(list[i].as_str()) {
                proof {
                    let longer = events.push(event);
                    assert(longer.drop_last() =~= events);
                    assert(event_views(longer) =~= event_views(events).push(event@));
                    events = longer;
                }
                state.apply(&event);
            }
        }
        i = i + 1;
    }
    assert(all.take(i as int) =~= all);
}

/// The state of a session that nothing is known of but its guards.
pub open spec fn guarded_state(guards: Seq<String>) -> StateView {
    StateView { guard_paths: guards, ..initial_state() }
}

/// Builds the state of a session from the lines of its log. A log without any
/// event is an error.
pub fn load_state(path: &str, list: &Vec<String>, guards: &Vec<String>) -> (r:
    Result<AgentState, String>)
    ensures
        exists|events: Seq<AgentEvent>|
            event_views(events) == log_events(views(list@)) && match r {
                Ok(state) => state@ == #[trigger] replayed(guarded_state(guards@), events)
                    && state@.last_event_at is Some,
                Err(message) => replayed(
                    guarded_state(guards@),
                    events,
                ).last_event_at is None && message@ == "no parseable session events in "@ + path@,
            },
{
    let mut state = AgentState::default();
    state.guard_paths = copy_texts(guards);
    assert(state@ == guarded_state(guards@));
    replay_lines(&mut state, list);
    if state.last_event_at.is_none() {
        let mut message: String = "no parseable session events in ".to_owned();
        message.append(path);
        return Err(message);
    }
    Ok(state)
}

/// Whether a hook event counts: it is later than the last session record.
pub open spec fn hook_counts(cutoff: Option<Timestamp>, event: AgentEvent) -> bool {
    cutoff is Some ==> event.time().is_after(cutoff->0)
}

/// The state after hook events. Those that the session log already covers do
/// not count.
pub open spec fn hooked(
    s: StateView,
    cutoff: Option<Timestamp>,
    events: Seq<AgentEvent>,
) -> StateView
    decreases events.len(),
{
    if events.len() == 0 {
        s
    } else {
        let t = hooked(s, cutoff, events.drop_last());
        let event = events.last();
        if hook_counts(cutoff, event) {
            applied(
                StateView {
                    last_hook_event_at: latest(t.last_hook_event_at, Some(event.time())),
                    ..t
                },
                event,
            )
        } else {
            t
        }
    }
}

/// Applies hook events that are later than the last session record.
pub fn load_hook_events(state: &mut AgentState, events: &Vec<AgentEvent>)
    ensures
        final(state)@ == hooked(old(state)@, old(state)@.last_jsonl_record_at, events@),
{
    let cutoff = state.last_jsonl_record_at;
    let ghost all = events@;
    let mut i: usize = 0;
    assert(all.take(0) =~= seq![]);
    while i < events.len()
        invariant
            i <= all.len(),
            all == events@,
            cutoff == old(state)@.last_jsonl_record_at,
            state@ == hooked(old(state)@, cutoff, all.take(i as int)),
        decreases all.len() - i,
    {
        assert(all.take(i + 1).drop_last() =~= all.take(i as int));
        assert(all.take(i + 1).last() == all[i as int]);
        let at = events[i].timestamp();
        let counts = match cutoff {
            Some(cutoff) => at.after(cutoff),
            None => true,
        };
        if counts {
            state.last_hook_event_at = latest_of(state.last_hook_event_at, Some(at));
            state.apply(&events[i]);
        }
        i = i + 1;
    }
    assert(all.take(i as int) =~= all);
}

} // verus!
