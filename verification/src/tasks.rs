//! Task lists of a session: task files, teams and the current task.

use crate::alerter::slice_view;
use crate::decode::{decode_text, field, is_record, read_field, record_like, target, text_field};
use crate::json::{json_text, member_text, parse_json, Json};
use crate::paths::{join_path, joined_path};
use crate::state::{task_view, task_views, AgentState, StateView};
use crate::text::{lemma_views_push, same_text, views};
use crate::types::{text_view, TaskFile, TaskView};
use vstd::prelude::*;

verus! {

/// A text that is empty where it is missing; `None` for any other value.
pub open spec fn defaulted_text(value: Option<Json>) -> Option<Seq<char>> {
    match value {
        None => Some(seq![]),
        Some(Json::Text(t)) => Some(t@),
        _ => None,
    }
}

fn read_defaulted_text(value: Option<&Json>) -> (r: Option<String>)
    ensures
        text_view(r) == defaulted_text(target(value)),
{
    match value {
        None => {
            let empty: String = String::new();
            assert(empty@ =~= seq![]);
            Some(empty)
        },
        Some(Json::Text(t)) => Some(t.clone()),
        _ => None,
    }
}

/// The texts of a list; `None` where an item is no text.
pub open spec fn all_texts(items: Seq<Json>) -> Option<Seq<Seq<char>>>
    decreases items.len(),
{
    if items.len() == 0 {
        Some(seq![])
    } else {
        match (all_texts(items.drop_last()), items.last()) {
            (Some(rest), Json::Text(t)) => Some(rest.push(t@)),
            _ => None,
        }
    }
}

proof fn lemma_texts_prefix(items: Seq<Json>, n: int)
    requires
        0 <= n <= items.len(),
        all_texts(items.take(n)) is None,
    ensures
        all_texts(items) is None,
    decreases items.len(),
{
    if n < items.len() {
        assert(items.drop_last().take(n) =~= items.take(n));
        lemma_texts_prefix(items.drop_last(), n);
    } else {
        assert(items.take(n) =~= items);
    }
}

fn read_texts(items: &Vec<Json>) -> (r: Option<Vec<String>>)
    ensures
        match r {
            Some(list) => all_texts(items@) == Some(views(list@)),
            None => all_texts(items@) is None,
        },
{
    let ghost all = items@;
    let mut out: Vec<String> = Vec::new();
    let mut i: usize = 0;
    assert(all.take(0) =~= seq![]);
    assert(views(out@) =~= seq![]);
    while i < items.len()
        invariant
            i <= all.len(),
            all == items@,
            all_texts(all.take(i as int)) == Some(views(out@)),
        decreases all.len() - i,
    {
        assert(all.take(i + 1).drop_last() =~= all.take(i as int));
        assert(all.take(i + 1).last() == all[i as int]);
        match &items[i] {
            Json::Text(t) => {
                let copy = t.clone();
                proof {
                    lemma_views_push(out@, copy);
                }
                out.push(copy);
            },
            _ => {
                proof {
                    lemma_texts_prefix(all, i + 1);
                }
                return None;
            },
        }
        i = i + 1;
    }
    assert(all.take(i as int) =~= all);
    Some(out)
}

/// A list of texts that is empty where it is missing.
pub open spec fn defaulted_texts(value: Option<Json>) -> Option<Seq<Seq<char>>> {
    match value {
        None => Some(seq![]),
        Some(Json::Array(items)) => all_texts(items@),
        _ => None,
    }
}

/// The task that a document describes. Fields that are missing are empty; a
/// document with a field of the wrong type describes none.
pub open spec fn task_of(json: Json) -> Option<TaskView> {
    let id = defaulted_text(field(json, "id"@, 0));
    let status = defaulted_text(field(json, "status"@, 1));
    let owner = text_field(field(json, "owner"@, 2));
    let blocked_by = defaulted_texts(field(json, "blockedBy"@, 3));
    if is_record(json, 4) && id is Some && status is Some && owner is Some && blocked_by is Some {
        Some(
            TaskView {
                id: id->0,
                status: status->0,
                owner: text_view(owner->0),
                blocked_by: blocked_by->0,
            },
        )
    } else {
        None
    }
}

impl TaskFile {
    /// Reads a task from a document.
    pub fn from_json(json: &Json) -> (r: Option<TaskFile>)
        ensures
            task_view(r) == task_of(*json),
    {
        if !record_like(json, 4) {
            return None;
        }
        let id = match read_defaulted_text(read_field(json, "id", 0)) {
            Some(id) => id,
            None => {
                return None;
            },
        };
        let status = match read_defaulted_text(read_field(json, "status", 1)) {
            Some(status) => status,
            None => {
                return None;
            },
        };
        let owner = match decode_text(read_field(json, "owner", 2)) {
            Some(owner) => owner,
            None => {
                return None;
            },
        };
        let blocked_by = match read_field(json, "blockedBy", 3) {
            None => {
                let none: Vec<String> = Vec::new();
                assert(views(none@) =~= seq![]);
                none
            },
            Some(Json::Array(items)) => match read_texts(items) {
                Some(list) => list,
                None => {
                    return None;
                },
            },
            _ => {
                return None;
            },
        };
        Some(TaskFile { id, status, owner, blocked_by })
    }

    /// Reads a task from the text of its file.
    pub fn parse(raw: &str) -> (r: Option<TaskFile>)
        ensures
            match json_text(raw@) {
                Some(json) => task_view(r) == task_of(json),
                None => r is None,
            },
    {
        match parse_json(raw) {
            Some(json) => TaskFile::from_json(&json),
            None => None,
        }
    }
}

/// The configuration of a team of agents.
#[derive(Debug, PartialEq, Eq)]
pub struct TeamConfig {
    pub name: String,
    pub lead_session_id: String,
    /// The names of the members.
    pub members: Vec<String>,
}

/// The value of a [`TeamConfig`].
pub struct TeamView {
    pub name: Seq<char>,
    pub lead_session_id: Seq<char>,
    pub members: Seq<Seq<char>>,
}

impl View for TeamConfig {
    type V = TeamView;

    open spec fn view(&self) -> TeamView {
        TeamView {
            name: self.name@,
            lead_session_id: self.lead_session_id@,
            members: views(self.members@),
        }
    }
}

/// The name in a document that describes a member of a team.
pub open spec fn member_name(json: Json) -> Option<Seq<char>> {
    match field(json, "name"@, 0) {
        Some(Json::Text(t)) => if is_record(json, 1) {
            Some(t@)
        } else {
            None
        },
        _ => None,
    }
}

/// The names of a list of members; `None` where an item describes none.
pub open spec fn member_names(items: Seq<Json>) -> Option<Seq<Seq<char>>>
    decreases items.len(),
{
    if items.len() == 0 {
        Some(seq![])
    } else {
        match (member_names(items.drop_last()), member_name(items.last())) {
            (Some(rest), Some(name)) => Some(rest.push(name)),
            _ => None,
        }
    }
}

proof fn lemma_names_prefix(items: Seq<Json>, n: int)
    requires
        0 <= n <= items.len(),
        member_names(items.take(n)) is None,
    ensures
        member_names(items) is None,
    decreases items.len(),
{
    if n < items.len() {
        assert(items.drop_last().take(n) =~= items.take(n));
        lemma_names_prefix(items.drop_last(), n);
    } else {
        assert(items.take(n) =~= items);
    }
}

fn read_member(json: &Json) -> (r: Option<String>)
    ensures
        text_view(r) == member_name(*json),
{
    match read_field(json, "name", 0) {
        Some(Json::Text(t)) => if record_like(json, 1) {
            Some(t.clone())
        } else {
            None
        },
        _ => None,
    }
}

fn read_members(items: &Vec<Json>) -> (r: Option<Vec<String>>)
    ensures
        match r {
            Some(list) => member_names(items@) == Some(views(list@)),
            None => member_names(items@) is None,
        },
{
    let ghost all = items@;
    let mut out: Vec<String> = Vec::new();
    let mut i: usize = 0;
    assert(all.take(0) =~= seq![]);
    assert(views(out@) =~= seq![]);
    while i < items.len()
        invariant
            i <= all.len(),
            all == items@,
            member_names(all.take(i as int)) == Some(views(out@)),
        decreases all.len() - i,
    {
        assert(all.take(i + 1).drop_last() =~= all.take(i as int));
        assert(all.take(i + 1).last() == all[i as int]);
        match read_member(&items[i]) {
            Some(name) => {
                proof {
                    lemma_views_push(out@, name);
                }
                out.push(name);
            },
            None => {
                proof {
                    lemma_names_prefix(all, i + 1);
                }
                return None;
            },
        }
        i = i + 1;
    }
    assert(all.take(i as int) =~= all);
    Some(out)
}

/// The team that a document describes.
pub open spec fn team_of(json: Json) -> Option<TeamView> {
    match (
        field(json, "name"@, 0),
        field(json, "leadSessionId"@, 1),
        field(json, "members"@, 2),
    ) {
        (Some(Json::Text(name)), Some(Json::Text(lead)), Some(Json::Array(items))) => if is_record(
            json,
            3,
        ) && member_names(items@) is Some {
            Some(
                TeamView {
                    name: name@,
                    lead_session_id: lead@,
                    members: member_names(items@)->0,
                },
            )
        } else {
            None
        },
        _ => None,
    }
}

/// The value of a team that may be missing.
pub open spec fn team_view(team: Option<TeamConfig>) -> Option<TeamView> {
    match team {
        Some(t) => Some(t@),
        None => None,
    }
}

impl TeamConfig {
    /// Reads a team from a document.
    pub fn from_json(json: &Json) -> (r: Option<TeamConfig>)
        ensures
            team_view(r) == team_of(*json),
    {
        if !record_like(json, 3) {
            return None;
        }
        let name = match read_field(json, "name", 0) {
            Some(Json::Text(t)) => t.clone(),
            _ => {
                return None;
            },
        };
        let lead_session_id = match read_field(json, "leadSessionId", 1) {
            Some(Json::Text(t)) => t.clone(),
            _ => {
                return None;
            },
        };
        let members = match read_field(json, "members", 2) {
            Some(Json::Array(items)) => match read_members(items) {
                Some(list) => list,
                None => {
                    return None;
                },
            },
            _ => {
                return None;
            },
        };
        Some(TeamConfig { name, lead_session_id, members })
    }

    /// Reads a team from the text of its file.
    pub fn parse(raw: &str) -> (r: Option<TeamConfig>)
        ensures
            match json_text(raw@) {
                Some(json) => team_view(r) == team_of(json),
                None => r is None,
            },
    {
        match parse_json(raw) {
            Some(json) => TeamConfig::from_json(&json),
            None => None,
        }
    }
}

/// Whether a team belongs to a session: the session leads it, or the agent is
/// one of its members.
pub open spec fn team_matches(
    team: TeamView,
    session_id: Seq<char>,
    agent_name: Option<Seq<char>>,
) -> bool {
    team.lead_session_id == session_id || (agent_name is Some && team.members.contains(
        agent_name->0,
    ))
}

/// The name of the first team from a position on that belongs to a session.
pub open spec fn team_name_from(
    teams: Seq<TeamConfig>,
    session_id: Seq<char>,
    agent_name: Option<Seq<char>>,
    from: int,
) -> Option<Seq<char>>
    decreases teams.len() - from,
{
    if from < 0 || from >= teams.len() {
        None
    } else if team_matches(teams[from]@, session_id, agent_name) {
        Some(teams[from].name@)
    } else {
        team_name_from(teams, session_id, agent_name, from + 1)
    }
}

fn lists_name(list: &Vec<String>, name: &str) -> (r: bool)
    ensures
        r == views(list@).contains(name@),
{
    let mut i: usize = 0;
    while i < list.len()
        invariant
            i <= list@.len(),
            forall|k: int| 0 <= k < i ==> (#[trigger] views(list@)[k]) != name@,
        decreases list@.len() - i,
    {
        if same_text(list[i].as_str(), name) {
            assert(views(list@)[i as int] == name@);
            return true;
        }
        assert(views(list@)[i as int] != name@);
        i = i + 1;
    }
    false
}

/// Infers the team of a session from the teams that exist.
pub fn infer_team_name_from_agent(
    teams: &Vec<TeamConfig>,
    session_id: &str,
    agent_name: Option<&str>,
) -> (r: Option<String>)
    ensures
        text_view(r) == team_name_from(teams@, session_id@, slice_view(agent_name), 0),
{
    let mut i: usize = 0;
    while i < teams.len()
        invariant
            i <= teams@.len(),
            team_name_from(teams@, session_id@, slice_view(agent_name), 0) == team_name_from(
                teams@,
                session_id@,
                slice_view(agent_name),
                i as int,
            ),
        decreases teams@.len() - i,
    {
        if same_text(teams[i].lead_session_id.as_str(), session_id) {
            return Some(teams[i].name.clone());
        }
        if let Some(agent_name) = agent_name {
            if lists_name(&teams[i].members, agent_name) {
                return Some(teams[i].name.clone());
            }
        }
        i = i + 1;
    }
    None
}

/// The text under a key in a line that belongs to a session.
pub open spec fn session_text(line: Seq<char>, session_id: Seq<char>, key: Seq<char>) -> Option<
    Seq<char>,
> {
    match json_text(line) {
        Some(json) => match member_text(json, "sessionId"@) {
            Some(id) => if id@ == session_id {
                text_view(member_text(json, key))
            } else {
                None
            },
            None => None,
        },
        None => None,
    }
}

/// The text under a key in the first line from a position on that belongs to a
/// session and has one.
pub open spec fn first_session_text(
    list: Seq<Seq<char>>,
    session_id: Seq<char>,
    key: Seq<char>,
    from: int,
) -> Option<Seq<char>>
    decreases list.len() - from,
{
    if from < 0 || from >= list.len() {
        None
    } else if session_text(list[from], session_id, key) is Some {
        session_text(list[from], session_id, key)
    } else {
        first_session_text(list, session_id, key, from + 1)
    }
}

/// What the log of a session says of its agent.
#[derive(Debug, PartialEq, Eq)]
pub struct SessionMetadata {
    pub team_name: Option<String>,
    pub agent_name: Option<String>,
}

impl Clone for SessionMetadata {
    fn clone(&self) -> (r: Self)
        ensures
            r == *self,
    {
        SessionMetadata { team_name: self.team_name.clone(), agent_name: self.agent_name.clone() }
    }
}

/// Whether metadata is what a log and the teams say of a session.
pub open spec fn is_metadata(
    metadata: SessionMetadata,
    list: Seq<Seq<char>>,
    teams: Seq<TeamConfig>,
    session_id: Seq<char>,
) -> bool {
    let team = first_session_text(list, session_id, "teamName"@, 0);
    let agent = first_session_text(list, session_id, "agentName"@, 0);
    &&& text_view(metadata.agent_name) == agent
    &&& text_view(metadata.team_name) == if team is Some {
        team
    } else {
        team_name_from(teams, session_id, agent, 0)
    }
}

/// Reads from the lines of a log which team and agent a session belongs to. A
/// log that names no team leaves it to the teams that exist.
pub fn scan_session_metadata(list: &Vec<String>, teams: &Vec<TeamConfig>, session_id: &str) -> (r:
    SessionMetadata)
    ensures
        is_metadata(r, views(list@), teams@, session_id@),
{
    let ghost all = views(list@);
    let mut team_name: Option<String> = None;
    let mut agent_name: Option<String> = None;
    let mut i: usize = 0;
    while i < list.len() && (team_name.is_none() || agent_name.is_none())
        invariant
            i <= list@.len(),
            all == views(list@),
            first_session_text(all, session_id@, "teamName"@, 0) == if team_name is Some {
                text_view(team_name)
            } else {
                first_session_text(all, session_id@, "teamName"@, i as int)
            },
            first_session_text(all, session_id@, "agentName"@, 0) == if agent_name is Some {
                text_view(agent_name)
            } else {
                first_session_text(all, session_id@, "agentName"@, i as int)
            },
        decreases list@.len() - i,
    {
        assert(all[i as int] == list@[i as int]@);
        if let Some(json) = parse_json(list[i].as_str()) {
            if let Some(id) = json.get_text("sessionId") {
                if same_text(id.as_str(), session_id) {
                    if team_name.is_none() {
                        team_name = json.get_text("teamName");
                    }
                    if agent_name.is_none() {
                        agent_name = json.get_text("agentName");
                    }
                }
            }
        }
        i = i + 1;
    }
    if team_name.is_none() {
        team_name = infer_team_name_from_agent(
            teams,
            session_id,
            match &agent_name {
                Some(name) => Some(name.as_str()),
                None => None,
            },
        );
    }
    SessionMetadata { team_name, agent_name }
}

/// Metadata of a session, with the length of the log that it was read from.
#[derive(Debug, PartialEq, Eq)]
pub struct CachedSessionMetadata {
    pub session_id: String,
    pub jsonl_len: u64,
    pub metadata: SessionMetadata,
}

/// The position of the entry of a session from a position on.
pub open spec fn cached_at(cache: Seq<CachedSessionMetadata>, session_id: Seq<char>, from: int) -> int
    decreases cache.len() - from,
{
    if from < 0 || from >= cache.len() {
        cache.len() as int
    } else if cache[from].session_id@ == session_id {
        from
    } else {
        cached_at(cache, session_id, from + 1)
    }
}

/// The cached metadata of a session, where the log still has the same length.
pub open spec fn cached(
    cache: Seq<CachedSessionMetadata>,
    session_id: Seq<char>,
    jsonl_len: u64,
) -> Option<SessionMetadata> {
    let i = cached_at(cache, session_id, 0);
    if 0 <= i < cache.len() && cache[i].jsonl_len == jsonl_len {
        Some(cache[i].metadata)
    } else {
        None
    }
}

fn find_cached(cache: &Vec<CachedSessionMetadata>, session_id: &str) -> (r: usize)
    ensures
        r == cached_at(cache@, session_id@, 0),
        r <= cache@.len(),
{
    let mut i: usize = 0;
    while i < cache.len()
        invariant
            i <= cache@.len(),
            cached_at(cache@, session_id@, 0) == cached_at(cache@, session_id@, i as int),
        decreases cache@.len() - i,
    {
        if same_text(cache[i].session_id.as_str(), session_id) {
            return i;
        }
        i = i + 1;
    }
    i
}

/// Looks metadata up in the cache.
pub fn cached_metadata(cache: &Vec<CachedSessionMetadata>, session_id: &str, jsonl_len: u64) -> (r:
    Option<SessionMetadata>)
    ensures
        r == cached(cache@, session_id@, jsonl_len),
{
    let i = find_cached(cache, session_id);
    if i < cache.len() && cache[i].jsonl_len == jsonl_len {
        Some(cache[i].metadata.clone())
    } else {
        None
    }
}

/// A cache with an entry in place of that of the same session, or behind the
/// others.
pub open spec fn with_cached(cache: Seq<CachedSessionMetadata>, entry: CachedSessionMetadata) -> Seq<
    CachedSessionMetadata,
> {
    let i = cached_at(cache, entry.session_id@, 0);
    if 0 <= i < cache.len() {
        cache.update(i, entry)
    } else {
        cache.push(entry)
    }
}

/// Stores metadata in the cache.
pub fn cache_metadata(cache: &mut Vec<CachedSessionMetadata>, entry: CachedSessionMetadata)
    ensures
        final(cache)@ == with_cached(old(cache)@, entry),
{
    let i = find_cached(cache, entry.session_id.as_str());
    if i < cache.len() {
        cache.set(i, entry);
    } else {
        cache.push(entry);
    }
}

/// The tasks with a status.
pub open spec fn with_status(tasks: Seq<TaskView>, status: Seq<char>) -> Seq<TaskView>
    decreases tasks.len(),
{
    if tasks.len() == 0 {
        seq![]
    } else {
        let rest = with_status(tasks.drop_last(), status);
        if tasks.last().status == status {
            rest.push(tasks.last())
        } else {
            rest
        }
    }
}

/// The tasks with an owner.
pub open spec fn with_owner(tasks: Seq<TaskView>, owner: Seq<char>) -> Seq<TaskView>
    decreases tasks.len(),
{
    if tasks.len() == 0 {
        seq![]
    } else {
        let rest = with_owner(tasks.drop_last(), owner);
        if tasks.last().owner == Some(owner) {
            rest.push(tasks.last())
        } else {
            rest
        }
    }
}

/// The task that a session works on: the only one in progress, or the only one
/// in progress that its agent owns.
pub open spec fn current_task(tasks: Seq<TaskView>, agent_name: Option<Seq<char>>) -> Option<
    TaskView,
> {
    let active = with_status(tasks, "in_progress"@);
    if active.len() == 1 {
        Some(active[0])
    } else {
        match agent_name {
            Some(name) => {
                let owned = with_owner(active, name);
                if owned.len() == 1 {
                    Some(owned[0])
                } else {
                    None
                }
            },
            None => None,
        }
    }
}

proof fn lemma_task_push(list: Seq<TaskFile>, task: TaskFile)
    ensures
        task_views(list.push(task)) == task_views(list).push(task@),
{
    assert(task_views(list.push(task)) =~= task_views(list).push(task@));
}

fn tasks_with_status(tasks: &Vec<TaskFile>, status: &str) -> (r: Vec<TaskFile>)
    ensures
        task_views(r@) == with_status(task_views(tasks@), status@),
{
    let ghost all = task_views(tasks@);
    let mut out: Vec<TaskFile> = Vec::new();
    let mut i: usize = 0;
    assert(all.take(0) =~= seq![]);
    assert(task_views(out@) =~= seq![]);
    while i < tasks.len()
        invariant
            i <= tasks@.len(),
            all == task_views(tasks@),
            task_views(out@) == with_status(all.take(i as int), status@),
        decreases tasks@.len() - i,
    {
        assert(all.take(i + 1).drop_last() =~= all.take(i as int));
        assert(all.take(i + 1).last() == tasks@[i as int]@);
        if same_text(tasks[i].status.as_str(), status) {
            let copy = tasks[i].clone();
            proof {
                lemma_task_push(out@, copy);
            }
            out.push(copy);
        }
        i = i + 1;
    }
    assert(all.take(i as int) =~= all);
    out
}

fn tasks_with_owner(tasks: &Vec<TaskFile>, owner: &str) -> (r: Vec<TaskFile>)
    ensures
        task_views(r@) == with_owner(task_views(tasks@), owner@),
{
    let ghost all = task_views(tasks@);
    let mut out: Vec<TaskFile> = Vec::new();
    let mut i: usize = 0;
    assert(all.take(0) =~= seq![]);
    assert(task_views(out@) =~= seq![]);
    while i < tasks.len()
        invariant
            i <= tasks@.len(),
            all == task_views(tasks@),
            task_views(out@) == with_owner(all.take(i as int), owner@),
        decreases tasks@.len() - i,
    {
        assert(all.take(i + 1).drop_last() =~= all.take(i as int));
        assert(all.take(i + 1).last() == tasks@[i as int]@);
        let owned = match &tasks[i].owner {
            Some(name) => same_text(name.as_str(), owner),
            None => false,
        };
        if owned {
            let copy = tasks[i].clone();
            proof {
                lemma_task_push(out@, copy);
            }
            out.push(copy);
        }
        i = i + 1;
    }
    assert(all.take(i as int) =~= all);
    out
}

/// Finds the task that a session works on.
pub fn resolve_current_task(tasks: &Vec<TaskFile>, agent_name: Option<&str>) -> (r: Option<TaskFile>)
    ensures
        task_view(r) == current_task(task_views(tasks@), slice_view(agent_name)),
{
    let active = tasks_with_status(tasks, "in_progress");
    assert(active@.len() == task_views(active@).len());
    if active.len() == 1 {
        assert(task_views(active@)[0] == active@[0]@);
        return Some(active[0].clone());
    }
    match agent_name {
        Some(name) => {
            let owned = tasks_with_owner(&active, name);
            assert(owned@.len() == task_views(owned@).len());
            if owned.len() == 1 {
                assert(task_views(owned@)[0] == owned@[0]@);
                Some(owned[0].clone())
            } else {
                None
            }
        },
        None => None,
    }
}

/// The position of the task with an identifier from a position on.
pub open spec fn task_at(tasks: Seq<TaskView>, id: Seq<char>, from: int) -> int
    decreases tasks.len() - from,
{
    if from < 0 || from >= tasks.len() {
        tasks.len() as int
    } else if tasks[from].id == id {
        from
    } else {
        task_at(tasks, id, from + 1)
    }
}

/// The tasks with one more, which replaces the one with the same identifier.
pub open spec fn with_task(tasks: Seq<TaskView>, task: TaskView) -> Seq<TaskView> {
    let i = task_at(tasks, task.id, 0);
    if 0 <= i < tasks.len() {
        tasks.update(i, task)
    } else {
        tasks.push(task)
    }
}

fn find_task(tasks: &Vec<TaskFile>, id: &str) -> (r: usize)
    ensures
        r == task_at(task_views(tasks@), id@, 0),
        r <= tasks@.len(),
{
    let mut i: usize = 0;
    while i < tasks.len()
        invariant
            i <= tasks@.len(),
            task_at(task_views(tasks@), id@, 0) == task_at(task_views(tasks@), id@, i as int),
        decreases tasks@.len() - i,
    {
        assert(task_views(tasks@)[i as int] == tasks@[i as int]@);
        if same_text(tasks[i].id.as_str(), id) {
            return i;
        }
        i = i + 1;
    }
    i
}

/// Adds a task, in place of the one with the same identifier.
pub fn insert_task(tasks: &mut Vec<TaskFile>, task: TaskFile)
    ensures
        task_views(final(tasks)@) == with_task(task_views(old(tasks)@), task@),
{
    let i = find_task(tasks, task.id.as_str());
    let ghost before = tasks@;
    if i < tasks.len() {
        tasks.set(i, task);
        assert(task_views(tasks@) =~= task_views(before).update(i as int, task@));
    } else {
        tasks.push(task);
        assert(task_views(tasks@) =~= task_views(before).push(task@));
    }
}

/// The tasks in the texts of task files. Texts that describe no task do not
/// count; a later task replaces an earlier one with the same identifier.
pub open spec fn tasks_of(raw: Seq<Seq<char>>) -> Seq<TaskView>
    decreases raw.len(),
{
    if raw.len() == 0 {
        seq![]
    } else {
        let rest = tasks_of(raw.drop_last());
        match json_text(raw.last()) {
            Some(json) => match task_of(json) {
                Some(task) => with_task(rest, task),
                None => rest,
            },
            None => rest,
        }
    }
}

/// Reads the tasks in the texts of task files.
pub fn load_task_files(raw: &Vec<String>) -> (r: Vec<TaskFile>)
    ensures
        task_views(r@) == tasks_of(views(raw@)),
{
    let ghost all = views(raw@);
    let mut out: Vec<TaskFile> = Vec::new();
    let mut i: usize = 0;
    assert(all.take(0) =~= seq![]);
    assert(task_views(out@) =~= seq![]);
    while i < raw.len()
        invariant
            i <= raw@.len(),
            all == views(raw@),
            task_views(out@) == tasks_of(all.take(i as int)),
        decreases raw@.len() - i,
    {
        assert(all.take(i + 1).drop_last() =~= all.take(i as int));
        assert(all.take(i + 1).last() == raw@[i as int]@);
        if let Some(task) = TaskFile::parse(raw[i].as_str()) {
            insert_task(&mut out, task);
        }
        i = i + 1;
    }
    assert(all.take(i as int) =~= all);
    out
}

/// The task list of a session: the one under its own identifier where there is
/// such a directory, else the one of its team.
pub open spec fn task_list(
    session_id: Option<String>,
    has_own_list: bool,
    team_name: Option<String>,
    has_team_list: bool,
) -> Option<String> {
    if session_id is None {
        None
    } else if has_own_list {
        session_id
    } else if has_team_list {
        team_name
    } else {
        None
    }
}

/// Decides which task list belongs to a session.
pub fn resolve_task_list_id(
    session_id: &Option<String>,
    has_own_list: bool,
    team_name: &Option<String>,
    has_team_list: bool,
) -> (r: Option<String>)
    ensures
        r == task_list(*session_id, has_own_list, *team_name, has_team_list),
{
    if session_id.is_none() {
        None
    } else if has_own_list {
        session_id.clone()
    } else if has_team_list {
        team_name.clone()
    } else {
        None
    }
}

/// Where a task list lies below the directory in which the agent keeps its records.
pub fn task_list_path(agent_dir: &str, task_list_id: &str) -> (r: String)
    ensures
        r@ == joined_path(joined_path(agent_dir@, "tasks"@), task_list_id@),
{
    join_path(join_path(agent_dir, "tasks").as_str(), task_list_id)
}

/// The state of a session without tasks.
pub open spec fn without_tasks(s: StateView, task_list_id: Option<String>) -> StateView {
    StateView {
        task_list_id,
        task_files: seq![],
        task_files_signature: None,
        current_task: None,
        ..s
    }
}

/// Drops the tasks of a session: it has no task list, or its task list has no
/// directory.
pub fn clear_tasks(state: &mut AgentState, task_list_id: Option<String>)
    ensures
        final(state)@ == without_tasks(old(state)@, task_list_id),
{
    state.task_list_id = task_list_id;
    state.task_files = Vec::new();
    assert(task_views(state.task_files@) =~= seq![]);
    state.task_files_signature = None;
    state.current_task = None;
}

/// Whether the cached tasks are those of a task list with this signature.
pub open spec fn has_current_tasks(s: StateView, task_list_id: Seq<char>, signature: u64) -> bool {
    text_view(s.task_list_id) == Some(task_list_id) && s.task_files_signature == Some(signature)
}

/// Decides whether the cached tasks are those of a task list with this
/// signature.
pub fn tasks_are_current(state: &AgentState, task_list_id: &str, signature: u64) -> (r: bool)
    ensures
        r == has_current_tasks(state@, task_list_id@, signature),
{
    let same_list = match &state.task_list_id {
        Some(id) => same_text(id.as_str(), task_list_id),
        None => false,
    };
    let same_signature = match state.task_files_signature {
        Some(s) => s == signature,
        None => false,
    };
    same_list && same_signature
}

/// A task list as it was found on disk. Where the cached tasks of a state are
/// current the texts of the task files need not be read.
#[derive(Debug, PartialEq, Eq)]
pub struct TaskListing {
    pub task_list_id: String,
    pub signature: u64,
    pub raw_tasks: Vec<String>,
}

/// The state after a look at a task list.
pub open spec fn with_tasks(s: StateView, listing: TaskListing, agent_name: Option<Seq<char>>) -> StateView {
    if has_current_tasks(s, listing.task_list_id@, listing.signature) {
        StateView { current_task: current_task(s.task_files, agent_name), ..s }
    } else {
        let tasks = tasks_of(views(listing.raw_tasks@));
        StateView {
            task_list_id: Some(listing.task_list_id),
            task_files: tasks,
            task_files_signature: Some(listing.signature),
            current_task: current_task(tasks, agent_name),
            ..s
        }
    }
}

/// Brings the tasks of a session up to date with its task list. The task files
/// are only read again where the signature of the list has changed.
pub fn refresh_task_context(state: &mut AgentState, listing: TaskListing, agent_name: Option<&str>)
    ensures
        final(state)@ == with_tasks(old(state)@, listing, slice_view(agent_name)),
{
    if tasks_are_current(state, listing.task_list_id.as_str(), listing.signature) {
        let task = resolve_current_task(&state.task_files, agent_name);
        state.current_task = task;
    } else {
        let tasks = load_task_files(&listing.raw_tasks);
        let task = resolve_current_task(&tasks, agent_name);
        state.task_list_id = Some(listing.task_list_id);
        state.task_files = tasks;
        state.task_files_signature = Some(listing.signature);
        state.current_task = task;
    }
}

} // verus!
