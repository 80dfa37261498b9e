//! Laws of tasks and teams: how they are read, and which task a session works on.

use crate::json::{json_text, member, Json};
use crate::record_laws::{absent, text_of};
use crate::state::StateView;
use crate::tasks::{
    all_texts, current_task, member_name, member_names, task_list, task_of, tasks_of, team_matches,
    team_name_from, team_of, with_owner, with_status, with_task, with_tasks, without_tasks,
    first_session_text, task_at, cached, cached_at, with_cached, CachedSessionMetadata, TaskListing,
    TeamConfig, TeamView,
};
use crate::text::views;
use crate::types::TaskView;
use vstd::prelude::*;

verus! {

proof fn lemma_all_texts(items: Seq<Json>)
    ensures
        match all_texts(items) {
            Some(list) => list.len() == items.len() && forall|i: int|
                0 <= i < items.len() ==> (#[trigger] items[i]) is Text && list[i]
                    == items[i]->Text_0@,
            None => exists|i: int| 0 <= i < items.len() && !((#[trigger] items[i]) is Text),
        },
    decreases items.len(),
{
    if items.len() > 0 {
        let head = items.drop_last();
        lemma_all_texts(head);
        assert(items[items.len() - 1] == items.last());
        match all_texts(items) {
            Some(list) => {
                assert forall|i: int| 0 <= i < items.len() implies (#[trigger] items[i]) is Text
                    && list[i] == items[i]->Text_0@ by {
                    if i < head.len() {
                        assert(head[i] == items[i]);
                    }
                }
            },
            None => {
                if all_texts(head) is None {
                    let i = choose|i: int|
                        0 <= i < head.len() && !((#[trigger] head[i]) is Text);
                    assert(items[i] == head[i]);
                }
            },
        }
    }
}

/// Whether a member of a task is missing or a text.
pub open spec fn missing_or_text(json: Json, key: Seq<char>) -> bool {
    member(json, key) is None || member(json, key)->0 is Text
}

/// The text of a member, or nothing where it is missing.
pub open spec fn text_or_empty(json: Json, key: Seq<char>) -> Seq<char> {
    if member(json, key) is None {
        Seq::<char>::empty()
    } else {
        member(json, key)->0->Text_0@
    }
}

/// Whether a member of a task is missing or a list of texts.
pub open spec fn missing_or_texts(json: Json, key: Seq<char>) -> bool {
    member(json, key) is None || member(json, key)->0 is Array && forall|i: int|
        0 <= i < member(json, key)->0->Array_0@.len() ==> (
        #[trigger] member(json, key)->0->Array_0@[i]) is Text
}

/// An object is a task where its fields have their types; a field that is missing is empty.
pub proof fn tasks_hold_the_fields_of_their_object(json: Json)
    requires
        json is Object,
    ensures
        task_of(json) is Some <==> {
            &&& missing_or_text(json, "id"@)
            &&& missing_or_text(json, "status"@)
            &&& absent(member(json, "owner"@)) || member(json, "owner"@)->0 is Text
            &&& missing_or_texts(json, "blockedBy"@)
        },
        task_of(json) is Some ==> {
            let t = task_of(json)->0;
            let list = member(json, "blockedBy"@);
            &&& t.id == text_or_empty(json, "id"@)
            &&& t.status == text_or_empty(json, "status"@)
            &&& t.owner == text_of(json, "owner"@)
            &&& list is None ==> t.blocked_by.len() == 0
            &&& list is Some ==> t.blocked_by.len() == list->0->Array_0@.len() && forall|i: int|
                0 <= i < t.blocked_by.len() ==> #[trigger] t.blocked_by[i]
                    == list->0->Array_0@[i]->Text_0@
        },
{
    let list = member(json, "blockedBy"@);
    if list is Some && list->0 is Array {
        let items = list->0->Array_0@;
        lemma_all_texts(items);
        if all_texts(items) is Some {
            assert(missing_or_texts(json, "blockedBy"@));
            let t = all_texts(items)->0;
            assert forall|i: int| 0 <= i < t.len() implies #[trigger] t[i] == items[i]->Text_0@ by {
                assert(items[i] is Text);
            }
        } else {
            let i = choose|i: int| 0 <= i < items.len() && !((#[trigger] items[i]) is Text);
            assert(!missing_or_texts(json, "blockedBy"@));
        }
    }
}

/// The files of a task list are read in their order: a text that is no task does not count,
/// and a later task takes the place of an earlier one with the same identifier.
pub proof fn task_files_are_read_in_order(raw: Seq<Seq<char>>, last: Seq<char>)
    ensures
        tasks_of(Seq::<Seq<char>>::empty()).len() == 0,
        json_text(last) is None || task_of(json_text(last)->0) is None ==> tasks_of(raw.push(last))
            == tasks_of(raw),
        json_text(last) is Some && task_of(json_text(last)->0) is Some ==> tasks_of(raw.push(last))
            == with_task(tasks_of(raw), task_of(json_text(last)->0)->0),
{
    assert(raw.push(last).drop_last() =~= raw);
}

/// A task takes the place of the first one with its identifier, or comes last.
pub proof fn tasks_replace_their_namesakes(tasks: Seq<TaskView>, task: TaskView, i: int)
    requires
        0 <= i <= tasks.len(),
        i < tasks.len() ==> tasks[i].id == task.id,
        forall|k: int| 0 <= k < i ==> (#[trigger] tasks[k]).id != task.id,
    ensures
        i < tasks.len() ==> with_task(tasks, task) == tasks.update(i, task),
        i == tasks.len() ==> with_task(tasks, task) == tasks.push(task),
{
    lemma_task_at(tasks, task.id, i, 0);
}

proof fn lemma_task_at(tasks: Seq<TaskView>, id: Seq<char>, i: int, from: int)
    requires
        0 <= from <= i <= tasks.len(),
        i < tasks.len() ==> tasks[i].id == id,
        forall|k: int| from <= k < i ==> (#[trigger] tasks[k]).id != id,
    ensures
        task_at(tasks, id, from) == i,
    decreases i - from,
{
    if from < i {
        assert(tasks[from].id != id);
        lemma_task_at(tasks, id, i, from + 1);
    }
}

proof fn lemma_with_status(tasks: Seq<TaskView>, status: Seq<char>)
    ensures
        with_status(tasks, status) == tasks.filter(|t: TaskView| t.status == status),
    decreases tasks.len(),
{
    reveal(Seq::filter);
    if tasks.len() > 0 {
        lemma_with_status(tasks.drop_last(), status);
    }
}

proof fn lemma_with_owner(tasks: Seq<TaskView>, owner: Seq<char>)
    ensures
        with_owner(tasks, owner) == tasks.filter(|t: TaskView| t.owner == Some(owner)),
    decreases tasks.len(),
{
    reveal(Seq::filter);
    if tasks.len() > 0 {
        lemma_with_owner(tasks.drop_last(), owner);
    }
}

/// A session works on the only task in progress; of several it works on the only one that
/// its agent owns, and on none where that is not clear.
pub proof fn sessions_work_on_a_clear_task(tasks: Seq<TaskView>, name: Option<Seq<char>>)
    ensures
        ({
            let active = tasks.filter(|t: TaskView| t.status == "in_progress"@);
            let owned = active.filter(|t: TaskView| t.owner == Some(name->0));
            &&& active.len() == 1 ==> current_task(tasks, name) == Some(active[0])
            &&& active.len() != 1 && name is Some && owned.len() == 1 ==> current_task(tasks, name)
                == Some(owned[0])
            &&& active.len() != 1 && (name is None || owned.len() != 1) ==> current_task(
                tasks,
                name,
            ) is None
        }),
{
    lemma_with_status(tasks, "in_progress"@);
    if name is Some {
        lemma_with_owner(with_status(tasks, "in_progress"@), name->0);
    }
}

/// A session has the task list under its own identifier, or else that of its team, where
/// there is one; without an identifier it has none.
pub proof fn sessions_prefer_their_own_list(
    id: String,
    own: bool,
    team: Option<String>,
    shared: bool,
)
    ensures
        task_list(None, own, team, shared) is None,
        task_list(Some(id), true, team, shared) == Some(id),
        task_list(Some(id), false, team, true) == team,
        task_list(Some(id), false, team, false) is None,
{
}

/// Looking at a task list brings its tasks and the current one; a list that did not change
/// is not read again. Nothing else of the session changes.
pub proof fn task_lists_are_taken_over(
    s: StateView,
    listing: TaskListing,
    name: Option<Seq<char>>,
)
    ensures
        ({
            let t = with_tasks(s, listing, name);
            let same = s.task_list_id is Some && s.task_list_id->0@ == listing.task_list_id@
                && s.task_files_signature == Some(listing.signature);
            &&& same ==> t.task_files == s.task_files
            &&& !same ==> t.task_files == tasks_of(views(listing.raw_tasks@))
            &&& t.task_list_id is Some && t.task_list_id->0@ == listing.task_list_id@
            &&& t.task_files_signature == Some(listing.signature)
            &&& t.current_task == current_task(t.task_files, name)
            &&& t == (StateView {
                task_list_id: t.task_list_id,
                task_files: t.task_files,
                task_files_signature: t.task_files_signature,
                current_task: t.current_task,
                ..s
            })
        }),
{
}

/// A session without a task list has no tasks.
pub proof fn sessions_without_a_list_have_no_tasks(s: StateView, id: Option<String>)
    ensures
        without_tasks(s, id).task_files.len() == 0,
        without_tasks(s, id).current_task is None,
        without_tasks(s, id).task_files_signature is None,
        without_tasks(s, id).task_list_id == id,
        without_tasks(s, id).recent_tool_calls == s.recent_tool_calls,
        without_tasks(s, id).phase == s.phase,
{
}

proof fn lemma_member_names(items: Seq<Json>)
    ensures
        match member_names(items) {
            Some(list) => list.len() == items.len() && forall|i: int|
                0 <= i < items.len() ==> member_name(#[trigger] items[i]) == Some(list[i]),
            None => exists|i: int|
                0 <= i < items.len() && member_name(#[trigger] items[i]) is None,
        },
    decreases items.len(),
{
    if items.len() > 0 {
        let head = items.drop_last();
        lemma_member_names(head);
        assert(items[items.len() - 1] == items.last());
        match member_names(items) {
            Some(list) => {
                assert forall|i: int| 0 <= i < items.len() implies member_name(#[trigger] items[i])
                    == Some(list[i]) by {
                    if i < head.len() {
                        assert(head[i] == items[i]);
                    }
                }
            },
            None => {
                if member_names(head) is None {
                    let i = choose|i: int|
                        0 <= i < head.len() && member_name(#[trigger] head[i]) is None;
                    assert(items[i] == head[i]);
                }
            },
        }
    }
}

/// An object is a team where it has a name, a leading session and members, all of them
/// objects with a name.
pub proof fn teams_hold_the_fields_of_their_object(json: Json)
    requires
        json is Object,
        member(json, "members"@) is Some,
        member(json, "members"@)->0 is Array,
        forall|i: int|
            0 <= i < member(json, "members"@)->0->Array_0@.len() ==> (
            #[trigger] member(json, "members"@)->0->Array_0@[i]) is Object,
    ensures
        ({
            let items = member(json, "members"@)->0->Array_0@;
            let t = team_of(json)->0;
            &&& team_of(json) is Some <==> text_of(json, "name"@) is Some && text_of(
                json,
                "leadSessionId"@,
            ) is Some && forall|i: int|
                0 <= i < items.len() ==> text_of(#[trigger] items[i], "name"@) is Some
            &&& team_of(json) is Some ==> Some(t.name) == text_of(json, "name"@) && Some(
                t.lead_session_id,
            ) == text_of(json, "leadSessionId"@) && t.members.len() == items.len() && forall|i: int|
                0 <= i < items.len() ==> text_of(#[trigger] items[i], "name"@) == Some(t.members[i])
        }),
{
    let items = member(json, "members"@)->0->Array_0@;
    lemma_member_names(items);
    assert forall|i: int| 0 <= i < items.len() implies member_name(#[trigger] items[i]) == text_of(
        items[i],
        "name"@,
    ) by {
        assert(member(json, "members"@)->0->Array_0@[i] is Object);
    }
    if member_names(items) is None {
        let i = choose|i: int| 0 <= i < items.len() && member_name(#[trigger] items[i]) is None;
        assert(text_of(items[i], "name"@) is None);
    }
}

/// A team belongs to a session that leads it, and to a session whose agent is a member.
pub proof fn teams_belong_to_leaders_and_members(
    team: TeamView,
    id: Seq<char>,
    name: Option<Seq<char>>,
)
    ensures
        team_matches(team, id, name) <==> team.lead_session_id == id || name is Some && exists|
            i: int,
        |
            0 <= i < team.members.len() && #[trigger] team.members[i] == name->0,
{
    if name is Some && team.members.contains(name->0) {
        let i = team.members.index_of(name->0);
        assert(team.members[i] == name->0);
    }
}

/// The team of a session is the first one that belongs to it.
pub proof fn the_first_team_counts(
    teams: Seq<TeamConfig>,
    id: Seq<char>,
    name: Option<Seq<char>>,
    i: int,
)
    requires
        0 <= i <= teams.len(),
        i < teams.len() ==> team_matches(teams[i]@, id, name),
        forall|k: int| 0 <= k < i ==> !team_matches((#[trigger] teams[k])@, id, name),
    ensures
        i < teams.len() ==> team_name_from(teams, id, name, 0) == Some(teams[i].name@),
        i == teams.len() ==> team_name_from(teams, id, name, 0) is None,
{
    lemma_team(teams, id, name, i, 0);
}

proof fn lemma_team(
    teams: Seq<TeamConfig>,
    id: Seq<char>,
    name: Option<Seq<char>>,
    i: int,
    from: int,
)
    requires
        0 <= from <= i <= teams.len(),
        i < teams.len() ==> team_matches(teams[i]@, id, name),
        forall|k: int| from <= k < i ==> !team_matches((#[trigger] teams[k])@, id, name),
    ensures
        i < teams.len() ==> team_name_from(teams, id, name, from) == Some(teams[i].name@),
        i == teams.len() ==> team_name_from(teams, id, name, from) is None,
    decreases i - from,
{
    if from < i {
        assert(!team_matches(teams[from]@, id, name));
        lemma_team(teams, id, name, i, from + 1);
    }
}

/// A line speaks of a session only under its identifier; the first line that has the text
/// counts.
pub proof fn lines_speak_of_their_session(
    list: Seq<Seq<char>>,
    id: Seq<char>,
    key: Seq<char>,
    i: int,
)
    requires
        0 <= i <= list.len(),
        i < list.len() ==> json_text(list[i]) is Some && text_of(
            json_text(list[i])->0,
            "sessionId"@,
        ) == Some(id) && text_of(json_text(list[i])->0, key) is Some,
        forall|k: int|
            0 <= k < i ==> !(json_text(#[trigger] list[k]) is Some && text_of(
                json_text(list[k])->0,
                "sessionId"@,
            ) == Some(id) && text_of(json_text(list[k])->0, key) is Some),
    ensures
        i < list.len() ==> first_session_text(list, id, key, 0) == text_of(
            json_text(list[i])->0,
            key,
        ),
        i == list.len() ==> first_session_text(list, id, key, 0) is None,
{
    lemma_line(list, id, key, i, 0);
}

proof fn lemma_line(list: Seq<Seq<char>>, id: Seq<char>, key: Seq<char>, i: int, from: int)
    requires
        0 <= from <= i <= list.len(),
        i < list.len() ==> json_text(list[i]) is Some && text_of(
            json_text(list[i])->0,
            "sessionId"@,
        ) == Some(id) && text_of(json_text(list[i])->0, key) is Some,
        forall|k: int|
            from <= k < i ==> !(json_text(#[trigger] list[k]) is Some && text_of(
                json_text(list[k])->0,
                "sessionId"@,
            ) == Some(id) && text_of(json_text(list[k])->0, key) is Some),
    ensures
        i < list.len() ==> first_session_text(list, id, key, from) == text_of(
            json_text(list[i])->0,
            key,
        ),
        i == list.len() ==> first_session_text(list, id, key, from) is None,
    decreases i - from,
{
    if from < i {
        let line = list[from];
        assert(!(json_text(line) is Some && text_of(json_text(line)->0, "sessionId"@) == Some(id)
            && text_of(json_text(line)->0, key) is Some));
        lemma_line(list, id, key, i, from + 1);
    }
}

/// Nothing is cached of a session that was never noted.
pub proof fn other_sessions_are_not_cached(
    cache: Seq<CachedSessionMetadata>,
    id: Seq<char>,
    len: u64,
)
    requires
        forall|i: int| 0 <= i < cache.len() ==> (#[trigger] cache[i]).session_id@ != id,
    ensures
        cached(cache, id, len) is None,
{
    lemma_not_cached(cache, id, 0);
}

proof fn lemma_not_cached(cache: Seq<CachedSessionMetadata>, id: Seq<char>, from: int)
    requires
        0 <= from <= cache.len(),
        forall|i: int| 0 <= i < cache.len() ==> (#[trigger] cache[i]).session_id@ != id,
    ensures
        cached_at(cache, id, from) == cache.len(),
    decreases cache.len() - from,
{
    if from < cache.len() {
        lemma_not_cached(cache, id, from + 1);
    }
}

/// What is cached of a session counts as long as its log has the same length, and an entry
/// takes the place of the earlier one of its session.
pub proof fn cached_metadata_lasts_as_long_as_the_log(
    cache: Seq<CachedSessionMetadata>,
    entry: CachedSessionMetadata,
    len: u64,
)
    ensures
        cached(with_cached(cache, entry), entry.session_id@, entry.jsonl_len) == Some(
            entry.metadata,
        ),
        len != entry.jsonl_len ==> cached(with_cached(cache, entry), entry.session_id@, len)
            is None,
{
    lemma_cached_at(cache, entry.session_id@, 0);
    let i = cached_at(cache, entry.session_id@, 0);
    let all = with_cached(cache, entry);
    assert(all[i] == entry);
    assert forall|k: int| 0 <= k < i implies (#[trigger] all[k]).session_id@
        != entry.session_id@ by {
        assert(all[k] == cache[k]);
    }
    lemma_cached_first(all, entry.session_id@, i, 0);
}

proof fn lemma_cached_at(cache: Seq<CachedSessionMetadata>, id: Seq<char>, from: int)
    requires
        0 <= from <= cache.len(),
    ensures
        from <= cached_at(cache, id, from) <= cache.len(),
        forall|k: int|
            from <= k < cached_at(cache, id, from) ==> (#[trigger] cache[k]).session_id@ != id,
    decreases cache.len() - from,
{
    if from < cache.len() && cache[from].session_id@ != id {
        lemma_cached_at(cache, id, from + 1);
    }
}

proof fn lemma_cached_first(cache: Seq<CachedSessionMetadata>, id: Seq<char>, i: int, from: int)
    requires
        0 <= from <= i < cache.len(),
        cache[i].session_id@ == id,
        forall|k: int| from <= k < i ==> (#[trigger] cache[k]).session_id@ != id,
    ensures
        cached_at(cache, id, from) == i,
    decreases i - from,
{
    if from < i {
        assert(cache[from].session_id@ != id);
        lemma_cached_first(cache, id, i, from + 1);
    }
}

} // verus!
