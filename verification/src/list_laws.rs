//! Laws of what is listed and shown: sessions, tasks, alerts, checkpoints, file events and
//! stored times.

use crate::alerts_panel::{
    alerts_of, death_alert, found_alerts, has_key, phase_alert, precedes, scope_alert,
    sorted_alerts, sorted_insert, test_alert, with_alert, write_alert, AlertView,
};
use crate::classifier::{blocking_ids, still_blocks};
use crate::clock::Timestamp;
use crate::common::{
    exit_code, log_path, ranked, ranked_insert, ranks_below, RankedView, SessionCandidate,
    SlugStyle,
};

use crate::loop_detector::{rewrites, top_rewrite, with_rewrite, writes_file, RewriteView};
use crate::paths::{relative_path, same_path, text_less};
use crate::snapshot::{checkpointed, has_copy, Snapshot, SnapshotView};
use crate::status::worst_code;
use crate::status_bar::{bar_segments, StatusBar};
use crate::store::{canonical, is_time, millis, on_calendar, time_of};
use crate::state::StateView;
use crate::tasks::{task_at, task_of, tasks_of, with_task};
use crate::tui::{asked, edited, scrolled, steered, Key, KeyPress, TuiView};
use crate::types::{FileModification, TaskView, ToolCall};
use crate::ui::truncated;
use crate::watcher::{change_kind, is_noise_path, notified_events, NotifiedPath};
use crate::jsonl_tail::NotifyKind;
use vstd::prelude::*;

verus! {

/// Whether no session of a list ranks below one that follows it.
pub open spec fn in_rank_order(list: Seq<RankedView>) -> bool {
    forall|i: int, j: int|
        0 <= i < j < list.len() ==> !ranks_below(#[trigger] list[i], #[trigger] list[j])
}

proof fn lemma_ranked_insert(list: Seq<RankedView>, item: RankedView)
    requires
        in_rank_order(list),
    ensures
        in_rank_order(ranked_insert(list, item)),
        ranked_insert(list, item).len() == list.len() + 1,
        ranked_insert(list, item).to_multiset() == list.to_multiset().insert(item),
        forall|i: int|
            0 <= i < ranked_insert(list, item).len() ==> (#[trigger] ranked_insert(list, item)[i]
                == item || list.contains(ranked_insert(list, item)[i])),
    decreases list.len(),
{
    broadcast use vstd::seq_lib::group_to_multiset_ensures;

    if list.len() > 0 && ranks_below(list.last(), item) {
        let head = list.drop_last();
        let inner = ranked_insert(head, item);
        lemma_ranked_insert(head, item);
        assert(list =~= head.push(list.last()));
        assert forall|i: int| 0 <= i < inner.push(list.last()).len() implies (
        #[trigger] inner.push(list.last())[i] == item || list.contains(
            inner.push(list.last())[i],
        )) by {
            if i < inner.len() {
                assert(inner[i] == item || head.contains(inner[i]));
                if head.contains(inner[i]) {
                    let k = head.index_of(inner[i]);
                    assert(list[k] == inner[i]);
                }
            } else {
                assert(list[list.len() - 1] == list.last());
            }
        }
        assert forall|i: int, j: int| 0 <= i < j < inner.push(list.last()).len() implies !ranks_below(
            #[trigger] inner.push(list.last())[i],
            #[trigger] inner.push(list.last())[j],
        ) by {
            if j == inner.len() {
                assert(inner[i] == item || head.contains(inner[i]));
                if head.contains(inner[i]) && inner[i] != item {
                    let k = head.index_of(inner[i]);
                    assert(list[k] == inner[i]);
                    assert(!ranks_below(list[k], list[list.len() - 1]));
                }
            }
        }
        assert(head.to_multiset().insert(item).insert(list.last())
            =~= head.to_multiset().insert(list.last()).insert(item));
    } else {
        let longer = list.push(item);
        assert forall|i: int, j: int| 0 <= i < j < longer.len() implies !ranks_below(
            #[trigger] longer[i],
            #[trigger] longer[j],
        ) by {
            if j == list.len() && i < list.len() - 1 {
                assert(!ranks_below(list[i], list[list.len() - 1]));
            }
        }
        assert forall|i: int| 0 <= i < longer.len() implies (#[trigger] longer[i] == item
            || list.contains(longer[i])) by {
            if i < list.len() {
                assert(list[i] == longer[i]);
            }
        }
    }
}

/// Sessions are listed with the most recent first: by the time at which they started, and
/// those that started together by the time of their last record.
pub proof fn sessions_are_listed_by_recency(
    agent_dir: Seq<char>,
    candidates: Seq<SessionCandidate>,
    style: SlugStyle,
)
    ensures
        in_rank_order(ranked(agent_dir, candidates, style)),
    decreases candidates.len(),
{
    if candidates.len() > 0 {
        sessions_are_listed_by_recency(agent_dir, candidates.drop_last(), style);
        let c = candidates.last();
        lemma_ranked_insert(ranked(agent_dir, candidates.drop_last(), style), entry_of(agent_dir, c, style));
    }
}

/// How a session that runs and has a log is listed.
pub open spec fn entry_of(agent_dir: Seq<char>, c: SessionCandidate, style: SlugStyle) -> RankedView {
    RankedView {
        pid: c.session.pid,
        session: c.session,
        jsonl_path: log_path(agent_dir, c.session, style),
        log_modified: c.log_modified,
    }
}

/// The sessions that run and have a log, as they are listed, in the order in which they
/// were found.
pub open spec fn live_entries(
    agent_dir: Seq<char>,
    candidates: Seq<SessionCandidate>,
    style: SlugStyle,
) -> Seq<RankedView> {
    candidates.filter(|c: SessionCandidate| c.is_alive && c.has_log).map_values(
        |c: SessionCandidate| entry_of(agent_dir, c, style),
    )
}

/// Every session that runs and has a log is listed, each as often as it was found, and no
/// other.
pub proof fn all_live_sessions_are_listed(
    agent_dir: Seq<char>,
    candidates: Seq<SessionCandidate>,
    style: SlugStyle,
)
    ensures
        ranked(agent_dir, candidates, style).to_multiset() == live_entries(
            agent_dir,
            candidates,
            style,
        ).to_multiset(),
    decreases candidates.len(),
{
    broadcast use vstd::seq_lib::group_to_multiset_ensures;

    reveal(Seq::filter);
    if candidates.len() > 0 {
        let c = candidates.last();
        let head = candidates.drop_last();
        let found = live_entries(agent_dir, head, style);
        all_live_sessions_are_listed(agent_dir, head, style);
        if c.is_alive && c.has_log {
            sessions_are_listed_by_recency(agent_dir, head, style);
            lemma_ranked_insert(ranked(agent_dir, head, style), entry_of(agent_dir, c, style));
            assert(live_entries(agent_dir, candidates, style) =~= found.push(
                entry_of(agent_dir, c, style),
            ));
        } else {
            assert(live_entries(agent_dir, candidates, style) =~= found);
        }
    } else {
        assert(live_entries(agent_dir, candidates, style) =~= ranked(agent_dir, candidates, style));
    }
}

/// The exit code for several sessions is that of one of them, and none has a greater one;
/// it is zero for none.
pub proof fn the_worst_session_sets_the_exit_code(list: Seq<Snapshot>)
    ensures
        worst_code(list) >= 0,
        forall|i: int| 0 <= i < list.len() ==> exit_code((#[trigger] list[i])@.phase) <= worst_code(list),
        worst_code(list) == 0 || exists|i: int|
            0 <= i < list.len() && worst_code(list) == exit_code((#[trigger] list[i])@.phase),
    decreases list.len(),
{
    if list.len() > 0 {
        let head = list.drop_last();
        the_worst_session_sets_the_exit_code(head);
        assert(list[list.len() - 1] == list.last());
        assert forall|i: int| 0 <= i < list.len() implies exit_code((#[trigger] list[i])@.phase)
            <= worst_code(list) by {
            if i < head.len() {
                assert(head[i] == list[i]);
            }
        }
        if worst_code(list) != 0 && worst_code(list) == worst_code(head) {
            let i = choose|i: int|
                0 <= i < head.len() && worst_code(head) == exit_code((#[trigger] head[i])@.phase);
            assert(list[i] == head[i]);
        }
    }
}

/// Whether the tasks of a list have different identifiers.
pub open spec fn ids_differ(list: Seq<TaskView>) -> bool {
    forall|i: int, j: int|
        0 <= i < j < list.len() ==> (#[trigger] list[i]).id != (#[trigger] list[j]).id
}

proof fn lemma_task_at(list: Seq<TaskView>, id: Seq<char>, from: int)
    requires
        0 <= from <= list.len(),
    ensures
        from <= task_at(list, id, from) <= list.len(),
        task_at(list, id, from) < list.len() ==> list[task_at(list, id, from)].id == id,
        forall|k: int| from <= k < task_at(list, id, from) ==> (#[trigger] list[k]).id != id,
    decreases list.len() - from,
{
    if from < list.len() && list[from].id != id {
        lemma_task_at(list, id, from + 1);
    }
}

/// A task list holds each task once.
pub proof fn tasks_are_listed_once(raw: Seq<Seq<char>>)
    ensures
        ids_differ(tasks_of(raw)),
    decreases raw.len(),
{
    if raw.len() > 0 {
        let rest = tasks_of(raw.drop_last());
        tasks_are_listed_once(raw.drop_last());
        if let Some(json) = crate::json::json_text(raw.last()) {
            if let Some(task) = task_of(json) {
                lemma_task_at(rest, task.id, 0);
                assert(ids_differ(with_task(rest, task)));
            }
        }
    }
}

/// The tasks that block a task are those of its dependencies, in their order, that are not
/// completed.
pub proof fn blockers_are_open_dependencies(ids: Seq<Seq<char>>, files: Seq<TaskView>)
    ensures
        blocking_ids(ids, files) == ids.filter(|id: Seq<char>| still_blocks(files, id)),
    decreases ids.len(),
{
    reveal(Seq::filter);
    if ids.len() > 0 {
        blockers_are_open_dependencies(ids.drop_last(), files);
    }
}

/// Whether the alerts of a list have different keys.
pub open spec fn keys_differ(list: Seq<AlertView>) -> bool {
    forall|i: int, j: int|
        0 <= i < j < list.len() ==> (#[trigger] list[i]).key != (#[trigger] list[j]).key
}

/// Whether the alerts of a list are in order: no alert precedes the one before it, and the
/// most serious come first.
pub open spec fn in_alert_order(list: Seq<AlertView>) -> bool {
    forall|i: int, j: int|
        0 <= i < j < list.len() ==> !precedes(#[trigger] list[j], #[trigger] list[i])
}

proof fn lemma_text_less_is_one_way(a: Seq<char>, b: Seq<char>)
    ensures
        !(text_less(a, b) && text_less(b, a)),
    decreases a.len(),
{
    if a.len() > 0 && b.len() > 0 {
        lemma_text_less_is_one_way(a.drop_first(), b.drop_first());
    }
}

proof fn lemma_text_between(a: Seq<char>, b: Seq<char>, c: Seq<char>)
    requires
        text_less(a, c),
    ensures
        text_less(a, b) || text_less(b, c),
    decreases a.len(),
{
    if a.len() > 0 && b.len() > 0 && c.len() > 0 && a[0] == b[0] && b[0] == c[0] {
        lemma_text_between(a.drop_first(), b.drop_first(), c.drop_first());
    }
}

proof fn lemma_sorted_insert(list: Seq<AlertView>, item: AlertView)
    requires
        in_alert_order(list),
        keys_differ(list),
        !has_key(list, item.key),
    ensures
        in_alert_order(sorted_insert(list, item)),
        keys_differ(sorted_insert(list, item)),
        sorted_insert(list, item).len() == list.len() + 1,
        forall|i: int|
            0 <= i < sorted_insert(list, item).len() ==> (#[trigger] sorted_insert(list, item)[i]
                == item || list.contains(sorted_insert(list, item)[i])),
        forall|k: AlertView|
            #[trigger] sorted_insert(list, item).contains(k) <==> k == item || list.contains(k),
    decreases list.len(),
{
    if list.len() > 0 && precedes(item, list.last()) {
        let head = list.drop_last();
        let inner = sorted_insert(head, item);
        assert(!has_key(head, item.key)) by {
            assert forall|i: int| 0 <= i < head.len() implies (#[trigger] head[i]).key
                != item.key by {
                assert(head[i] == list[i]);
            }
        }
        lemma_sorted_insert(head, item);
        let out = inner.push(list.last());
        lemma_text_less_is_one_way(item.headline, list.last().headline);
        assert(list[list.len() - 1] == list.last());
        assert forall|i: int| 0 <= i < out.len() implies (#[trigger] out[i] == item
            || list.contains(out[i])) by {
            if i < inner.len() {
                assert(out[i] == inner[i]);
                if head.contains(inner[i]) {
                    assert(list[head.index_of(inner[i])] == inner[i]);
                }
            }
        }
        assert forall|i: int, j: int| 0 <= i < j < out.len() implies !precedes(
            #[trigger] out[j],
            #[trigger] out[i],
        ) && out[i].key != out[j].key by {
            if j == inner.len() {
                assert(inner[i] == item || head.contains(inner[i]));
                if inner[i] != item {
                    let k = head.index_of(inner[i]);
                    assert(list[k] == inner[i]);
                    assert(list[k].key != list[list.len() - 1].key);
                    assert(!precedes(list[list.len() - 1], list[k]));
                }
            }
        }
        assert forall|k: AlertView| #[trigger] out.contains(k) <==> k == item || list.contains(
            k,
        ) by {
            if out.contains(k) {
                let i = out.index_of(k);
                assert(out[i] == k);
            }
            if k == item || list.contains(k) {
                if k == list.last() {
                    assert(out[out.len() - 1] == k);
                } else {
                    if list.contains(k) {
                        let i = list.index_of(k);
                        assert(head[i] == k);
                        assert(head.contains(k));
                    }
                    assert(inner.contains(k));
                    let i = inner.index_of(k);
                    assert(out[i] == k);
                }
            }
        }
    } else {
        let out = list.push(item);
        assert forall|i: int| 0 <= i < out.len() implies (#[trigger] out[i] == item
            || list.contains(out[i])) by {
            if i < list.len() {
                assert(list[i] == out[i]);
            }
        }
        assert forall|i: int, j: int| 0 <= i < j < out.len() implies !precedes(
            #[trigger] out[j],
            #[trigger] out[i],
        ) && out[i].key != out[j].key by {
            if j == list.len() {
                assert(list[i].key != item.key);
                if i < list.len() - 1 {
                    assert(!precedes(list[list.len() - 1], list[i]));
                }
                if precedes(item, list[i]) && text_less(item.headline, list[i].headline) {
                    lemma_text_between(item.headline, list.last().headline, list[i].headline);
                }
            }
        }
        assert forall|k: AlertView| #[trigger] out.contains(k) <==> k == item || list.contains(
            k,
        ) by {
            if k == item {
                assert(out[out.len() - 1] == k);
            } else if list.contains(k) {
                assert(out[list.index_of(k)] == k);
            }
        }
    }
}

proof fn lemma_sorted_alerts(list: Seq<AlertView>)
    requires
        keys_differ(list),
    ensures
        in_alert_order(sorted_alerts(list)),
        keys_differ(sorted_alerts(list)),
        sorted_alerts(list).len() == list.len(),
        forall|k: AlertView| #[trigger] sorted_alerts(list).contains(k) <==> list.contains(k),
    decreases list.len(),
{
    if list.len() > 0 {
        let head = list.drop_last();
        let rest = sorted_alerts(head);
        let item = list.last();
        lemma_sorted_alerts(head);
        assert(!has_key(rest, item.key)) by {
            assert forall|i: int| 0 <= i < rest.len() implies (#[trigger] rest[i]).key
                != item.key by {
                assert(rest.contains(rest[i]));
                let k = head.index_of(rest[i]);
                assert(list[k] == rest[i]);
                assert(list[k].key != list[list.len() - 1].key);
            }
        }
        lemma_sorted_insert(rest, item);
        assert forall|k: AlertView| #[trigger] sorted_alerts(list).contains(k) <==> list.contains(
            k,
        ) by {
            if list.contains(k) && k != item {
                let i = list.index_of(k);
                assert(head[i] == k);
                assert(head.contains(k));
            }
            if head.contains(k) {
                assert(list[head.index_of(k)] == k);
            }
            assert(list[list.len() - 1] == item);
        }
    }
}

proof fn lemma_with_alert(list: Seq<AlertView>, alert: Option<AlertView>)
    requires
        keys_differ(list),
    ensures
        keys_differ(with_alert(list, alert)),
{
}

/// The alerts about a session are listed once for each kind, the most serious first, and
/// those that are equally serious by their headlines.
pub proof fn alerts_are_listed_in_order(s: SnapshotView, now: Timestamp, agent: Seq<char>)
    ensures
        keys_differ(alerts_of(s, now, agent)),
        in_alert_order(alerts_of(s, now, agent)),
        forall|a: AlertView|
            #[trigger] alerts_of(s, now, agent).contains(a) <==> found_alerts(s, now, agent).contains(a),
{
    let a = with_alert(seq![], phase_alert(s, now, agent));
    lemma_with_alert(seq![], phase_alert(s, now, agent));
    let b = with_alert(a, scope_alert(s));
    lemma_with_alert(a, scope_alert(s));
    let c = with_alert(b, test_alert(s));
    lemma_with_alert(b, test_alert(s));
    let d = with_alert(c, write_alert(s, now));
    lemma_with_alert(c, write_alert(s, now));
    lemma_with_alert(d, death_alert(s, agent));
    lemma_sorted_alerts(found_alerts(s, now, agent));
}

/// A checkpoint copies each file once, from below the working directory, and only files
/// that were modified.
pub proof fn checkpoints_copy_each_file_once(
    files: Seq<FileModification>,
    present: Seq<bool>,
    cwd: Seq<char>,
)
    ensures
        forall|i: int, j: int|
            0 <= i < j < checkpointed(files, present, cwd).len() ==> !same_path(
                (#[trigger] checkpointed(files, present, cwd)[i]).relative,
                (#[trigger] checkpointed(files, present, cwd)[j]).relative,
            ),
        forall|i: int|
            0 <= i < checkpointed(files, present, cwd).len() ==> relative_path(
                (#[trigger] checkpointed(files, present, cwd)[i]).source,
                cwd,
            ) == Some(checkpointed(files, present, cwd)[i].relative),
        forall|i: int|
            0 <= i < checkpointed(files, present, cwd).len() ==> exists|k: int|
                0 <= k < files.len() && k < present.len() && #[trigger] present[k]
                    && files[k].path@ == (#[trigger] checkpointed(files, present, cwd)[i]).source,
    decreases files.len(),
{
    if files.len() > 0 {
        let head = files.drop_last();
        let rest = checkpointed(head, present, cwd);
        let list = checkpointed(files, present, cwd);
        checkpoints_copy_each_file_once(head, present, cwd);
        assert forall|i: int| 0 <= i < list.len() implies exists|k: int|
            0 <= k < files.len() && k < present.len() && #[trigger] present[k] && files[k].path@ == (
            #[trigger] list[i]).source by {
            if i < rest.len() {
                assert(list[i] == rest[i]);
                let k = choose|k: int|
                    0 <= k < head.len() && k < present.len() && #[trigger] present[k]
                        && head[k].path@ == rest[i].source;
                assert(files[k] == head[k]);
                assert(present[k]);
            } else {
                assert(present[files.len() - 1]);
            }
        }
        assert forall|i: int, j: int| 0 <= i < j < list.len() implies !same_path(
            (#[trigger] list[i]).relative,
            (#[trigger] list[j]).relative,
        ) by {
            if j < rest.len() {
                assert(list[i] == rest[i] && list[j] == rest[j]);
            } else {
                assert(list[i] == rest[i]);
                assert(!has_copy(rest, list[j].relative));
            }
        }
    }
}

/// The file watcher reports nothing from the directories that are noise.
pub proof fn noise_is_not_reported(
    kind: NotifyKind,
    paths: Seq<NotifiedPath>,
    agent_dir: Seq<char>,
    timestamp: Timestamp,
)
    ensures
        forall|i: int|
            0 <= i < notified_events(kind, paths, agent_dir, timestamp).len() ==> !is_noise_path(
                (#[trigger] notified_events(kind, paths, agent_dir, timestamp)[i]).path@,
                agent_dir,
            ) && Some(notified_events(kind, paths, agent_dir, timestamp)[i].kind) == change_kind(
                kind,
            ),
    decreases paths.len(),
{
    if change_kind(kind) is Some && paths.len() > 0 {
        noise_is_not_reported(kind, paths.drop_last(), agent_dir, timestamp);
    }
}

/// A time that is stored and read again is the same to the millisecond, unless it lies in
/// a leap second.
pub proof fn stored_times_are_read_back(t: Timestamp)
    requires
        on_calendar(t),
        t.nanos < 1_000_000_000,
    ensures
        i64::MIN <= millis(t) <= i64::MAX,
        is_time(millis(t) as i64),
        time_of(millis(t) as i64) == (Timestamp {
            secs: t.secs,
            nanos: (t.nanos / 1_000_000 * 1_000_000) as u32,
        }),
{
}

/// A stored time that can be read is stored as the same number again.
pub proof fn read_times_are_stored_back(timestamp_ms: i64)
    requires
        is_time(timestamp_ms),
    ensures
        on_calendar(time_of(timestamp_ms)),
        millis(time_of(timestamp_ms)) == timestamp_ms,
{
}

/// Storing a state under a session twice is storing it once.
pub proof fn stored_states_keep_their_session(s: StateView, session_id: String, other: String)
    ensures
        canonical(canonical(s, session_id), session_id) == canonical(s, session_id),
        canonical(canonical(s, other), session_id) == canonical(s, session_id),
{
}

/// The most rewritten file has at least as many rewrites as any other.
pub proof fn the_most_rewritten_file_is_found(list: Seq<RewriteView>)
    requires
        list.len() > 0,
    ensures
        top_rewrite(list) is Some,
        list.contains(top_rewrite(list)->0),
        forall|i: int| 0 <= i < list.len() ==> (#[trigger] list[i]).count <= (top_rewrite(
            list,
        )->0).count,
    decreases list.len(),
{
    let head = list.drop_last();
    assert(list[list.len() - 1] == list.last());
    if head.len() > 0 {
        the_most_rewritten_file_is_found(head);
        let k = head.index_of(top_rewrite(head)->0);
        assert(list[k] == head[k]);
        assert forall|i: int| 0 <= i < list.len() implies (#[trigger] list[i]).count <= (
        top_rewrite(list)->0).count by {
            if i < head.len() {
                assert(head[i] == list[i]);
            }
        }
    }
}

/// How often calls write a path.
pub open spec fn writes_to(calls: Seq<ToolCall>, path: Seq<char>) -> nat
    decreases calls.len(),
{
    if calls.len() == 0 {
        0
    } else {
        writes_to(calls.drop_last(), path) + (if writes_file(calls.last()) && same_path(
            calls.last().file_path->0@,
            path,
        ) {
            1nat
        } else {
            0nat
        })
    }
}

proof fn lemma_rewrite_index(list: Seq<RewriteView>, path: Seq<char>, from: int)
    requires
        0 <= from <= list.len(),
    ensures
        from <= crate::loop_detector::rewrite_index(list, path, from) <= list.len(),
        crate::loop_detector::rewrite_index(list, path, from) < list.len() ==> same_path(
            list[crate::loop_detector::rewrite_index(list, path, from)].path@,
            path,
        ),
        forall|k: int|
            from <= k < crate::loop_detector::rewrite_index(list, path, from) ==> !same_path(
                (#[trigger] list[k]).path@,
                path,
            ),
    decreases list.len() - from,
{
    if from < list.len() && !same_path(list[from].path@, path) {
        lemma_rewrite_index(list, path, from + 1);
    }
}

/// Rewrites are counted exactly: each file that is written is listed once, with the number
/// of calls that write it.
pub proof fn rewrites_are_counted(calls: Seq<ToolCall>)
    ensures
        forall|i: int, j: int|
            0 <= i < j < rewrites(calls).len() ==> !same_path(
                (#[trigger] rewrites(calls)[i]).path@,
                (#[trigger] rewrites(calls)[j]).path@,
            ),
        forall|i: int|
            0 <= i < rewrites(calls).len() ==> (#[trigger] rewrites(calls)[i]).count == writes_to(
                calls,
                rewrites(calls)[i].path@,
            ),
        forall|path: Seq<char>|
            #[trigger] writes_to(calls, path) > 0 ==> exists|i: int|
                0 <= i < rewrites(calls).len() && same_path(
                    (#[trigger] rewrites(calls)[i]).path@,
                    path,
                ),
    decreases calls.len(),
{
    if calls.len() > 0 {
        let head = calls.drop_last();
        let call = calls.last();
        let rest = rewrites(head);
        let list = rewrites(calls);
        rewrites_are_counted(head);
        if writes_file(call) {
            let path = call.file_path->0;
            lemma_rewrite_index(rest, path@, 0);
            let at = crate::loop_detector::rewrite_index(rest, path@, 0);
            assert(list == with_rewrite(rest, path, call.timestamp));
            assert forall|i: int, j: int| 0 <= i < j < list.len() implies !same_path(
                (#[trigger] list[i]).path@,
                (#[trigger] list[j]).path@,
            ) by {
                if j < rest.len() {
                    assert(list[i].path == rest[i].path && list[j].path == rest[j].path);
                } else {
                    assert(list[i].path == rest[i].path);
                }
            }
            assert forall|i: int| 0 <= i < list.len() implies (#[trigger] list[i]).count
                == writes_to(calls, list[i].path@) by {
                if i < rest.len() {
                    assert(list[i].path == rest[i].path);
                    assert(rest[i].count == writes_to(head, rest[i].path@));
                    if i != at && at < rest.len() {
                        assert(!same_path(rest[i].path@, rest[at].path@));
                    }
                } else if writes_to(head, path@) > 0 {
                    let k = choose|k: int|
                        0 <= k < rest.len() && same_path((#[trigger] rest[k]).path@, path@);
                    assert(false);
                }
            }
            assert forall|p: Seq<char>| #[trigger] writes_to(calls, p) > 0 implies exists|i: int|
                0 <= i < list.len() && same_path((#[trigger] list[i]).path@, p) by {
                if same_path(path@, p) {
                    if at < rest.len() {
                        assert(list[at].path == rest[at].path);
                    } else {
                        assert(list[list.len() - 1].path == path);
                    }
                } else {
                    assert(writes_to(head, p) > 0);
                    let i = choose|i: int|
                        0 <= i < rest.len() && same_path((#[trigger] rest[i]).path@, p);
                    assert(list[i].path == rest[i].path);
                }
            }
        } else {
            assert forall|p: Seq<char>| #[trigger] writes_to(calls, p) == writes_to(head, p) by {
            }
        }
    }
}

/// A text that is cut to a width fits it, and one that fits is not cut.
pub proof fn cut_texts_fit(text: Seq<char>, width: nat)
    ensures
        truncated(text, width).len() <= width,
        text.len() <= width ==> truncated(text, width) == text,
{
    if width == 0 && text.len() == 0 {
        assert(truncated(text, width) =~= text);
    }
}

/// The parts of the status bar fill its width exactly, and each part fits its room.
pub proof fn the_status_bar_fills_its_width(bar: StatusBar, width: u16)
    ensures
        ({
            let list = bar_segments(bar, width);
            &&& list.len() == 4
            &&& list[0].width + list[1].width + list[2].width + list[3].width == width
            &&& forall|i: int|
                0 <= i < 4 ==> (#[trigger] list[i]).width >= 0 && list[i].text.len()
                    <= list[i].width
        }),
{
    let list = bar_segments(bar, width);
    assert forall|i: int| 0 <= i < 4 implies (#[trigger] list[i]).width >= 0 && list[i].text.len()
        <= list[i].width by {
        assert(i == 0 || i == 1 || i == 2 || i == 3);
    }
}

/// Scrolling down never goes beyond the end of a panel, and scrolling up never increases
/// the position.
pub proof fn scrolling_stays_in_the_panel(at: u16, key: Key, limit: u16)
    requires
        at <= limit,
    ensures
        scrolled(at, key, limit) is Some ==> scrolled(at, key, limit)->0 <= limit,
{
}

/// A key that is pressed in the guard dialog is text: the dialog's guards change only when
/// it is confirmed, and the panels stay where they are.
pub proof fn dialogs_keep_the_panels(v: TuiView, text: Seq<char>, press: KeyPress)
    ensures
        edited(v, text, press).active_panel == v.active_panel,
        edited(v, text, press).file_activity_scroll == v.file_activity_scroll,
        edited(v, text, press).alerts_scroll == v.alerts_scroll,
        !(press.key is Enter) ==> edited(v, text, press).guards == v.guards,
{
}

/// Outside the dialog keys never change the guards, and a process is signalled only where
/// one is watched.
pub proof fn keys_keep_the_guards(
    v: TuiView,
    key: Key,
    max_files: u16,
    max_alerts: u16,
    pid: Option<u32>,
)
    ensures
        steered(v, key, max_files, max_alerts).guards == v.guards,
        asked(key, None) !is Interrupt && asked(key, None) !is ForceKill,
        asked(key, pid) is Interrupt ==> pid == Some(asked(key, pid)->Interrupt_0),
        asked(key, pid) is ForceKill ==> pid == Some(asked(key, pid)->ForceKill_0),
{
}

} // verus!
