//! Laws of the terminal view: what the keys do and what the panels show.

use crate::alerts_panel::{
    alerts_of, death_alert, distinct, filled_lines, found_alerts, has_key, history_of,
    history_summary, phase_alert, scope_alert, test_alert, with_alert, worst, write_alert, AlertKey,
    AlertSeverity, AlertView,
};
use crate::clock::Timestamp;
use crate::file_activity::{
    absorbed, change_hue, entries_about, entry_for, gathered, kind_hue, kind_icon, loop_marker,
    merged_kind, numbered, repeats, shown_age, shown_change, EntryView,
};
use crate::list_laws::alerts_are_listed_in_order;
use crate::metrics_panel::{throughput, token_status, Throughput};
use crate::paths::{same_path, shown_path};
use crate::snapshot::SnapshotView;
use crate::state::{fresh_count, writes_of};
use crate::status_bar::{agent_text, phase_hue, StatusBar};
use crate::text::{decimal, is_blank, joined, lines, stripped};
use crate::tui::{
    asked, edited, filled, guard_text, guard_view, guards_in, scrolled, steered, violation_text,
    Key, KeyPress, ScrollPanel, TuiAction, TuiView,
};
use crate::types::{FileChangeKind, FileModification, FloatBits, PhaseView, ToolLineChange};
use crate::ui::{scroll_limit, shown_span, truncated, Hue};
use vstd::prelude::*;

verus! {

/// The keys that act: `q` quits, in either case, `k` interrupts and `K` kills the process
/// where there is one, and `c` saves a checkpoint. No other key acts.
pub proof fn keys_act_on_the_session(c: char, key: Key, pid: Option<u32>)
    ensures
        asked(key, pid) == TuiAction::Quit <==> key == Key::Char('q') || key == Key::Char('Q'),
        asked(Key::Char('k'), pid) == if pid is Some {
            TuiAction::Interrupt(pid->0)
        } else {
            TuiAction::Nothing
        },
        asked(Key::Char('K'), pid) == if pid is Some {
            TuiAction::ForceKill(pid->0)
        } else {
            TuiAction::Nothing
        },
        asked(key, pid) == TuiAction::SaveCheckpoint <==> key == Key::Char('c'),
        c != 'q' && c != 'Q' && c != 'k' && c != 'K' && c != 'c' ==> asked(Key::Char(c), pid)
            == TuiAction::Nothing,
        !(key is Char) ==> asked(key, pid) == TuiAction::Nothing,
{
}

/// The arrows scroll by one line, the page keys by five, and the home and end keys to the
/// ends; never above the first line or below the last. Other keys do not scroll.
pub proof fn keys_scroll_the_panel(at: u16, key: Key, limit: u16)
    requires
        at <= limit,
    ensures
        scrolled(at, Key::Up, limit) == Some(
            if at > 0 {
                (at - 1) as u16
            } else {
                0
            },
        ),
        scrolled(at, Key::Down, limit) == Some(
            if at < limit {
                (at + 1) as u16
            } else {
                limit
            },
        ),
        scrolled(at, Key::PageUp, limit) == Some(
            if at > 5 {
                (at - 5) as u16
            } else {
                0
            },
        ),
        scrolled(at, Key::PageDown, limit) == Some(
            if at + 5 < limit {
                (at + 5) as u16
            } else {
                limit
            },
        ),
        scrolled(at, Key::Home, limit) == Some(0u16),
        scrolled(at, Key::End, limit) == Some(limit),
        key is Char || key is Enter || key is Esc || key is Backspace || key is Tab ==> scrolled(
            at,
            key,
            limit,
        ) is None,
{
}

/// Outside the dialog `g` opens it with the guards of the session, the tab key goes to the
/// other panel, and a key that scrolls scrolls the active panel alone.
pub proof fn keys_steer_the_view(v: TuiView, key: Key, max_files: u16, max_alerts: u16)
    ensures
        ({
            let u = steered(v, key, max_files, max_alerts);
            &&& key == Key::Char('g') ==> u.guard_input == Some(joined(v.guards, ","@))
            &&& key != Key::Char('g') ==> u.guard_input == v.guard_input
            &&& key is Tab ==> u.active_panel != v.active_panel
            &&& !(key is Tab) ==> u.active_panel == v.active_panel
            &&& u.guards == v.guards
            &&& v.active_panel == ScrollPanel::FileActivity ==> u.alerts_scroll == v.alerts_scroll
            &&& v.active_panel == ScrollPanel::Alerts ==> u.file_activity_scroll
                == v.file_activity_scroll
            &&& v.active_panel == ScrollPanel::FileActivity && !(key is Char) && !(key is Tab)
                && scrolled(v.file_activity_scroll, key, max_files) is Some
                ==> u.file_activity_scroll == scrolled(v.file_activity_scroll, key, max_files)->0
            &&& v.active_panel == ScrollPanel::Alerts && !(key is Char) && !(key is Tab)
                && scrolled(v.alerts_scroll, key, max_alerts) is Some ==> u.alerts_scroll
                == scrolled(v.alerts_scroll, key, max_alerts)->0
        }),
{
}

/// In the dialog characters are typed and erased; enter takes over the guards that the text
/// names, and escape keeps those of before. Either closes the dialog.
pub proof fn dialogs_edit_the_guards(v: TuiView, text: Seq<char>, press: KeyPress)
    requires
        v.guard_input == Some(text),
    ensures
        ({
            let u = edited(v, text, press);
            &&& press.key is Enter ==> u.guards == guards_in(text) && u.guard_input is None
            &&& !(press.key is Enter) ==> u.guards == v.guards
            &&& press.key is Esc ==> u.guard_input is None
            &&& press.key is Backspace && text.len() > 0 ==> u.guard_input == Some(
                text.drop_last(),
            )
            &&& press.key is Char && !press.control && !press.alt ==> u.guard_input == Some(
                text.push(press.key->Char_0),
            )
            &&& press.key is Char && (press.control || press.alt) ==> u == v
        }),
{
}

/// The guards that a text names are its pieces between commas that are not blank, without
/// the white space around them.
pub proof fn guards_stand_between_commas(list: Seq<Seq<char>>, last: Seq<char>)
    ensures
        filled(Seq::<Seq<char>>::empty()).len() == 0,
        is_blank(last) ==> filled(list.push(last)) == filled(list),
        !is_blank(last) ==> filled(list.push(last)) == filled(list).push(stripped(last)),
{
    assert(list.push(last).drop_last() =~= list);
}

/// Whether an alert with a key can be raised by a source.
pub open spec fn raises(alert: Option<AlertView>, key: AlertKey) -> bool {
    alert is Some && alert->0.key == key
}

proof fn lemma_with_alert(list: Seq<AlertView>, alert: Option<AlertView>, key: AlertKey)
    ensures
        has_key(with_alert(list, alert), key) <==> has_key(list, key) || raises(alert, key),
        forall|a: AlertView|
            with_alert(list, alert).contains(a) ==> #[trigger] list.contains(a) || alert == Some(a),
{
    let all = with_alert(list, alert);
    if has_key(list, key) {
        let i = choose|i: int| 0 <= i < list.len() && (#[trigger] list[i]).key == key;
        assert(all[i] == list[i]);
    }
    if alert is Some && all.len() > list.len() {
        assert(all[list.len() as int] == alert->0);
    }
    if has_key(all, key) {
        let i = choose|i: int| 0 <= i < all.len() && (#[trigger] all[i]).key == key;
        if i < list.len() {
            assert(list[i] == all[i]);
        }
    }
    assert forall|a: AlertView| all.contains(a) implies #[trigger] list.contains(a) || alert
        == Some(a) by {
        let i = all.index_of(a);
        if i < list.len() {
            assert(list[i] == a);
        }
    }
}

/// The alerts that are shown: for a hang, a blocked task and a reset context where that is
/// the phase; for a loop of writes also after three recent writes of a file, for a loop of
/// tests also after three failures, for a leak also after any violation, and for a dead
/// session also where its process is gone. No others are shown.
pub proof fn alerts_show_what_is_wrong(s: SnapshotView, now: Timestamp, agent: Seq<char>)
    ensures
        ({
            let list = alerts_of(s, now, agent);
            let file = s.state.last_loop_file_path;
            &&& has_key(list, AlertKey::ApiHang) <==> s.phase is ApiHang
            &&& has_key(list, AlertKey::TaskBlocked) <==> s.phase is TaskBlocked
            &&& has_key(list, AlertKey::ContextReset) <==> s.phase is ContextReset
            &&& has_key(list, AlertKey::ToolLoop) <==> s.phase is ToolLoop || file is Some
                && fresh_count(writes_of(s.state.recent_file_writes, file->0@), now) as u32 >= 3
            &&& has_key(list, AlertKey::TestLoop) <==> s.phase is TestLoop
                || s.state.consecutive_test_failures >= 3
            &&& has_key(list, AlertKey::ScopeLeak) <==> s.phase is ScopeLeaking
                || s.state.scope_violation_count > 0
            &&& has_key(list, AlertKey::Dead) <==> s.phase is Dead || !s.state.process_alive
        }),
{
    lemma_shown_keys(s, now, agent, AlertKey::ApiHang);
    lemma_shown_keys(s, now, agent, AlertKey::TaskBlocked);
    lemma_shown_keys(s, now, agent, AlertKey::ContextReset);
    lemma_shown_keys(s, now, agent, AlertKey::ToolLoop);
    lemma_shown_keys(s, now, agent, AlertKey::TestLoop);
    lemma_shown_keys(s, now, agent, AlertKey::ScopeLeak);
    lemma_shown_keys(s, now, agent, AlertKey::Dead);
}

proof fn lemma_shown_keys(s: SnapshotView, now: Timestamp, agent: Seq<char>, key: AlertKey)
    ensures
        has_key(alerts_of(s, now, agent), key) <==> raises(phase_alert(s, now, agent), key)
            || raises(scope_alert(s), key) || raises(test_alert(s), key) || raises(
            write_alert(s, now),
            key,
        ) || raises(death_alert(s, agent), key),
        forall|a: AlertView|
            #[trigger] alerts_of(s, now, agent).contains(a) ==> phase_alert(s, now, agent) == Some(
                a,
            ) || scope_alert(s) == Some(a) || test_alert(s) == Some(a) || write_alert(s, now)
                == Some(a) || death_alert(s, agent) == Some(a),
{
    alerts_are_listed_in_order(s, now, agent);
    let found = found_alerts(s, now, agent);
    let list = alerts_of(s, now, agent);
    let none = Seq::<AlertView>::empty();
    let a = with_alert(none, phase_alert(s, now, agent));
    let b = with_alert(a, scope_alert(s));
    let c = with_alert(b, test_alert(s));
    let d = with_alert(c, write_alert(s, now));
    lemma_with_alert(none, phase_alert(s, now, agent), key);
    lemma_with_alert(a, scope_alert(s), key);
    lemma_with_alert(b, test_alert(s), key);
    lemma_with_alert(c, write_alert(s, now), key);
    lemma_with_alert(d, death_alert(s, agent), key);
    if has_key(found, key) {
        let i = choose|i: int| 0 <= i < found.len() && (#[trigger] found[i]).key == key;
        assert(found.contains(found[i]));
        assert(list.contains(found[i]));
        let k = list.index_of(found[i]);
        assert(list[k].key == key);
    }
    if has_key(list, key) {
        let i = choose|i: int| 0 <= i < list.len() && (#[trigger] list[i]).key == key;
        assert(list.contains(list[i]));
        assert(found.contains(list[i]));
        let k = found.index_of(list[i]);
        assert(found[k].key == key);
    }
    assert forall|x: AlertView| #[trigger] list.contains(x) implies phase_alert(s, now, agent)
        == Some(x) || scope_alert(s) == Some(x) || test_alert(s) == Some(x) || write_alert(s, now)
        == Some(x) || death_alert(s, agent) == Some(x) by {
        assert(found.contains(x));
        assert(d.contains(x) || death_alert(s, agent) == Some(x));
        assert(c.contains(x) || write_alert(s, now) == Some(x) || !d.contains(x));
        assert(b.contains(x) || test_alert(s) == Some(x) || !c.contains(x));
        assert(a.contains(x) || scope_alert(s) == Some(x) || !b.contains(x));
        assert(none.contains(x) || phase_alert(s, now, agent) == Some(x) || !a.contains(x));
    }
}

/// A dead session is critical, every other alert is a warning, and every alert says what
/// can be done.
pub proof fn dead_sessions_are_critical(
    s: SnapshotView,
    now: Timestamp,
    agent: Seq<char>,
    a: AlertView,
)
    requires
        alerts_of(s, now, agent).contains(a),
    ensures
        a.key == AlertKey::Dead ==> a.severity == AlertSeverity::Critical,
        a.key != AlertKey::Dead ==> a.severity == AlertSeverity::Warning,
        a.actions.len() > 0,
{
    lemma_shown_keys(s, now, agent, AlertKey::Dead);
}

/// The severity of several alerts is that of the most serious one, and normal without any.
pub proof fn the_worst_alert_sets_the_severity(list: Seq<AlertView>)
    ensures
        list.len() == 0 ==> worst(list) == AlertSeverity::Normal,
        forall|i: int|
            0 <= i < list.len() ==> (#[trigger] list[i]).severity.rank() <= worst(list).rank(),
        list.len() > 0 ==> exists|i: int|
            0 <= i < list.len() && (#[trigger] list[i]).severity == worst(list),
        AlertSeverity::Normal.rank() < AlertSeverity::Warning.rank()
            < AlertSeverity::Critical.rank(),
    decreases list.len(),
{
    if list.len() > 0 {
        let head = list.drop_last();
        the_worst_alert_sets_the_severity(head);
        assert(list[list.len() - 1] == list.last());
        assert forall|i: int| 0 <= i < list.len() implies (#[trigger] list[i]).severity.rank()
            <= worst(list).rank() by {
            if i < head.len() {
                assert(head[i] == list[i]);
            }
        }
        if worst(list) == worst(head) && head.len() > 0 {
            let i = choose|i: int|
                0 <= i < head.len() && (#[trigger] head[i]).severity == worst(head);
            assert(list[i] == head[i]);
        }
    }
}

/// What can be done is listed once: no text stands twice, and none is lost or made up.
pub proof fn actions_are_listed_once(list: Seq<Seq<char>>)
    ensures
        forall|i: int, j: int|
            0 <= i < j < distinct(list).len() ==> #[trigger] distinct(list)[i]
                != #[trigger] distinct(list)[j],
        forall|t: Seq<char>| #[trigger] distinct(list).contains(t) <==> list.contains(t),
    decreases list.len(),
{
    if list.len() > 0 {
        let head = list.drop_last();
        let rest = distinct(head);
        let all = distinct(list);
        actions_are_listed_once(head);
        assert(list[list.len() - 1] == list.last());
        assert forall|i: int, j: int| 0 <= i < j < all.len() implies #[trigger] all[i]
            != #[trigger] all[j] by {
            if j < rest.len() {
                assert(all[i] == rest[i] && all[j] == rest[j]);
            } else {
                assert(rest.contains(rest[i]));
            }
        }
        assert forall|t: Seq<char>| #[trigger] all.contains(t) <==> list.contains(t) by {
            if all.contains(t) {
                let i = all.index_of(t);
                if i < rest.len() {
                    assert(rest[i] == t);
                    assert(rest.contains(t));
                    let k = head.index_of(t);
                    assert(list[k] == t);
                }
            }
            if list.contains(t) {
                let k = list.index_of(t);
                if k < head.len() {
                    assert(head[k] == t);
                    assert(head.contains(t));
                    assert(rest.contains(t));
                    let i = rest.index_of(t);
                    assert(all[i] == t);
                } else if rest.contains(t) {
                    assert(all[rest.index_of(t)] == t);
                } else {
                    assert(all[all.len() - 1] == t);
                }
            }
        }
    }
}

/// The history shows the last five lines of the log that are not blank.
pub proof fn the_history_shows_the_last_lines(contents: Seq<char>)
    ensures
        ({
            let filled = lines(contents).filter(|line: Seq<char>| !is_blank(line));
            &&& filled_lines(lines(contents)) == filled
            &&& filled.len() <= 5 ==> history_of(contents).len() == filled.len()
            &&& filled.len() > 5 ==> history_of(contents).len() == 5
            &&& forall|i: int|
                0 <= i < history_of(contents).len() ==> (#[trigger] history_of(contents)[i]).summary
                    == history_summary(filled[filled.len() - history_of(contents).len() + i])
        }),
{
    lemma_filled_lines(lines(contents));
}

proof fn lemma_filled_lines(list: Seq<Seq<char>>)
    ensures
        filled_lines(list) == list.filter(|line: Seq<char>| !is_blank(line)),
    decreases list.len(),
{
    reveal(Seq::filter);
    if list.len() > 0 {
        lemma_filled_lines(list.drop_last());
    }
}

/// Of two kinds of change the stronger counts: a deletion before a creation, that before a
/// modification, and that before a read.
pub proof fn stronger_changes_count(a: FileChangeKind, b: FileChangeKind)
    ensures
        merged_kind(a, b) == merged_kind(b, a),
        merged_kind(a, a) == a,
        merged_kind(FileChangeKind::Deleted, b) == FileChangeKind::Deleted,
        b != FileChangeKind::Deleted ==> merged_kind(FileChangeKind::Created, b)
            == FileChangeKind::Created,
        b == FileChangeKind::Read || b == FileChangeKind::Modified ==> merged_kind(
            FileChangeKind::Modified,
            b,
        ) == FileChangeKind::Modified,
{
}

/// An entry of the file panel shows the time, the path relative to the directory, the kind
/// and the change of its event. An event of the same file and kind as the entry before is
/// merged with it: the entry keeps its time and learns a change that it did not know.
pub proof fn entries_show_their_event(
    event: FileModification,
    cwd: Seq<char>,
    previous: EntryView,
)
    ensures
        entry_for(event, cwd).timestamp == event.timestamp,
        entry_for(event, cwd).path == shown_path(cwd, event.path@),
        entry_for(event, cwd).path_key == event.path@,
        entry_for(event, cwd).kind == event.kind,
        entry_for(event, cwd).line_change == event.line_change,
        repeats(previous, event) <==> same_path(previous.path_key, event.path@) && previous.kind
            == event.kind,
        absorbed(previous, event).timestamp == previous.timestamp,
        absorbed(previous, event).path == previous.path,
        absorbed(previous, event).kind == merged_kind(previous.kind, event.kind),
        absorbed(previous, event).path_key == previous.path_key,
        previous.line_change is Some ==> absorbed(previous, event).line_change
            == previous.line_change,
        previous.line_change is None ==> absorbed(previous, event).line_change
            == event.line_change,
{
}

/// The file panel lists the newest events first, at most twenty entries, and no two entries
/// next to one another are of the same file and kind.
pub proof fn the_panel_lists_the_newest_files(
    files: Seq<FileModification>,
    cwd: Seq<char>,
    count: int,
)
    requires
        0 <= count <= files.len(),
    ensures
        ({
            let list = gathered(files, cwd, count);
            &&& list.len() <= 20
            &&& list.len() <= count
            &&& count > 0 ==> list.len() > 0 && list[0].path_key == files[files.len() - 1].path@
                && list[0].timestamp == files[files.len() - 1].timestamp && list[0].kind
                == files[files.len() - 1].kind
        }),
    decreases count,
{
    if count > 0 {
        the_panel_lists_the_newest_files(files, cwd, count - 1);
        let before = gathered(files, cwd, count - 1);
        if before.len() > 0 {
            assert(before.last() == before[before.len() - 1]);
        }
    }
}

/// An entry is numbered by how many entries down to it are about the same file; the first
/// one of a file is not marked.
pub proof fn repeated_files_are_numbered(entries: Seq<EntryView>, i: int)
    requires
        0 <= i < entries.len(),
        entries.len() <= u32::MAX,
    ensures
        numbered(entries).len() == entries.len(),
        numbered(entries)[i].path_key == entries[i].path_key,
        numbered(entries)[i].timestamp == entries[i].timestamp,
        1 <= numbered(entries)[i].repeat_index <= i + 1,
        (forall|k: int|
            0 <= k < i ==> !same_path((#[trigger] entries[k]).path_key, entries[i].path_key))
            ==> loop_marker(numbered(entries)[i].repeat_index) is None,
{
    let p = entries[i].path_key;
    lemma_about_bounds(entries, p, i);
    if forall|k: int| 0 <= k < i ==> !same_path((#[trigger] entries[k]).path_key, p) {
        lemma_about_none(entries, p, i);
    }
}

proof fn lemma_about_bounds(entries: Seq<EntryView>, path: Seq<char>, count: int)
    requires
        0 <= count <= entries.len(),
    ensures
        entries_about(entries, path, count) <= count,
    decreases count,
{
    if count > 0 {
        lemma_about_bounds(entries, path, count - 1);
    }
}

proof fn lemma_about_none(entries: Seq<EntryView>, path: Seq<char>, count: int)
    requires
        0 <= count <= entries.len(),
        forall|k: int| 0 <= k < count ==> !same_path((#[trigger] entries[k]).path_key, path),
    ensures
        entries_about(entries, path, count) == 0,
    decreases count,
{
    if count > 0 {
        assert(!same_path(entries[count - 1].path_key, path));
        lemma_about_none(entries, path, count - 1);
    }
}

/// A line change is shown with what was added and what was removed; nothing is shown where
/// neither was.
pub proof fn line_changes_show_both_sides(added: u32, removed: u32)
    ensures
        ({
            let shown = shown_change(Some(ToolLineChange { added, removed }));
            &&& shown is None <==> added == 0 && removed == 0
            &&& added > 0 && removed == 0 ==> shown == Some("+"@ + decimal(added as nat) + "L"@)
            &&& added == 0 && removed > 0 ==> shown == Some("-"@ + decimal(removed as nat) + "L"@)
            &&& added > 0 && removed > 0 ==> shown == Some(
                "+"@ + decimal(added as nat) + "L -"@ + decimal(removed as nat) + "L"@,
            )
            &&& shown_change(None) is None
            &&& change_hue(Some(ToolLineChange { added, removed })) == if removed > 0 && added
                == 0 {
                Hue::Red
            } else if added > 0 && removed == 0 {
                Hue::Green
            } else {
                Hue::Yellow
            }
        }),
{
}

/// The signs and colors of the kinds of change.
pub proof fn kinds_have_signs_and_colors(kind: FileChangeKind)
    ensures
        kind == FileChangeKind::Read ==> kind_icon(kind) == "○"@ && kind_hue(kind)
            == Hue::DarkGray,
        kind == FileChangeKind::Deleted ==> kind_icon(kind) == "✗"@ && kind_hue(kind) == Hue::Red,
        kind == FileChangeKind::Created ==> kind_icon(kind) == "✎"@ && kind_hue(kind)
            == Hue::Green,
        kind == FileChangeKind::Modified ==> kind_icon(kind) == "✎"@ && kind_hue(kind)
            == Hue::Cyan,
{
}

/// A span is shown in its two largest units; hours, minutes and seconds make up the whole.
pub proof fn spans_are_shown_in_two_units(h: nat, m: nat, s: nat)
    requires
        m < 60,
        s < 60,
    ensures
        h > 0 ==> shown_span(h * 3600 + m * 60 + s) == decimal(h) + "h "@ + decimal(m) + "m"@,
        m > 0 ==> shown_span(m * 60 + s) == decimal(m) + "m "@ + decimal(s) + "s"@,
        shown_span(s) == decimal(s) + "s"@,
        h > 0 && m > 0 ==> shown_age(h * 3600 + m * 60 + s) == decimal(h) + "h"@ + decimal(m)
            + "m"@,
        h > 0 ==> shown_age(h * 3600 + s) == decimal(h) + "h"@,
        0 < m < 10 && s > 0 ==> shown_age(m * 60 + s) == decimal(m) + "m"@ + decimal(s) + "s"@,
        m > 0 && (m >= 10 || s == 0) ==> shown_age(m * 60 + s) == decimal(m) + "m"@,
        shown_age(s) == decimal(s) + "s"@,
{
    let t = h * 3600 + m * 60 + s;
    assert(t / 3600 == h && t % 3600 == m * 60 + s);
    assert((m * 60 + s) / 60 == m && (m * 60 + s) % 60 == s);
    assert(t % 60 == s) by {
        assert(t == (h * 60 + m) * 60 + s);
    }
    assert((m * 60 + s) / 3600 == 0 && (m * 60 + s) % 3600 == m * 60 + s);
    assert((h * 3600 + s) / 3600 == h && (h * 3600 + s) % 3600 == s);
}

/// Token counts are active for ten seconds and frozen from then on; without any they are
/// frozen.
pub proof fn token_counts_freeze_after_ten_seconds(at: Timestamp, now: Timestamp)
    ensures
        now.gap(at) <= 10_000_000_000 ==> token_status(Some(at), now) == "↑ active"@,
        now.gap(at) > 10_000_000_000 ==> token_status(Some(at), now) == "✗ frozen ("@
            + shown_span((now.gap(at) / 1_000_000_000) as nat) + ")"@,
        token_status(None, now) == "✗ frozen"@,
{
}

/// The throughput that is shown is the greater of the two rates, and none where neither is
/// above zero.
pub proof fn the_greater_rate_is_shown(read: FloatBits, write: FloatBits)
    requires
        read.bits <= 0x7f80_0000,
        write.bits <= 0x7f80_0000,
    ensures
        read.bits == 0 && write.bits == 0 ==> throughput(read, write) == Throughput::Idle,
        write.bits > read.bits ==> throughput(read, write) == Throughput::Writing(write),
        read.bits >= write.bits && read.bits > 0 ==> throughput(read, write)
            == Throughput::Reading(read),
{
}

/// The color of a phase in the status bar.
pub proof fn phases_have_hues(phase: PhaseView)
    ensures
        phase is Working ==> phase_hue(phase) == Hue::Green,
        phase is Thinking || phase is TaskBlocked ==> phase_hue(phase) == Hue::Yellow,
        phase is ApiHang || phase is ToolLoop || phase is TestLoop || phase is ScopeLeaking
            || phase is Dead ==> phase_hue(phase) == Hue::Red,
        phase is ContextReset ==> phase_hue(phase) == Hue::Magenta,
        phase is Idle ==> phase_hue(phase) == Hue::DarkGray,
        phase is Initializing ==> phase_hue(phase) == Hue::Cyan,
{
}

/// The status bar names the agent with its process, or a dash where it has none.
pub proof fn the_bar_names_the_agent(bar: StatusBar)
    ensures
        bar.pid is Some ==> agent_text(bar) == bar.agent_name@ + " ("@ + decimal(
            bar.pid->0 as nat,
        ) + ")"@,
        bar.pid is None ==> agent_text(bar) == bar.agent_name@ + " ("@ + "-"@ + ")"@,
{
}

/// A panel can be scrolled as far as its lines exceed what fits between its borders.
pub proof fn panels_scroll_as_far_as_needed(lines: nat, height: u16)
    requires
        lines < 0x1_0000,
    ensures
        lines + 2 <= height ==> scroll_limit(lines, height) == 0,
        height >= 2 && lines + 2 > height ==> scroll_limit(lines, height) == lines + 2 - height,
        height < 2 ==> scroll_limit(lines, height) == lines,
{
}

/// A text that is too long is cut one character short of its width and ends in an ellipsis.
pub proof fn long_texts_end_in_an_ellipsis(text: Seq<char>, width: nat)
    requires
        width > 0,
        text.len() > width,
    ensures
        truncated(text, width).len() == width,
        truncated(text, width).last() == '\u{2026}',
        forall|i: int| 0 <= i < width - 1 ==> #[trigger] truncated(text, width)[i] == text[i],
{
}

/// The guard panel tells whether there are guards and how often they were violated.
pub proof fn the_guard_panel_tells_violations(s: SnapshotView)
    ensures
        ({
            let g = guard_view(s);
            let count = s.state.scope_violation_count;
            &&& g.has_guard <==> s.state.guard_paths.len() > 0
            &&& g.has_violation <==> s.state.guard_paths.len() > 0 && count > 0
            &&& !g.has_guard ==> g.guard == "GUARD: none"@
            &&& g.has_guard ==> g.guard == "GUARD: "@ + guard_text(s)
            &&& g.has_violation && count == 1 ==> g.status == "⚠ "@ + decimal(1) + " "@
                + "violation"@
            &&& g.has_violation && count > 1 ==> g.status == "⚠ "@ + decimal(count as nat) + " "@
                + "violations"@
            &&& g.has_violation ==> g.detail == "Last violation: "@ + violation_text(s)
            &&& g.has_guard && !g.has_violation ==> g.status == "✓ No violations"@
            &&& s.state.latest_scope_violation is Some ==> violation_text(s) == shown_path(
                s.cwd,
                s.state.latest_scope_violation->0@,
            )
            &&& s.state.latest_scope_violation is None ==> violation_text(s) == "-"@
        }),
{
}

} // verus!
