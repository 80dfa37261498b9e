//! Laws of the sources of events: file notifications, logs and paths.

use crate::clock::{Moment, Timestamp};
use crate::jsonl_tail::{
    concerns_log, gives_up_notify, is_ascii_space, is_blank_line, is_log, is_log_in, line_events,
    located, measured, newest_log, raw_line_event, same_snapshot, without_cr_byte, DirectoryFile,
    FileSnapshot, JsonlTailMode, NotifyKind, TailView,
};
use crate::paths::{
    base_name, file_extension, is_absolute, is_within, joined_path, kept_segments, name_extension,
    parent_parts, part_rank, parts, same_path, shared_len, within_any, last_dot,
};
use crate::session::line_event;
use crate::text::{pieces, CharClass};
use crate::text_laws::{none_of, pieces_stand_between_separators};
use crate::types::{FileChangeKind, FileModification};
use crate::watcher::{change_kind, is_noise_path, notified_events, NotifiedPath};
use vstd::prelude::*;
use vstd::utf8::{decode_utf8, valid_utf8};

verus! {

/// Creations, modifications and removals of files stand for file changes; directories and
/// everything else stand for none.
pub proof fn notifications_stand_for_changes(kind: NotifyKind)
    ensures
        change_kind(kind) == Some(FileChangeKind::Created) <==> kind == NotifyKind::CreateFile
            || kind == NotifyKind::CreateOther,
        change_kind(kind) == Some(FileChangeKind::Modified) <==> kind == NotifyKind::Modify,
        change_kind(kind) == Some(FileChangeKind::Deleted) <==> kind == NotifyKind::RemoveFile
            || kind == NotifyKind::RemoveOther,
        change_kind(kind) != Some(FileChangeKind::Read),
        kind == NotifyKind::CreateFolder || kind == NotifyKind::RemoveFolder ==> change_kind(
            kind,
        ) is None,
{
}

/// A path is noise where one of its components is the directory of a repository, of build
/// outputs, of packages, of caches, of this program or of the agent.
pub proof fn noise_is_known_by_its_directory(path: Seq<char>, agent_dir: Seq<char>)
    ensures
        is_noise_path(path, agent_dir) <==> parts(path).contains(".git"@) || parts(path).contains(
            "target"@,
        ) || parts(path).contains("node_modules"@) || parts(path).contains("__pycache__"@)
            || parts(path).contains(".saw"@) || parts(path).contains(agent_dir),
{
    let list = parts(path);
    if is_noise_path(path, agent_dir) {
        let i = choose|i: int|
            0 <= i < list.len() && crate::watcher::is_noise(#[trigger] list[i], agent_dir);
        assert(list.contains(list[i]));
    }
    if list.contains(".git"@) {
        assert(crate::watcher::is_noise(list[list.index_of(".git"@)], agent_dir));
    }
    if list.contains("target"@) {
        assert(crate::watcher::is_noise(list[list.index_of("target"@)], agent_dir));
    }
    if list.contains("node_modules"@) {
        assert(crate::watcher::is_noise(list[list.index_of("node_modules"@)], agent_dir));
    }
    if list.contains("__pycache__"@) {
        assert(crate::watcher::is_noise(list[list.index_of("__pycache__"@)], agent_dir));
    }
    if list.contains(".saw"@) {
        assert(crate::watcher::is_noise(list[list.index_of(".saw"@)], agent_dir));
    }
    if list.contains(agent_dir) {
        assert(crate::watcher::is_noise(list[list.index_of(agent_dir)], agent_dir));
    }
}

/// A notification of a change becomes one event for each of its paths that is no noise and
/// is a file or gone, in their order, with the time and the kind of the notification.
pub proof fn notified_files_become_events(
    kind: NotifyKind,
    paths: Seq<NotifiedPath>,
    agent_dir: Seq<char>,
    at: Timestamp,
)
    ensures
        change_kind(kind) is None ==> notified_events(kind, paths, agent_dir, at).len() == 0,
        change_kind(kind) is Some ==> notified_events(kind, paths, agent_dir, at) == paths.filter(
            |p: NotifiedPath| !is_noise_path(p.path@, agent_dir) && (!p.exists || p.is_file),
        ).map_values(
            |p: NotifiedPath|
                FileModification {
                    timestamp: at,
                    path: p.path,
                    kind: change_kind(kind)->0,
                    line_change: None,
                },
        ),
    decreases paths.len(),
{
    reveal(Seq::filter);
    if change_kind(kind) is Some {
        let keep = |p: NotifiedPath|
            !is_noise_path(p.path@, agent_dir) && (!p.exists || p.is_file);
        let make = |p: NotifiedPath|
            FileModification {
                timestamp: at,
                path: p.path,
                kind: change_kind(kind)->0,
                line_change: None,
            };
        if paths.len() > 0 {
            let head = paths.drop_last();
            notified_files_become_events(kind, head, agent_dir, at);
            let rest = head.filter(keep).map_values(make);
            if keep(paths.last()) {
                assert(paths.filter(keep).map_values(make) =~= rest.push(make(paths.last())));
            } else {
                assert(paths.filter(keep) =~= head.filter(keep));
            }
        } else {
            assert(paths.filter(keep).map_values(make) =~= Seq::<FileModification>::empty());
        }
    }
}

/// A line of a log stands for the event of its text, without the carriage return at its end.
/// A line of ASCII white space alone and one that is no UTF-8 stand for none.
pub proof fn lines_stand_for_the_event_of_their_text(line: Seq<u8>)
    ensures
        (forall|i: int|
            0 <= i < line.len() ==> (#[trigger] line[i]) == 32 || line[i] == 9 || line[i] == 10
                || line[i] == 12 || line[i] == 13) ==> raw_line_event(line) is None,
        !valid_utf8(line) && (line.len() == 0 || line.last() != 13) ==> raw_line_event(line)
            is None,
        valid_utf8(line) && (line.len() == 0 || line.last() != 13) && (exists|i: int|
            0 <= i < line.len() && (#[trigger] line[i]) != 32 && line[i] != 9 && line[i] != 10
                && line[i] != 12 && line[i] != 13) ==> raw_line_event(line) == line_event(
            decode_utf8(line),
        ),
        line.len() == 0 || line.last() != 13 ==> raw_line_event(line.push(13)) == raw_line_event(
            line,
        ),
{
    if forall|i: int|
        0 <= i < line.len() ==> (#[trigger] line[i]) == 32 || line[i] == 9 || line[i] == 10
            || line[i] == 12 || line[i] == 13 {
        let t = without_cr_byte(line);
        assert forall|i: int| 0 <= i < t.len() implies is_ascii_space(#[trigger] t[i]) by {
            assert(t[i] == line[i]);
        }
        assert(is_blank_line(t));
    }
    if exists|i: int|
        0 <= i < line.len() && (#[trigger] line[i]) != 32 && line[i] != 9 && line[i] != 10
            && line[i] != 12 && line[i] != 13 {
        let i = choose|i: int|
            0 <= i < line.len() && (#[trigger] line[i]) != 32 && line[i] != 9 && line[i] != 10
                && line[i] != 12 && line[i] != 13;
        assert(!is_ascii_space(line[i]));
    }
    assert(line.push(13).drop_last() =~= line);
    assert(without_cr_byte(line.push(13)) == line);
}

/// The events of a log are those of its lines, in their order.
pub proof fn logs_are_read_line_by_line(list: Seq<Seq<u8>>, line: Seq<u8>)
    ensures
        line_events(Seq::<Seq<u8>>::empty()).len() == 0,
        raw_line_event(line) is Some ==> line_events(list.push(line)) == line_events(list).push(
            raw_line_event(line)->0,
        ),
        raw_line_event(line) is None ==> line_events(list.push(line)) == line_events(list),
{
    assert(list.push(line).drop_last() =~= list);
}

proof fn lemma_newest(files: Seq<DirectoryFile>)
    ensures
        match newest_log(files) {
            Some(best) => files.contains(best) && is_log(best) && forall|i: int|
                0 <= i < files.len() && is_log(#[trigger] files[i])
                    ==> !files[i].modified.is_after(best.modified),
            None => forall|i: int| 0 <= i < files.len() ==> !is_log(#[trigger] files[i]),
        },
    decreases files.len(),
{
    if files.len() > 0 {
        let head = files.drop_last();
        lemma_newest(head);
        assert(files[files.len() - 1] == files.last());
        match newest_log(files) {
            Some(best) => {
                if newest_log(head) == Some(best) && head.contains(best) {
                    assert(files[head.index_of(best)] == best);
                }
                assert forall|i: int| 0 <= i < files.len() && is_log(#[trigger] files[i]) implies
                    !files[i].modified.is_after(best.modified) by {
                    if i < head.len() {
                        assert(head[i] == files[i]);
                    }
                }
            },
            None => {
                assert forall|i: int| 0 <= i < files.len() implies !is_log(#[trigger] files[i]) by {
                    if i < head.len() {
                        assert(head[i] == files[i]);
                    }
                }
            },
        }
    }
}

/// The newest log of a directory is a file with the extension `jsonl`, and no other such
/// file was modified after it.
pub proof fn the_newest_log_is_followed(files: Seq<DirectoryFile>)
    ensures
        match newest_log(files) {
            Some(best) => {
                &&& files.contains(best)
                &&& best.is_file
                &&& file_extension(best.path@) == Some("jsonl"@)
                &&& forall|i: int|
                    0 <= i < files.len() && (#[trigger] files[i]).is_file && file_extension(
                        files[i].path@,
                    ) == Some("jsonl"@) ==> !files[i].modified.is_after(best.modified)
            },
            None => forall|i: int|
                0 <= i < files.len() ==> !((#[trigger] files[i]).is_file && file_extension(
                    files[i].path@,
                ) == Some("jsonl"@)),
        },
{
    lemma_newest(files);
    assert forall|i: int| 0 <= i < files.len() implies is_log(#[trigger] files[i]) == (
    files[i].is_file && file_extension(files[i].path@) == Some("jsonl"@)) by {
    }
}

/// A log that is found is read on where it is the one that was read, and from its start
/// where it is another; the wait for it is over.
pub proof fn found_logs_are_read(t: TailView, path: String, now: Moment)
    ensures
        ({
            let u = located(t, Some(path), now);
            &&& same_path(path@, t.active_path@) ==> u.byte_offset == t.byte_offset && u.buffer
                == t.buffer && u.active_path == t.active_path
            &&& !same_path(path@, t.active_path@) ==> u.byte_offset == 0 && u.buffer.len() == 0
                && u.active_path == path
            &&& u.retry_backoff.nanos == 100_000_000
            &&& u.next_retry_at == now
            &&& u.mode == t.mode
            &&& u.file_path == t.file_path
        }),
{
}

/// A log that is missing is looked for again after a wait, which doubles from time to time
/// up to two seconds; what was read of it does not count any more.
pub proof fn missing_logs_are_looked_for_again(t: TailView, now: Moment)
    requires
        now.nanos + t.retry_backoff.nanos <= u128::MAX,
    ensures
        ({
            let u = located(t, None, now);
            let wait = t.retry_backoff.nanos;
            &&& now.nanos < t.next_retry_at.nanos ==> u == t
            &&& now.nanos >= t.next_retry_at.nanos ==> {
                &&& u.byte_offset == 0
                &&& u.buffer.len() == 0
                &&& u.active_path == t.file_path
                &&& u.next_retry_at.nanos == now.nanos + wait
                &&& wait * 2 <= 2_000_000_000 ==> u.retry_backoff.nanos == wait * 2
                &&& wait * 2 > 2_000_000_000 ==> u.retry_backoff.nanos == 2_000_000_000
            }
        }),
{
}

/// A log that got shorter than what was read is read from its start; any other is read on.
pub proof fn shortened_logs_are_read_again(t: TailView, file_len: u64)
    ensures
        file_len >= t.byte_offset ==> measured(t, file_len) == t,
        file_len < t.byte_offset ==> measured(t, file_len).byte_offset == 0 && measured(
            t,
            file_len,
        ).buffer.len() == 0 && measured(t, file_len).active_path == t.active_path,
{
}

/// Notifications are given up where none was ever confirmed, five seconds have passed and
/// the process is alive.
pub proof fn missing_notifications_are_given_up(t: TailView, now: Moment, process_alive: bool)
    ensures
        gives_up_notify(t, now, process_alive) <==> t.mode == JsonlTailMode::Notify
            && !t.notify_confirmed && process_alive && now.nanos >= t.last_notify_event_at.nanos
            + 5_000_000_000,
{
}

/// Two observations of a log agree where path, time and length do.
pub proof fn observations_agree_in_all(a: FileSnapshot, b: FileSnapshot)
    ensures
        same_snapshot(Some(a), Some(b)) <==> same_path(a.path@, b.path@) && a.modified
            == b.modified && a.len == b.len,
        !same_snapshot(Some(a), None),
        !same_snapshot(None, Some(b)),
        same_snapshot(None, None),
{
}

/// A notification concerns a log where a file was created, modified or removed that is a
/// log directly in the directory.
pub proof fn notifications_concern_logs_of_the_directory(
    kind: NotifyKind,
    paths: Seq<String>,
    dir: Seq<char>,
)
    ensures
        concerns_log(kind, paths, dir) <==> (kind == NotifyKind::CreateFile || kind
            == NotifyKind::Modify || kind == NotifyKind::RemoveFile) && exists|i: int|
            0 <= i < paths.len() && file_extension(#[trigger] paths[i]@) == Some("jsonl"@)
                && parent_parts(paths[i]@) == Some(parts(dir)),
{
    if concerns_log(kind, paths, dir) {
        let i = choose|i: int| 0 <= i < paths.len() && is_log_in(#[trigger] paths[i]@, dir);
        assert(file_extension(paths[i]@) == Some("jsonl"@));
    }
    if exists|i: int|
        0 <= i < paths.len() && file_extension(#[trigger] paths[i]@) == Some("jsonl"@)
            && parent_parts(paths[i]@) == Some(parts(dir)) {
        let i = choose|i: int|
            0 <= i < paths.len() && file_extension(#[trigger] paths[i]@) == Some("jsonl"@)
                && parent_parts(paths[i]@) == Some(parts(dir));
        assert(is_log_in(paths[i]@, dir));
    }
}

/// A path is absolute where it begins with a slash, and only then has the root as its first
/// component.
pub proof fn absolute_paths_begin_at_the_root(path: Seq<char>)
    ensures
        is_absolute(path) <==> path.len() > 0 && path[0] == '/',
        is_absolute(path) ==> parts(path).len() > 0 && parts(path)[0] == seq!['/'],
{
}

/// Whether a text can be the name of a file: it is not empty, holds no slash, and is not a
/// dot alone.
pub open spec fn is_name(name: Seq<char>) -> bool {
    name.len() > 0 && none_of(name, CharClass::Slash) && name != seq!['.']
}

/// A name below a path is one more component of it. Slashes at the end of a path do not
/// matter.
pub proof fn names_are_components(path: Seq<char>, name: Seq<char>)
    requires
        path.len() > 0,
        is_name(name),
    ensures
        parts(path.push('/')) == parts(path),
        parts(path.push('/') + name) == parts(path).push(name),
        parts(name) == seq![name],
        parts(seq!['/']) == seq![seq!['/']],
        parts(Seq::<char>::empty()).len() == 0,
{
    let none = Seq::<char>::empty();
    assert(none_of(none, CharClass::Slash));
    lemma_pieces_end(path, none);
    lemma_pieces_end(path, name);
    pieces_stand_between_separators(name, '/', none, CharClass::Slash);
    pieces_stand_between_separators(none, '/', none, CharClass::Slash);
    let all = pieces(path, CharClass::Slash);
    assert(path.push('/') + none =~= path.push('/'));
    lemma_pieces_some(path);
    assert(all.push(none).drop_last() =~= all);
    assert(all.push(name).drop_last() =~= all);
    assert(kept_segments(all.push(none)) == kept_segments(all));
    assert(kept_segments(all.push(name)) == kept_segments(all).push(name));
    assert(path.push('/')[0] == path[0]);
    assert((path.push('/') + name)[0] == path[0]);
    assert(parts(path.push('/')) =~= parts(path));
    assert(parts(path.push('/') + name) =~= parts(path).push(name));
    assert(name[0] != '/') by {
        assert(!crate::text::in_class(name[0], CharClass::Slash));
    }
    assert(kept_segments(Seq::<Seq<char>>::empty()) =~= Seq::<Seq<char>>::empty());
    assert(seq![name].drop_last() =~= Seq::<Seq<char>>::empty());
    assert(kept_segments(seq![name]) =~= seq![name]);
    assert(parts(name) =~= seq![name]);
    assert(none.push('/') + none =~= seq!['/']);
    assert(pieces(seq!['/'], CharClass::Slash) =~= seq![none, none]);
    assert(seq![none, none].drop_last() =~= seq![none]);
    assert(seq![none].drop_last() =~= Seq::<Seq<char>>::empty());
    assert(kept_segments(seq![none]) =~= Seq::<Seq<char>>::empty());
    assert(kept_segments(seq![none, none]) =~= Seq::<Seq<char>>::empty());
    assert(parts(seq!['/']) =~= seq![seq!['/']]);
    assert(pieces(none, CharClass::Slash) =~= seq![none]);
    assert(parts(none) =~= Seq::<Seq<char>>::empty());
}

proof fn lemma_pieces_some(s: Seq<char>)
    ensures
        pieces(s, CharClass::Slash).len() > 0,
    decreases s.len(),
{
}

proof fn lemma_pieces_end(s: Seq<char>, last: Seq<char>)
    requires
        none_of(last, CharClass::Slash),
    ensures
        pieces(s.push('/') + last, CharClass::Slash) == pieces(s, CharClass::Slash).push(last),
    decreases s.len(),
{
    let n = crate::text::run_len(s, CharClass::Slash, false) as int;
    crate::text::lemma_run_len_bounds(s, CharClass::Slash, false);
    pieces_stand_between_separators(last, '/', Seq::<char>::empty(), CharClass::Slash);
    let t = s.push('/') + last;
    if n >= s.len() {
        assert(none_of(s, CharClass::Slash));
        pieces_stand_between_separators(s, '/', last, CharClass::Slash);
        pieces_stand_between_separators(s, '/', Seq::<char>::empty(), CharClass::Slash);
        assert(seq![s] + seq![last] =~= seq![s].push(last));
    } else {
        let piece = s.take(n);
        let rest = s.skip(n + 1);
        assert(none_of(piece, CharClass::Slash)) by {
            assert forall|i: int| 0 <= i < piece.len() implies !crate::text::in_class(
                #[trigger] piece[i],
                CharClass::Slash,
            ) by {
                assert(piece[i] == s[i]);
            }
        }
        assert(s[n] == '/');
        assert(t =~= piece.push('/') + (rest.push('/') + last));
        assert(s =~= piece.push('/') + rest);
        pieces_stand_between_separators(piece, '/', rest.push('/') + last, CharClass::Slash);
        pieces_stand_between_separators(piece, '/', rest, CharClass::Slash);
        lemma_pieces_end(rest, last);
        assert(seq![piece] + pieces(rest, CharClass::Slash).push(last) =~= (seq![piece] + pieces(
            rest,
            CharClass::Slash,
        )).push(last));
    }
}

/// A path lies within another one where the components of the other one are its first; it
/// lies within one of several where it lies within any.
pub proof fn containment_goes_by_components(
    path: Seq<char>,
    base: Seq<char>,
    bases: Seq<String>,
)
    ensures
        is_within(path, base) <==> parts(base).len() <= parts(path).len() && forall|i: int|
            0 <= i < parts(base).len() ==> #[trigger] parts(path)[i] == parts(base)[i],
        same_path(path, base) <==> parts(path) == parts(base),
        within_any(path, bases) <==> exists|i: int|
            0 <= i < bases.len() && is_within(path, #[trigger] bases[i]@),
{
    let a = parts(path);
    let b = parts(base);
    if is_within(path, base) {
        assert forall|i: int| 0 <= i < b.len() implies #[trigger] a[i] == b[i] by {
            assert(a.take(b.len() as int)[i] == a[i]);
        }
    }
    if b.len() <= a.len() && forall|i: int| 0 <= i < b.len() ==> #[trigger] a[i] == b[i] {
        assert(a.take(b.len() as int) =~= b);
    }
}

/// The last component of a path is its name, and what stands after the last dot of a name,
/// where the name does not begin with it, is its extension.
pub proof fn extensions_follow_the_last_dot(path: Seq<char>, stem: Seq<char>, ext: Seq<char>)
    requires
        path.len() > 0,
        stem.len() > 0,
        none_of(stem, CharClass::Slash),
        none_of(ext, CharClass::Slash),
        forall|i: int| 0 <= i < ext.len() ==> (#[trigger] ext[i]) != '.',
        ext.len() > 0,
    ensures
        base_name(path.push('/') + (stem.push('.') + ext)) == Some(stem.push('.') + ext),
        file_extension(path.push('/') + (stem.push('.') + ext)) == Some(ext),
        name_extension(ext) is None,
        name_extension(seq!['.'] + ext) is None,
{
    let name = stem.push('.') + ext;
    assert forall|i: int| 0 <= i < name.len() implies !crate::text::in_class(
        #[trigger] name[i],
        CharClass::Slash,
    ) by {
        if i < stem.len() {
            assert(name[i] == stem[i]);
        } else if i > stem.len() {
            assert(name[i] == ext[i - stem.len() - 1]);
        }
    }
    assert(name.len() >= 3);
    names_are_components(path, name);
    assert(part_rank(name) == 3);
    lemma_last_dot(stem, ext);
    assert(name.skip((stem.len() + 1) as int) =~= ext);
    lemma_no_dot(ext);
    let none = Seq::<char>::empty();
    lemma_last_dot(none, ext);
    assert(none.push('.') + ext =~= seq!['.'] + ext);
}

proof fn lemma_no_dot(ext: Seq<char>)
    requires
        forall|i: int| 0 <= i < ext.len() ==> (#[trigger] ext[i]) != '.',
    ensures
        last_dot(ext) == -1,
    decreases ext.len(),
{
    if ext.len() > 0 {
        assert(ext[ext.len() - 1] != '.');
        let t = ext.drop_last();
        assert forall|i: int| 0 <= i < t.len() implies (#[trigger] t[i]) != '.' by {
            assert(t[i] == ext[i]);
        }
        lemma_no_dot(t);
    }
}

proof fn lemma_last_dot(stem: Seq<char>, ext: Seq<char>)
    requires
        forall|i: int| 0 <= i < ext.len() ==> (#[trigger] ext[i]) != '.',
    ensures
        last_dot(stem.push('.') + ext) == stem.len(),
    decreases ext.len(),
{
    let s = stem.push('.') + ext;
    if ext.len() == 0 {
        assert(s =~= stem.push('.'));
    } else {
        let t = ext.drop_last();
        assert(ext[ext.len() - 1] != '.');
        assert(s.last() == ext.last());
        assert(s.drop_last() =~= stem.push('.') + t);
        assert forall|i: int| 0 <= i < t.len() implies (#[trigger] t[i]) != '.' by {
            assert(t[i] == ext[i]);
        }
        lemma_last_dot(stem, t);
    }
}

/// The guard that is closest to a path shares the most leading components with it: the
/// number of those that agree up to the first that does not.
pub proof fn shared_components_lead(a: Seq<Seq<char>>, b: Seq<Seq<char>>)
    ensures
        ({
            let n = shared_len(a, b) as int;
            &&& n <= a.len()
            &&& n <= b.len()
            &&& forall|i: int| 0 <= i < n ==> #[trigger] a[i] == b[i]
            &&& n < a.len() && n < b.len() ==> a[n] != b[n]
        }),
    decreases a.len(),
{
    if a.len() > 0 && b.len() > 0 && a[0] == b[0] {
        let x = a.drop_first();
        let y = b.drop_first();
        shared_components_lead(x, y);
        let n = shared_len(a, b) as int;
        assert forall|i: int| 0 <= i < n implies #[trigger] a[i] == b[i] by {
            if i > 0 {
                assert(x[i - 1] == y[i - 1]);
            }
        }
        if n < a.len() && n < b.len() {
            assert(x[n - 1] != y[n - 1]);
        }
    }
}

/// A relative path is joined below its base; an absolute one replaces it.
pub proof fn paths_are_joined_below_their_base(base: Seq<char>, path: Seq<char>)
    ensures
        path.len() > 0 && path[0] == '/' ==> joined_path(base, path) == path,
        !(path.len() > 0 && path[0] == '/') && base.len() > 0 && base.last() != '/'
            ==> joined_path(base, path) == base + seq!['/'] + path,
        !(path.len() > 0 && path[0] == '/') && (base.len() == 0 || base.last() == '/')
            ==> joined_path(base, path) == base + path,
{
    assert(base.push('/') + path =~= base + seq!['/'] + path);
}

} // verus!
