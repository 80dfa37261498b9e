//! File events of a watched project.

use crate::clock::Timestamp;
use crate::jsonl_tail::NotifyKind;
use crate::paths::{absolute, components, is_absolute, join_path, joined_path, parts};
use crate::text::{same_text, views};
use crate::types::{FileChangeKind, FileModification};
use vstd::prelude::*;

verus! {

/// How often the project is polled by the notification backend, in nanoseconds.
pub const WATCHER_POLL_INTERVAL_NANOS: u128 = 100_000_000;

/// The kind of file change that a notification stands for.
pub open spec fn change_kind(kind: NotifyKind) -> Option<FileChangeKind> {
    match kind {
        NotifyKind::CreateFile => Some(FileChangeKind::Created),
        NotifyKind::CreateOther => Some(FileChangeKind::Created),
        NotifyKind::Modify => Some(FileChangeKind::Modified),
        NotifyKind::RemoveFile => Some(FileChangeKind::Deleted),
        NotifyKind::RemoveOther => Some(FileChangeKind::Deleted),
        _ => None,
    }
}

/// Decides the kind of file change that a notification stands for.
pub fn map_event_kind(kind: NotifyKind) -> (r: Option<FileChangeKind>)
    ensures
        r == change_kind(kind),
{
    match kind {
        NotifyKind::CreateFile => Some(FileChangeKind::Created),
        NotifyKind::CreateOther => Some(FileChangeKind::Created),
        NotifyKind::Modify => Some(FileChangeKind::Modified),
        NotifyKind::RemoveFile => Some(FileChangeKind::Deleted),
        NotifyKind::RemoveOther => Some(FileChangeKind::Deleted),
        _ => None,
    }
}

/// Whether a component names a directory whose changes are noise; `agent_dir` is
/// the name under which the agent keeps its own records.
pub open spec fn is_noise(part: Seq<char>, agent_dir: Seq<char>) -> bool {
    part == ".git"@ || part == "target"@ || part == "node_modules"@ || part == "__pycache__"@
        || part == ".saw"@ || part == agent_dir
}

/// Whether a path lies in a directory whose changes are noise.
pub open spec fn is_noise_path(path: Seq<char>, agent_dir: Seq<char>) -> bool {
    exists|i: int| 0 <= i < parts(path).len() && is_noise(#[trigger] parts(path)[i], agent_dir)
}

/// Decides whether a path lies in a directory whose changes are noise.
pub fn should_ignore_path(path: &str, agent_dir: &str) -> (r: bool)
    ensures
        r == is_noise_path(path@, agent_dir@),
{
    let list = components(path);
    let mut i: usize = 0;
    while i < list.len()
        invariant
            i <= list@.len(),
            views(list@) == parts(path@),
            forall|k: int| 0 <= k < i ==> !is_noise(#[trigger] parts(path@)[k], agent_dir@),
        decreases list@.len() - i,
    {
        assert(parts(path@)[i as int] == list@[i as int]@);
        let part = list[i].as_str();
        if same_text(part, ".git") || same_text(part, "target") || same_text(part, "node_modules")
            || same_text(part, "__pycache__") || same_text(part, ".saw") || same_text(
            part,
            agent_dir,
        ) {
            return true;
        }
        i = i + 1;
    }
    false
}

/// An absolute form of a path that may be relative to the project.
pub fn normalize_input_path(project_dir: &str, path: &str) -> (r: String)
    ensures
        r@ == (if is_absolute(path@) {
            path@
        } else {
            joined_path(project_dir@, path@)
        }),
{
    if absolute(path) {
        path.to_owned()
    } else {
        join_path(project_dir, path)
    }
}

/// A path of a notification, with what the file system says of it.
#[derive(Debug, PartialEq, Eq)]
pub struct NotifiedPath {
    pub path: String,
    pub exists: bool,
    pub is_file: bool,
}

/// Whether a notified path counts: it is no noise, and it is a file or gone.
pub open spec fn is_tracked(path: NotifiedPath, agent_dir: Seq<char>) -> bool {
    !is_noise_path(path.path@, agent_dir) && (!path.exists || path.is_file)
}

/// The file events of a notification.
pub open spec fn notified_events(
    kind: NotifyKind,
    paths: Seq<NotifiedPath>,
    agent_dir: Seq<char>,
    timestamp: Timestamp,
) -> Seq<FileModification>
    decreases paths.len(),
{
    if change_kind(kind) is None || paths.len() == 0 {
        seq![]
    } else {
        let rest = notified_events(kind, paths.drop_last(), agent_dir, timestamp);
        if is_tracked(paths.last(), agent_dir) {
            rest.push(
                FileModification {
                    timestamp,
                    path: paths.last().path,
                    kind: change_kind(kind)->0,
                    line_change: None,
                },
            )
        } else {
            rest
        }
    }
}

/// Turns a notification into file events.
pub fn file_events(
    kind: NotifyKind,
    paths: &Vec<NotifiedPath>,
    agent_dir: &str,
    timestamp: Timestamp,
) -> (r: Vec<FileModification>)
    ensures
        r@ == notified_events(kind, paths@, agent_dir@, timestamp),
{
    let mut out: Vec<FileModification> = Vec::new();
    let change = match map_event_kind(kind) {
        Some(change) => change,
        None => {
            return out;
        },
    };
    let ghost all = paths@;
    let mut i: usize = 0;
    assert(all.take(0) =~= seq![]);
    while i < paths.len()
        invariant
            i <= all.len(),
            all == paths@,
            change_kind(kind) == Some(change),
            out@ == notified_events(kind, all.take(i as int), agent_dir@, timestamp),
        decreases all.len() - i,
    {
        assert(all.take(i + 1).drop_last() =~= all.take(i as int));
        assert(all.take(i + 1).last() == all[i as int]);
        if !should_ignore_path(paths[i].path.as_str(), agent_dir) && (!paths[i].exists || paths[i].is_file) {
            out.push(
                FileModification {
                    timestamp,
                    path: paths[i].path.clone(),
                    kind: change,
                    line_change: None,
                },
            );
        }
        i = i + 1;
    }
    assert(all.take(i as int) =~= all);
    out
}

} // verus!
