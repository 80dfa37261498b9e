//! Snapshots of a session: what is known of it at one point in time.

use crate::alerter::{phase_label, phase_name, slice_view};
use crate::classifier::{classified, classify, ClassifierConfig};
use crate::clock::{Span, Timestamp};
use crate::common::{
    display_path, guarded_state, load_state, log_events, replayed, requested_session,
    resolve_session_selection, SessionSelection,
};
use crate::jsonl_tail::event_views;
use crate::metrics::{compute_silence, silence};
use crate::paths::{paths_equal, relative_path, same_path, shown_path, strip_base};
use crate::state::{with_process_metrics, AgentState, StateView};
use crate::text::views;
use crate::types::{
    copy_texts, text_view, AgentEvent, AgentPhase, FileChangeKind, FileModification, FloatBits,
    PhaseView, ProcessMetrics,
};
use vstd::prelude::*;

verus! {

/// Silence after which a session counts as idle.
pub const DEFAULT_IDLE_SECS: u64 = 600;

/// Silence after which an agent counts as thinking.
pub const DEFAULT_THINKING_SECS: u64 = 45;

/// What is known of a session at one point in time.
pub struct Snapshot {
    pub cwd: String,
    pub session_file: Option<String>,
    pub pid: Option<u32>,
    pub state: AgentState,
    pub phase: AgentPhase,
    pub silence: Span,
}

/// The value of a [`Snapshot`].
pub struct SnapshotView {
    pub cwd: Seq<char>,
    pub session_file: Option<Seq<char>>,
    pub pid: Option<u32>,
    pub state: StateView,
    pub phase: PhaseView,
    pub silence: Span,
}

impl View for Snapshot {
    type V = SnapshotView;

    open spec fn view(&self) -> SnapshotView {
        SnapshotView {
            cwd: self.cwd@,
            session_file: text_view(self.session_file),
            pid: self.pid,
            state: self.state@,
            phase: self.phase@,
            silence: self.silence,
        }
    }
}

/// What a snapshot is taken of.
pub struct SnapshotPlan {
    /// The running session that it shows, when there is one.
    pub live_session: Option<SessionSelection>,
    /// The log that it is read from, when there is one.
    pub session_file: Option<String>,
}

/// The running session that a snapshot shows: none where all sessions are
/// asked for, the one with the identifier where one is given, and that of the
/// working directory unless a log is named.
pub open spec fn live_session(
    sessions: Seq<SessionSelection>,
    cwd: Seq<char>,
    session_id: Option<Seq<char>>,
    has_file: bool,
    show_all: bool,
) -> Option<SessionSelection> {
    if show_all {
        None
    } else if session_id is Some {
        requested_session(sessions, Some(cwd), None, session_id)
    } else if !has_file {
        requested_session(sessions, Some(cwd), None, None)
    } else {
        None
    }
}

/// Decides which session and which log a snapshot is taken of. A log that is
/// named takes precedence over that of the session.
pub fn plan_snapshot(
    sessions: &Vec<SessionSelection>,
    cwd: &str,
    file: Option<&str>,
    session_id: Option<&str>,
    show_all: bool,
) -> (r: SnapshotPlan)
    ensures
        r.live_session == live_session(
            sessions@,
            cwd@,
            slice_view(session_id),
            file is Some,
            show_all,
        ),
        text_view(r.session_file) == match file {
            Some(path) => Some(path@),
            None => match r.live_session {
                Some(s) => Some(s.jsonl_path@),
                None => None,
            },
        },
{
    let live_session = if show_all {
        None
    } else if session_id.is_some() {
        resolve_session_selection(sessions, Some(cwd), None, session_id)
    } else if file.is_none() {
        resolve_session_selection(sessions, Some(cwd), None, None)
    } else {
        None
    };
    let session_file = match file {
        Some(path) => Some(path.to_owned()),
        None => match &live_session {
            Some(selection) => Some(selection.jsonl_path.clone()),
            None => None,
        },
    };
    SnapshotPlan { live_session, session_file }
}

/// The state with what a snapshot knows of the session besides its log.
pub open spec fn identified(s: StateView, plan: SnapshotPlan) -> StateView {
    StateView {
        session_id: match s.session_id {
            Some(id) => Some(id),
            None => match plan.live_session {
                Some(live) => Some(live.session.session_id),
                None => None,
            },
        },
        session_jsonl_path: plan.session_file,
        ..s
    }
}

/// Builds the state of a snapshot from the lines of its log. Without a log only
/// the guards are known; a log without any event is an error.
pub fn load_snapshot_state(
    plan: &SnapshotPlan,
    list: &Vec<String>,
    guards: &Vec<String>,
) -> (r: Result<AgentState, String>)
    ensures
        match plan.session_file {
            Some(path) => exists|events: Seq<AgentEvent>|
                event_views(events) == log_events(views(list@)) && match r {
                    Ok(state) => state@ == identified(
                        #[trigger] replayed(guarded_state(guards@), events),
                        *plan,
                    ) && state@.last_event_at is Some,
                    Err(message) => replayed(
                        guarded_state(guards@),
                        events,
                    ).last_event_at is None && message@ == "no parseable session events in "@
                        + path@,
                },
            None => r is Ok && r->Ok_0@ == identified(guarded_state(guards@), *plan),
        },
{
    let mut state = match &plan.session_file {
        Some(path) => match load_state(path.as_str(), list, guards) {
            Ok(state) => state,
            Err(message) => {
                return Err(message);
            },
        },
        None => {
            let mut state = AgentState::default();
            state.guard_paths = copy_texts(guards);
            assert(state@ == guarded_state(guards@));
            state
        },
    };
    if state.session_id.is_none() {
        if let Some(live) = &plan.live_session {
            state.session_id = Some(live.session.session_id.clone());
        }
    }
    state.session_jsonl_path = plan.session_file.clone();
    Ok(state)
}

/// The configuration with which a snapshot is classified.
pub open spec fn snapshot_config(timeout_secs: u64) -> ClassifierConfig {
    ClassifierConfig {
        thinking_after: Span { nanos: 45_000_000_000 },
        api_hang_after: Span { nanos: (timeout_secs * 1_000_000_000) as u128 },
        dead_after: Span { nanos: 300_000_000_000 },
        idle_after: Span { nanos: 600_000_000_000 },
        io_inactive_after: Span { nanos: 60_000_000_000 },
        tool_loop_rewrites: 3,
        test_loop_failures: 3,
    }
}

/// The state with the readings of the process; without any the process counts
/// as gone.
pub open spec fn sampled(s: StateView, metrics: Option<ProcessMetrics>) -> StateView {
    match metrics {
        Some(m) => with_process_metrics(s, m),
        None => StateView { process_alive: false, ..s },
    }
}

/// Takes a snapshot: adds the readings of the process to the state of the
/// session and classifies it.
pub fn collect_snapshot(
    cwd: String,
    plan: SnapshotPlan,
    state: AgentState,
    metrics: Option<ProcessMetrics>,
    timeout_secs: u64,
    now: Timestamp,
) -> (r: Snapshot)
    requires
        state@.recent_tool_calls.len() <= u32::MAX,
    ensures
        r.cwd == cwd,
        r.session_file == plan.session_file,
        r.pid == match plan.live_session {
            Some(live) => Some(live.pid),
            None => None,
        },
        r.phase@ == classified(
            sampled(state@, metrics),
            now,
            snapshot_config(timeout_secs),
        ),
        r.state@ == (StateView { phase: r.phase@, ..sampled(state@, metrics) }),
        r.silence.nanos == silence(sampled(state@, metrics), now),
{
    let mut state = state;
    match metrics {
        Some(metrics) => {
            state.apply(&AgentEvent::ProcessMetrics(metrics));
        },
        None => {
            state.process_alive = false;
        },
    }
    let mut cfg = ClassifierConfig::default();
    cfg.thinking_after = Span::from_secs(DEFAULT_THINKING_SECS);
    cfg.api_hang_after = Span::from_secs(timeout_secs);
    cfg.idle_after = Span::from_secs(DEFAULT_IDLE_SECS);
    assert(cfg == snapshot_config(timeout_secs));
    let phase = classify(&state, now, cfg);
    let silence = compute_silence(&state, now);
    state.phase = phase.clone();
    let pid = match &plan.live_session {
        Some(live) => Some(live.pid),
        None => None,
    };
    Snapshot { cwd, session_file: plan.session_file, pid, state, phase, silence }
}

/// A recent file of a status report.
#[derive(Debug, PartialEq, Eq)]
pub struct RecentFileEntry {
    pub path: String,
    pub kind: String,
    pub age_secs: u64,
}

/// The value of a [`RecentFileEntry`].
pub struct RecentFileView {
    pub path: Seq<char>,
    pub kind: Seq<char>,
    pub age_secs: u64,
}

impl View for RecentFileEntry {
    type V = RecentFileView;

    open spec fn view(&self) -> RecentFileView {
        RecentFileView { path: self.path@, kind: self.kind@, age_secs: self.age_secs }
    }
}

/// The name of a kind of change.
pub open spec fn change_name(kind: FileChangeKind) -> Seq<char> {
    match kind {
        FileChangeKind::Read => "Read"@,
        FileChangeKind::Created => "Created"@,
        FileChangeKind::Modified => "Modified"@,
        FileChangeKind::Deleted => "Deleted"@,
    }
}

fn name_change(kind: FileChangeKind) -> (r: &'static str)
    ensures
        r@ == change_name(kind),
{
    match kind {
        FileChangeKind::Read => "Read",
        FileChangeKind::Created => "Created",
        FileChangeKind::Modified => "Modified",
        FileChangeKind::Deleted => "Deleted",
    }
}

/// The age of a time in whole seconds; zero for a time in the future.
pub open spec fn age_secs(now: Timestamp, then: Timestamp) -> u64 {
    match now.since(then) {
        Some(elapsed) => if elapsed / 1_000_000_000 <= u64::MAX {
            (elapsed / 1_000_000_000) as u64
        } else {
            u64::MAX
        },
        None => 0,
    }
}

/// Computes the age of a time in whole seconds.
pub fn age_in_secs(now: Timestamp, earlier: Timestamp) -> (r: u64)
    ensures
        r == age_secs(now, earlier),
{
    match now.checked_since(earlier) {
        Some(span) => span.as_capped_secs(),
        None => 0,
    }
}

/// The last files of a list as a status report shows them, the last one first.
pub open spec fn recent_files(
    files: Seq<FileModification>,
    cwd: Seq<char>,
    now: Timestamp,
    count: nat,
) -> Seq<RecentFileView> {
    Seq::new(
        if files.len() < count {
            files.len()
        } else {
            count
        },
        |i: int|
            RecentFileView {
                path: shown_path(cwd, files[files.len() - 1 - i].path@),
                kind: change_name(files[files.len() - 1 - i].kind),
                age_secs: age_secs(now, files[files.len() - 1 - i].timestamp),
            },
    )
}

/// The values of the recent files of a status report.
pub open spec fn entry_views(list: Seq<RecentFileEntry>) -> Seq<RecentFileView> {
    list.map_values(|e: RecentFileEntry| e@)
}

fn list_recent_files(state: &AgentState, cwd: &str, now: Timestamp) -> (r: Vec<RecentFileEntry>)
    ensures
        entry_views(r@) == recent_files(state@.recently_modified_files, cwd@, now, 8),
{
    let ghost files = state@.recently_modified_files;
    let ghost all = recent_files(files, cwd@, now, 8);
    let total: usize = state.recently_modified_files.len();
    let count: usize = if total < 8 {
        total
    } else {
        8
    };
    let mut out: Vec<RecentFileEntry> = Vec::new();
    let mut i: usize = 0;
    assert(entry_views(out@) =~= all.take(0));
    while i < count
        invariant
            i <= count <= total,
            count == all.len(),
            files == state@.recently_modified_files,
            total == files.len(),
            all == recent_files(files, cwd@, now, 8),
            entry_views(out@) == all.take(i as int),
        decreases count - i,
    {
        let file = &state.recently_modified_files[total - 1 - i];
        let ghost before = out@;
        let entry = RecentFileEntry {
            path: display_path(cwd, file.path.as_str()),
            kind: name_change(file.kind).to_owned(),
            age_secs: age_in_secs(now, file.timestamp),
        };
        assert(entry@ == all[i as int]);
        out.push(entry);
        assert(entry_views(out@) =~= entry_views(before).push(entry@));
        assert(all.take(i + 1) =~= all.take(i as int).push(all[i as int]));
        i = i + 1;
    }
    assert(all.take(i as int) =~= all);
    out
}

/// A status report.
pub struct StatusJson {
    pub cwd: String,
    pub pid: Option<u32>,
    pub session_id: Option<String>,
    pub session_file: Option<String>,
    pub phase: &'static str,
    pub last_file: Option<String>,
    pub silence_secs: u64,
    pub process_alive: bool,
    pub cpu_percent: FloatBits,
    pub rss_bytes: u64,
    pub virtual_bytes: u64,
    pub io_read_bytes: u64,
    pub io_write_bytes: u64,
    pub compact_count: u64,
    pub last_tool: Option<String>,
    pub last_command: Option<String>,
    pub guard_paths: Vec<String>,
    pub recent_files: Vec<RecentFileEntry>,
    pub state: AgentState,
}

/// Reports the status that a snapshot shows.
pub fn snapshot_json(snapshot: &Snapshot, now: Timestamp) -> (r: StatusJson)
    ensures
        r.cwd == snapshot.cwd,
        r.pid == snapshot.pid,
        r.session_id == snapshot.state.session_id,
        r.session_file == snapshot.session_file,
        r.phase@ == phase_name(snapshot.phase@),
        text_view(r.last_file) == match snapshot.state.last_file_path {
            Some(path) => Some(shown_path(snapshot.cwd@, path@)),
            None => None,
        },
        r.silence_secs == snapshot.silence.capped_secs(),
        r.process_alive == snapshot.state.process_alive,
        r.cpu_percent == snapshot.state.latest_cpu_percent,
        r.rss_bytes == snapshot.state.latest_rss_bytes,
        r.virtual_bytes == snapshot.state.latest_virtual_bytes,
        r.io_read_bytes == snapshot.state.latest_io_read_bytes,
        r.io_write_bytes == snapshot.state.latest_io_write_bytes,
        r.compact_count == snapshot.state.compact_count,
        r.last_tool == snapshot.state.last_tool_name,
        r.last_command == snapshot.state.last_command,
        r.guard_paths@ == snapshot.state.guard_paths@,
        entry_views(r.recent_files@) == recent_files(
            snapshot.state@.recently_modified_files,
            snapshot.cwd@,
            now,
            8,
        ),
        r.state@ == snapshot.state@,
{
    let state = &snapshot.state;
    StatusJson {
        cwd: snapshot.cwd.clone(),
        pid: snapshot.pid,
        session_id: state.session_id.clone(),
        session_file: snapshot.session_file.clone(),
        phase: phase_label(&snapshot.phase),
        last_file: match &state.last_file_path {
            Some(path) => Some(display_path(snapshot.cwd.as_str(), path.as_str())),
            None => None,
        },
        silence_secs: snapshot.silence.as_capped_secs(),
        process_alive: state.process_alive,
        cpu_percent: state.latest_cpu_percent,
        rss_bytes: state.latest_rss_bytes,
        virtual_bytes: state.latest_virtual_bytes,
        io_read_bytes: state.latest_io_read_bytes,
        io_write_bytes: state.latest_io_write_bytes,
        compact_count: state.compact_count,
        last_tool: state.last_tool_name.clone(),
        last_command: state.last_command.clone(),
        guard_paths: copy_texts(&state.guard_paths),
        recent_files: list_recent_files(state, snapshot.cwd.as_str(), now),
        state: state.clone(),
    }
}

/// A file of a checkpoint: where it lies, and where below the checkpoint its
/// copy goes.
#[derive(Debug, PartialEq, Eq)]
pub struct CheckpointFile {
    pub source: String,
    pub relative: String,
}

/// The value of a [`CheckpointFile`].
pub struct CheckpointView {
    pub source: Seq<char>,
    pub relative: Seq<char>,
}

impl View for CheckpointFile {
    type V = CheckpointView;

    open spec fn view(&self) -> CheckpointView {
        CheckpointView { source: self.source@, relative: self.relative@ }
    }
}

/// The values of the files of a checkpoint.
pub open spec fn checkpoint_views(list: Seq<CheckpointFile>) -> Seq<CheckpointView> {
    list.map_values(|f: CheckpointFile| f@)
}

/// Whether a list of files already holds a copy at a place.
pub open spec fn has_copy(list: Seq<CheckpointView>, relative: Seq<char>) -> bool {
    exists|i: int| 0 <= i < list.len() && same_path((#[trigger] list[i]).relative, relative)
}

/// The files of a checkpoint: each file of a list that exists below the working
/// directory, once.
pub open spec fn checkpointed(
    files: Seq<FileModification>,
    present: Seq<bool>,
    cwd: Seq<char>,
) -> Seq<CheckpointView>
    decreases files.len(),
{
    if files.len() == 0 {
        seq![]
    } else {
        let rest = checkpointed(files.drop_last(), present, cwd);
        let path = files.last().path@;
        match relative_path(path, cwd) {
            Some(relative) => if present.len() >= files.len() && present[files.len() - 1]
                && !has_copy(rest, relative) {
                rest.push(CheckpointView { source: path, relative })
            } else {
                rest
            },
            None => rest,
        }
    }
}

fn copied(list: &Vec<CheckpointFile>, relative: &str) -> (r: bool)
    ensures
        r == has_copy(checkpoint_views(list@), relative@),
{
    let ghost all = checkpoint_views(list@);
    let mut i: usize = 0;
    while i < list.len()
        invariant
            i <= list@.len(),
            all == checkpoint_views(list@),
            forall|k: int| 0 <= k < i ==> !same_path((#[trigger] all[k]).relative, relative@),
        decreases list@.len() - i,
    {
        assert(all[i as int] == list@[i as int]@);
        if paths_equal(list[i].relative.as_str(), relative) {
            return true;
        }
        i = i + 1;
    }
    false
}

/// Picks the files of a checkpoint out of the recently modified ones. For each
/// of those, `present` says whether it exists.
pub fn checkpoint_files(state: &AgentState, present: &Vec<bool>, cwd: &str) -> (r: Vec<
    CheckpointFile,
>)
    ensures
        checkpoint_views(r@) == checkpointed(state@.recently_modified_files, present@, cwd@),
{
    let ghost files = state@.recently_modified_files;
    let mut out: Vec<CheckpointFile> = Vec::new();
    let mut i: usize = 0;
    assert(files.take(0) =~= seq![]);
    assert(checkpoint_views(out@) =~= seq![]);
    while i < state.recently_modified_files.len()
        invariant
            i <= files.len(),
            files == state@.recently_modified_files,
            checkpoint_views(out@) == checkpointed(files.take(i as int), present@, cwd@),
        decreases files.len() - i,
    {
        assert(files.take(i + 1).drop_last() =~= files.take(i as int));
        assert(files.take(i + 1).last() == files[i as int]);
        let file = &state.recently_modified_files[i];
        if i < present.len() && present[i] {
            if let Some(relative) = strip_base(file.path.as_str(), cwd) {
                if !copied(&out, relative.as_str()) {
                    let ghost before = out@;
                    let item = CheckpointFile { source: file.path.clone(), relative };
                    out.push(item);
                    assert(checkpoint_views(out@) =~= checkpoint_views(before).push(item@));
                }
            }
        }
        i = i + 1;
    }
    assert(files.take(i as int) =~= files);
    out
}

} // verus!
