//! The status command: which sessions are shown, and how.

use crate::alerter::{phase_label, phase_name, slice_view};
use crate::common::{
    display_path, exit_code, in_directory, sessions_for_cwd, status_exit_code, SessionSelection,
};
use crate::paths::shown_path;
use crate::snapshot::{Snapshot, SnapshotView};
use crate::text::{decimal, push_decimal, same_text};
use crate::types::{text_view, AgentPhase, PhaseView};
use crate::watch::or_dash;
use vstd::prelude::*;

verus! {

/// The sign of a phase.
pub open spec fn glyph(phase: PhaseView) -> Seq<char> {
    match phase {
        PhaseView::Working => "●"@,
        PhaseView::Thinking => "◐"@,
        PhaseView::ApiHang(_) => "⚠"@,
        PhaseView::ToolLoop { .. } => "⚠"@,
        PhaseView::TestLoop { .. } => "⚠"@,
        PhaseView::TaskBlocked { .. } => "⚠"@,
        PhaseView::ContextReset => "⚠"@,
        PhaseView::ScopeLeaking { .. } => "✖"@,
        PhaseView::Dead => "☠"@,
        PhaseView::Idle(_) => "○"@,
        _ => "·"@,
    }
}

/// The sign of a phase.
pub fn status_glyph(phase: &AgentPhase) -> (r: &'static str)
    ensures
        r@ == glyph(phase@),
{
    match phase {
        AgentPhase::Working => "●",
        AgentPhase::Thinking => "◐",
        AgentPhase::ApiHang(_) => "⚠",
        AgentPhase::ToolLoop { .. } => "⚠",
        AgentPhase::TestLoop { .. } => "⚠",
        AgentPhase::TaskBlocked { .. } => "⚠",
        AgentPhase::ContextReset => "⚠",
        AgentPhase::ScopeLeaking { .. } => "✖",
        AgentPhase::Dead => "☠",
        AgentPhase::Idle(_) => "○",
        _ => "·",
    }
}

/// The last file of a snapshot as it is shown.
pub open spec fn last_file(s: SnapshotView) -> Seq<char> {
    or_dash(
        match s.state.last_file_path {
            Some(path) => Some(shown_path(s.cwd, path@)),
            None => None,
        },
    )
}

/// A status line up to the CPU load. With a list of sessions it names the
/// session.
pub open spec fn status_text(s: SnapshotView, listed: bool) -> Seq<char> {
    glyph(s.phase) + " "@ + phase_name(s.phase) + (if listed {
        "  session="@ + (match s.state.session_id {
            Some(id) => id@,
            None => "unknown"@,
        })
    } else {
        ""@
    }) + "  "@ + last_file(s) + " ("@ + decimal(s.silence.secs()) + "s ago)  cpu: "@
}

/// Writes a status line up to the CPU load.
pub fn status_line(snapshot: &Snapshot, listed: bool) -> (r: String)
    ensures
        r@ == status_text(snapshot@, listed),
{
    let mut out: String = status_glyph(&snapshot.phase).to_owned();
    out.append(" ");
    out.append(phase_label(&snapshot.phase));
    let mut session: String = "".to_owned();
    if listed {
        session = "  session=".to_owned();
        match &snapshot.state.session_id {
            Some(id) => {
                session.append(id.as_str());
            },
            None => {
                session.append("unknown");
            },
        }
    }
    out.append(session.as_str());
    out.append("  ");
    match &snapshot.state.last_file_path {
        Some(path) => {
            out.append(display_path(snapshot.cwd.as_str(), path.as_str()).as_str());
        },
        None => {
            out.append("-");
        },
    }
    out.append(" (");
    push_decimal(&mut out, snapshot.silence.as_secs());
    out.append("s ago)  cpu: ");
    out
}

/// The exit code that reports several snapshots: the largest of theirs.
pub open spec fn worst_code(list: Seq<Snapshot>) -> i32
    decreases list.len(),
{
    if list.len() == 0 {
        0
    } else {
        let rest = worst_code(list.drop_last());
        let own = exit_code(list.last()@.phase);
        if own > rest {
            own
        } else {
            rest
        }
    }
}

/// Computes the exit code that reports several snapshots.
pub fn all_exit_code(snapshots: &Vec<Snapshot>) -> (r: i32)
    ensures
        r == worst_code(snapshots@),
{
    let ghost all = snapshots@;
    let mut out: i32 = 0;
    let mut i: usize = 0;
    assert(all.take(0) =~= seq![]);
    while i < snapshots.len()
        invariant
            i <= all.len(),
            all == snapshots@,
            out == worst_code(all.take(i as int)),
        decreases all.len() - i,
    {
        assert(all.take(i + 1).drop_last() =~= all.take(i as int));
        assert(all.take(i + 1).last() == all[i as int]);
        let own = status_exit_code(&snapshots[i].phase);
        if own > out {
            out = own;
        }
        i = i + 1;
    }
    assert(all.take(i as int) =~= all);
    out
}

/// What a snapshot is asked of: a log, a directory and a session.
#[derive(Debug, PartialEq, Eq)]
pub struct SnapshotRequest {
    pub file: Option<String>,
    pub dir: String,
    pub session_id: Option<String>,
}

/// The value of a [`SnapshotRequest`].
pub struct RequestView {
    pub file: Option<Seq<char>>,
    pub dir: Seq<char>,
    pub session_id: Option<Seq<char>>,
}

impl View for SnapshotRequest {
    type V = RequestView;

    open spec fn view(&self) -> RequestView {
        RequestView {
            file: text_view(self.file),
            dir: self.dir@,
            session_id: text_view(self.session_id),
        }
    }
}

/// The request for a session.
pub open spec fn request_for(s: SessionSelection) -> RequestView {
    RequestView {
        file: Some(s.jsonl_path@),
        dir: s.session.directory(),
        session_id: Some(s.session.session_id@),
    }
}

/// Asks for a session.
pub fn request_session(selection: &SessionSelection) -> (r: SnapshotRequest)
    ensures
        r@ == request_for(*selection),
{
    SnapshotRequest {
        file: Some(selection.jsonl_path.clone()),
        dir: selection.session.cwd_path(),
        session_id: Some(selection.session.session_id.clone()),
    }
}

fn owned(text: Option<&str>) -> (r: Option<String>)
    ensures
        text_view(r) == slice_view(text),
{
    match text {
        Some(t) => Some(t.to_owned()),
        None => None,
    }
}

/// Asks for what the command line names.
pub fn request_named(cwd: &str, file: Option<&str>, session_id: Option<&str>) -> (r:
    SnapshotRequest)
    ensures
        r@ == (RequestView {
            file: slice_view(file),
            dir: cwd@,
            session_id: slice_view(session_id),
        }),
{
    SnapshotRequest { file: owned(file), dir: cwd.to_owned(), session_id: owned(session_id) }
}

/// The sessions with an identifier.
pub open spec fn identified_sessions(list: Seq<SessionSelection>, id: Seq<char>) -> Seq<
    SessionSelection,
>
    decreases list.len(),
{
    if list.len() == 0 {
        seq![]
    } else {
        let rest = identified_sessions(list.drop_last(), id);
        if list.last().session.session_id@ == id {
            rest.push(list.last())
        } else {
            rest
        }
    }
}

fn sessions_with_id(sessions: &Vec<SessionSelection>, id: &str) -> (r: Vec<SessionSelection>)
    ensures
        r@ == identified_sessions(sessions@, id@),
{
    let ghost all = sessions@;
    let mut out: Vec<SessionSelection> = Vec::new();
    let mut i: usize = 0;
    assert(all.take(0) =~= seq![]);
    while i < sessions.len()
        invariant
            i <= all.len(),
            all == sessions@,
            out@ == identified_sessions(all.take(i as int), id@),
        decreases all.len() - i,
    {
        assert(all.take(i + 1).drop_last() =~= all.take(i as int));
        assert(all.take(i + 1).last() == all[i as int]);
        if same_text(sessions[i].session.session_id.as_str(), id) {
            out.push(sessions[i].clone());
        }
        i = i + 1;
    }
    assert(all.take(i as int) =~= all);
    out
}

/// The sessions that a list shows: those with an identifier where one is given,
/// else those of the working directory.
pub open spec fn listed_sessions(
    sessions: Seq<SessionSelection>,
    cwd: Seq<char>,
    session_id: Option<Seq<char>>,
) -> Seq<SessionSelection> {
    match session_id {
        Some(id) => identified_sessions(sessions, id),
        None => in_directory(sessions, Some(cwd)),
    }
}

/// The requests of a list: one for a log that is named, else one for each
/// session.
pub open spec fn listed_requests(
    sessions: Seq<SessionSelection>,
    cwd: Seq<char>,
    file: Option<Seq<char>>,
    session_id: Option<Seq<char>>,
) -> Seq<RequestView> {
    match file {
        Some(_) => seq![RequestView { file, dir: cwd, session_id }],
        None => listed_sessions(sessions, cwd, session_id).map_values(
            |s: SessionSelection| request_for(s),
        ),
    }
}

/// The values of a list of requests.
pub open spec fn request_views(list: Seq<SnapshotRequest>) -> Seq<RequestView> {
    list.map_values(|r: SnapshotRequest| r@)
}

/// Decides which snapshots a list shows.
pub fn collect_all_requests(
    sessions: &Vec<SessionSelection>,
    cwd: &str,
    file: Option<&str>,
    session_id: Option<&str>,
) -> (r: Vec<SnapshotRequest>)
    ensures
        request_views(r@) == listed_requests(
            sessions@,
            cwd@,
            slice_view(file),
            slice_view(session_id),
        ),
{
    let mut out: Vec<SnapshotRequest> = Vec::new();
    if file.is_some() {
        let request = request_named(cwd, file, session_id);
        out.push(request);
        assert(request_views(out@) =~= seq![request@]);
        return out;
    }
    let matching = match session_id {
        Some(id) => sessions_with_id(sessions, id),
        None => sessions_for_cwd(sessions, Some(cwd)),
    };
    let ghost all = matching@.map_values(|s: SessionSelection| request_for(s));
    let mut i: usize = 0;
    assert(request_views(out@) =~= all.take(0));
    while i < matching.len()
        invariant
            i <= matching@.len(),
            all == matching@.map_values(|s: SessionSelection| request_for(s)),
            request_views(out@) == all.take(i as int),
        decreases matching@.len() - i,
    {
        let request = request_session(&matching[i]);
        let ghost shorter = out@;
        out.push(request);
        assert(request_views(out@) =~= request_views(shorter).push(request@));
        assert(all.take(i + 1) =~= all.take(i as int).push(request@));
        i = i + 1;
    }
    assert(all.take(i as int) =~= all);
    out
}

/// Decides whether the user is asked which session is shown: where neither a log
/// nor a session is named and several run in the working directory.
pub fn needs_choice(matching: &Vec<SessionSelection>, file: Option<&str>, session_id: Option<&str>) -> (r:
    bool)
    ensures
        r == (file is None && session_id is None && matching@.len() > 1),
{
    file.is_none() && session_id.is_none() && matching.len() > 1
}

} // verus!
