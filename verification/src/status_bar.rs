//! The status bar.

use crate::alerter::{phase_label, phase_name};
use crate::clock::{Span, Timestamp};
use crate::snapshot::Snapshot;
use crate::text::{chars_of, decimal, push_decimal};
use crate::types::{AgentPhase, PhaseView};
use crate::ui::{
    elapsed_from, elapsed_since_known, format_duration, shown_span, truncate_text, truncated, Hue,
};
use vstd::prelude::*;

verus! {

/// The keys that the bar explains.
pub const KEYBINDINGS: &'static str = "[q]uit [k]ill [?]help";

/// The color of a phase: green for work, yellow for a wait, red for trouble,
/// magenta for a lost context, gray for a pause, cyan before the first event.
pub open spec fn phase_hue(phase: PhaseView) -> Hue {
    match phase {
        PhaseView::Working => Hue::Green,
        PhaseView::Thinking => Hue::Yellow,
        PhaseView::TaskBlocked { .. } => Hue::Yellow,
        PhaseView::ApiHang(_) => Hue::Red,
        PhaseView::ToolLoop { .. } => Hue::Red,
        PhaseView::TestLoop { .. } => Hue::Red,
        PhaseView::ScopeLeaking { .. } => Hue::Red,
        PhaseView::Dead => Hue::Red,
        PhaseView::ContextReset => Hue::Magenta,
        PhaseView::Idle(_) => Hue::DarkGray,
        PhaseView::Initializing => Hue::Cyan,
    }
}

/// The color in which a phase is shown, in bold.
pub fn phase_style(phase: &AgentPhase) -> (r: Hue)
    ensures
        r == phase_hue(phase@),
{
    match phase {
        AgentPhase::Working => Hue::Green,
        AgentPhase::Thinking => Hue::Yellow,
        AgentPhase::TaskBlocked { .. } => Hue::Yellow,
        AgentPhase::ApiHang(_) => Hue::Red,
        AgentPhase::ToolLoop { .. } => Hue::Red,
        AgentPhase::TestLoop { .. } => Hue::Red,
        AgentPhase::ScopeLeaking { .. } => Hue::Red,
        AgentPhase::Dead => Hue::Red,
        AgentPhase::ContextReset => Hue::Magenta,
        AgentPhase::Idle(_) => Hue::DarkGray,
        AgentPhase::Initializing => Hue::Cyan,
    }
}

/// Writes a length of time in its two largest units.
pub fn format_elapsed(duration: Span) -> (r: String)
    ensures
        r@ == shown_span(duration.secs()),
{
    format_duration(duration)
}

/// The status bar of a snapshot.
#[derive(Debug, PartialEq, Eq)]
pub struct StatusBar {
    pub agent_name: String,
    pub pid: Option<u32>,
    pub phase_label: &'static str,
    pub phase_hue: Hue,
    pub elapsed: Span,
}

/// A part of the bar: its text, cut to its width.
#[derive(Debug, PartialEq, Eq)]
pub struct Segment {
    pub text: String,
    pub width: u16,
    pub hue: Hue,
    pub bold: bool,
}

/// The value of a [`Segment`].
pub struct SegmentView {
    pub text: Seq<char>,
    pub width: int,
    pub hue: Hue,
    pub bold: bool,
}

impl View for Segment {
    type V = SegmentView;

    open spec fn view(&self) -> SegmentView {
        SegmentView {
            text: self.text@,
            width: self.width as int,
            hue: self.hue,
            bold: self.bold,
        }
    }
}

/// The room that a text gets out of what is left.
pub open spec fn room(text: Seq<char>, left: int) -> int {
    if text.len() < left {
        text.len() as int
    } else {
        left
    }
}

/// The text about the agent.
pub open spec fn agent_text(bar: StatusBar) -> Seq<char> {
    bar.agent_name@ + " ("@ + (match bar.pid {
        Some(pid) => decimal(pid as nat),
        None => "-"@,
    }) + ")"@
}

/// The text about the phase.
pub open spec fn phase_text(bar: StatusBar) -> Seq<char> {
    " "@ + bar.phase_label@
}

/// The text about the time.
pub open spec fn elapsed_text(bar: StatusBar) -> Seq<char> {
    " "@ + shown_span(bar.elapsed.secs())
}

/// The text about the keys.
pub open spec fn keys_text() -> Seq<char> {
    " "@ + KEYBINDINGS@
}

/// A part of the bar.
pub open spec fn segment(text: Seq<char>, width: int, hue: Hue, bold: bool) -> SegmentView {
    SegmentView { text: truncated(text, width as nat), width, hue, bold }
}

/// The parts of the bar from left to right. The room is given out from the
/// right: the keys come first, then the time, then the phase, and the agent gets
/// what is left.
pub open spec fn bar_segments(bar: StatusBar, width: u16) -> Seq<SegmentView> {
    let keys = room(keys_text(), width as int);
    let time = room(elapsed_text(bar), width - keys);
    let phase = room(phase_text(bar), width - keys - time);
    let agent = width - keys - time - phase;
    seq![
        segment(agent_text(bar), agent, Hue::Plain, true),
        segment(phase_text(bar), phase, bar.phase_hue, true),
        segment(elapsed_text(bar), time, Hue::DarkGray, false),
        segment(keys_text(), keys, Hue::Cyan, false),
    ]
}

fn room_for(text: &str, left: u16) -> (r: u16)
    ensures
        r == room(text@, left as int),
        r <= left,
{
    let count: usize = chars_of(text).len();
    if count < left as usize {
        count as u16
    } else {
        left
    }
}

fn make_segment(text: &str, width: u16, hue: Hue, bold: bool) -> (r: Segment)
    ensures
        r@ == segment(text@, width as int, hue, bold),
{
    Segment { text: truncate_text(text, width as usize), width, hue, bold }
}

/// The values of the parts of a bar.
pub open spec fn segment_views(list: Seq<Segment>) -> Seq<SegmentView> {
    list.map_values(|s: Segment| s@)
}

impl StatusBar {
    /// The status bar of a snapshot at a time.
    pub fn from_snapshot_at(snapshot: &Snapshot, now: Timestamp, agent: &str) -> (r: Self)
        ensures
            r.agent_name@ == agent@,
            r.pid == snapshot.pid,
            r.phase_label@ == phase_name(snapshot.phase@),
            r.phase_hue == phase_hue(snapshot.phase@),
            r.elapsed.nanos == elapsed_from(now, snapshot.state.session_started_at),
    {
        StatusBar {
            agent_name: agent.to_owned(),
            pid: snapshot.pid,
            phase_label: phase_label(&snapshot.phase),
            phase_hue: phase_style(&snapshot.phase),
            elapsed: elapsed_since_known(now, snapshot.state.session_started_at),
        }
    }

    /// The status bar of a snapshot at the current time.
    pub fn from_snapshot(snapshot: &Snapshot, agent: &str) -> (r: Self)
        ensures
            r.agent_name@ == agent@,
            r.pid == snapshot.pid,
            r.phase_label@ == phase_name(snapshot.phase@),
            r.phase_hue == phase_hue(snapshot.phase@),
            exists|now: Timestamp|
                r.elapsed.nanos == #[trigger] elapsed_from(now, snapshot.state.session_started_at),
    {
        let now = Timestamp::now();
        StatusBar::from_snapshot_at(snapshot, now, agent)
    }

    /// The parts of the bar in a width.
    pub fn segments(&self, width: u16) -> (r: Vec<Segment>)
        ensures
            segment_views(r@) == bar_segments(*self, width),
    {
        let mut agent: String = self.agent_name.clone();
        agent.append(" (");
        match self.pid {
            Some(pid) => {
                push_decimal(&mut agent, pid as u128);
            },
            None => {
                agent.append("-");
            },
        }
        agent.append(")");
        let mut phase: String = " ".to_owned();
        phase.append(self.phase_label);
        let mut time: String = " ".to_owned();
        time.append(format_elapsed(self.elapsed).as_str());
        let mut keys: String = " ".to_owned();
        keys.append(KEYBINDINGS);

        let keys_width = room_for(keys.as_str(), width);
        let mut left: u16 = width - keys_width;
        let time_width = room_for(time.as_str(), left);
        left = left - time_width;
        let phase_width = room_for(phase.as_str(), left);
        let agent_width: u16 = left - phase_width;

        let mut out: Vec<Segment> = Vec::new();
        out.push(make_segment(agent.as_str(), agent_width, Hue::Plain, true));
        out.push(make_segment(phase.as_str(), phase_width, self.phase_hue, true));
        out.push(make_segment(time.as_str(), time_width, Hue::DarkGray, false));
        out.push(make_segment(keys.as_str(), keys_width, Hue::Cyan, false));
        assert(segment_views(out@) =~= bar_segments(*self, width));
        out
    }
}

} // verus!
