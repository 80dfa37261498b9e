//! The terminal interface: keys, guards and process samples.

use crate::common::display_path;
use crate::paths::shown_path;
use crate::process_monitor::{io_delta, IoDelta, ProcessSample, ProcessSampler};
use crate::snapshot::{Snapshot, SnapshotView};
use crate::state::with_process_metrics;
use crate::text::{
    chars_of, decimal, join, joined, lemma_views_push, pieces, push_decimal, slice_text,
    split_class, stripped, trim, views, CharClass,
};
use crate::types::{text_view, AgentEvent, AgentPhase, PhaseView, ProcessMetrics};
use crate::ui::{
    blank_line, bold, colored, line_views, push_line, push_span, raw, single, span_views, Hue,
    SpanView, StyledLine, StyledSpan,
};
use crate::watch::or_dash;
use vstd::prelude::*;

verus! {

/// The height of the alerts panel.
pub const ALERTS_PANEL_HEIGHT: u16 = 9;

/// The least height of the file activity panel.
pub const FILE_ACTIVITY_PANEL_MIN_HEIGHT: u16 = 10;

/// The shortest time between two refreshes, in milliseconds.
pub const MIN_REFRESH_MILLIS: u64 = 50;

/// The milliseconds between two updates of the view.
pub open spec fn tick(refresh: u64) -> u64 {
    if refresh < 50 {
        50
    } else {
        refresh
    }
}

/// The time between two refreshes in milliseconds.
pub fn tick_millis(refresh: u64) -> (r: u64)
    ensures
        r == tick(refresh),
{
    if refresh < MIN_REFRESH_MILLIS {
        MIN_REFRESH_MILLIS
    } else {
        refresh
    }
}

/// The panel that the scroll keys move.
#[derive(Debug, Clone, Copy, PartialEq, Eq, Structural)]
pub enum ScrollPanel {
    FileActivity,
    Alerts,
}

/// A key of the keyboard.
#[derive(Debug, Clone, Copy, PartialEq, Eq, Structural)]
pub enum Key {
    Enter,
    Esc,
    Backspace,
    Char(char),
    Tab,
    Up,
    Down,
    PageUp,
    PageDown,
    Home,
    End,
    Other,
}

/// A key that was pressed, with the keys that were held.
#[derive(Debug, Clone, Copy, PartialEq, Eq, Structural)]
pub struct KeyPress {
    pub key: Key,
    pub control: bool,
    pub alt: bool,
}

/// What a key asks for besides a change of the view.
#[derive(Debug, Clone, Copy, PartialEq, Eq, Structural)]
pub enum TuiAction {
    Nothing,
    Quit,
    Interrupt(u32),
    ForceKill(u32),
    SaveCheckpoint,
}

/// What the user sees and edits.
#[derive(Debug)]
pub struct TuiState {
    pub guards: Vec<String>,
    /// The text of the guard dialog while it is open.
    pub guard_input: Option<String>,
    pub file_activity_scroll: u16,
    pub alerts_scroll: u16,
    pub active_panel: ScrollPanel,
}

/// The value of a [`TuiState`].
#[verifier::ext_equal]
pub struct TuiView {
    pub guards: Seq<Seq<char>>,
    pub guard_input: Option<Seq<char>>,
    pub file_activity_scroll: u16,
    pub alerts_scroll: u16,
    pub active_panel: ScrollPanel,
}

impl View for TuiState {
    type V = TuiView;

    open spec fn view(&self) -> TuiView {
        TuiView {
            guards: views(self.guards@),
            guard_input: text_view(self.guard_input),
            file_activity_scroll: self.file_activity_scroll,
            alerts_scroll: self.alerts_scroll,
            active_panel: self.active_panel,
        }
    }
}

/// The pieces of a list that are not blank, without white space around them.
pub open spec fn filled(list: Seq<Seq<char>>) -> Seq<Seq<char>>
    decreases list.len(),
{
    if list.len() == 0 {
        seq![]
    } else {
        let rest = filled(list.drop_last());
        let piece = stripped(list.last());
        if piece.len() == 0 {
            rest
        } else {
            rest.push(piece)
        }
    }
}

/// The guards that a text names: its pieces between commas.
pub open spec fn guards_in(input: Seq<char>) -> Seq<Seq<char>> {
    filled(pieces(input, CharClass::Comma))
}

/// Reads the guards that a text names.
pub fn parse_guard_input(input: &str) -> (r: Vec<String>)
    ensures
        views(r@) == guards_in(input@),
{
    let list = split_class(input, CharClass::Comma);
    let ghost all = views(list@);
    let mut out: Vec<String> = Vec::new();
    let mut i: usize = 0;
    assert(all.take(0) =~= seq![]);
    assert(views(out@) =~= seq![]);
    while i < list.len()
        invariant
            i <= list@.len(),
            all == views(list@),
            views(out@) == filled(all.take(i as int)),
        decreases list@.len() - i,
    {
        assert(all.take(i + 1).drop_last() =~= all.take(i as int));
        assert(all.take(i + 1).last() == list@[i as int]@);
        let piece = trim(list[i].as_str());
        if chars_of(piece.as_str()).len() > 0 {
            proof {
                lemma_views_push(out@, piece);
            }
            out.push(piece);
        }
        i = i + 1;
    }
    assert(all.take(i as int) =~= all);
    out
}

/// Writes guards as a text.
pub fn format_guard_input(guards: &Vec<String>) -> (r: String)
    ensures
        r@ == joined(views(guards@), ","@),
{
    join(guards, ",")
}

/// A number that grows by a step up to a limit.
pub open spec fn scrolled_down(at: u16, step: int, limit: u16) -> u16 {
    if at + step < limit {
        (at + step) as u16
    } else {
        limit
    }
}

/// A number that shrinks by a step down to zero.
pub open spec fn scrolled_up(at: u16, step: int) -> u16 {
    if at > step {
        (at - step) as u16
    } else {
        0
    }
}

/// The scroll position after a key, where the key is one that scrolls.
pub open spec fn scrolled(at: u16, key: Key, limit: u16) -> Option<u16> {
    match key {
        Key::Up => Some(scrolled_up(at, 1)),
        Key::Down => Some(scrolled_down(at, 1, limit)),
        Key::PageUp => Some(scrolled_up(at, 5)),
        Key::PageDown => Some(scrolled_down(at, 5, limit)),
        Key::Home => Some(0),
        Key::End => Some(limit),
        _ => None,
    }
}

fn scroll(at: u16, key: Key, limit: u16) -> (r: Option<u16>)
    ensures
        r == scrolled(at, key, limit),
{
    match key {
        Key::Up => Some(at.saturating_sub(1)),
        Key::Down => {
            let next: u16 = at.saturating_add(1);
            Some(
                if next < limit {
                    next
                } else {
                    limit
                },
            )
        },
        Key::PageUp => Some(at.saturating_sub(5)),
        Key::PageDown => {
            let next: u16 = at.saturating_add(5);
            Some(
                if next < limit {
                    next
                } else {
                    limit
                },
            )
        },
        Key::Home => Some(0),
        Key::End => Some(limit),
        _ => None,
    }
}

/// The view after a key in the guard dialog: enter takes the guards over, escape
/// drops them, backspace and plain characters edit the text.
pub open spec fn edited(v: TuiView, text: Seq<char>, press: KeyPress) -> TuiView {
    match press.key {
        Key::Enter => TuiView { guards: guards_in(text), guard_input: None, ..v },
        Key::Esc => TuiView { guard_input: None, ..v },
        Key::Backspace => if text.len() > 0 {
            TuiView { guard_input: Some(text.drop_last()), ..v }
        } else {
            v
        },
        Key::Char(c) => if !press.control && !press.alt {
            TuiView { guard_input: Some(text.push(c)), ..v }
        } else {
            v
        },
        _ => v,
    }
}

/// The view after a key outside the guard dialog.
pub open spec fn steered(v: TuiView, key: Key, max_files: u16, max_alerts: u16) -> TuiView {
    match key {
        Key::Char(c) => if c == 'g' {
            TuiView { guard_input: Some(joined(v.guards, ","@)), ..v }
        } else {
            v
        },
        Key::Tab => TuiView {
            active_panel: match v.active_panel {
                ScrollPanel::FileActivity => ScrollPanel::Alerts,
                ScrollPanel::Alerts => ScrollPanel::FileActivity,
            },
            ..v
        },
        _ => match v.active_panel {
            ScrollPanel::FileActivity => match scrolled(v.file_activity_scroll, key, max_files) {
                Some(at) => TuiView { file_activity_scroll: at, ..v },
                None => v,
            },
            ScrollPanel::Alerts => match scrolled(v.alerts_scroll, key, max_alerts) {
                Some(at) => TuiView { alerts_scroll: at, ..v },
                None => v,
            },
        },
    }
}

/// What a key outside the guard dialog asks for. Nothing can be done to a
/// session without a process.
pub open spec fn asked(key: Key, pid: Option<u32>) -> TuiAction {
    match key {
        Key::Char(c) => if c == 'q' || c == 'Q' {
            TuiAction::Quit
        } else if c == 'k' {
            match pid {
                Some(p) => TuiAction::Interrupt(p),
                None => TuiAction::Nothing,
            }
        } else if c == 'K' {
            match pid {
                Some(p) => TuiAction::ForceKill(p),
                None => TuiAction::Nothing,
            }
        } else if c == 'c' {
            TuiAction::SaveCheckpoint
        } else {
            TuiAction::Nothing
        },
        _ => TuiAction::Nothing,
    }
}

fn without_last(text: &str) -> (r: String)
    ensures
        r@ == if text@.len() > 0 {
            text@.drop_last()
        } else {
            text@
        },
{
    let chars = chars_of(text);
    if chars.len() == 0 {
        return text.to_owned();
    }
    let out = slice_text(&chars, 0, chars.len() - 1);
    assert(out@ =~= text@.drop_last());
    out
}

impl TuiState {
    /// The view at the start.
    pub fn new(guards: Vec<String>) -> (r: Self)
        ensures
            r@ == (TuiView {
                guards: views(guards@),
                guard_input: None,
                file_activity_scroll: 0,
                alerts_scroll: 0,
                active_panel: ScrollPanel::FileActivity,
            }),
    {
        TuiState {
            guards,
            guard_input: None,
            file_activity_scroll: 0,
            alerts_scroll: 0,
            active_panel: ScrollPanel::FileActivity,
        }
    }

    fn edit(&mut self, buffer: String, press: KeyPress)
        requires
            old(self).guard_input is None,
        ensures
            final(self)@ == edited(
                (TuiView { guard_input: Some(buffer@), ..old(self)@ }),
                buffer@,
                press,
            ),
    {
        match press.key {
            Key::Enter => {
                self.guards = parse_guard_input(buffer.as_str());
            },
            Key::Esc => {},
            Key::Backspace => {
                self.guard_input = Some(without_last(buffer.as_str()));
            },
            Key::Char(c) => {
                let mut text = buffer;
                if !press.control && !press.alt {
                    text.push(c);
                }
                self.guard_input = Some(text);
            },
            _ => {
                self.guard_input = Some(buffer);
            },
        }
    }

    fn steer(&mut self, key: Key, max_files: u16, max_alerts: u16)
        ensures
            final(self)@ == steered(old(self)@, key, max_files, max_alerts),
    {
        match key {
            Key::Char(c) => {
                if c == 'g' {
                    self.guard_input = Some(format_guard_input(&self.guards));
                }
            },
            Key::Tab => {
                self.active_panel = match self.active_panel {
                    ScrollPanel::FileActivity => ScrollPanel::Alerts,
                    ScrollPanel::Alerts => ScrollPanel::FileActivity,
                };
            },
            _ => {
                match self.active_panel {
                    ScrollPanel::FileActivity => {
                        if let Some(at) = scroll(self.file_activity_scroll, key, max_files) {
                            self.file_activity_scroll = at;
                        }
                    },
                    ScrollPanel::Alerts => {
                        if let Some(at) = scroll(self.alerts_scroll, key, max_alerts) {
                            self.alerts_scroll = at;
                        }
                    },
                }
            },
        }
    }

    /// Handles a key. While the guard dialog is open every key goes to it.
    pub fn handle_key(
        &mut self,
        press: KeyPress,
        pid: Option<u32>,
        max_files: u16,
        max_alerts: u16,
    ) -> (r: TuiAction)
        ensures
            match old(self)@.guard_input {
                Some(text) => final(self)@ == edited(old(self)@, text, press) && r
                    == TuiAction::Nothing,
                None => final(self)@ == steered(old(self)@, press.key, max_files, max_alerts) && r
                    == asked(press.key, pid),
            },
    {
        let mut input: Option<String> = None;
        std::mem::swap(&mut input, &mut self.guard_input);
        if let Some(buffer) = input {
            self.edit(buffer, press);
            return TuiAction::Nothing;
        }
        self.steer(press.key, max_files, max_alerts);
        match press.key {
            Key::Char(c) => {
                if c == 'q' || c == 'Q' {
                    return TuiAction::Quit;
                }
                if c == 'c' {
                    return TuiAction::SaveCheckpoint;
                }
                match pid {
                    Some(p) => {
                        if c == 'k' {
                            return TuiAction::Interrupt(p);
                        }
                        if c == 'K' {
                            return TuiAction::ForceKill(p);
                        }
                    },
                    None => {},
                }
                TuiAction::Nothing
            },
            _ => TuiAction::Nothing,
        }
    }
}

/// What is shown of the guards of a session.
#[derive(Debug, PartialEq, Eq)]
pub struct GuardDisplay {
    pub guard: String,
    pub status: String,
    pub detail: String,
    pub has_guard: bool,
    pub has_violation: bool,
}

/// The value of a [`GuardDisplay`].
pub struct GuardView {
    pub guard: Seq<char>,
    pub status: Seq<char>,
    pub detail: Seq<char>,
    pub has_guard: bool,
    pub has_violation: bool,
}

impl View for GuardDisplay {
    type V = GuardView;

    open spec fn view(&self) -> GuardView {
        GuardView {
            guard: self.guard@,
            status: self.status@,
            detail: self.detail@,
            has_guard: self.has_guard,
            has_violation: self.has_violation,
        }
    }
}

/// The guard that is shown: the one that was left, else the first one.
pub open spec fn active_guard(s: SnapshotView) -> Option<Seq<char>> {
    match s.phase {
        PhaseView::ScopeLeaking { violating_file, guard_path } => Some(guard_path),
        _ => if s.state.guard_paths.len() > 0 {
            Some(s.state.guard_paths[0]@)
        } else {
            None
        },
    }
}

/// The guards of a session in short: the shown one and the number of the others.
pub open spec fn guard_text(s: SnapshotView) -> Seq<char> {
    match active_guard(s) {
        Some(guard) => shown_path(s.cwd, guard) + (if s.state.guard_paths.len() > 1 {
            " (+"@ + decimal((s.state.guard_paths.len() - 1) as nat) + " more)"@
        } else {
            ""@
        }),
        None => "none"@,
    }
}

/// The last file outside the guarded scope as it is shown.
pub open spec fn violation_text(s: SnapshotView) -> Seq<char> {
    or_dash(
        match s.state.latest_scope_violation {
            Some(path) => Some(shown_path(s.cwd, path@)),
            None => None,
        },
    )
}

/// What is shown of the guards of a session.
pub open spec fn guard_view(s: SnapshotView) -> GuardView {
    let count = s.state.scope_violation_count;
    if s.state.guard_paths.len() == 0 {
        GuardView {
            guard: "GUARD: none"@,
            status: ""@,
            detail: "Press [g] to set a guard path."@,
            has_guard: false,
            has_violation: false,
        }
    } else if count > 0 {
        GuardView {
            guard: "GUARD: "@ + guard_text(s),
            status: "⚠ "@ + decimal(count as nat) + " "@ + (if count == 1 {
                "violation"@
            } else {
                "violations"@
            }),
            detail: "Last violation: "@ + violation_text(s),
            has_guard: true,
            has_violation: true,
        }
    } else {
        GuardView {
            guard: "GUARD: "@ + guard_text(s),
            status: "✓ No violations"@,
            detail: "Press [g] to update guard path."@,
            has_guard: true,
            has_violation: false,
        }
    }
}

fn guard_summary(snapshot: &Snapshot) -> (r: String)
    ensures
        r@ == guard_text(snapshot@),
{
    let guards = &snapshot.state.guard_paths;
    let primary = match &snapshot.phase {
        AgentPhase::ScopeLeaking { violating_file, guard_path } => Some(guard_path.as_str()),
        _ => if guards.len() > 0 {
            Some(guards[0].as_str())
        } else {
            None
        },
    };
    match primary {
        Some(guard) => {
            let mut out = display_path(snapshot.cwd.as_str(), guard);
            let mut more: String = "".to_owned();
            if guards.len() > 1 {
                more = " (+".to_owned();
                push_decimal(&mut more, (guards.len() - 1) as u128);
                more.append(" more)");
            }
            out.append(more.as_str());
            out
        },
        None => "none".to_owned(),
    }
}

fn last_violation(snapshot: &Snapshot) -> (r: String)
    ensures
        r@ == violation_text(snapshot@),
{
    match &snapshot.state.latest_scope_violation {
        Some(path) => display_path(snapshot.cwd.as_str(), path.as_str()),
        None => "-".to_owned(),
    }
}

/// Describes the guards of a session.
pub fn guard_display(snapshot: &Snapshot) -> (r: GuardDisplay)
    ensures
        r@ == guard_view(snapshot@),
{
    if snapshot.state.guard_paths.len() == 0 {
        return GuardDisplay {
            guard: "GUARD: none".to_owned(),
            status: "".to_owned(),
            detail: "Press [g] to set a guard path.".to_owned(),
            has_guard: false,
            has_violation: false,
        };
    }
    let mut guard: String = "GUARD: ".to_owned();
    guard.append(guard_summary(snapshot).as_str());
    let count = snapshot.state.scope_violation_count;
    if count > 0 {
        let mut status: String = "⚠ ".to_owned();
        push_decimal(&mut status, count as u128);
        status.append(" ");
        if count == 1 {
            status.append("violation");
        } else {
            status.append("violations");
        }
        let mut detail: String = "Last violation: ".to_owned();
        detail.append(last_violation(snapshot).as_str());
        return GuardDisplay { guard, status, detail, has_guard: true, has_violation: true };
    }
    GuardDisplay {
        guard,
        status: "✓ No violations".to_owned(),
        detail: "Press [g] to update guard path.".to_owned(),
        has_guard: true,
        has_violation: false,
    }
}

/// The lines of the guard panel.
pub open spec fn guard_lines(g: GuardView) -> Seq<Seq<SpanView>> {
    let first = if g.status.len() == 0 {
        if g.has_guard {
            seq![bold(g.guard, Hue::Plain)]
        } else {
            seq![colored(g.guard, Hue::DarkGray)]
        }
    } else {
        seq![
            bold(g.guard, Hue::Plain),
            raw("   "@),
            bold(
                g.status,
                if g.has_violation {
                    Hue::Red
                } else {
                    Hue::Green
                },
            ),
        ]
    };
    seq![
        first,
        seq![
            colored(
                g.detail,
                if g.has_violation {
                    Hue::Yellow
                } else {
                    Hue::DarkGray
                },
            ),
        ],
    ]
}

/// Builds the lines of the guard panel.
pub fn guard_panel_lines(display: GuardDisplay) -> (r: Vec<StyledLine>)
    ensures
        line_views(r@) == guard_lines(display@),
{
    let ghost g = display@;
    let mut out: Vec<StyledLine> = Vec::new();
    assert(line_views(out@) =~= seq![]);
    if chars_of(display.status.as_str()).len() == 0 {
        if display.has_guard {
            push_line(&mut out, single(display.guard, Hue::Plain, true));
        } else {
            push_line(&mut out, single(display.guard, Hue::DarkGray, false));
        }
    } else {
        let hue = if display.has_violation {
            Hue::Red
        } else {
            Hue::Green
        };
        let mut spans: Vec<StyledSpan> = Vec::new();
        assert(span_views(spans@) =~= seq![]);
        push_span(&mut spans, StyledSpan { text: display.guard, hue: Hue::Plain, bold: true });
        push_span(
            &mut spans,
            StyledSpan { text: "   ".to_owned(), hue: Hue::Plain, bold: false },
        );
        push_span(&mut spans, StyledSpan { text: display.status, hue, bold: true });
        let line = StyledLine { spans };
        assert(line@ =~= guard_lines(g)[0]);
        push_line(&mut out, line);
    }
    let hue = if display.has_violation {
        Hue::Yellow
    } else {
        Hue::DarkGray
    };
    push_line(&mut out, single(display.detail, hue, false));
    assert(line_views(out@) =~= guard_lines(g));
    out
}

/// The lines of the guard dialog.
pub open spec fn dialog_lines(s: SnapshotView, buffer: Seq<char>) -> Seq<Seq<SpanView>> {
    let head = seq![
        seq![raw("Set guard path (comma-separated, empty to clear)"@)],
        seq![bold("> "@ + buffer, Hue::Yellow)],
        seq![raw("Press Enter to save or Esc to cancel."@)],
    ];
    if s.state.scope_violation_count > 0 {
        head.push(seq![]).push(seq![raw("Selected detail: "@ + violation_text(s))])
    } else {
        head
    }
}

/// Builds the lines of the guard dialog.
pub fn guard_dialog_lines(snapshot: &Snapshot, buffer: &str) -> (r: Vec<StyledLine>)
    ensures
        line_views(r@) == dialog_lines(snapshot@, buffer@),
{
    let mut out: Vec<StyledLine> = Vec::new();
    assert(line_views(out@) =~= seq![]);
    push_line(
        &mut out,
        single(
            "Set guard path (comma-separated, empty to clear)".to_owned(),
            Hue::Plain,
            false,
        ),
    );
    let mut input: String = "> ".to_owned();
    input.append(buffer);
    push_line(&mut out, single(input, Hue::Yellow, true));
    push_line(
        &mut out,
        single("Press Enter to save or Esc to cancel.".to_owned(), Hue::Plain, false),
    );
    if snapshot.state.scope_violation_count > 0 {
        push_line(&mut out, blank_line());
        let mut detail: String = "Selected detail: ".to_owned();
        detail.append(last_violation(snapshot).as_str());
        push_line(&mut out, single(detail, Hue::Plain, false));
    }
    assert(line_views(out@) =~= dialog_lines(snapshot@, buffer@));
    out
}

/// The height of a dialog and the margin above it.
#[derive(Debug, Clone, Copy, PartialEq, Eq, Structural)]
pub struct PopupRows {
    pub height: u16,
    pub margin: u16,
}

/// The height of a dialog on a screen.
pub open spec fn popup_height(height: u16, area_height: u16) -> int {
    let free: int = if area_height >= 2 {
        area_height - 2
    } else {
        0
    };
    let wanted: int = if height < free {
        height as int
    } else {
        free
    };
    if wanted < 3 {
        3
    } else {
        wanted
    }
}

/// The rows above a dialog on a screen.
pub open spec fn popup_margin(height: u16, area_height: u16) -> int {
    (if area_height > height {
        (area_height - height) as int
    } else {
        0
    }) / 2
}

/// Centers a dialog: it leaves a border of the screen free but has room for at
/// least one line.
pub fn center_rows(height: u16, area_height: u16) -> (r: PopupRows)
    ensures
        r.height == popup_height(height, area_height),
        r.margin == popup_margin(r.height, area_height),
{
    let free: u16 = area_height.saturating_sub(2);
    let wanted: u16 = if height < free {
        height
    } else {
        free
    };
    let popup: u16 = if wanted < 3 {
        3
    } else {
        wanted
    };
    PopupRows { height: popup, margin: area_height.saturating_sub(popup) / 2 }
}

/// What is done to sample the process of a snapshot.
#[derive(Debug, Clone, Copy, PartialEq, Eq, Structural)]
pub enum SampleStep {
    /// There is no process.
    Skip,
    /// The process is another one than before.
    Restart(u32),
    /// The process is the same as before.
    Continue(u32),
}

/// What is done about a process after another one was sampled.
pub open spec fn sample_step(before: Option<u32>, pid: Option<u32>) -> SampleStep {
    match pid {
        Some(p) => if before == Some(p) {
            SampleStep::Continue(p)
        } else {
            SampleStep::Restart(p)
        },
        None => SampleStep::Skip,
    }
}

/// Samples the process of a snapshot.
#[derive(Debug, Clone, Copy, PartialEq, Eq, Structural)]
pub struct TuiProcessSampler {
    pub pid: Option<u32>,
    pub sampler: ProcessSampler,
}

impl TuiProcessSampler {
    /// A sampler without a process.
    pub fn new() -> (r: Self)
        ensures
            r.pid is None,
            r.sampler.previous_sample is None,
    {
        TuiProcessSampler { pid: None, sampler: ProcessSampler::new() }
    }

    /// Turns to the process of a snapshot. The last sample is forgotten where
    /// the process is another one, or gone.
    pub fn select(&mut self, pid: Option<u32>) -> (r: SampleStep)
        ensures
            final(self).pid == pid,
            r == sample_step(old(self).pid, pid),
            r is Continue ==> final(self).sampler == old(self).sampler,
            !(r is Continue) ==> final(self).sampler.previous_sample is None,
    {
        match pid {
            Some(p) => {
                let same = match self.pid {
                    Some(q) => q == p,
                    None => false,
                };
                if same {
                    return SampleStep::Continue(p);
                }
                self.pid = Some(p);
                self.sampler = ProcessSampler::new();
                SampleStep::Restart(p)
            },
            None => {
                self.pid = None;
                self.sampler = ProcessSampler::new();
                SampleStep::Skip
            },
        }
    }

    /// Takes the next sample and returns how far the counters moved since the
    /// last one.
    pub fn record(&mut self, sample: ProcessSample) -> (r: Option<IoDelta>)
        ensures
            r == io_delta(old(self).sampler.previous_sample, sample),
            final(self).pid == old(self).pid,
            final(self).sampler.previous_sample == Some(sample),
    {
        self.sampler.advance_to(sample)
    }
}

/// Adds the readings of the process to a snapshot.
pub fn refresh_snapshot(snapshot: &mut Snapshot, metrics: ProcessMetrics)
    ensures
        final(snapshot)@ == (SnapshotView {
            state: with_process_metrics(old(snapshot)@.state, metrics),
            ..old(snapshot)@
        }),
{
    snapshot.state.apply(&AgentEvent::ProcessMetrics(metrics));
}

} // verus!
