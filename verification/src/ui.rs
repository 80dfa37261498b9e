//! Styled text for the terminal.

use crate::clock::{Span, Timestamp};
use crate::text::{chars_of, decimal, push_decimal, slice_text};
use vstd::prelude::*;

verus! {

/// A color of the terminal.
#[derive(Debug, Clone, Copy, PartialEq, Eq, Structural)]
pub enum Hue {
    Plain,
    Green,
    Yellow,
    Red,
    Cyan,
    Magenta,
    DarkGray,
}

/// A text in one style.
#[derive(Debug, PartialEq, Eq)]
pub struct StyledSpan {
    pub text: String,
    pub hue: Hue,
    pub bold: bool,
}

/// The value of a [`StyledSpan`].
pub struct SpanView {
    pub text: Seq<char>,
    pub hue: Hue,
    pub bold: bool,
}

impl View for StyledSpan {
    type V = SpanView;

    open spec fn view(&self) -> SpanView {
        SpanView { text: self.text@, hue: self.hue, bold: self.bold }
    }
}

/// A line of styled texts.
#[derive(Debug, PartialEq, Eq)]
pub struct StyledLine {
    pub spans: Vec<StyledSpan>,
}

/// The values of a list of spans.
pub open spec fn span_views(spans: Seq<StyledSpan>) -> Seq<SpanView> {
    spans.map_values(|s: StyledSpan| s@)
}

impl View for StyledLine {
    type V = Seq<SpanView>;

    open spec fn view(&self) -> Seq<SpanView> {
        span_views(self.spans@)
    }
}

/// The values of a list of lines.
pub open spec fn line_views(lines: Seq<StyledLine>) -> Seq<Seq<SpanView>> {
    lines.map_values(|l: StyledLine| l@)
}

/// A text without a style.
pub open spec fn raw(text: Seq<char>) -> SpanView {
    SpanView { text, hue: Hue::Plain, bold: false }
}

/// A text in a color.
pub open spec fn colored(text: Seq<char>, hue: Hue) -> SpanView {
    SpanView { text, hue, bold: false }
}

/// A bold text in a color.
pub open spec fn bold(text: Seq<char>, hue: Hue) -> SpanView {
    SpanView { text, hue, bold: true }
}

/// Appends a line to a list.
pub fn push_line(lines: &mut Vec<StyledLine>, line: StyledLine)
    ensures
        line_views(final(lines)@) == line_views(old(lines)@).push(line@),
{
    let ghost before = lines@;
    lines.push(line);
    assert(line_views(lines@) =~= line_views(before).push(line@));
}

/// Appends a span to a line.
pub fn push_span(spans: &mut Vec<StyledSpan>, span: StyledSpan)
    ensures
        span_views(final(spans)@) == span_views(old(spans)@).push(span@),
{
    let ghost before = spans@;
    spans.push(span);
    assert(span_views(spans@) =~= span_views(before).push(span@));
}

/// A line of one span.
pub fn single(text: String, hue: Hue, bold: bool) -> (r: StyledLine)
    ensures
        r@ == seq![SpanView { text: text@, hue, bold }],
{
    let mut spans: Vec<StyledSpan> = Vec::new();
    spans.push(StyledSpan { text, hue, bold });
    let line = StyledLine { spans };
    assert(line@ =~= seq![SpanView { text: text@, hue, bold }]);
    line
}

/// An empty line.
pub fn blank_line() -> (r: StyledLine)
    ensures
        r@ == Seq::<SpanView>::empty(),
{
    let line = StyledLine { spans: Vec::new() };
    assert(line@ =~= Seq::<SpanView>::empty());
    line
}

/// A length of time in its two largest units: hours and minutes, minutes and
/// seconds, or seconds alone.
pub open spec fn shown_span(secs: nat) -> Seq<char> {
    let hours = secs / 3600;
    let minutes = (secs % 3600) / 60;
    let seconds = secs % 60;
    if hours > 0 {
        decimal(hours) + "h "@ + decimal(minutes) + "m"@
    } else if minutes > 0 {
        decimal(minutes) + "m "@ + decimal(seconds) + "s"@
    } else {
        decimal(seconds) + "s"@
    }
}

/// Writes a length of time in its two largest units.
pub fn format_duration(duration: Span) -> (r: String)
    ensures
        r@ == shown_span(duration.secs()),
{
    let total = duration.as_secs();
    let hours: u128 = total / 3600;
    let minutes: u128 = (total % 3600) / 60;
    let seconds: u128 = total % 60;
    let mut out: String = String::new();
    let ghost empty = out@;
    assert(forall|s: Seq<char>| #[trigger] (empty + s) =~= s);
    if hours > 0 {
        push_decimal(&mut out, hours);
        out.append("h ");
        push_decimal(&mut out, minutes);
        out.append("m");
    } else if minutes > 0 {
        push_decimal(&mut out, minutes);
        out.append("m ");
        push_decimal(&mut out, seconds);
        out.append("s");
    } else {
        push_decimal(&mut out, seconds);
        out.append("s");
    }
    out
}

/// How long ago a time was; nothing for a time in the future.
pub open spec fn elapsed(now: Timestamp, then: Timestamp) -> int {
    match now.since(then) {
        Some(d) => d,
        None => 0,
    }
}

/// Computes how long ago a time was.
pub fn elapsed_since(now: Timestamp, earlier: Timestamp) -> (r: Span)
    ensures
        r.nanos == elapsed(now, earlier),
{
    match now.checked_since(earlier) {
        Some(span) => span,
        None => Span::zero(),
    }
}

/// How long ago a time was, where it is known.
pub open spec fn elapsed_from(now: Timestamp, then: Option<Timestamp>) -> int {
    match then {
        Some(t) => elapsed(now, t),
        None => 0,
    }
}

/// Computes how long ago a time was, where it is known.
pub fn elapsed_since_known(now: Timestamp, earlier: Option<Timestamp>) -> (r: Span)
    ensures
        r.nanos == elapsed_from(now, earlier),
{
    match earlier {
        Some(t) => elapsed_since(now, t),
        None => Span::zero(),
    }
}

/// A text cut to a width, with an ellipsis where something is cut off.
pub open spec fn truncated(text: Seq<char>, width: nat) -> Seq<char> {
    if width == 0 {
        seq![]
    } else if text.len() <= width {
        text
    } else {
        text.take(width - 1).push('\u{2026}')
    }
}

/// Cuts a text to a width.
pub fn truncate_text(text: &str, width: usize) -> (r: String)
    ensures
        r@ == truncated(text@, width as nat),
{
    if width == 0 {
        let empty = String::new();
        assert(empty@ =~= seq![]);
        return empty;
    }
    let chars = chars_of(text);
    if chars.len() <= width {
        return text.to_owned();
    }
    let mut out = slice_text(&chars, 0, width - 1);
    assert(out@ =~= text@.take(width - 1));
    out.push('\u{2026}');
    out
}

/// How far a panel of some lines can be scrolled in an area with a border.
pub open spec fn scroll_limit(lines: nat, area_height: u16) -> nat {
    let visible: int = if area_height >= 2 {
        area_height - 2
    } else {
        0
    };
    (if lines > visible {
        (lines - visible) as nat
    } else {
        0
    }) % 0x1_0000
}

/// Computes how far a panel can be scrolled. The terminal counts lines in
/// sixteen bits.
pub fn max_scroll_of(lines: usize, area_height: u16) -> (r: u16)
    ensures
        r == scroll_limit(lines as nat, area_height),
{
    let visible: usize = area_height.saturating_sub(2) as usize;
    let hidden: usize = lines.saturating_sub(visible);
    (hidden % 0x1_0000) as u16
}

} // verus!
