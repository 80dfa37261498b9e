//! The metrics panel.

use crate::clock::Timestamp;
use crate::snapshot::Snapshot;
use crate::text::{chars_of, decimal, push_decimal};
use crate::types::FloatBits;
use crate::ui::{
    elapsed, elapsed_from, elapsed_since, elapsed_since_known, format_duration, shown_span,
};
use vstd::prelude::*;

verus! {

/// How long token activity counts as recent.
pub const ACTIVE_TOKENS_NANOS: u128 = 10_000_000_000;

/// The storage throughput that is shown: the larger of the two directions.
#[derive(Debug, Clone, Copy, PartialEq, Eq, Structural)]
pub enum Throughput {
    Idle,
    Reading(FloatBits),
    Writing(FloatBits),
}

/// The metrics of a session. What needs the machine's floating-point numbers is
/// kept as bit patterns.
#[derive(Debug, PartialEq, Eq)]
pub struct MetricsPanel {
    pub tokens: String,
    pub cpu_percent: FloatBits,
    pub rss_bytes: u64,
    pub io: Throughput,
    pub session: String,
    pub tool_calls: u64,
    pub files_touched: usize,
    pub compacts: u64,
}

/// What is said of the last token activity.
pub open spec fn token_status(last: Option<Timestamp>, now: Timestamp) -> Seq<char> {
    match last {
        Some(t) => if elapsed(now, t) <= 10_000_000_000 {
            "↑ active"@
        } else {
            "✗ frozen ("@ + shown_span((elapsed(now, t) / 1_000_000_000) as nat) + ")"@
        },
        None => "✗ frozen"@,
    }
}

fn describe_tokens(last: Option<Timestamp>, now: Timestamp) -> (r: String)
    ensures
        r@ == token_status(last, now),
{
    match last {
        Some(t) => {
            let span = elapsed_since(now, t);
            if span.nanos <= ACTIVE_TOKENS_NANOS {
                "↑ active".to_owned()
            } else {
                let mut out: String = "✗ frozen (".to_owned();
                out.append(format_duration(span).as_str());
                out.append(")");
                out
            }
        },
        None => "✗ frozen".to_owned(),
    }
}

/// The larger of two numbers; where one is no number, the other one.
pub open spec fn larger(a: FloatBits, b: FloatBits) -> FloatBits {
    if b.greater_than(a) || !a.is_number() {
        b
    } else {
        a
    }
}

/// The throughput that is shown.
pub open spec fn throughput(read: FloatBits, write: FloatBits) -> Throughput {
    if !larger(read, write).positive() {
        Throughput::Idle
    } else if write.greater_than(read) {
        Throughput::Writing(larger(read, write))
    } else {
        Throughput::Reading(larger(read, write))
    }
}

/// Decides which throughput is shown.
pub fn shown_throughput(read: FloatBits, write: FloatBits) -> (r: Throughput)
    ensures
        r == throughput(read, write),
{
    let rate = if write.exceeds(read) || !read.number() {
        write
    } else {
        read
    };
    if !rate.above_zero() {
        Throughput::Idle
    } else if write.exceeds(read) {
        Throughput::Writing(rate)
    } else {
        Throughput::Reading(rate)
    }
}

impl MetricsPanel {
    /// Whether the panel holds the metrics of a snapshot at a time.
    pub open spec fn shows(self, snapshot: Snapshot, now: Timestamp) -> bool {
        let state = snapshot.state;
        &&& self.tokens@ == "in "@ + decimal(state.total_input_tokens as nat) + " / out "@
            + decimal(state.total_output_tokens as nat) + "  "@ + token_status(
            state.last_token_activity_at,
            now,
        )
        &&& self.cpu_percent == state.latest_cpu_percent
        &&& self.rss_bytes == state.latest_rss_bytes
        &&& self.io == throughput(state.latest_io_read_rate, state.latest_io_write_rate)
        &&& self.session@ == shown_span(
            (elapsed_from(now, state.session_started_at) / 1_000_000_000) as nat,
        )
        &&& self.tool_calls == state.total_tool_calls
        &&& self.files_touched == state@.touched_files.len()
        &&& self.compacts == state.compact_count
    }

    /// The metrics of a snapshot at the current time.
    pub fn from_snapshot(snapshot: &Snapshot) -> (r: Self)
        ensures
            exists|now: Timestamp| r.shows(*snapshot, now),
    {
        let now = Timestamp::now();
        MetricsPanel::from_snapshot_at(snapshot, now)
    }

    /// The metrics of a snapshot at a time.
    pub fn from_snapshot_at(snapshot: &Snapshot, now: Timestamp) -> (r: Self)
        ensures
            r.shows(*snapshot, now),
    {
        let state = &snapshot.state;
        let mut tokens: String = "in ".to_owned();
        push_decimal(&mut tokens, state.total_input_tokens as u128);
        tokens.append(" / out ");
        push_decimal(&mut tokens, state.total_output_tokens as u128);
        tokens.append("  ");
        tokens.append(describe_tokens(state.last_token_activity_at, now).as_str());
        MetricsPanel {
            tokens,
            cpu_percent: state.latest_cpu_percent,
            rss_bytes: state.latest_rss_bytes,
            io: shown_throughput(state.latest_io_read_rate, state.latest_io_write_rate),
            session: format_duration(elapsed_since_known(now, state.session_started_at)),
            tool_calls: state.total_tool_calls,
            files_touched: state.touched_file_count(),
            compacts: state.compact_count,
        }
    }
}

/// A text with blanks behind it up to a width.
pub open spec fn padded(text: Seq<char>, width: nat) -> Seq<char> {
    if text.len() >= width {
        text
    } else {
        text + Seq::new((width - text.len()) as nat, |i: int| ' ')
    }
}

/// A line of the panel: a label in ten columns and a value.
pub fn metric_line(label: &str, value: &str) -> (r: String)
    ensures
        r@ == padded(label@, 10) + " "@ + value@,
{
    let mut out: String = label.to_owned();
    let count: usize = chars_of(label).len();
    let mut i: usize = count;
    assert(out@ =~= label@ + Seq::new(0, |k: int| ' '));
    while i < 10
        invariant
            count == label@.len(),
            count <= i,
            i <= 10 || i == count,
            out@ == label@ + Seq::new((i - count) as nat, |k: int| ' '),
        decreases 10 - i,
    {
        let ghost before = out@;
        out.push(' ');
        assert(Seq::new((i + 1 - count) as nat, |k: int| ' ') =~= Seq::new(
            (i - count) as nat,
            |k: int| ' ',
        ).push(' '));
        assert(out@ =~= label@ + Seq::new((i + 1 - count) as nat, |k: int| ' '));
        i = i + 1;
    }
    assert(out@ =~= padded(label@, 10));
    out.append(" ");
    out.append(value);
    out
}

} // verus!
