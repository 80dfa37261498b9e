//! Process samples.

use crate::clock::{Moment, Span, Timestamp};
use crate::metrics::{advance, span_between};
use crate::types::{AgentEvent, FloatBits, ProcessMetrics};
use vstd::prelude::*;

verus! {

/// The storage counters of a process at a moment.
#[derive(Debug, Clone, Copy, PartialEq, Eq, Structural)]
pub struct ProcessSample {
    pub captured_at: Moment,
    pub io_read_bytes: u64,
    pub io_write_bytes: u64,
}

/// How far the storage counters moved in a span that is not empty.
#[derive(Debug, Clone, Copy, PartialEq, Eq, Structural)]
pub struct IoDelta {
    pub read_bytes: u64,
    pub write_bytes: u64,
    pub elapsed: Span,
}

/// How far the counters moved between two samples; `None` where there is no
/// first sample or no time between them.
pub open spec fn io_delta(previous: Option<ProcessSample>, current: ProcessSample) -> Option<
    IoDelta,
> {
    match previous {
        Some(p) => if span_between(p.captured_at, current.captured_at) == 0 {
            None
        } else {
            Some(
                IoDelta {
                    read_bytes: advance(p.io_read_bytes, current.io_read_bytes),
                    write_bytes: advance(p.io_write_bytes, current.io_write_bytes),
                    elapsed: Span {
                        nanos: span_between(p.captured_at, current.captured_at) as u128,
                    },
                },
            )
        },
        None => None,
    }
}

/// Remembers the last sample of a process.
#[derive(Debug, Clone, Copy, PartialEq, Eq, Structural)]
pub struct ProcessSampler {
    pub previous_sample: Option<ProcessSample>,
}

impl ProcessSampler {
    /// A sampler without a sample.
    pub fn new() -> (r: Self)
        ensures
            r.previous_sample is None,
    {
        ProcessSampler { previous_sample: None }
    }

    /// Takes the next sample and returns how far the counters moved since the
    /// last one.
    pub fn advance_to(&mut self, current: ProcessSample) -> (r: Option<IoDelta>)
        ensures
            r == io_delta(old(self).previous_sample, current),
            final(self).previous_sample == Some(current),
    {
        let delta = match self.previous_sample {
            Some(p) => {
                let elapsed = current.captured_at.saturating_since(p.captured_at);
                if elapsed.nanos == 0 {
                    None
                } else {
                    Some(
                        IoDelta {
                            read_bytes: current.io_read_bytes.saturating_sub(p.io_read_bytes),
                            write_bytes: current.io_write_bytes.saturating_sub(p.io_write_bytes),
                            elapsed,
                        },
                    )
                }
            },
            None => None,
        };
        self.previous_sample = Some(current);
        delta
    }
}

/// The event that reports that a process is gone.
pub open spec fn gone_metrics(timestamp: Timestamp) -> ProcessMetrics {
    ProcessMetrics {
        timestamp,
        process_alive: false,
        cpu_percent: FloatBits { bits: 0 },
        rss_bytes: 0,
        virtual_bytes: 0,
        io_read_bytes: 0,
        io_write_bytes: 0,
        io_read_rate: FloatBits { bits: 0 },
        io_write_rate: FloatBits { bits: 0 },
    }
}

/// Reports that a process is gone.
pub fn dead_event(timestamp: Timestamp) -> (r: AgentEvent)
    ensures
        r == AgentEvent::ProcessMetrics(gone_metrics(timestamp)),
{
    AgentEvent::ProcessMetrics(
        ProcessMetrics {
            timestamp,
            process_alive: false,
            cpu_percent: FloatBits::zero(),
            rss_bytes: 0,
            virtual_bytes: 0,
            io_read_bytes: 0,
            io_write_bytes: 0,
            io_read_rate: FloatBits::zero(),
            io_write_rate: FloatBits::zero(),
        },
    )
}

/// What the machine says of a process.
#[derive(Debug, Clone, Copy, PartialEq, Eq, Structural)]
pub struct ProcessReading {
    pub process_alive: bool,
    pub cpu_percent: FloatBits,
    pub rss_bytes: u64,
    pub virtual_bytes: u64,
    pub io_read_bytes: u64,
    pub io_write_bytes: u64,
}

/// The storage throughput of a process, in bytes per second.
#[derive(Debug, Clone, Copy, PartialEq, Eq, Structural)]
pub struct IoRates {
    pub read: FloatBits,
    pub write: FloatBits,
}

/// The metrics of a reading. Without rates the throughput counts as zero.
pub fn build_metrics(timestamp: Timestamp, reading: ProcessReading, rates: Option<IoRates>) -> (r:
    ProcessMetrics)
    ensures
        r.timestamp == timestamp,
        r.process_alive == reading.process_alive,
        r.cpu_percent == reading.cpu_percent,
        r.rss_bytes == reading.rss_bytes,
        r.virtual_bytes == reading.virtual_bytes,
        r.io_read_bytes == reading.io_read_bytes,
        r.io_write_bytes == reading.io_write_bytes,
        match rates {
            Some(rates) => r.io_read_rate == rates.read && r.io_write_rate == rates.write,
            None => r.io_read_rate.bits == 0 && r.io_write_rate.bits == 0,
        },
{
    let (io_read_rate, io_write_rate) = match rates {
        Some(rates) => (rates.read, rates.write),
        None => (FloatBits::zero(), FloatBits::zero()),
    };
    ProcessMetrics {
        timestamp,
        process_alive: reading.process_alive,
        cpu_percent: reading.cpu_percent,
        rss_bytes: reading.rss_bytes,
        virtual_bytes: reading.virtual_bytes,
        io_read_bytes: reading.io_read_bytes,
        io_write_bytes: reading.io_write_bytes,
        io_read_rate,
        io_write_rate,
    }
}

} // verus!
