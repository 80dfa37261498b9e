//! Accounting of published and dropped events.

use vstd::prelude::*;

verus! {

/// How many events a bus holds for a slow subscriber.
pub const EVENT_BUS_CAPACITY: usize = 1000;

/// How many events were published, and how many a lagging subscriber missed.
#[derive(Debug, Clone, Copy, PartialEq, Eq, Structural)]
pub struct EventBusMetrics {
    pub events_published: u64,
    pub events_dropped: u64,
}

/// The sum of two counters that wrap around.
pub open spec fn wrapped_sum(a: u64, b: u64) -> u64 {
    if a + b > u64::MAX {
        (a + b - 0x1_0000_0000_0000_0000) as u64
    } else {
        (a + b) as u64
    }
}

impl Default for EventBusMetrics {
    fn default() -> (r: Self)
        ensures
            r.events_published == 0,
            r.events_dropped == 0,
    {
        EventBusMetrics { events_published: 0, events_dropped: 0 }
    }
}

impl EventBusMetrics {
    /// Counts a published event.
    pub fn record_publish(&mut self)
        ensures
            final(self).events_published == wrapped_sum(old(self).events_published, 1),
            final(self).events_dropped == old(self).events_dropped,
    {
        self.events_published = self.events_published.wrapping_add(1);
    }

    /// Counts the events that a lagging subscriber missed.
    pub fn record_lag(&mut self, skipped: u64)
        ensures
            final(self).events_published == old(self).events_published,
            final(self).events_dropped == wrapped_sum(old(self).events_dropped, skipped),
    {
        self.events_dropped = self.events_dropped.wrapping_add(skipped);
    }
}

} // verus!
