//! Points in time and lengths of time as plain numbers.

use crate::types::text_view;
use vstd::prelude::*;

verus! {

pub const NANOS_PER_SEC: u128 = 1_000_000_000;

/// A length of time in nanoseconds.
#[derive(Debug, Clone, Copy, PartialEq, Eq, Structural)]
pub struct Span {
    pub nanos: u128,
}

impl Span {
    /// A span of whole seconds.
    pub fn from_secs(secs: u64) -> (r: Span)
        ensures
            r.nanos == secs * NANOS_PER_SEC,
    {
        Span { nanos: secs as u128 * NANOS_PER_SEC }
    }

    /// The whole seconds in the span.
    pub open spec fn secs(self) -> nat {
        (self.nanos / NANOS_PER_SEC) as nat
    }

    /// The whole seconds in the span.
    pub fn as_secs(&self) -> (r: u128)
        ensures
            r == self.secs(),
    {
        self.nanos / NANOS_PER_SEC
    }

    /// The whole seconds in the span, as far as 64 bits hold them.
    pub open spec fn capped_secs(self) -> u64 {
        if self.secs() <= u64::MAX {
            self.secs() as u64
        } else {
            u64::MAX
        }
    }

    /// The whole seconds in the span, as far as 64 bits hold them.
    pub fn as_capped_secs(&self) -> (r: u64)
        ensures
            r == self.capped_secs(),
    {
        let secs = self.as_secs();
        if secs <= u64::MAX as u128 {
            secs as u64
        } else {
            u64::MAX
        }
    }

    /// The shortest span.
    pub fn zero() -> (r: Span)
        ensures
            r.nanos == 0,
    {
        Span { nanos: 0 }
    }
}

pub const SECS_PER_DAY: u64 = 86_400;

/// A wall-clock time: seconds since the Unix epoch and the nanoseconds after
/// the last whole second. A leap second has the seconds of the second before it,
/// and nanoseconds beyond a whole second.
#[derive(Debug, Clone, Copy, PartialEq, Eq, Structural)]
pub struct Timestamp {
    pub secs: i64,
    pub nanos: u32,
}

impl Timestamp {
    /// Whether this time is the later one: by its seconds, and of two times with
    /// the same seconds by its nanoseconds.
    pub open spec fn is_after(self, other: Timestamp) -> bool {
        self.secs > other.secs || self.secs == other.secs && self.nanos > other.nanos
    }

    /// Whether this time lies in a leap second.
    pub open spec fn is_leap(self) -> bool {
        self.nanos >= NANOS_PER_SEC
    }

    /// The second of its day.
    pub open spec fn second_of_day(self) -> int {
        self.secs as int % SECS_PER_DAY as int
    }

    /// The second to be added for a leap second that one of two times lies in, where
    /// the other time comes later in its day: it has passed between the two.
    pub open spec fn leap_between(self, other: Timestamp) -> int {
        if self.second_of_day() > other.second_of_day() && other.is_leap() {
            1
        } else if self.second_of_day() < other.second_of_day() && self.is_leap() {
            -1
        } else {
            0
        }
    }

    /// How many nanoseconds this time lies after another one.
    pub open spec fn gap(self, other: Timestamp) -> int {
        (self.secs - other.secs + self.leap_between(other)) * NANOS_PER_SEC + self.nanos
            - other.nanos
    }

    /// How long before this time another one lies.
    pub open spec fn since(self, earlier: Timestamp) -> Option<int> {
        if self.gap(earlier) >= 0 {
            Some(self.gap(earlier))
        } else {
            None
        }
    }

    fn day_second(self) -> (r: u128)
        ensures
            r == self.second_of_day(),
    {
        // a whole number of days, so that the sum is not negative
        let shifted: u128 = (self.secs as i128 + 86_400 * 200_000_000_000_000) as u128;
        shifted % 86_400
    }

    fn signed_gap(self, other: Timestamp) -> (r: i128)
        ensures
            r == self.gap(other),
    {
        let a = self.day_second();
        let b = other.day_second();
        let mut secs: i128 = self.secs as i128 - other.secs as i128;
        if a > b && other.nanos >= 1_000_000_000 {
            secs = secs + 1;
        } else if a < b && self.nanos >= 1_000_000_000 {
            secs = secs - 1;
        }
        secs * 1_000_000_000 + self.nanos as i128 - other.nanos as i128
    }

    /// The span from an earlier time to this one; `None` where the other time
    /// is the later one.
    pub fn checked_since(self, earlier: Timestamp) -> (r: Option<Span>)
        ensures
            match r {
                Some(span) => self.since(earlier) == Some(span.nanos as int),
                None => self.since(earlier) is None,
            },
    {
        let gap = self.signed_gap(earlier);
        if gap >= 0 {
            Some(Span { nanos: gap as u128 })
        } else {
            None
        }
    }

    /// Decides whether this time is the later one.
    pub fn after(self, other: Timestamp) -> (r: bool)
        ensures
            r == self.is_after(other),
    {
        self.secs > other.secs || (self.secs == other.secs && self.nanos > other.nanos)
    }

    /// The current wall-clock time.
    pub fn now() -> Timestamp {
        let (secs, nanos) = utc_clock();
        Timestamp { secs, nanos }
    }
}

/// The later of two times; the second where they are equal.
pub open spec fn later(a: Timestamp, b: Timestamp) -> Timestamp {
    if a.is_after(b) {
        a
    } else {
        b
    }
}

/// The later of two times that may be missing.
pub open spec fn latest(a: Option<Timestamp>, b: Option<Timestamp>) -> Option<Timestamp> {
    match (a, b) {
        (Some(x), Some(y)) => Some(later(x, y)),
        (Some(x), None) => Some(x),
        (None, y) => y,
    }
}

/// Picks the later of two times that may be missing.
pub fn latest_of(a: Option<Timestamp>, b: Option<Timestamp>) -> (r: Option<Timestamp>)
    ensures
        r == latest(a, b),
{
    match (a, b) {
        (Some(x), Some(y)) => if x.after(y) {
            Some(x)
        } else {
            Some(y)
        },
        (Some(x), None) => Some(x),
        (None, y) => y,
    }
}

/// The first time that is present.
pub open spec fn first_of(a: Option<Timestamp>, b: Option<Timestamp>) -> Option<Timestamp> {
    match a {
        Some(x) => Some(x),
        None => b,
    }
}

/// Picks the first time that is present.
pub fn either(a: Option<Timestamp>, b: Option<Timestamp>) -> (r: Option<Timestamp>)
    ensures
        r == first_of(a, b),
{
    match a {
        Some(x) => Some(x),
        None => b,
    }
}

/// A reading of the monotonic clock, in nanoseconds.
#[derive(Debug, Clone, Copy, PartialEq, Eq, Structural)]
pub struct Moment {
    pub nanos: u128,
}

impl Moment {
    /// How long before this reading another one was taken.
    pub open spec fn since(self, earlier: Moment) -> Option<int> {
        if self.nanos >= earlier.nanos {
            Some(self.nanos - earlier.nanos)
        } else {
            None
        }
    }

    /// The span from an earlier reading to this one; `None` where the other
    /// reading is the later one.
    pub fn checked_since(self, earlier: Moment) -> (r: Option<Span>)
        ensures
            match r {
                Some(span) => self.since(earlier) == Some(span.nanos as int),
                None => self.since(earlier) is None,
            },
    {
        if self.nanos >= earlier.nanos {
            Some(Span { nanos: self.nanos - earlier.nanos })
        } else {
            None
        }
    }

    /// The span from another reading to this one; empty where the other
    /// reading is the later one.
    pub fn saturating_since(self, earlier: Moment) -> (r: Span)
        ensures
            r.nanos == (match self.since(earlier) {
                Some(d) => d,
                None => 0,
            }),
    {
        Span { nanos: self.nanos.saturating_sub(earlier.nanos) }
    }

    /// The current reading of the monotonic clock.
    pub fn now() -> (r: Moment)
        ensures
            exists|reading: Option<(i64, i64)>| r.nanos == #[trigger] reading_nanos(reading),
    {
        let reading = monotonic_clock();
        Moment::from_reading(reading)
    }

    /// The moment that a reading of the monotonic clock stands for, in seconds
    /// and the nanoseconds after them; the start of the clock where it could not
    /// be read or a part is negative.
    pub fn from_reading(reading: Option<(i64, i64)>) -> (r: Moment)
        ensures
            r.nanos == reading_nanos(reading),
    {
        match reading {
            Some((secs, nanos)) => if secs >= 0 && nanos >= 0 {
                Moment { nanos: secs as u128 * NANOS_PER_SEC + nanos as u128 }
            } else {
                Moment { nanos: 0 }
            },
            None => Moment { nanos: 0 },
        }
    }
}

/// The nanoseconds that a reading of the monotonic clock stands for; zero where
/// it could not be read or a part is negative.
pub open spec fn reading_nanos(reading: Option<(i64, i64)>) -> int {
    match reading {
        Some((secs, nanos)) => if secs >= 0 && nanos >= 0 {
            secs * NANOS_PER_SEC + nanos
        } else {
            0
        },
        None => 0,
    }
}

/// `chrono::Utc::now`: the current time as seconds since the Unix epoch and
/// the nanoseconds after them. Nothing is promised of a clock reading.
#[verifier::external_body]
fn utc_clock() -> (i64, u32) {
    let now = chrono::Utc::now();
    (now.timestamp(), now.timestamp_subsec_nanos())
}

/// `nix::time::clock_gettime` on `CLOCK_MONOTONIC`, the clock that
/// `std::time::Instant` reads: its seconds and nanoseconds, `None` where the
/// clock cannot be read. Nothing is promised of a clock reading.
#[verifier::external_body]
fn monotonic_clock() -> Option<(i64, i64)> {
    match nix::time::clock_gettime(nix::time::ClockId::CLOCK_MONOTONIC) {
        Ok(time) => Some((time.tv_sec(), time.tv_nsec())),
        Err(_) => None,
    }
}

/// The time that a text in RFC 3339 notation stands for, as seconds since the
/// Unix epoch and the nanoseconds after them; `None` where it is no such text.
pub uninterp spec fn date_time(text: Seq<char>) -> Option<(i64, u32)>;

/// `str::parse::<chrono::DateTime<chrono::FixedOffset>>`: reads a time in
/// RFC 3339 notation, also with a space before the time of day. The result
/// depends on the text alone.
#[verifier::external_body]
fn read_date_time(text: &str) -> (r: Option<(i64, u32)>)
    ensures
        r == date_time(text@),
{
    match text.parse::<chrono::DateTime<chrono::FixedOffset>>() {
        Ok(time) => Some((time.timestamp(), time.timestamp_subsec_nanos())),
        Err(_) => None,
    }
}

/// The time that a text stands for.
pub open spec fn timestamp_of(text: Seq<char>) -> Option<Timestamp> {
    match date_time(text) {
        Some((secs, nanos)) => Some(Timestamp { secs, nanos }),
        None => None,
    }
}

/// Reads a time.
pub fn parse_timestamp(text: &str) -> (r: Option<Timestamp>)
    ensures
        r == timestamp_of(text@),
{
    match read_date_time(text) {
        Some((secs, nanos)) => Some(Timestamp { secs, nanos }),
        None => None,
    }
}

/// A time in RFC 3339 notation with whole seconds and the suffix `Z`; `None`
/// for a time outside the range of `chrono::DateTime`.
pub uninterp spec fn rfc3339(secs: i64, nanos: u32) -> Option<Seq<char>>;

/// `chrono::DateTime::<Utc>::to_rfc3339_opts` with whole seconds and `Z`, on
/// the time that `DateTime::from_timestamp` makes of the seconds and
/// nanoseconds. The text depends on these alone.
#[verifier::external_body]
fn write_rfc3339(secs: i64, nanos: u32) -> (r: Option<String>)
    ensures
        text_view(r) == rfc3339(secs, nanos),
{
    match chrono::DateTime::<chrono::Utc>::from_timestamp(secs, nanos) {
        Some(time) => Some(time.to_rfc3339_opts(chrono::SecondsFormat::Secs, true)),
        None => None,
    }
}

/// A time as it is shown; empty outside the range of calendar dates.
pub open spec fn shown_time(t: Timestamp) -> Seq<char> {
    match rfc3339(t.secs, t.nanos) {
        Some(shown) => shown,
        None => seq![],
    }
}

/// Writes a time with whole seconds.
pub fn format_timestamp(timestamp: Timestamp) -> (r: String)
    ensures
        r@ == shown_time(timestamp),
{
    match write_rfc3339(timestamp.secs, timestamp.nanos) {
        Some(shown) => shown,
        None => {
            let empty = String::new();
            assert(empty@ =~= seq![]);
            empty
        },
    }
}

} // verus!
