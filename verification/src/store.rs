//! What the session database holds: rows, their checks, and the connections
//! that are open.

use crate::clock::Timestamp;
use crate::paths::{join_path, joined_path};
use crate::state::{AgentState, StateView};
use crate::text::{decimal, push_decimal};
use crate::types::{text_view, AgentPhase};
use vstd::prelude::*;

verus! {

/// How many connections a store keeps open at most.
pub const DEFAULT_POOL_SIZE: usize = 4;

/// The first second of the calendar of `chrono`.
pub const FIRST_SECOND: i64 = -8_334_601_228_800;

/// The last second of the calendar of `chrono`.
pub const LAST_SECOND: i64 = 8_210_266_876_799;

/// Whether a time lies within the calendar.
pub open spec fn on_calendar(t: Timestamp) -> bool {
    FIRST_SECOND <= t.secs <= LAST_SECOND && t.nanos < 2_000_000_000
}

/// A time in milliseconds since the Unix epoch, rounded down.
pub open spec fn millis(t: Timestamp) -> int {
    t.secs * 1000 + (t.nanos / 1_000_000) as int
}

/// Expresses a time in milliseconds since the Unix epoch.
pub fn timestamp_millis(t: Timestamp) -> (r: i64)
    requires
        on_calendar(t),
    ensures
        r == millis(t),
{
    t.secs * 1000 + (t.nanos / 1_000_000) as i64
}

/// `chrono::DateTime::<Utc>::from_timestamp_millis`: the time that lies this
/// many milliseconds after the Unix epoch, as whole seconds and the nanoseconds
/// after them; `None` outside the calendar.
#[verifier::external_body]
fn read_millis(timestamp_ms: i64) -> (r: Option<(i64, u32)>)
    ensures
        r is Some <==> FIRST_SECOND * 1000 <= timestamp_ms <= LAST_SECOND * 1000 + 999,
        r is Some ==> (r->0).0 == timestamp_ms as int / 1000 && (r->0).1 == (timestamp_ms as int % 1000)
            * 1_000_000,
{
    match chrono::DateTime::<chrono::Utc>::from_timestamp_millis(timestamp_ms) {
        Some(time) => Some((time.timestamp(), time.timestamp_subsec_nanos())),
        None => None,
    }
}

/// The complaint about a number that is no time.
pub open spec fn invalid_time(timestamp_ms: i64) -> Seq<char> {
    if timestamp_ms < 0 {
        "invalid stored timestamp: -"@ + decimal((-timestamp_ms) as nat)
    } else {
        "invalid stored timestamp: "@ + decimal(timestamp_ms as nat)
    }
}

/// Whether a number of milliseconds is a time of the calendar.
pub open spec fn is_time(timestamp_ms: i64) -> bool {
    FIRST_SECOND * 1000 <= timestamp_ms <= LAST_SECOND * 1000 + 999
}

/// The time that lies a number of milliseconds after the Unix epoch.
pub open spec fn time_of(timestamp_ms: i64) -> Timestamp {
    Timestamp {
        secs: (timestamp_ms as int / 1000) as i64,
        nanos: ((timestamp_ms as int % 1000) * 1_000_000) as u32,
    }
}

/// Reads a stored time.
pub fn datetime_from_millis(timestamp_ms: i64) -> (r: Result<Timestamp, String>)
    ensures
        match r {
            Ok(t) => is_time(timestamp_ms) && t == time_of(timestamp_ms),
            Err(message) => !is_time(timestamp_ms) && message@ == invalid_time(timestamp_ms),
        },
{
    match read_millis(timestamp_ms) {
        Some((secs, nanos)) => Ok(Timestamp { secs, nanos }),
        None => {
            if timestamp_ms < 0 {
                let mut message: String = "invalid stored timestamp: -".to_owned();
                push_decimal(&mut message, -(timestamp_ms as i128) as u128);
                Err(message)
            } else {
                let mut message: String = "invalid stored timestamp: ".to_owned();
                push_decimal(&mut message, timestamp_ms as u128);
                Err(message)
            }
        },
    }
}

/// Where the database lies below a home directory.
pub fn db_path_in(home: &str) -> (r: String)
    ensures
        r@ == joined_path(joined_path(home@, ".saw"@), "saw.db"@),
{
    join_path(join_path(home, ".saw").as_str(), "saw.db")
}

/// The state as it is stored: under the identifier of its row.
pub open spec fn canonical(s: StateView, session_id: String) -> StateView {
    StateView { session_id: Some(session_id), ..s }
}

/// The state as it is stored under an identifier.
pub fn canonicalize_state(session_id: &str, state: &AgentState) -> (r: AgentState)
    ensures
        text_view(r.session_id) == Some(session_id@),
        r@ == (StateView { session_id: r.session_id, ..state@ }),
{
    let mut stored: AgentState = state.clone();
    stored.session_id = Some(session_id.to_owned());
    stored
}

/// The columns of a session row besides its texts.
#[derive(Debug, Clone, Copy, PartialEq, Eq)]
pub struct SessionRow {
    pub started_at_ms: Option<i64>,
    pub updated_at_ms: i64,
    pub last_event_at_ms: Option<i64>,
    pub total_tool_calls: i64,
    pub touched_file_count: i64,
}

/// A time that may be missing, in milliseconds.
pub open spec fn optional_millis(t: Option<Timestamp>) -> Option<int> {
    match t {
        Some(t) => Some(millis(t)),
        None => None,
    }
}

/// The number in a column that may be empty.
pub open spec fn column(value: Option<i64>) -> Option<int> {
    match value {
        Some(n) => Some(n as int),
        None => None,
    }
}

/// Whether a time that may be missing lies within the calendar.
pub open spec fn stays_on_calendar(t: Option<Timestamp>) -> bool {
    t is Some ==> on_calendar(t->0)
}

fn millis_of(t: Option<Timestamp>) -> (r: Option<i64>)
    requires
        stays_on_calendar(t),
    ensures
        column(r) == optional_millis(t),
{
    match t {
        Some(t) => Some(timestamp_millis(t)),
        None => None,
    }
}

/// The columns of the row of a state. A count that is too large for the
/// database is an error.
pub fn session_row(state: &AgentState, now: Timestamp) -> (r: Result<SessionRow, String>)
    requires
        on_calendar(now),
        stays_on_calendar(state.session_started_at),
        stays_on_calendar(state.last_event_at),
    ensures
        match r {
            Ok(row) => {
                &&& column(row.started_at_ms) == optional_millis(state.session_started_at)
                &&& row.updated_at_ms == millis(now)
                &&& column(row.last_event_at_ms) == optional_millis(state.last_event_at)
                &&& row.total_tool_calls == state.total_tool_calls
                &&& row.touched_file_count == state.touched_files@.len()
            },
            Err(message) => if state.total_tool_calls > i64::MAX {
                message@ == "total_tool_calls exceeds SQLite INTEGER range"@
            } else {
                state.touched_files@.len() > i64::MAX && message@
                    == "touched_file_count exceeds SQLite INTEGER range"@
            },
        },
{
    if state.total_tool_calls > i64::MAX as u64 {
        return Err("total_tool_calls exceeds SQLite INTEGER range".to_owned());
    }
    let files: u64 = state.touched_files.len() as u64;
    if files > i64::MAX as u64 {
        return Err("touched_file_count exceeds SQLite INTEGER range".to_owned());
    }
    Ok(
        SessionRow {
            started_at_ms: millis_of(state.session_started_at),
            updated_at_ms: timestamp_millis(now),
            last_event_at_ms: millis_of(state.last_event_at),
            total_tool_calls: state.total_tool_calls as i64,
            touched_file_count: files as i64,
        },
    )
}

/// A number of files as a column holds it.
pub fn checkpoint_file_count(files: usize) -> (r: Result<i64, String>)
    ensures
        match r {
            Ok(n) => n == files,
            Err(message) => files > i64::MAX && message@
                == "checkpoint file count exceeds SQLite INTEGER range"@,
        },
{
    let count: u64 = files as u64;
    if count > i64::MAX as u64 {
        return Err("checkpoint file count exceeds SQLite INTEGER range".to_owned());
    }
    Ok(count as i64)
}

/// A limit on the number of rows as a query takes it.
pub fn row_limit(limit: usize) -> (r: Result<i64, String>)
    ensures
        match r {
            Ok(n) => n == limit,
            Err(message) => limit > i64::MAX && message@ == "limit exceeds SQLite INTEGER range"@,
        },
{
    let limit: u64 = limit as u64;
    if limit > i64::MAX as u64 {
        return Err("limit exceeds SQLite INTEGER range".to_owned());
    }
    Ok(limit as i64)
}

/// A stored session in short.
#[derive(Debug, PartialEq)]
pub struct SessionSummary {
    pub session_id: String,
    pub started_at: Option<Timestamp>,
    pub updated_at: Timestamp,
    pub phase: AgentPhase,
    pub total_tool_calls: u64,
    pub touched_file_count: usize,
    pub checkpoint_count: u64,
    pub latest_checkpoint_at: Option<Timestamp>,
}

/// A row of the list of sessions.
#[derive(Debug, PartialEq, Eq)]
pub struct SummaryRow {
    pub session_id: String,
    pub started_at_ms: Option<i64>,
    pub updated_at_ms: i64,
    pub total_tool_calls: i64,
    pub touched_file_count: i64,
    pub checkpoint_count: i64,
    pub latest_checkpoint_at_ms: Option<i64>,
}

/// Whether a column holds a time, or none.
pub open spec fn is_optional_time(timestamp_ms: Option<i64>) -> bool {
    timestamp_ms is Some ==> is_time(timestamp_ms->0)
}

/// The time in a column.
pub open spec fn optional_time(timestamp_ms: Option<i64>) -> Option<Timestamp> {
    match timestamp_ms {
        Some(ms) => Some(time_of(ms)),
        None => None,
    }
}

/// What is wrong with a row, if anything: the first column that does not hold
/// what it should. The phase comes behind the two times.
pub open spec fn row_fault(row: SummaryRow, phase_fault: Option<Seq<char>>) -> Option<Seq<char>> {
    if !is_optional_time(row.started_at_ms) {
        Some(invalid_time(row.started_at_ms->0))
    } else if !is_time(row.updated_at_ms) {
        Some(invalid_time(row.updated_at_ms))
    } else if phase_fault is Some {
        phase_fault
    } else if row.total_tool_calls < 0 {
        Some("stored total_tool_calls is negative"@)
    } else if row.touched_file_count < 0 || row.touched_file_count > usize::MAX {
        Some("stored touched_file_count is negative"@)
    } else if row.checkpoint_count < 0 {
        Some("stored checkpoint_count is negative"@)
    } else if !is_optional_time(row.latest_checkpoint_at_ms) {
        Some(invalid_time(row.latest_checkpoint_at_ms->0))
    } else {
        None
    }
}

fn optional_datetime(timestamp_ms: Option<i64>) -> (r: Result<Option<Timestamp>, String>)
    ensures
        match r {
            Ok(t) => is_optional_time(timestamp_ms) && t == optional_time(timestamp_ms),
            Err(message) => !is_optional_time(timestamp_ms) && message@ == invalid_time(
                timestamp_ms->0,
            ),
        },
{
    match timestamp_ms {
        Some(ms) => match datetime_from_millis(ms) {
            Ok(t) => Ok(Some(t)),
            Err(message) => Err(message),
        },
        None => Ok(None),
    }
}

/// The complaint about a phase that could not be read.
pub open spec fn phase_fault(phase: Result<AgentPhase, String>) -> Option<Seq<char>> {
    match phase {
        Ok(_) => None,
        Err(message) => Some(message@),
    }
}

/// Reads a row of the list of sessions.
pub fn summarize(row: SummaryRow, phase: Result<AgentPhase, String>) -> (r: Result<
    SessionSummary,
    String,
>)
    ensures
        match r {
            Ok(summary) => {
                &&& row_fault(row, phase_fault(phase)) is None
                &&& summary.session_id == row.session_id
                &&& summary.started_at == optional_time(row.started_at_ms)
                &&& summary.updated_at == time_of(row.updated_at_ms)
                &&& phase == Ok::<AgentPhase, String>(summary.phase)
                &&& summary.total_tool_calls == row.total_tool_calls
                &&& summary.touched_file_count == row.touched_file_count
                &&& summary.checkpoint_count == row.checkpoint_count
                &&& summary.latest_checkpoint_at == optional_time(row.latest_checkpoint_at_ms)
            },
            Err(message) => row_fault(row, phase_fault(phase)) == Some(message@),
        },
{
    let started_at = match optional_datetime(row.started_at_ms) {
        Ok(t) => t,
        Err(message) => {
            return Err(message);
        },
    };
    let updated_at = match datetime_from_millis(row.updated_at_ms) {
        Ok(t) => t,
        Err(message) => {
            return Err(message);
        },
    };
    let phase = match phase {
        Ok(phase) => phase,
        Err(message) => {
            return Err(message);
        },
    };
    if row.total_tool_calls < 0 {
        return Err("stored total_tool_calls is negative".to_owned());
    }
    if row.touched_file_count < 0 || row.touched_file_count as i128 > usize::MAX as i128 {
        return Err("stored touched_file_count is negative".to_owned());
    }
    if row.checkpoint_count < 0 {
        return Err("stored checkpoint_count is negative".to_owned());
    }
    let latest_checkpoint_at = match optional_datetime(row.latest_checkpoint_at_ms) {
        Ok(t) => t,
        Err(message) => {
            return Err(message);
        },
    };
    Ok(
        SessionSummary {
            session_id: row.session_id,
            started_at,
            updated_at,
            phase,
            total_tool_calls: row.total_tool_calls as u64,
            touched_file_count: row.touched_file_count as usize,
            checkpoint_count: row.checkpoint_count as u64,
            latest_checkpoint_at,
        },
    )
}

/// How many connections of a pool are open and how many of them are idle.
#[derive(Debug, Clone, Copy, PartialEq, Eq)]
pub struct PoolState {
    pub idle: usize,
    pub total: usize,
    pub max_size: usize,
}

/// What a caller that needs a connection does.
#[derive(Debug, Clone, Copy, PartialEq, Eq, Structural)]
pub enum PoolStep {
    /// Takes an idle connection.
    Reuse,
    /// Opens a connection.
    Open,
    /// Waits until a connection is released.
    Wait,
}

impl PoolState {
    /// Whether the numbers can be those of a pool.
    pub open spec fn is_valid(self) -> bool {
        self.idle <= self.total <= self.max_size && self.max_size >= 1
    }

    /// The connections that callers hold.
    pub open spec fn in_use(self) -> int {
        self.total - self.idle
    }

    /// A pool with one open connection, which is idle. A pool has room for at
    /// least one.
    pub fn new(max_size: usize) -> (r: Self)
        ensures
            r.is_valid(),
            r.idle == 1,
            r.total == 1,
            r.max_size == if max_size == 0 {
                1
            } else {
                max_size
            },
    {
        let max_size: usize = if max_size == 0 {
            1
        } else {
            max_size
        };
        PoolState { idle: 1, total: 1, max_size }
    }

    /// Asks for a connection. One more is in use unless the caller has to wait.
    pub fn checkout(&mut self) -> (r: PoolStep)
        requires
            old(self).is_valid(),
        ensures
            final(self).is_valid(),
            final(self).max_size == old(self).max_size,
            r == PoolStep::Reuse <==> old(self).idle > 0,
            r == PoolStep::Wait <==> old(self).idle == 0 && old(self).total == old(self).max_size,
            r == PoolStep::Wait ==> *final(self) == *old(self),
            r != PoolStep::Wait ==> final(self).in_use() == old(self).in_use() + 1,
            final(self).total == if r == PoolStep::Open {
                old(self).total + 1
            } else {
                old(self).total as int
            },
    {
        if self.idle > 0 {
            self.idle = self.idle - 1;
            return PoolStep::Reuse;
        }
        if self.total < self.max_size {
            self.total = self.total + 1;
            return PoolStep::Open;
        }
        PoolStep::Wait
    }

    /// Takes note that a connection could not be opened.
    pub fn open_failed(&mut self)
        requires
            old(self).is_valid(),
            old(self).in_use() > 0,
        ensures
            final(self).is_valid(),
            final(self).max_size == old(self).max_size,
            final(self).idle == old(self).idle,
            final(self).total == old(self).total - 1,
    {
        self.total = self.total - 1;
    }

    /// Takes a connection back.
    pub fn release(&mut self)
        requires
            old(self).is_valid(),
            old(self).in_use() > 0,
        ensures
            final(self).is_valid(),
            final(self).max_size == old(self).max_size,
            final(self).total == old(self).total,
            final(self).idle == old(self).idle + 1,
    {
        self.idle = self.idle + 1;
    }
}

} // verus!
