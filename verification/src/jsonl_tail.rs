//! Following a session log: framing of lines, retries and the choice between
//! notifications and polling.

use crate::clock::{Moment, Span, Timestamp};
use crate::paths::{
    extension_is, file_extension, lies_directly_in, parent_parts, parts, path_before, path_less,
    paths_equal, same_path,
};
use crate::session::{line_event, SessionRecord};

use crate::types::{event_view, AgentEvent, EventView};
use vstd::prelude::*;
use vstd::utf8::{decode_utf8, valid_utf8};

verus! {

/// How often the log's directory is polled by the notification backend, in
/// nanoseconds.
pub const JSONL_TAIL_POLL_INTERVAL_NANOS: u128 = 100_000_000;

/// How long the tailer waits for a first notification, in nanoseconds.
pub const JSONL_TAIL_NOTIFY_IDLE_TIMEOUT_NANOS: u128 = 5_000_000_000;

/// How often the log is polled without notifications, in nanoseconds.
pub const JSONL_TAIL_FALLBACK_POLL_INTERVAL_NANOS: u128 = 2_000_000_000;

/// The first wait before a missing log is looked for again, in nanoseconds.
pub const INITIAL_RETRY_BACKOFF_NANOS: u128 = 100_000_000;

/// The longest wait before a missing log is looked for again, in nanoseconds.
pub const MAX_RETRY_BACKOFF_NANOS: u128 = 2_000_000_000;

/// How the tailer learns of changes.
#[derive(Debug, Clone, Copy, PartialEq, Eq, Structural)]
pub enum JsonlTailMode {
    Notify,
    Polling,
}

/// Options of the tailer.
#[derive(Debug, Clone, Copy, PartialEq, Eq, Structural)]
pub struct JsonlTailerOptions {
    /// Whether the newest log of the directory is followed.
    pub follow_newest: bool,
    /// Whether the log is polled from the start.
    pub force_poll: bool,
    /// The process that writes the log, where it is known.
    pub process_pid: Option<u32>,
}

impl Default for JsonlTailerOptions {
    fn default() -> (r: Self)
        ensures
            r.follow_newest,
            !r.force_poll,
            r.process_pid is None,
    {
        JsonlTailerOptions { follow_newest: true, force_poll: false, process_pid: None }
    }
}

/// The first line feed of a sequence of bytes; its length where there is none.
pub open spec fn newline_at(bytes: Seq<u8>) -> int
    decreases bytes.len(),
{
    if bytes.len() == 0 {
        0
    } else if bytes[0] == 10 {
        0
    } else {
        1 + newline_at(bytes.drop_first())
    }
}

/// Where the first line feed stands.
pub proof fn lemma_newline_at(bytes: Seq<u8>)
    ensures
        0 <= newline_at(bytes) <= bytes.len(),
        newline_at(bytes) < bytes.len() ==> bytes[newline_at(bytes)] == 10,
        forall|k: int| 0 <= k < newline_at(bytes) ==> bytes[k] != 10,
    decreases bytes.len(),
{
    if bytes.len() > 0 && bytes[0] != 10 {
        let rest = bytes.drop_first();
        lemma_newline_at(rest);
        assert forall|k: int| 0 <= k < newline_at(bytes) implies bytes[k] != 10 by {
            if k > 0 {
                assert(bytes[k] == rest[k - 1]);
            }
        }
    }
}

proof fn lemma_newline_is(bytes: Seq<u8>, n: int)
    requires
        0 <= n <= bytes.len(),
        forall|k: int| 0 <= k < n ==> bytes[k] != 10,
        n == bytes.len() || bytes[n] == 10,
    ensures
        newline_at(bytes) == n,
    decreases n,
{
    if n > 0 {
        let rest = bytes.drop_first();
        assert forall|k: int| 0 <= k < n - 1 implies rest[k] != 10 by {
            assert(rest[k] == bytes[k + 1]);
        }
        lemma_newline_is(rest, n - 1);
    }
}

/// The lines of a sequence of bytes that a line feed ends, without it.
pub open spec fn complete_lines(bytes: Seq<u8>) -> Seq<Seq<u8>>
    decreases bytes.len(),
{
    let n = newline_at(bytes);
    if n < 0 || n >= bytes.len() {
        seq![]
    } else {
        seq![bytes.take(n)] + complete_lines(bytes.skip(n + 1))
    }
}

/// The bytes after the last line feed.
pub open spec fn leftover(bytes: Seq<u8>) -> Seq<u8>
    decreases bytes.len(),
{
    let n = newline_at(bytes);
    if n < 0 || n >= bytes.len() {
        bytes
    } else {
        leftover(bytes.skip(n + 1))
    }
}

/// Whether a byte is ASCII white space.
pub open spec fn is_ascii_space(b: u8) -> bool {
    b == 32 || b == 9 || b == 10 || b == 12 || b == 13
}

/// A line without the carriage return at its end.
pub open spec fn without_cr_byte(line: Seq<u8>) -> Seq<u8> {
    if line.len() > 0 && line.last() == 13 {
        line.drop_last()
    } else {
        line
    }
}

/// Whether a line holds nothing but ASCII white space.
pub open spec fn is_blank_line(line: Seq<u8>) -> bool {
    forall|i: int| 0 <= i < line.len() ==> is_ascii_space(#[trigger] line[i])
}

/// The event that a line of a log stands for. A blank line and one that is no
/// UTF-8 stand for none.
pub open spec fn raw_line_event(raw: Seq<u8>) -> Option<EventView> {
    let line = without_cr_byte(raw);
    if is_blank_line(line) || !valid_utf8(line) {
        None
    } else {
        line_event(decode_utf8(line))
    }
}

/// The events that the lines of a log stand for.
pub open spec fn line_events(list: Seq<Seq<u8>>) -> Seq<EventView>
    decreases list.len(),
{
    if list.len() == 0 {
        seq![]
    } else {
        let rest = line_events(list.drop_last());
        match raw_line_event(list.last()) {
            Some(event) => rest.push(event),
            None => rest,
        }
    }
}

/// The values of a list of events.
pub open spec fn event_views(list: Seq<AgentEvent>) -> Seq<EventView> {
    list.map_values(|e: AgentEvent| e@)
}

/// `std::str::from_utf8`: reads bytes as UTF-8 text, `None` where they are not.
#[verifier::external_body]
fn read_utf8(bytes: &Vec<u8>) -> (r: Option<String>)
    ensures
        match r {
            Some(t) => valid_utf8(bytes@) && t@ == decode_utf8(bytes@),
            None => !valid_utf8(bytes@),
        },
{
    match std::str::from_utf8(bytes) {
        Ok(t) => Some(t.to_owned()),
        Err(_) => None,
    }
}

fn blank_line(line: &Vec<u8>) -> (r: bool)
    ensures
        r == is_blank_line(line@),
{
    let mut i: usize = 0;
    while i < line.len()
        invariant
            i <= line@.len(),
            forall|k: int| 0 <= k < i ==> is_ascii_space(#[trigger] line@[k]),
        decreases line@.len() - i,
    {
        let b: u8 = line[i];
        if !(b == 32 || b == 9 || b == 10 || b == 12 || b == 13) {
            assert(!is_ascii_space(line@[i as int]));
            return false;
        }
        i = i + 1;
    }
    true
}

fn copy_bytes(bytes: &Vec<u8>, from: usize, to: usize) -> (r: Vec<u8>)
    requires
        from <= to <= bytes@.len(),
    ensures
        r@ == bytes@.subrange(from as int, to as int),
{
    let mut out: Vec<u8> = Vec::new();
    let mut i: usize = from;
    while i < to
        invariant
            from <= i <= to <= bytes@.len(),
            out@ == bytes@.subrange(from as int, i as int),
        decreases to - i,
    {
        out.push(bytes[i]);
        i = i + 1;
        assert(out@ =~= bytes@.subrange(from as int, i as int));
    }
    out
}

/// Reads the event that a line of a log stands for.
pub fn parse_raw_line(raw: &Vec<u8>) -> (r: Option<AgentEvent>)
    ensures
        event_view(r) == raw_line_event(raw@),
{
    let end: usize = if raw.len() > 0 && raw[raw.len() - 1] == 13 {
        raw.len() - 1
    } else {
        raw.len()
    };
    let line = copy_bytes(raw, 0, end);
    assert(line@ =~= without_cr_byte(raw@));
    if blank_line(&line) {
        return None;
    }
    match read_utf8(&line) {
        Some(t) => SessionRecord::parse(t.as_str()),
        None => None,
    }
}

/// The bytes of a log that wait for the end of their line.
#[derive(Debug, PartialEq, Eq)]
pub struct LineBuffer {
    pub bytes: Vec<u8>,
}

impl LineBuffer {
    /// An empty buffer.
    pub fn new() -> (r: Self)
        ensures
            r.bytes@ == Seq::<u8>::empty(),
    {
        LineBuffer { bytes: Vec::new() }
    }

    /// Takes more bytes of the log and returns the events of the lines that they
    /// complete, in order. An unfinished line waits in the buffer.
    pub fn feed(&mut self, bytes: &Vec<u8>) -> (r: Vec<AgentEvent>)
        ensures
            event_views(r@) == line_events(complete_lines(old(self).bytes@ + bytes@)),
            final(self).bytes@ == leftover(old(self).bytes@ + bytes@),
    {
        let ghost before = self.bytes@;
        let mut i: usize = 0;
        while i < bytes.len()
            invariant
                i <= bytes@.len(),
                self.bytes@ == before + bytes@.take(i as int),
            decreases bytes@.len() - i,
        {
            self.bytes.push(bytes[i]);
            i = i + 1;
            assert(self.bytes@ =~= before + bytes@.take(i as int));
        }
        assert(bytes@.take(i as int) =~= bytes@);
        let ghost all = self.bytes@;
        let mut events: Vec<AgentEvent> = Vec::new();
        let mut consumed: usize = 0;
        let mut index: usize = 0;
        let ghost mut done: Seq<Seq<u8>> = seq![];
        proof {
            assert(all.skip(0) =~= all);
            assert(done + complete_lines(all) =~= complete_lines(all));
            assert(event_views(events@) =~= seq![]);
        }
        while index < self.bytes.len()
            invariant
                consumed <= index <= all.len(),
                all == self.bytes@,
                forall|k: int| consumed <= k < index ==> all[k] != 10,
                complete_lines(all) == done + complete_lines(all.skip(consumed as int)),
                leftover(all) == leftover(all.skip(consumed as int)),
                event_views(events@) == line_events(done),
            decreases all.len() - index,
        {
            if self.bytes[index] == 10 {
                let line = copy_bytes(&self.bytes, consumed, index);
                let ghost rest = all.skip(consumed as int);
                let ghost wider = done.push(line@);
                proof {
                    assert forall|k: int| 0 <= k < index - consumed implies rest[k] != 10 by {
                        assert(rest[k] == all[consumed + k]);
                    }
                    lemma_newline_is(rest, index - consumed);
                    assert(rest.take(index - consumed) =~= line@);
                    assert(rest.skip(index - consumed + 1) =~= all.skip(index + 1));
                    assert(done + (seq![line@] + complete_lines(all.skip(index + 1))) =~= wider
                        + complete_lines(all.skip(index + 1)));
                    assert(wider.drop_last() =~= done);
                }
                if let Some(event) = parse_raw_line(&line) {
                    let ghost shorter = event_views(events@);
                    events.push(event);
                    assert(event_views(events@) =~= shorter.push(event@));
                }
                consumed = index + 1;
                proof {
                    done = wider;
                }
            }
            index = index + 1;
        }
        let rest = copy_bytes(&self.bytes, consumed, self.bytes.len());
        proof {
            let tail = all.skip(consumed as int);
            assert(rest@ =~= tail);
            assert forall|k: int| 0 <= k < tail.len() implies tail[k] != 10 by {
                assert(tail[k] == all[consumed + k]);
            }
            lemma_newline_is(tail, tail.len() as int);
            assert(done + complete_lines(tail) =~= done);
        }
        self.bytes = rest;
        events
    }
}

/// A log's file as it was last seen.
#[derive(Debug, PartialEq, Eq)]
pub struct FileSnapshot {
    pub path: String,
    pub modified: Timestamp,
    pub len: u64,
}

/// Whether two observations of a log's file agree.
pub open spec fn same_snapshot(a: Option<FileSnapshot>, b: Option<FileSnapshot>) -> bool {
    match (a, b) {
        (Some(x), Some(y)) => same_path(x.path@, y.path@) && x.modified
            == y.modified && x.len == y.len,
        (None, None) => true,
        _ => false,
    }
}

fn snapshots_equal(a: &Option<FileSnapshot>, b: &Option<FileSnapshot>) -> (r: bool)
    ensures
        r == same_snapshot(*a, *b),
{
    match (a, b) {
        (Some(x), Some(y)) => paths_equal(x.path.as_str(), y.path.as_str()) && !x.modified.after(
            y.modified,
        ) && !y.modified.after(x.modified) && x.len == y.len,
        (None, None) => true,
        _ => false,
    }
}

/// Follows a session log. The tailer holds what was read and decides what is
/// read next; its caller reads the files.
#[derive(Debug)]
pub struct JsonlTailer {
    pub file_path: String,
    pub active_path: String,
    pub byte_offset: u64,
    pub buffer: LineBuffer,
    pub follow_newest: bool,
    pub next_retry_at: Moment,
    pub retry_backoff: Span,
    pub mode: JsonlTailMode,
    pub force_poll: bool,
    pub process_pid: Option<u32>,
    pub last_notify_event_at: Moment,
    pub notify_confirmed: bool,
    pub last_observed_snapshot: Option<FileSnapshot>,
}

/// The value of a [`JsonlTailer`].
pub struct TailView {
    pub file_path: String,
    pub active_path: String,
    pub byte_offset: u64,
    pub buffer: Seq<u8>,
    pub follow_newest: bool,
    pub next_retry_at: Moment,
    pub retry_backoff: Span,
    pub mode: JsonlTailMode,
    pub force_poll: bool,
    pub process_pid: Option<u32>,
    pub last_notify_event_at: Moment,
    pub notify_confirmed: bool,
    pub last_observed_snapshot: Option<FileSnapshot>,
}

impl View for JsonlTailer {
    type V = TailView;

    open spec fn view(&self) -> TailView {
        TailView {
            file_path: self.file_path,
            active_path: self.active_path,
            byte_offset: self.byte_offset,
            buffer: self.buffer.bytes@,
            follow_newest: self.follow_newest,
            next_retry_at: self.next_retry_at,
            retry_backoff: self.retry_backoff,
            mode: self.mode,
            force_poll: self.force_poll,
            process_pid: self.process_pid,
            last_notify_event_at: self.last_notify_event_at,
            notify_confirmed: self.notify_confirmed,
            last_observed_snapshot: self.last_observed_snapshot,
        }
    }
}

/// The tailer at an offset of its log, with nothing waiting.
pub open spec fn at_offset(t: TailView, byte_offset: u64) -> TailView {
    TailView { byte_offset, buffer: seq![], ..t }
}

/// The tailer after it found its log.
pub open spec fn without_backoff(t: TailView, now: Moment) -> TailView {
    TailView {
        next_retry_at: now,
        retry_backoff: Span { nanos: INITIAL_RETRY_BACKOFF_NANOS },
        ..t
    }
}

/// Twice a wait, up to the longest one.
pub open spec fn longer_backoff(backoff: Span) -> Span {
    if backoff.nanos * 2 <= MAX_RETRY_BACKOFF_NANOS {
        Span { nanos: (backoff.nanos * 2) as u128 }
    } else {
        Span { nanos: MAX_RETRY_BACKOFF_NANOS }
    }
}

/// A reading of the clock after a span; the last one where there is none.
pub open spec fn later_moment(now: Moment, span: Span) -> Moment {
    if now.nanos + span.nanos <= u128::MAX {
        Moment { nanos: (now.nanos + span.nanos) as u128 }
    } else {
        Moment { nanos: u128::MAX }
    }
}

/// The tailer after it missed its log.
pub open spec fn with_retry(t: TailView, now: Moment) -> TailView {
    TailView {
        next_retry_at: later_moment(now, t.retry_backoff),
        retry_backoff: longer_backoff(t.retry_backoff),
        ..t
    }
}

/// The tailer after it looked for its log. A missing log is waited for; another
/// log than the last one is read from its start.
pub open spec fn located(t: TailView, found: Option<String>, now: Moment) -> TailView {
    match found {
        Some(path) => {
            let ready = without_backoff(t, now);
            if same_path(path@, t.active_path@) {
                ready
            } else {
                at_offset(TailView { active_path: path, ..ready }, 0)
            }
        },
        None => if now.nanos < t.next_retry_at.nanos {
            t
        } else {
            at_offset(TailView { active_path: t.file_path, ..with_retry(t, now) }, 0)
        },
    }
}

/// The tailer once it knows how long its log is: one that got shorter is read
/// from its start.
pub open spec fn measured(t: TailView, file_len: u64) -> TailView {
    if file_len < t.byte_offset {
        at_offset(t, 0)
    } else {
        t
    }
}

/// Whether the tailer gives up on notifications: none came in time and the
/// writing process is alive.
pub open spec fn gives_up_notify(t: TailView, now: Moment, process_alive: bool) -> bool {
    &&& t.mode == JsonlTailMode::Notify
    &&& !t.notify_confirmed
    &&& (match now.since(t.last_notify_event_at) {
        Some(elapsed) => elapsed >= JSONL_TAIL_NOTIFY_IDLE_TIMEOUT_NANOS,
        None => false,
    })
    &&& process_alive
}

impl JsonlTailer {
    /// Whether nothing was read or seen of a log yet.
    pub open spec fn is_fresh(
        self,
        file_path: Seq<char>,
        options: JsonlTailerOptions,
        now: Moment,
    ) -> bool {
        &&& self.file_path@ == file_path
        &&& self.active_path@ == file_path
        &&& self.byte_offset == 0
        &&& self@.buffer == Seq::<u8>::empty()
        &&& self.follow_newest == options.follow_newest
        &&& self.next_retry_at == now
        &&& self.retry_backoff.nanos == INITIAL_RETRY_BACKOFF_NANOS
        &&& self.mode == (if options.force_poll {
            JsonlTailMode::Polling
        } else {
            JsonlTailMode::Notify
        })
        &&& self.force_poll == options.force_poll
        &&& self.process_pid == options.process_pid
        &&& self.last_notify_event_at == now
        &&& !self.notify_confirmed
        &&& self.last_observed_snapshot is None
    }

    /// A tailer with the usual options.
    pub fn new(file_path: &str, now: Moment) -> (r: Self)
        ensures
            r.is_fresh(
                file_path@,
                (JsonlTailerOptions { follow_newest: true, force_poll: false, process_pid: None }),
                now,
            ),
    {
        JsonlTailer::with_options(file_path, JsonlTailerOptions::default(), now)
    }

    /// A tailer that stays with its log or follows the newest one beside it.
    pub fn with_follow_newest(file_path: &str, follow_newest: bool, now: Moment) -> (r: Self)
        ensures
            r.is_fresh(
                file_path@,
                (JsonlTailerOptions { follow_newest, force_poll: false, process_pid: None }),
                now,
            ),
    {
        let options = JsonlTailerOptions { follow_newest, ..JsonlTailerOptions::default() };
        JsonlTailer::with_options(file_path, options, now)
    }

    /// A tailer that has read nothing yet.
    pub fn with_options(file_path: &str, options: JsonlTailerOptions, now: Moment) -> (r: Self)
        ensures
            r.is_fresh(file_path@, options, now),
    {
        JsonlTailer {
            file_path: file_path.to_owned(),
            active_path: file_path.to_owned(),
            byte_offset: 0,
            buffer: LineBuffer::new(),
            follow_newest: options.follow_newest,
            next_retry_at: now,
            retry_backoff: Span { nanos: INITIAL_RETRY_BACKOFF_NANOS },
            mode: if options.force_poll {
                JsonlTailMode::Polling
            } else {
                JsonlTailMode::Notify
            },
            force_poll: options.force_poll,
            process_pid: options.process_pid,
            last_notify_event_at: now,
            notify_confirmed: false,
            last_observed_snapshot: None,
        }
    }

    /// The log that was asked for.
    pub fn file_path(&self) -> (r: &str)
        ensures
            r@ == self.file_path@,
    {
        self.file_path.as_str()
    }

    /// The log that is read.
    pub fn active_path(&self) -> (r: &str)
        ensures
            r@ == self.active_path@,
    {
        self.active_path.as_str()
    }

    /// How much of the log was read.
    pub fn byte_offset(&self) -> (r: u64)
        ensures
            r == self.byte_offset,
    {
        self.byte_offset
    }

    /// How the tailer learns of changes.
    pub fn mode(&self) -> (r: JsonlTailMode)
        ensures
            r == self.mode,
    {
        self.mode
    }

    /// Moves to an offset of the log and forgets what waits.
    pub fn set_byte_offset(&mut self, byte_offset: u64)
        ensures
            final(self)@ == at_offset(old(self)@, byte_offset),
    {
        self.byte_offset = byte_offset;
        self.buffer = LineBuffer::new();
        assert(self.buffer.bytes@ =~= seq![]);
    }

    fn reset_retry_backoff(&mut self, now: Moment)
        ensures
            final(self)@ == without_backoff(old(self)@, now),
    {
        self.next_retry_at = now;
        self.retry_backoff = Span { nanos: INITIAL_RETRY_BACKOFF_NANOS };
    }

    /// Waits before the log is looked for again, each time twice as long, up to
    /// the longest wait.
    pub fn schedule_retry(&mut self, now: Moment)
        ensures
            final(self)@ == with_retry(old(self)@, now),
    {
        self.next_retry_at = Moment { nanos: now.nanos.saturating_add(self.retry_backoff.nanos) };
        self.retry_backoff = if self.retry_backoff.nanos <= MAX_RETRY_BACKOFF_NANOS / 2 {
            Span { nanos: self.retry_backoff.nanos * 2 }
        } else {
            Span { nanos: MAX_RETRY_BACKOFF_NANOS }
        };
    }

    /// Takes the log that was found, if any, and decides whether it is read.
    pub fn locate(&mut self, found: Option<String>, now: Moment) -> (r: bool)
        ensures
            r == (found is Some),
            final(self)@ == located(old(self)@, found, now),
    {
        match found {
            Some(path) => {
                self.reset_retry_backoff(now);
                if !paths_equal(path.as_str(), self.active_path.as_str()) {
                    self.active_path = path;
                    self.set_byte_offset(0);
                }
                true
            },
            None => {
                if now.nanos >= self.next_retry_at.nanos {
                    self.schedule_retry(now);
                    self.active_path = self.file_path.clone();
                    self.set_byte_offset(0);
                }
                false
            },
        }
    }

    /// Takes the length of the log and returns the offset from which it is read;
    /// `None` where there is nothing new.
    pub fn measure(&mut self, file_len: u64) -> (r: Option<u64>)
        ensures
            final(self)@ == measured(old(self)@, file_len),
            r == (if file_len == final(self)@.byte_offset {
                None
            } else {
                Some(final(self)@.byte_offset)
            }),
    {
        if file_len < self.byte_offset {
            self.set_byte_offset(0);
        }
        if file_len == self.byte_offset {
            None
        } else {
            Some(self.byte_offset)
        }
    }

    /// Takes the bytes that were read from the offset and returns the events of
    /// the lines that they complete.
    pub fn accept(&mut self, bytes: &Vec<u8>) -> (r: Vec<AgentEvent>)
        requires
            old(self).byte_offset + bytes@.len() <= u64::MAX,
        ensures
            event_views(r@) == line_events(complete_lines(old(self)@.buffer + bytes@)),
            final(self)@ == (TailView {
                byte_offset: (old(self).byte_offset + bytes@.len()) as u64,
                buffer: leftover(old(self)@.buffer + bytes@),
                ..old(self)@
            }),
    {
        self.byte_offset = self.byte_offset + bytes.len() as u64;
        self.buffer.feed(bytes)
    }

    /// Takes note of a relevant notification.
    pub fn confirm_notify(&mut self, now: Moment)
        ensures
            final(self)@ == (TailView {
                last_notify_event_at: now,
                notify_confirmed: true,
                next_retry_at: now,
                ..old(self)@
            }),
    {
        self.last_notify_event_at = now;
        self.notify_confirmed = true;
        self.next_retry_at = now;
    }

    /// Switches to polling where no notification came in time, and tells whether
    /// it did.
    pub fn maybe_switch_to_polling(&mut self, now: Moment, process_alive: bool) -> (r: bool)
        ensures
            r == gives_up_notify(old(self)@, now, process_alive),
            final(self)@ == (if r {
                TailView { mode: JsonlTailMode::Polling, ..old(self)@ }
            } else {
                old(self)@
            }),
    {
        let waited = match now.checked_since(self.last_notify_event_at) {
            Some(elapsed) => elapsed.nanos >= JSONL_TAIL_NOTIFY_IDLE_TIMEOUT_NANOS,
            None => false,
        };
        if self.mode == JsonlTailMode::Notify && !self.notify_confirmed && waited
            && process_alive {
            self.mode = JsonlTailMode::Polling;
            true
        } else {
            false
        }
    }

    /// Decides whether a poll found the log changed.
    pub fn is_changed(&self, current: &Option<FileSnapshot>) -> (r: bool)
        ensures
            r == !same_snapshot(*current, self.last_observed_snapshot),
    {
        !snapshots_equal(current, &self.last_observed_snapshot)
    }

    /// Remembers the log as it was seen.
    pub fn observe(&mut self, current: Option<FileSnapshot>)
        ensures
            final(self)@ == (TailView { last_observed_snapshot: current, ..old(self)@ }),
    {
        self.last_observed_snapshot = current;
    }
}

/// A file of a directory.
#[derive(Debug, PartialEq, Eq)]
pub struct DirectoryFile {
    pub path: String,
    pub is_file: bool,
    pub modified: Timestamp,
}

/// Whether a file is a session log.
pub open spec fn is_log(file: DirectoryFile) -> bool {
    file.is_file && file_extension(file.path@) == Some("jsonl"@)
}

/// Whether a file is newer than another one; of two equally old ones, the one
/// whose path comes last.
pub open spec fn is_newer(a: DirectoryFile, b: DirectoryFile) -> bool {
    ||| a.modified.is_after(b.modified)
    ||| a.modified == b.modified && path_less(b.path@, a.path@)
}

/// The newest session log of a directory.
pub open spec fn newest_log(files: Seq<DirectoryFile>) -> Option<DirectoryFile>
    decreases files.len(),
{
    if files.len() == 0 {
        None
    } else {
        let best = newest_log(files.drop_last());
        let file = files.last();
        if is_log(file) && (best is None || is_newer(file, best->0)) {
            Some(file)
        } else {
            best
        }
    }
}

/// Picks the newest session log of a directory.
pub fn select_newest_jsonl(files: &Vec<DirectoryFile>) -> (r: Option<String>)
    ensures
        r == (match newest_log(files@) {
            Some(file) => Some(file.path),
            None => None,
        }),
{
    let ghost all = files@;
    let mut best: Option<usize> = None;
    let mut i: usize = 0;
    assert(all.take(0) =~= seq![]);
    while i < files.len()
        invariant
            i <= all.len(),
            all == files@,
            match best {
                Some(b) => b < i && newest_log(all.take(i as int)) == Some(all[b as int]),
                None => newest_log(all.take(i as int)) is None,
            },
        decreases all.len() - i,
    {
        assert(all.take(i + 1).drop_last() =~= all.take(i as int));
        assert(all.take(i + 1).last() == all[i as int]);
        if files[i].is_file && extension_is(files[i].path.as_str(), "jsonl") {
            let replaces = match best {
                Some(b) => files[i].modified.after(files[b].modified) || (!files[b].modified.after(
                    files[i].modified,
                ) && path_before(files[b].path.as_str(), files[i].path.as_str())),
                None => true,
            };
            if replaces {
                best = Some(i);
            }
        }
        i = i + 1;
    }
    assert(all.take(i as int) =~= all);
    match best {
        Some(b) => Some(files[b].path.clone()),
        None => None,
    }
}

/// What happened to a file or directory, as far as it matters here.
#[derive(Debug, Clone, Copy, PartialEq, Eq, Structural)]
pub enum NotifyKind {
    /// A file, or something unknown, was created.
    CreateFile,
    /// A directory was created.
    CreateFolder,
    /// Something else was created.
    CreateOther,
    /// Something was modified.
    Modify,
    /// A file, or something unknown, was removed.
    RemoveFile,
    /// A directory was removed.
    RemoveFolder,
    /// Something else was removed.
    RemoveOther,
    /// Anything else.
    Other,
}

/// Whether a path is a session log directly in a directory.
pub open spec fn is_log_in(path: Seq<char>, dir: Seq<char>) -> bool {
    parent_parts(path) == Some(parts(dir)) && file_extension(path) == Some("jsonl"@)
}

/// Whether a notification concerns a session log of a directory.
pub open spec fn concerns_log(kind: NotifyKind, paths: Seq<String>, dir: Seq<char>) -> bool {
    &&& kind == NotifyKind::CreateFile || kind == NotifyKind::Modify || kind
        == NotifyKind::RemoveFile
    &&& exists|i: int| 0 <= i < paths.len() && is_log_in(#[trigger] paths[i]@, dir)
}

/// Decides whether a notification concerns a session log of a directory.
pub fn is_relevant_notify_event(kind: NotifyKind, paths: &Vec<String>, watch_root: &str) -> (r:
    bool)
    ensures
        r == concerns_log(kind, paths@, watch_root@),
{
    if !(kind == NotifyKind::CreateFile || kind == NotifyKind::Modify || kind
        == NotifyKind::RemoveFile) {
        return false;
    }
    let mut i: usize = 0;
    while i < paths.len()
        invariant
            i <= paths@.len(),
            kind == NotifyKind::CreateFile || kind == NotifyKind::Modify || kind
                == NotifyKind::RemoveFile,
            forall|k: int| 0 <= k < i ==> !is_log_in(#[trigger] paths@[k]@, watch_root@),
        decreases paths@.len() - i,
    {
        if lies_directly_in(paths[i].as_str(), watch_root) && extension_is(
            paths[i].as_str(),
            "jsonl",
        ) {
            assert(is_log_in(paths@[i as int]@, watch_root@));
            return true;
        }
        i = i + 1;
    }
    false
}

} // verus!
