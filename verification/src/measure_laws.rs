//! Laws of measurements: times, counters, failed commands and stored numbers.

use crate::clock::{first_of, later, latest, reading_nanos, Moment, Span, Timestamp};
use crate::event_bus::wrapped_sum;
use crate::json::{Json, JsonMember};
use crate::metrics::{
    advance, all_item_texts, all_member_texts, all_texts, command_failed, first_result, flattened,
    record_items, result_index, span_between, JsonlMessageItem, JsonlRecord,
};
use crate::process_monitor::{gone_metrics, io_delta, ProcessSample};
use crate::store::{
    invalid_time, is_time, millis, on_calendar, row_fault, time_of, PoolState, SummaryRow,
};
use crate::test_laws::has_failure_mark;
use crate::text::{decimal, is_space, joined, views};
use crate::text_laws::blank_texts_are_white_space;
use crate::types::{text_view, FloatBits};
use vstd::prelude::*;

verus! {

/// Times are ordered by their seconds, and within a second by their nanoseconds: of two
/// different times exactly one is later, and what is later than a later time is later.
pub proof fn times_are_ordered(a: Timestamp, b: Timestamp, c: Timestamp)
    ensures
        a.secs > b.secs ==> a.is_after(b),
        a.secs == b.secs && a.nanos > b.nanos ==> a.is_after(b),
        a == b || (a.is_after(b) && !b.is_after(a)) || (b.is_after(a) && !a.is_after(b)),
        !a.is_after(a),
        a.is_after(b) && b.is_after(c) ==> a.is_after(c),
{
}

/// The span between two times without leap seconds is the difference of their nanoseconds;
/// the other way round it is the opposite.
pub proof fn gaps_are_differences(a: Timestamp, b: Timestamp)
    ensures
        !a.is_leap() && !b.is_leap() ==> a.gap(b) == (a.secs * 1_000_000_000 + a.nanos) - (b.secs
            * 1_000_000_000 + b.nanos),
        a.gap(b) == -b.gap(a),
        a.gap(b) >= 0 ==> a.since(b) == Some(a.gap(b)),
        a.gap(b) < 0 ==> a.since(b) is None,
        a.is_leap() <==> a.nanos >= 1_000_000_000,
{
}

/// A leap second that has passed between two times of a day counts as a second.
pub proof fn leap_seconds_count(leap: Timestamp, next: Timestamp)
    requires
        leap.is_leap(),
        !next.is_leap(),
        next.secs > leap.secs,
        next.secs as int / 86_400 == leap.secs as int / 86_400,
    ensures
        next.gap(leap) == (next.secs - leap.secs + 1) * 1_000_000_000 + next.nanos - leap.nanos,
{
}

/// The later of two times is one of them, and neither is after it. A time that is missing
/// does not count.
pub proof fn the_later_time_counts(a: Timestamp, b: Timestamp)
    ensures
        latest(Some(a), Some(b)) == Some(later(a, b)),
        later(a, b) == a || later(a, b) == b,
        !a.is_after(later(a, b)),
        !b.is_after(later(a, b)),
        latest(Some(a), None) == Some(a),
        latest(None, Some(b)) == Some(b),
        latest(None, None) is None,
        first_of(Some(a), Some(b)) == Some(a),
        first_of(None, Some(b)) == Some(b),
{
}

/// A span has as many seconds as fit in its nanoseconds.
pub proof fn spans_have_whole_seconds(span: Span)
    ensures
        span.secs() * 1_000_000_000 <= span.nanos < (span.secs() + 1) * 1_000_000_000,
        span.secs() <= u64::MAX ==> span.capped_secs() == span.secs(),
        span.secs() > u64::MAX ==> span.capped_secs() == u64::MAX,
{
}

/// A reading of the monotonic clock is taken in nanoseconds; one that failed or is negative
/// is the start of the clock.
pub proof fn readings_are_taken_in_nanoseconds(secs: i64, nanos: i64)
    ensures
        secs >= 0 && nanos >= 0 ==> reading_nanos(Some((secs, nanos))) == secs * 1_000_000_000
            + nanos,
        secs < 0 || nanos < 0 ==> reading_nanos(Some((secs, nanos))) == 0,
        reading_nanos(None) == 0,
{
}

/// A counter advances by the difference of its readings; one that went back did not move.
/// The time between two readings of the clock never runs backwards.
pub proof fn counters_advance(from: u64, to: u64, a: Moment, b: Moment)
    ensures
        to >= from ==> advance(from, to) == to - from,
        to < from ==> advance(from, to) == 0,
        b.nanos >= a.nanos ==> span_between(a, b) == b.nanos - a.nanos,
        b.nanos < a.nanos ==> span_between(a, b) == 0,
{
}

/// The I/O of a process is measured between two samples with time between them: what was
/// read and what was written meanwhile, and how long that took.
pub proof fn io_is_measured_between_samples(previous: ProcessSample, current: ProcessSample)
    ensures
        io_delta(None, current) is None,
        io_delta(Some(previous), current) is Some <==> current.captured_at.nanos
            > previous.captured_at.nanos,
        io_delta(Some(previous), current) is Some ==> {
            let d = io_delta(Some(previous), current)->0;
            &&& d.elapsed.nanos == current.captured_at.nanos - previous.captured_at.nanos
            &&& current.io_read_bytes >= previous.io_read_bytes ==> d.read_bytes
                == current.io_read_bytes - previous.io_read_bytes
            &&& current.io_read_bytes < previous.io_read_bytes ==> d.read_bytes == 0
            &&& current.io_write_bytes >= previous.io_write_bytes ==> d.write_bytes
                == current.io_write_bytes - previous.io_write_bytes
            &&& current.io_write_bytes < previous.io_write_bytes ==> d.write_bytes == 0
        },
{
}

/// A process that is gone is reported as not alive, with nothing measured.
pub proof fn gone_processes_measure_nothing(at: Timestamp)
    ensures
        ({
            let m = gone_metrics(at);
            &&& !m.process_alive
            &&& m.timestamp == at
            &&& m.cpu_percent.bits == 0
            &&& m.rss_bytes == 0
            &&& m.virtual_bytes == 0
            &&& m.io_read_bytes == 0
            &&& m.io_write_bytes == 0
            &&& m.io_read_rate.bits == 0
            &&& m.io_write_rate.bits == 0
        }),
{
}

/// Readings compare as numbers: a pattern that is no number is neither less nor greater,
/// a negative number is less than any positive one.
pub proof fn readings_compare_as_numbers(a: FloatBits, b: FloatBits, bound: u32)
    requires
        0 < bound <= 0x7f80_0000,
    ensures
        a.bits < 0x7f80_0000 ==> (a.less_than(bound) <==> a.bits < bound),
        0x8000_0000 <= a.bits <= 0xff80_0000 ==> a.less_than(bound) && !a.positive(),
        0x7f80_0000 < a.bits < 0x8000_0000 || a.bits > 0xff80_0000 ==> !a.less_than(bound)
            && !a.positive() && !a.greater_than(b) && !b.greater_than(a),
        a.bits <= 0x7f80_0000 && b.bits <= 0x7f80_0000 ==> (a.greater_than(b) <==> a.bits
            > b.bits),
        0x8000_0000 <= a.bits <= 0xff80_0000 && 0 < b.bits <= 0x7f80_0000 ==> b.greater_than(a),
        a.bits <= 0x7f80_0000 ==> (a.positive() <==> a.bits > 0),
{
}

/// The counters of the event bus wrap around.
pub proof fn bus_counters_wrap_around(a: u64, b: u64)
    ensures
        a + b <= u64::MAX ==> wrapped_sum(a, b) == a + b,
        a + b > u64::MAX ==> wrapped_sum(a, b) + 0x1_0000_0000_0000_0000 == a + b,
{
}

proof fn lemma_result_index(items: Seq<JsonlMessageItem>, i: int, from: int)
    requires
        0 <= from <= i <= items.len(),
        i < items.len() ==> text_view(items[i].item_type) == Some("tool_result"@),
        forall|k: int|
            from <= k < i ==> text_view((#[trigger] items[k]).item_type) != Some(
                "tool_result"@,
            ),
    ensures
        result_index(items, from) == i,
    decreases i - from,
{
    if from < i {
        assert(text_view(items[from].item_type) != Some("tool_result"@));
        lemma_result_index(items, i, from + 1);
    }
}

/// The result of a record is the first of its items that is one.
pub proof fn records_have_their_first_result(record: JsonlRecord, i: int)
    requires
        ({
            let items = record_items(record);
            &&& 0 <= i <= items.len()
            &&& i < items.len() ==> text_view(items[i].item_type) == Some("tool_result"@)
            &&& forall|k: int|
                0 <= k < i ==> text_view((#[trigger] items[k]).item_type) != Some(
                    "tool_result"@,
                )
        }),
    ensures
        i < record_items(record).len() ==> first_result(record) == Some(record_items(record)[i]),
        i == record_items(record).len() ==> first_result(record) is None,
{
    lemma_result_index(record_items(record), i, 0);
}

/// A command failed where its result says so, where anything but white space stands on its
/// error output, where it was interrupted, or where its text holds a mark of a failure; in
/// no other case.
pub proof fn failed_commands_show_it(record: JsonlRecord)
    ensures
        ({
            let result = first_result(record);
            let e = record.tool_use_result;
            command_failed(record) <==> {
                ||| result is Some && result->0.is_error == Some(true)
                ||| e is Some && e->0.stderr is Some && exists|i: int|
                    0 <= i < e->0.stderr->0@.len() && !is_space(#[trigger] e->0.stderr->0@[i])
                ||| e is Some && e->0.interrupted == Some(true)
                ||| result is Some && result->0.content is Some && flattened(
                    result->0.content->0,
                ) is Some && has_failure_mark(flattened(result->0.content->0)->0)
            }
        }),
{
    let e = record.tool_use_result;
    if e is Some && e->0.stderr is Some {
        blank_texts_are_white_space(e->0.stderr->0@);
    }
}

/// The text of a document is made of its texts that are not empty, in their order, on lines
/// of their own.
pub proof fn documents_are_read_by_their_texts(
    json: Json,
    items: Seq<Json>,
    item: Json,
    members: Seq<JsonMember>,
    m: JsonMember,
)
    ensures
        json is Text && json->Text_0@.len() > 0 ==> all_texts(json) == seq![json->Text_0],
        json is Text && json->Text_0@.len() == 0 ==> all_texts(json).len() == 0,
        json is Null || json is Bool || json is Number ==> all_texts(json).len() == 0,
        json is Array ==> all_texts(json) == all_item_texts(json->Array_0@),
        json is Object ==> all_texts(json) == all_member_texts(json->Object_0@),
        all_item_texts(Seq::<Json>::empty()).len() == 0,
        all_item_texts(items.push(item)) == all_item_texts(items) + all_texts(item),
        all_member_texts(Seq::<JsonMember>::empty()).len() == 0,
        all_member_texts(members.push(m)) == all_member_texts(members) + all_texts(m.value),
        all_texts(json).len() == 0 ==> flattened(json) is None,
        all_texts(json).len() > 0 ==> flattened(json) == Some(
            joined(views(all_texts(json)), seq!['\n']),
        ),
{
    reveal_strlit("\n");
    assert("\n"@ =~= seq!['\n']);
    assert(items.push(item).drop_last() =~= items);
    assert(members.push(m).drop_last() =~= members);
}

/// The calendar holds every time up to the year 9999, with fractions of a second and leap
/// seconds; what it does not hold is complained about by its number.
pub proof fn the_calendar_holds_the_common_years(t: Timestamp, ms: i64)
    ensures
        0 <= t.secs <= 253_402_300_799 ==> (on_calendar(t) <==> t.nanos < 2_000_000_000),
        0 <= ms <= 253_402_300_799_999 ==> is_time(ms),
        ms >= 0 ==> invalid_time(ms) == "invalid stored timestamp: "@ + decimal(ms as nat),
        ms < 0 ==> invalid_time(ms) == "invalid stored timestamp: -"@ + decimal((-ms) as nat),
{
}

/// A pool has room for one connection at least, and never lends out more than it has room
/// for.
pub proof fn pools_lend_within_their_room(pool: PoolState)
    requires
        pool.is_valid(),
    ensures
        pool.max_size >= 1,
        0 <= pool.in_use() <= pool.max_size,
        pool.in_use() + pool.idle == pool.total,
        pool.total <= pool.max_size,
{
}

/// Times are stored in milliseconds, rounded down, and read back to the millisecond.
pub proof fn times_are_stored_in_milliseconds(t: Timestamp, ms: i64)
    ensures
        !t.is_leap() ==> millis(t) * 1_000_000 <= t.secs * 1_000_000_000 + t.nanos < (millis(t)
            + 1) * 1_000_000,
        is_time(ms) ==> millis(time_of(ms)) == ms && time_of(ms).nanos < 1_000_000_000,
{
}

/// A stored row is sound where its times are times of the calendar, its phase can be read
/// and its counts are not negative.
pub proof fn sound_rows_hold_times_and_counts(row: SummaryRow, phase_fault: Option<Seq<char>>)
    ensures
        row_fault(row, phase_fault) is None <==> {
            &&& row.started_at_ms is Some ==> is_time(row.started_at_ms->0)
            &&& is_time(row.updated_at_ms)
            &&& phase_fault is None
            &&& row.total_tool_calls >= 0
            &&& 0 <= row.touched_file_count <= usize::MAX
            &&& row.checkpoint_count >= 0
            &&& row.latest_checkpoint_at_ms is Some ==> is_time(row.latest_checkpoint_at_ms->0)
        },
{
}

} // verus!
