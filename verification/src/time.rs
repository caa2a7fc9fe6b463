//! Instants in UTC, and the time between them.

use vstd::prelude::*;
use vstd::string::*;

verus! {

/// An instant in UTC: whole seconds since the Unix epoch and nanoseconds into
/// that second. A leap second counts on in the nanoseconds of second 59.
#[derive(Debug, Clone, Copy, PartialEq, Eq, Structural)]
pub struct Timestamp {
    pub secs: i64,
    pub nanos: u32,
}

/// The seconds of the first instant of the calendar, January 1 of year -262143.
pub const FIRST_SECOND: i64 = -8_334_601_228_800;

/// The seconds of the last instant of the calendar, December 31 of year 262142.
pub const LAST_SECOND: i64 = 8_210_266_876_799;

/// The nanoseconds of a second.
pub const NANOS_PER_SECOND: u32 = 1_000_000_000;

impl Timestamp {
    /// Whether the calendar has this instant.
    pub open spec fn valid(self) -> bool {
        &&& FIRST_SECOND <= self.secs <= LAST_SECOND
        &&& self.nanos < 2 * NANOS_PER_SECOND
        &&& self.nanos >= NANOS_PER_SECOND ==> self.secs % 60 == 59
    }

    /// Whether the system clock can read this instant: one of the calendar, not
    /// before the epoch, outside any leap second.
    pub open spec fn on_the_clock(self) -> bool {
        &&& self.valid()
        &&& self.secs >= 0
        &&& self.nanos < NANOS_PER_SECOND
    }

    /// Whether this instant comes after `other`.
    pub open spec fn after(self, other: Timestamp) -> bool {
        self.secs > other.secs || (self.secs == other.secs && self.nanos > other.nanos)
    }

    /// Whether this instant comes after `other`.
    pub fn is_after(self, other: Timestamp) -> (r: bool)
        ensures
            r == self.after(other),
    {
        self.secs > other.secs || (self.secs == other.secs && self.nanos > other.nanos)
    }

    /// Whether the calendar has this instant.
    pub fn is_valid(self) -> (r: bool)
        ensures
            r == self.valid(),
    {
        FIRST_SECOND <= self.secs && self.secs <= LAST_SECOND && self.nanos < 2_000_000_000
            && (self.nanos < NANOS_PER_SECOND || second_of_minute(self.secs) == 59)
    }
}

/// The second of the minute at `secs` seconds from the epoch.
fn second_of_minute(secs: i64) -> (r: i64)
    requires
        FIRST_SECOND <= secs <= LAST_SECOND,
    ensures
        r == secs as int % 60,
{
    // A whole number of minutes, large enough to make the sum positive.
    let shifted: i64 = secs + 8_334_601_228_800;
    shifted % 60
}

/// The second counted once too often, or once too rarely, when the times of
/// day are subtracted and one of them stands in a leap second.
pub open spec fn leap_adjustment(from: Timestamp, to: Timestamp) -> int {
    let from_time = from.secs as int % 86_400;
    let to_time = to.secs as int % 86_400;
    if to_time > from_time && from.nanos >= NANOS_PER_SECOND {
        1
    } else if to_time < from_time && to.nanos >= NANOS_PER_SECOND {
        -1
    } else {
        0
    }
}

/// The nanoseconds from `from` to `to`, negative when `to` comes first.
pub open spec fn nanos_between(from: Timestamp, to: Timestamp) -> int {
    (to.secs - from.secs + leap_adjustment(from, to)) * NANOS_PER_SECOND + to.nanos - from.nanos
}

/// The whole seconds from `from` to `to`, rounded toward zero.
pub open spec fn seconds_between(from: Timestamp, to: Timestamp) -> int {
    let nanos = nanos_between(from, to);
    if nanos >= 0 {
        nanos / (NANOS_PER_SECOND as int)
    } else {
        -((-nanos) / (NANOS_PER_SECOND as int))
    }
}

/// `chrono::DateTime::signed_duration_since`, in whole seconds: the seconds
/// from one instant to the other, rounded toward zero. Seconds since the epoch
/// are subtracted as they stand; a leap second counts where the later time of
/// day is past it.
#[verifier::external_body]
pub(crate) fn elapsed_seconds(from: Timestamp, to: Timestamp) -> (r: i64)
    requires
        from.valid(),
        to.valid(),
    ensures
        r == seconds_between(from, to),
{
    let start = chrono::DateTime::from_timestamp(from.secs, from.nanos).unwrap();
    let end = chrono::DateTime::from_timestamp(to.secs, to.nanos).unwrap();
    end.signed_duration_since(start).num_seconds()
}

/// `chrono::DateTime::from_timestamp` on whole seconds: the instant, where the
/// calendar has it.
#[verifier::external_body]
pub(crate) fn from_seconds(secs: i64) -> (r: Option<Timestamp>)
    ensures
        r == instant_at(secs as int),
{
    let instant = chrono::DateTime::from_timestamp(secs, 0)?;
    Some(Timestamp { secs: instant.timestamp(), nanos: instant.timestamp_subsec_nanos() })
}

/// The instant `secs` seconds from the epoch, where the calendar has it.
pub open spec fn instant_at(secs: int) -> Option<Timestamp> {
    if FIRST_SECOND <= secs <= LAST_SECOND {
        Some(Timestamp { secs: secs as i64, nanos: 0 })
    } else {
        None
    }
}

/// The text that `chrono::DateTime::format` gives for an instant and a
/// pattern.
pub uninterp spec fn formatted(secs: i64, nanos: u32, pattern: Seq<char>) -> Seq<char>;

/// `chrono::DateTime::format`, written out. The text is a function of the
/// instant and the pattern, named by [`formatted`]; it is asked for on the one
/// pattern the views use, which the crate accepts.
#[verifier::external_body]
pub(crate) fn format_time(at: Timestamp, pattern: &str) -> (r: String)
    requires
        at.valid(),
        pattern@ == "%Y-%m-%d %H:%M"@,
    ensures
        r@ == formatted(at.secs, at.nanos, pattern@),
{
    chrono::DateTime::from_timestamp(at.secs, at.nanos).unwrap().format(pattern).to_string()
}

/// `chrono::Utc::now`: the system clock. Two calls may differ; every reading
/// is an instant of the calendar, not before the epoch, outside any leap
/// second.
#[verifier::external_body]
pub(crate) fn now() -> (r: Timestamp)
    ensures
        r.on_the_clock(),
{
    let instant = chrono::Utc::now();
    Timestamp { secs: instant.timestamp(), nanos: instant.timestamp_subsec_nanos() }
}

/// Of two instants one comes after the other, or they are the same; the second
/// decides, and the nanoseconds only within one second.
pub proof fn law_instants_are_ordered(a: Timestamp, b: Timestamp)
    ensures
        a.secs > b.secs ==> a.after(b) && !b.after(a),
        a.secs == b.secs && a.nanos > b.nanos ==> a.after(b) && !b.after(a),
        a == b ==> !a.after(b),
        a.after(b) || b.after(a) || a == b,
{
}

/// The calendar runs from the first second of year -262143 to the last of year
/// 262142; only the last second of a minute may run on, by one second.
pub proof fn law_calendar_bounds(t: Timestamp)
    ensures
        t.valid() ==> -8_334_601_228_800 <= t.secs <= 8_210_266_876_799,
        -8_334_601_228_800 <= t.secs <= 8_210_266_876_799 && t.nanos < 1_000_000_000 ==> t.valid(),
        t.nanos >= 1_000_000_000 && t.valid() ==> t.secs % 60 == 59 && t.nanos < 2_000_000_000,
        -8_334_601_228_800 <= t.secs <= 8_210_266_876_799 && t.secs % 60 == 59 && t.nanos
            < 2_000_000_000 ==> t.valid(),
{
}

} // verus!
