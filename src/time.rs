use chrono::{Datelike, Timelike};
use vstd::prelude::*;

verus! {

/// Nanoseconds in one second.
pub const NANOS_PER_SEC: u32 = 1_000_000_000;

/// A point in time, as whole seconds since the Unix epoch (negative before it)
/// plus a nanosecond part in `0..NANOS_PER_SEC`.
#[derive(Clone, Copy, Debug, PartialEq, Eq, Structural)]
pub struct Timestamp {
    pub secs: i64,
    pub nanos: u32,
}

/// Nanoseconds since the Unix epoch, as a mathematical integer.
pub open spec fn total_nanos(t: Timestamp) -> int {
    t.secs * 1_000_000_000 + t.nanos
}

/// `a` is not later than `b`: seconds first, then nanoseconds.
pub open spec fn ts_le(a: Timestamp, b: Timestamp) -> bool {
    a.secs < b.secs || (a.secs == b.secs && a.nanos <= b.nanos)
}

/// `a` is strictly earlier than `b`.
pub open spec fn ts_lt(a: Timestamp, b: Timestamp) -> bool {
    a.secs < b.secs || (a.secs == b.secs && a.nanos < b.nanos)
}

impl Timestamp {
    /// The nanosecond part is below one second.
    pub open spec fn wf(self) -> bool {
        self.nanos < NANOS_PER_SEC
    }

    /// Builds a timestamp from a distance to the Unix epoch: `secs` seconds and
    /// `nanos` nanoseconds after it, or before it when `before_epoch` holds.
    /// Returns `None` when the distance does not fit in the representation.
    pub fn from_epoch_distance(before_epoch: bool, secs: u64, nanos: u32) -> (r: Option<Timestamp>)
        requires
            nanos < NANOS_PER_SEC,
        ensures
            r matches Some(t) ==> t.wf() && total_nanos(t) == (if before_epoch {
                -(secs * 1_000_000_000 + nanos)
            } else {
                secs * 1_000_000_000 + nanos
            }),
            r is None <==> (if before_epoch {
                secs + (if nanos > 0 { 1int } else { 0int }) > i64::MAX + 1
            } else {
                secs > i64::MAX
            }),
    {
        if !before_epoch {
            if secs > i64::MAX as u64 {
                None
            } else {
                Some(Timestamp { secs: secs as i64, nanos })
            }
        } else if nanos == 0 {
            if secs > (i64::MAX as u64) + 1 {
                None
            } else {
                let s: i64 = if secs == (i64::MAX as u64) + 1 {
                    i64::MIN
                } else {
                    -(secs as i64)
                };
                Some(Timestamp { secs: s, nanos: 0 })
            }
        } else {
            if secs > i64::MAX as u64 {
                None
            } else {
                Some(Timestamp { secs: -(secs as i64) - 1, nanos: NANOS_PER_SEC - nanos })
            }
        }
    }

    /// The time a file counts as created at: its creation time where the
    /// filesystem reports one, else its last modification time.
    pub fn resolve(created: Option<Timestamp>, modified: Timestamp) -> (r: Timestamp)
        ensures
            r == (match created {
                Some(c) => c,
                None => modified,
            }),
    {
        match created {
            Some(c) => c,
            None => modified,
        }
    }
}

/// A wall-clock reading: calendar date and time of day, to the second.
#[derive(Clone, Copy, Debug, PartialEq, Eq, Structural)]
pub struct CivilTime {
    pub year: i32,
    pub month: u32,
    pub day: u32,
    pub hour: u32,
    pub minute: u32,
    pub second: u32,
}

impl CivilTime {
    /// Every field lies in its calendar range.
    pub open spec fn wf(self) -> bool {
        &&& 1 <= self.month <= 12
        &&& 1 <= self.day <= 31
        &&& self.hour < 24
        &&& self.minute < 60
        &&& self.second < 60
    }
}

/// Offsets from UTC that a time zone can have, in seconds: under one day either way.
pub open spec fn valid_utc_offset(off: int) -> bool {
    -86_400 < off < 86_400
}

/// The first second the calendar can place: -262143-01-01 00:00:00.
pub const CALENDAR_FIRST_SEC: i64 = -8_334_601_228_800;

/// The last second the calendar can place: 262142-12-31 23:59:59.
pub const CALENDAR_LAST_SEC: i64 = 8_210_266_876_799;

/// `t` seconds after 1970-01-01 00:00:00 is a moment the calendar can place.
pub open spec fn in_calendar(t: int) -> bool {
    CALENDAR_FIRST_SEC <= t <= CALENDAR_LAST_SEC
}

/// The proleptic Gregorian date and time of day that lie `t` seconds after
/// 1970-01-01 00:00:00 on the same clock; meaningful where `in_calendar(t)`.
pub uninterp spec fn civil_of(t: int) -> CivilTime;

/// Relies on chrono's `DateTime::from_timestamp` and its `Datelike` and
/// `Timelike` field getters: the reading depends on `t` alone, and every field
/// is in its calendar range (leap seconds never arise from a count of seconds).
/// `from_timestamp` succeeds exactly on the dates from `NaiveDate::MIN` to
/// `NaiveDate::MAX`.
#[verifier::external_body]
fn civil_from_secs(t: i64) -> (r: Option<CivilTime>)
    ensures
        r == (if in_calendar(t as int) {
            Some(civil_of(t as int))
        } else {
            None
        }),
        r matches Some(c) ==> c.wf(),
{
    match chrono::DateTime::from_timestamp(t, 0) {
        Some(d) => Some(
            CivilTime {
                year: d.year(),
                month: d.month(),
                day: d.day(),
                hour: d.hour(),
                minute: d.minute(),
                second: d.second(),
            },
        ),
        None => None,
    }
}

/// Relies on chrono's `Local` time zone (`offset_from_utc_datetime`, then
/// `FixedOffset::local_minus_utc`): the offset of local time from UTC at the
/// instant `secs`, which chrono keeps under one day either way. `None` exactly
/// where `DateTime::from_timestamp` cannot place `secs`. The offset's value
/// depends on the machine's zone settings, so nothing more is stated of it.
/// chrono panics where the loaded zone data gives an offset of a day or more;
/// that depends on the machine, and no argument rules it out.
#[verifier::external_body]
fn local_offset_at(secs: i64) -> (r: Option<i32>)
    ensures
        r is Some <==> in_calendar(secs as int),
        r matches Some(off) ==> valid_utc_offset(off as int),
{
    match chrono::DateTime::from_timestamp(secs, 0) {
        Some(d) => Some(
            chrono::TimeZone::offset_from_utc_datetime(&chrono::Local, &d.naive_utc()).local_minus_utc(),
        ),
        None => None,
    }
}

/// The UTC offset of local time at `t`, as the machine's time zone gives it;
/// `None` exactly where `t` lies outside the calendar.
pub fn local_utc_offset(t: Timestamp) -> (r: Option<i32>)
    ensures
        r is Some <==> in_calendar(t.secs as int),
        r matches Some(off) ==> valid_utc_offset(off as int),
{
    local_offset_at(t.secs)
}

/// The wall-clock reading of `t` on a clock `offset` seconds ahead of UTC.
pub open spec fn local_civil(t: Timestamp, offset: int) -> Option<CivilTime> {
    let local = t.secs + offset;
    if in_calendar(local) {
        Some(civil_of(local))
    } else {
        None
    }
}

/// Reads `t` on a clock `offset` seconds ahead of UTC, to the second.
pub fn civil_time(t: Timestamp, offset: i32) -> (r: Option<CivilTime>)
    ensures
        r is Some <==> in_calendar(t.secs + offset),
        r == local_civil(t, offset as int),
        r matches Some(c) ==> c.wf(),
{
    match t.secs.checked_add(offset as i64) {
        Some(local) => civil_from_secs(local),
        None => None,
    }
}

} // verus!
