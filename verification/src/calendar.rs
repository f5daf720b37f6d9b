//! Instants, and the calendar questions that are put to `chrono` and to the
//! time-zone database of `chrono_tz`.
//!
//! An instant is a count of seconds since 1970-01-01T00:00:00Z with a count
//! of nanoseconds within the second. A time of day that is not tied to a
//! zone (a "naive" time) is the same count, taken as if the zone were UTC.

use vstd::prelude::*;
use std::fmt::Write;
use chrono::{Offset, TimeZone};

verus! {

/// A point in time.
#[derive(Debug, Clone, Copy, PartialEq, Eq)]
pub struct Timestamp {
    /// Whole seconds since the epoch.
    pub secs: i64,
    /// Nanoseconds since the last whole second.
    pub nanos: u32,
}

/// An instant as a text with an offset names it: the instant itself and the
/// offset from UTC, in seconds east, that the text was written with.
#[derive(Debug, Clone, Copy, PartialEq, Eq)]
pub struct OffsetInstant {
    pub at: Timestamp,
    pub offset: i32,
}

pub const SECONDS_PER_DAY: i64 = 86400;

/// Reads the clock: `chrono::Utc::now`. Nothing is promised of the result.
#[verifier::external_body]
pub(crate) fn utc_now() -> Timestamp {
    let now = chrono::Utc::now();
    Timestamp { secs: now.timestamp(), nanos: now.timestamp_subsec_nanos() }
}

/// Writes an instant in the zone of the machine, `chrono::Local`, by a
/// `chrono` pattern. `None` where `chrono` has no such instant or cannot
/// write by the pattern. The result depends on the machine.
#[verifier::external_body]
pub(crate) fn format_in_host_zone(at: Timestamp, pattern: &str) -> Option<String> {
    let utc = chrono::DateTime::from_timestamp(at.secs, at.nanos)?;
    let mut out = String::new();
    write!(out, "{}", utc.with_timezone(&chrono::Local).format(pattern)).ok()?;
    Some(out)
}

/// Whether the time-zone database has a zone of this name.
pub uninterp spec fn known_zone(name: Seq<char>) -> bool;

/// Asks `chrono_tz` for the zone of a name, by `str::parse::<Tz>`.
#[verifier::external_body]
pub(crate) fn zone_known(name: &str) -> (out: bool)
    ensures
        out == known_zone(name@),
{
    name.parse::<chrono_tz::Tz>().is_ok()
}

/// The text that `chrono` writes by `pattern` for an instant as the clocks
/// of a zone show it; `None` where the zone is unknown, `chrono` has no such
/// instant, or it cannot write by the pattern.
pub uninterp spec fn zone_text(zone: Seq<char>, secs: int, nanos: int, pattern: Seq<char>) -> Option<
    Seq<char>,
>;

/// Moves an instant into a zone (`with_timezone`) and writes it with `format`.
#[verifier::external_body]
pub(crate) fn format_in_zone(zone: &str, at: Timestamp, pattern: &str) -> (out: Option<String>)
    ensures
        crate::calendar::optional_text(out) == zone_text(
            zone@,
            at.secs as int,
            at.nanos as int,
            pattern@,
        ),
{
    let tz = zone.parse::<chrono_tz::Tz>().ok()?;
    let utc = chrono::DateTime::from_timestamp(at.secs, at.nanos)?;
    let mut out = String::new();
    write!(out, "{}", utc.with_timezone(&tz).format(pattern)).ok()?;
    Some(out)
}

/// The text of an optional string.
pub open spec fn optional_text(value: Option<String>) -> Option<Seq<char>> {
    match value {
        Some(s) => Some(s@),
        None => None,
    }
}

/// The instant at which the clocks of a zone show a naive time, where there
/// is exactly one such instant: none where the zone is unknown, where the
/// clocks skip that time, or where they show it twice.
pub uninterp spec fn zone_instant(zone: Seq<char>, naive_secs: int) -> Option<int>;

/// Asks `chrono_tz` with `from_local_datetime` and takes the answer where it is `single`.
#[verifier::external_body]
pub(crate) fn local_to_utc(zone: &str, naive_secs: i64) -> (out: Option<i64>)
    ensures
        match out {
            Some(secs) => zone_instant(zone@, naive_secs as int) == Some(secs as int),
            None => zone_instant(zone@, naive_secs as int) is None,
        },
{
    let tz = zone.parse::<chrono_tz::Tz>().ok()?;
    let naive = chrono::DateTime::from_timestamp(naive_secs, 0)?.naive_utc();
    tz.from_local_datetime(&naive).single().map(|at| at.timestamp())
}

/// The instant and offset that an RFC 3339 text names, as `chrono` reads it.
pub uninterp spec fn rfc3339_instant(text: Seq<char>) -> Option<OffsetInstant>;

/// Calls `chrono::DateTime::parse_from_rfc3339`.
#[verifier::external_body]
pub(crate) fn parse_rfc3339(text: &str) -> (out: Option<OffsetInstant>)
    ensures
        out == rfc3339_instant(text@),
{
    let parsed = chrono::DateTime::parse_from_rfc3339(text).ok()?;
    Some(OffsetInstant {
        at: Timestamp { secs: parsed.timestamp(), nanos: parsed.timestamp_subsec_nanos() },
        offset: parsed.offset().fix().local_minus_utc(),
    })
}

/// The naive time that a text names by a `chrono` pattern for date and time,
/// in whole seconds.
pub uninterp spec fn naive_time(text: Seq<char>, pattern: Seq<char>) -> Option<int>;

/// Calls `chrono::NaiveDateTime::parse_from_str`.
#[verifier::external_body]
pub(crate) fn parse_naive_time(text: &str, pattern: &str) -> (out: Option<i64>)
    ensures
        match out {
            Some(secs) => naive_time(text@, pattern@) == Some(secs as int),
            None => naive_time(text@, pattern@) is None,
        },
{
    chrono::NaiveDateTime::parse_from_str(text, pattern).ok().map(|at| at.and_utc().timestamp())
}

/// The day that a text names by a `chrono` pattern for dates, as the naive
/// time of its midnight.
pub uninterp spec fn naive_day(text: Seq<char>, pattern: Seq<char>) -> Option<int>;

/// Calls `chrono::NaiveDate::parse_from_str`.
#[verifier::external_body]
pub(crate) fn parse_naive_day(text: &str, pattern: &str) -> (out: Option<i64>)
    ensures
        match out {
            Some(secs) => naive_day(text@, pattern@) == Some(secs as int),
            None => naive_day(text@, pattern@) is None,
        },
{
    let day = chrono::NaiveDate::parse_from_str(text, pattern).ok()?;
    Some(day.and_time(chrono::NaiveTime::MIN).and_utc().timestamp())
}

/// The days from the epoch to the day in which a count of seconds falls.
pub open spec fn day_number(secs: int) -> int {
    secs / 86400
}

/// The place of a day in its week, Monday being 0: the epoch fell on a Thursday.
pub open spec fn weekday_index(secs: int) -> int {
    (day_number(secs) + 3) % 7
}

/// The place in the week, Monday being 0, of the day in which `secs` falls.
pub fn weekday_of(secs: i64) -> (out: i64)
    ensures
        out == weekday_index(secs as int),
        0 <= out < 7,
{
    let days: i64 = if secs >= 0 {
        secs / 86400
    } else {
        -((-(secs + 1)) / 86400) - 1
    };
    let shifted: i64 = days + 3;
    if shifted >= 0 {
        shifted % 7
    } else {
        let r = (-shifted) % 7;
        if r == 0 {
            0
        } else {
            7 - r
        }
    }
}

} // verus!
