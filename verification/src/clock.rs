//! The calls into chrono: the local clock, the local time zone, and parsing
//! times of day.

use vstd::prelude::*;

use chrono::{Datelike, Offset, TimeZone, Timelike};

use crate::calendar::{
    valid_day, valid_offset, valid_time, LocalDateTime, NaiveDateTime, TimeOfDay, SECS_PER_DAY,
};

verus! {

/// What chrono's `NaiveTime::parse_from_str` makes of the text `s` under the
/// format `fmt`: the time's seconds past midnight and nanosecond part, or
/// `None` where the text does not fit the format.
pub uninterp spec fn naive_time_parse_from_str(s: Seq<char>, fmt: Seq<char>) -> Option<(u32, u32)>;

/// Calls chrono's `NaiveTime::parse_from_str(s, fmt)` and hands back the parsed
/// time's `num_seconds_from_midnight()` and `nanosecond()`.
/// Trusted: the result is what `naive_time_parse_from_str` names for the two
/// strings, and a parsed time is a valid time of day (fewer than 86400
/// seconds, a nanosecond part below two seconds), as chrono documents for
/// every `NaiveTime`.
#[verifier::external_body]
pub(crate) fn parse_time_of_day(s: &str, fmt: &str) -> (r: Option<(u32, u32)>)
    ensures
        r == naive_time_parse_from_str(s@, fmt@),
        r matches Some(p) ==> valid_time(p.0 as int, p.1 as int),
{
    match chrono::NaiveTime::parse_from_str(s, fmt) {
        Ok(t) => Some((t.num_seconds_from_midnight(), t.nanosecond())),
        Err(_) => None,
    }
}

/// Calls chrono's `Local::now()` and hands back the moment as its UTC date
/// and time (`num_days_from_ce()` of the date, `num_seconds_from_midnight()`
/// and `nanosecond()` of the time) and the offset of local time from UTC in
/// seconds (`local_minus_utc()`).
/// Trusted: the date is representable (every date chrono builds lies between
/// `NaiveDate::MIN` and `NaiveDate::MAX`), the time of day is valid, and the
/// offset is less than a day either way, as chrono's `FixedOffset` is. Which
/// moment it is depends on the clock and the time zone of the machine, so
/// nothing more is stated. chrono panics, whatever the call, where the system
/// clock reads a time before 1970 or the time zone's lookup fails; no
/// precondition can rule that out.
#[verifier::external_body]
pub(crate) fn local_now() -> (now: LocalDateTime)
    ensures
        now.wf(),
{
    let now = chrono::Local::now();
    let utc = now.naive_utc();
    LocalDateTime {
        utc: NaiveDateTime {
            day: utc.date().num_days_from_ce(),
            time: TimeOfDay { secs: utc.time().num_seconds_from_midnight(), nanos: utc.time().nanosecond() },
        },
        offset: now.offset().fix().local_minus_utc(),
    }
}

/// Calls chrono's `Local.offset_from_utc_datetime` on the UTC date-time of day
/// number `day` (as `NaiveDate::from_num_days_from_ce_opt`), `secs` seconds
/// past midnight, and hands back the offset's `local_minus_utc()`: the offset
/// of local time from UTC in seconds at that moment.
/// Trusted: the offset is less than a day either way, as chrono's
/// `FixedOffset` is. Its value depends on the time zone of the machine, so
/// nothing more is stated. chrono panics, whatever the arguments, where the
/// time zone's lookup fails or gives an offset of a day or more; no
/// precondition can rule that out.
#[verifier::external_body]
pub(crate) fn local_offset_at_utc(day: i32, secs: u32) -> (offset: i32)
    requires
        valid_day(day as int),
        secs < SECS_PER_DAY,
    ensures
        valid_offset(offset as int),
{
    let utc = chrono::NaiveDate::from_num_days_from_ce_opt(day)
        .unwrap()
        .and_time(chrono::NaiveTime::from_num_seconds_from_midnight_opt(secs, 0).unwrap());
    chrono::Local.offset_from_utc_datetime(&utc).local_minus_utc()
}

/// Calls chrono's `Local.offset_from_local_datetime` on the local date-time of
/// day number `day`, `secs` seconds past midnight, and hands back the offset's
/// `local_minus_utc()` where that local time exists exactly once in the time
/// zone (`MappedLocalTime::Single`), and `None` where it is skipped or
/// repeated by a change of the offset.
/// Trusted: an offset handed back is less than a day either way, as chrono's
/// `FixedOffset` is. Which local times exist depends on the time zone of the
/// machine, so nothing more is stated. chrono panics, whatever the arguments,
/// where the time zone's lookup fails or gives an offset of a day or more; no
/// precondition can rule that out.
#[verifier::external_body]
pub(crate) fn local_offset_at_local(day: i32, secs: u32) -> (offset: Option<i32>)
    requires
        valid_day(day as int),
        secs < SECS_PER_DAY,
    ensures
        offset matches Some(o) ==> valid_offset(o as int),
{
    let local = chrono::NaiveDate::from_num_days_from_ce_opt(day)
        .unwrap()
        .and_time(chrono::NaiveTime::from_num_seconds_from_midnight_opt(secs, 0).unwrap());
    match chrono::Local.offset_from_local_datetime(&local).single() {
        Some(offset) => Some(offset.local_minus_utc()),
        None => None,
    }
}

} // verus!
