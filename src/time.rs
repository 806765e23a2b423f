use vstd::prelude::*;

verus! {

/// The earliest instant a timetable holds: 1000-01-01 00:00:00 UTC, in
/// seconds since the Unix epoch.
pub const MIN_TIMESTAMP: i64 = -30610224000;

/// The latest instant a timetable holds: 9999-12-31 23:59:59 UTC, in seconds
/// since the Unix epoch.
pub const MAX_TIMESTAMP: i64 = 253402300799;

/// Seconds in a calendar day.
pub const SECONDS_PER_DAY: i64 = 86400;

/// The day number of 1000-01-01, counted from 1970-01-01.
pub const MIN_DAY: i64 = -354285;

pub open spec fn valid_timestamp(t: i64) -> bool {
    MIN_TIMESTAMP <= t <= MAX_TIMESTAMP
}

/// The calendar day (UTC) of an instant, counted from 1970-01-01 = day 0.
pub open spec fn spec_day_of(t: i64) -> int {
    t as int / SECONDS_PER_DAY as int
}

/// The instant that the text `s` names when read as `YYYY-MM-DD HH:MM:SS`
/// in UTC, in seconds since the Unix epoch; `None` where it names none.
pub uninterp spec fn datetime_seconds(s: Seq<char>) -> Option<i64>;

/// Relies on chrono's `NaiveDateTime::parse_from_str` with the format
/// `%Y-%m-%d %H:%M:%S`, and `NaiveDateTime::and_utc` then
/// `DateTime::timestamp`: the result depends on the text alone.
#[verifier::external_body]
pub(crate) fn parse_datetime(s: &str) -> (r: Option<i64>)
    ensures
        r == datetime_seconds(s@),
{
    match chrono::NaiveDateTime::parse_from_str(s, "%Y-%m-%d %H:%M:%S") {
        Ok(t) => Some(t.and_utc().timestamp()),
        Err(_) => None,
    }
}

/// Relies on chrono's `Utc::now` and `DateTime::timestamp`: the current
/// time in seconds since the Unix epoch. Nothing is known of its value.
#[verifier::external_body]
pub(crate) fn now_seconds() -> (r: i64) {
    chrono::Utc::now().timestamp()
}

/// The calendar day (UTC) of an instant of the timetable's range.
pub fn day_of(t: i64) -> (d: i64)
    requires
        valid_timestamp(t),
    ensures
        d as int == spec_day_of(t),
{
    let shifted: i64 = t - MIN_TIMESTAMP;
    let q: i64 = shifted / SECONDS_PER_DAY;
    assert(MIN_TIMESTAMP == MIN_DAY * SECONDS_PER_DAY);
    assert((t as int - MIN_DAY * SECONDS_PER_DAY) / SECONDS_PER_DAY as int == t as int / SECONDS_PER_DAY as int
        - MIN_DAY) by (nonlinear_arith)
        requires
            SECONDS_PER_DAY == 86400,
            MIN_DAY == -354285,
    ;
    q + MIN_DAY
}

} // verus!
