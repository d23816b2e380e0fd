//! The proleptic Gregorian calendar on Unix timestamps: the instants at which
//! a UTC calendar year begins and ends, and the year an instant falls in.
//! The executable side is chrono's; the contracts pin its results to the
//! arithmetic definition of the calendar.

use vstd::prelude::*;

use chrono::Datelike;
use chrono::TimeZone;

verus! {

/// Earliest calendar year whose dates chrono can represent.
pub const MIN_YEAR: i32 = -262143;

/// Latest calendar year whose dates chrono can represent.
pub const MAX_YEAR: i32 = 262142;

/// Number of leap years, in the proleptic Gregorian calendar, among the years
/// strictly before year `y` and at or after year 1.
pub open spec fn leap_days_before(y: int) -> int {
    (y - 1) / 4 - (y - 1) / 100 + (y - 1) / 400
}

/// Unix timestamp of January 1, 00:00:00 UTC of year `y`: 1970 is year zero
/// of the Unix epoch, and 477 is `leap_days_before(1970)`.
pub open spec fn year_start_unix(y: int) -> int {
    86400 * (365 * (y - 1970) + leap_days_before(y) - 477)
}

/// Unix timestamp of December 31, 00:00:00 UTC of year `y`: one day before
/// the following year begins.
pub open spec fn year_end_unix(y: int) -> int {
    year_start_unix(y + 1) - 86400
}

/// Relies on chrono's `TimeZone::with_ymd_and_hms` on `Utc` and
/// `DateTime::timestamp`: the Unix timestamps of January 1, 00:00:00 UTC and
/// December 31, 00:00:00 UTC of `year`, in chrono's proleptic Gregorian
/// calendar. Both dates exist and are unambiguous in UTC for every year
/// chrono represents.
#[verifier::external_body]
pub(crate) fn year_bounds_instants(year: i32) -> (r: (i64, i64))
    requires
        MIN_YEAR <= year <= MAX_YEAR,
    ensures
        (r.0 as int) == year_start_unix(year as int),
        (r.1 as int) == year_end_unix(year as int),
{
    let start = chrono::Utc.with_ymd_and_hms(year, 1, 1, 0, 0, 0).unwrap().timestamp();
    let end = chrono::Utc.with_ymd_and_hms(year, 12, 31, 0, 0, 0).unwrap().timestamp();
    (start, end)
}

/// Relies on chrono's `Utc::now` and `DateTime::timestamp`: the current Unix
/// timestamp. Every `DateTime<Utc>` chrono hands out lies between January 1
/// of `MIN_YEAR` and the last second of `MAX_YEAR`, so the result lies in
/// that range whatever the clock reads.
#[verifier::external_body]
pub(crate) fn now_unix() -> (r: i64)
    ensures
        year_start_unix(MIN_YEAR as int) <= (r as int) < year_start_unix(MAX_YEAR as int + 1),
{
    chrono::Utc::now().timestamp()
}

/// Relies on chrono's `TimeZone::timestamp_opt` on `Utc` and
/// `Datelike::year`: the calendar year an instant falls in, that is, the
/// unique `y` with `year_start_unix(y) <= t < year_start_unix(y + 1)`.
#[verifier::external_body]
pub(crate) fn year_of_instant(t: i64) -> (r: i32)
    requires
        year_start_unix(MIN_YEAR as int) <= (t as int) < year_start_unix(MAX_YEAR as int + 1),
    ensures
        MIN_YEAR <= r <= MAX_YEAR,
        year_start_unix(r as int) <= (t as int) < year_start_unix(r as int + 1),
{
    chrono::Utc.timestamp_opt(t, 0).unwrap().year()
}

} // verus!
