use vstd::prelude::*;

verus! {

/// Seconds in one day.
pub const SECS_PER_DAY: i64 = 86400;

/// Largest distance of a time zone from UTC, in minutes (18 hours).
pub const MAX_UTC_OFFSET_MINUTES: i32 = 1080;

/// A calendar date of the proleptic Gregorian calendar.
#[derive(Clone, Copy, Debug, PartialEq, Eq, Structural)]
pub struct CivilDate {
    pub year: u16,
    pub month: u8,
    pub day: u8,
}

/// A due point: seconds since 1970-01-01T00:00:00Z, and whether a time of
/// day was given. A date-only due point is the start of its day in the zone
/// it came from.
#[derive(Clone, Copy, Debug, PartialEq, Eq, Structural)]
pub struct Due {
    pub timestamp: i64,
    pub has_time: bool,
}

pub open spec fn is_leap(y: int) -> bool {
    (y % 4 == 0 && y % 100 != 0) || y % 400 == 0
}

pub open spec fn days_in_month(y: int, m: int) -> int {
    if m == 2 {
        if is_leap(y) { 29 } else { 28 }
    } else if m == 4 || m == 6 || m == 9 || m == 11 {
        30
    } else {
        31
    }
}

/// Days of the year that come before the first of month `m`.
pub open spec fn days_before_month(y: int, m: int) -> int {
    let base: int = if m == 1 { 0 }
        else if m == 2 { 31 }
        else if m == 3 { 59 }
        else if m == 4 { 90 }
        else if m == 5 { 120 }
        else if m == 6 { 151 }
        else if m == 7 { 181 }
        else if m == 8 { 212 }
        else if m == 9 { 243 }
        else if m == 10 { 273 }
        else if m == 11 { 304 }
        else { 334 };
    if m > 2 && is_leap(y) { base + 1 } else { base }
}

pub open spec fn valid_date(d: CivilDate) -> bool {
    &&& 1 <= d.year
    &&& 1 <= d.month <= 12
    &&& 1 <= d.day <= days_in_month(d.year as int, d.month as int)
}

/// Days from 1970-01-01 to the given date (negative before it): the days of
/// all whole years since 0001-01-01, of the months before, and of the month.
pub open spec fn days_from_civil(d: CivilDate) -> int {
    let py = d.year as int - 1;
    365 * py + py / 4 - py / 100 + py / 400 + days_before_month(d.year as int, d.month as int)
        + d.day as int - 1 - 719162
}

/// The instant at which the date begins in a zone `offset_minutes` east of UTC.
pub open spec fn local_midnight(d: CivilDate, offset_minutes: int) -> int {
    days_from_civil(d) * 86400 - offset_minutes * 60
}

pub open spec fn valid_offset(offset_minutes: int) -> bool {
    -1080 <= offset_minutes <= 1080
}

/// The start of a calendar day, as observed in the zone it belongs to, is
/// local midnight: shifted into that zone it is a whole number of days since
/// the epoch, and that number is the date's day number.
pub proof fn lemma_date_only_is_local_midnight(d: CivilDate, offset_minutes: int)
    ensures
        (local_midnight(d, offset_minutes) + offset_minutes * 60) % 86400 == 0,
        (local_midnight(d, offset_minutes) + offset_minutes * 60) / 86400 == days_from_civil(d),
{
    let n = days_from_civil(d);
    assert(local_midnight(d, offset_minutes) + offset_minutes * 60 == n * 86400);
    vstd::arithmetic::div_mod::lemma_mod_multiples_basic(n, 86400);
    vstd::arithmetic::div_mod::lemma_div_multiples_vanish(n, 86400);
    assert(86400 * n == n * 86400) by (nonlinear_arith);
}

pub fn days_from_civil_exec(d: CivilDate) -> (r: i64)
    requires
        valid_date(d),
    ensures
        r as int == days_from_civil(d),
{
    let y: i64 = d.year as i64;
    let m: u8 = d.month;
    let leap: bool = (y % 4 == 0 && y % 100 != 0) || y % 400 == 0;
    let base: i64 = if m == 1 { 0 }
        else if m == 2 { 31 }
        else if m == 3 { 59 }
        else if m == 4 { 90 }
        else if m == 5 { 120 }
        else if m == 6 { 151 }
        else if m == 7 { 181 }
        else if m == 8 { 212 }
        else if m == 9 { 243 }
        else if m == 10 { 273 }
        else if m == 11 { 304 }
        else { 334 };
    let before: i64 = if m > 2 && leap { base + 1 } else { base };
    let py: i64 = y - 1;
    365 * py + py / 4 - py / 100 + py / 400 + before + d.day as i64 - 1 - 719162
}

impl Due {
    /// A due point with a time of day, at the given instant.
    pub fn at_instant(timestamp: i64) -> (r: Due)
        ensures
            r.timestamp == timestamp,
            r.has_time,
    {
        Due { timestamp, has_time: true }
    }

    /// A date-only due point: the start of `date` in a zone `offset_minutes`
    /// east of UTC.
    pub fn date_only(date: CivilDate, offset_minutes: i32) -> (r: Due)
        requires
            valid_date(date),
            valid_offset(offset_minutes as int),
        ensures
            r.timestamp as int == local_midnight(date, offset_minutes as int),
            !r.has_time,
    {
        let days = days_from_civil_exec(date);
        Due { timestamp: days * SECS_PER_DAY - offset_minutes as i64 * 60, has_time: false }
    }
}

} // verus!
