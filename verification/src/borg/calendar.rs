//! The proleptic Gregorian calendar, as far as timestamps need it.
//!
//! The specification functions say what a calendar day is and how many
//! seconds separate it from the Unix epoch. The two executable functions ask
//! `chrono` and are trusted to answer as those specifications say.

use vstd::prelude::*;

verus! {

/// Whether `year` has a 29 February.
pub open spec fn is_leap_year(year: int) -> bool {
    year % 4 == 0 && (year % 100 != 0 || year % 400 == 0)
}

/// The number of days of `year`.
pub open spec fn days_in_year(year: int) -> int {
    if is_leap_year(year) {
        366
    } else {
        365
    }
}

/// The number of days of `month` (1 to 12) in `year`.
pub open spec fn days_in_month(year: int, month: int) -> int {
    if month == 2 {
        if is_leap_year(year) {
            29
        } else {
            28
        }
    } else if month == 4 || month == 6 || month == 9 || month == 11 {
        30
    } else {
        31
    }
}

/// Whether `year`-`month`-`day` names a day that exists.
pub open spec fn is_calendar_day(year: int, month: int, day: int) -> bool {
    1 <= month <= 12 && 1 <= day <= days_in_month(year, month)
}

/// The days from 1 January of year 0 up to, not including, 1 January of `year`.
pub open spec fn days_before_year(year: int) -> int
    decreases year,
{
    if year <= 0 {
        0
    } else {
        days_before_year(year - 1) + days_in_year(year - 1)
    }
}

/// The days of `year` that lie before the first of `month`.
pub open spec fn days_before_month(year: int, month: int) -> int
    decreases month,
{
    if month <= 1 {
        0
    } else {
        days_before_month(year, month - 1) + days_in_month(year, month - 1)
    }
}

/// The days from 1 January 1970 to `year`-`month`-`day`; negative before 1970.
pub open spec fn days_since_epoch(year: int, month: int, day: int) -> int {
    days_before_year(year) - days_before_year(1970) + days_before_month(year, month) + (day - 1)
}

/// The seconds from 1970-01-01T00:00:00 to the given second of the given day,
/// every day counted as 86 400 seconds.
pub open spec fn seconds_since_epoch(
    year: int,
    month: int,
    day: int,
    hour: int,
    minute: int,
    second: int,
) -> int {
    days_since_epoch(year, month, day) * 86_400 + hour * 3_600 + minute * 60 + second
}

/// The leap years from year 0 up to, not including, `year`.
pub open spec fn leap_years_before(year: int) -> int {
    (year + 3) / 4 - (year + 99) / 100 + (year + 399) / 400
}

/// The days of a common year that lie before the first of `month`.
pub open spec fn common_days_before_month(month: int) -> int {
    if month <= 1 {
        0
    } else if month == 2 {
        31
    } else if month == 3 {
        59
    } else if month == 4 {
        90
    } else if month == 5 {
        120
    } else if month == 6 {
        151
    } else if month == 7 {
        181
    } else if month == 8 {
        212
    } else if month == 9 {
        243
    } else if month == 10 {
        273
    } else if month == 11 {
        304
    } else {
        334
    }
}

/// The days before a year, without counting year by year.
pub proof fn lemma_days_before_year(year: int)
    requires
        0 <= year,
    ensures
        days_before_year(year) == 365 * year + leap_years_before(year),
    decreases year,
{
    if year > 0 {
        let y = year - 1;
        lemma_days_before_year(y);
        assert((y + 4) / 4 - (y + 3) / 4 == if y % 4 == 0 { 1int } else { 0int });
        assert((y + 100) / 100 - (y + 99) / 100 == if y % 100 == 0 { 1int } else { 0int });
        assert((y + 400) / 400 - (y + 399) / 400 == if y % 400 == 0 { 1int } else { 0int });
        assert(y % 100 == 0 ==> y % 4 == 0);
        assert(y % 400 == 0 ==> y % 100 == 0);
    }
}

/// 1 January 1970 is day 719 528 from 1 January of year 0.
pub proof fn lemma_epoch_day()
    ensures
        days_before_year(1970) == 719_528,
{
    lemma_days_before_year(1970);
}

/// The days before a month, without counting month by month.
pub proof fn lemma_days_before_month(year: int, month: int)
    requires
        1 <= month <= 12,
    ensures
        days_before_month(year, month) == common_days_before_month(month) + if month > 2
            && is_leap_year(year) {
            1int
        } else {
            0int
        },
{
    reveal_with_fuel(days_before_month, 13);
}

/// A day that exists lies within its year.
pub proof fn lemma_day_within_year(year: int, month: int, day: int)
    requires
        is_calendar_day(year, month, day),
    ensures
        0 <= days_before_month(year, month) + (day - 1) < days_in_year(year),
{
    lemma_days_before_month(year, month);
}

/// Each year begins after the one before it has ended.
pub proof fn lemma_years_in_order(earlier: int, later: int)
    requires
        0 <= earlier < later,
    ensures
        days_before_year(earlier) + days_in_year(earlier) <= days_before_year(later),
    decreases later,
{
    if earlier + 1 < later {
        lemma_years_in_order(earlier, later - 1);
    }
}

/// Of two days that exist in years from 0 on, the later one is more days
/// from the epoch.
pub proof fn lemma_days_in_order(y1: int, m1: int, d1: int, y2: int, m2: int, d2: int)
    requires
        0 <= y1,
        0 <= y2,
        is_calendar_day(y1, m1, d1),
        is_calendar_day(y2, m2, d2),
        y1 < y2 || (y1 == y2 && (m1 < m2 || (m1 == m2 && d1 < d2))),
    ensures
        days_since_epoch(y1, m1, d1) < days_since_epoch(y2, m2, d2),
{
    lemma_day_within_year(y1, m1, d1);
    lemma_day_within_year(y2, m2, d2);
    lemma_days_before_month(y1, m1);
    lemma_days_before_month(y2, m2);
    if y1 < y2 {
        lemma_years_in_order(y1, y2);
    }
}

/// Seconds since the epoch, without counting year by year or month by month.
pub proof fn lemma_seconds_since_epoch(
    year: int,
    month: int,
    day: int,
    hour: int,
    minute: int,
    second: int,
)
    requires
        0 <= year,
        1 <= month <= 12,
    ensures
        seconds_since_epoch(year, month, day, hour, minute, second) == (365 * year
            + leap_years_before(year) + common_days_before_month(month) + (if month > 2
            && is_leap_year(year) {
            1int
        } else {
            0int
        }) + day - 719_529) * 86_400 + hour * 3_600 + minute * 60 + second,
{
    lemma_days_before_year(year);
    lemma_epoch_day();
    lemma_days_before_month(year, month);
}

/// Two instants whose Unix time is well known: the epoch itself, and the
/// midnight that `chrono` documents as 1 431 648 000.
pub proof fn lemma_known_unix_times()
    ensures
        seconds_since_epoch(1970, 1, 1, 0, 0, 0) == 0,
        seconds_since_epoch(2015, 5, 15, 0, 0, 0) == 1_431_648_000,
{
    lemma_seconds_since_epoch(1970, 1, 1, 0, 0, 0);
    lemma_seconds_since_epoch(2015, 5, 15, 0, 0, 0);
}

/// Asks `chrono::NaiveDate::from_ymd_opt` whether the day exists.
///
/// Trusted: for a year of four digits, `chrono` builds a date exactly when the
/// month is 1 to 12 and the day is one of that month in that year.
#[verifier::external_body]
pub(crate) fn calendar_day_exists(year: i32, month: u32, day: u32) -> (exists: bool)
    requires
        0 <= year <= 9999,
    ensures
        exists == is_calendar_day(year as int, month as int, day as int),
{
    chrono::NaiveDate::from_ymd_opt(year, month, day).is_some()
}

/// Asks `chrono::DateTime::<Utc>::timestamp` for the Unix time of a second
/// given by its calendar fields.
///
/// Trusted: the value that `chrono` reports is the count of non-leap seconds
/// since 1970-01-01T00:00:00 UTC, which `seconds_since_epoch` spells out.
#[verifier::external_body]
pub(crate) fn unix_timestamp(
    year: i32,
    month: u32,
    day: u32,
    hour: u32,
    minute: u32,
    second: u32,
) -> (seconds: i64)
    requires
        0 <= year <= 9999,
        is_calendar_day(year as int, month as int, day as int),
        hour < 24,
        minute < 60,
        second < 60,
    ensures
        seconds == seconds_since_epoch(
            year as int,
            month as int,
            day as int,
            hour as int,
            minute as int,
            second as int,
        ),
{
    chrono::NaiveDate::from_ymd_opt(year, month, day)
        .unwrap()
        .and_hms_opt(hour, minute, second)
        .unwrap()
        .and_utc()
        .timestamp()
}

} // verus!
