//! Calendar dates of Unix timestamps, in UTC.
use vstd::prelude::*;

use crate::text::{cat3, cat5, padded, padded_string};

verus! {

/// A day of the Gregorian calendar, applied to every year from 1 on.
#[derive(Clone, Copy, Debug, PartialEq, Eq, Structural)]
pub struct Date {
    pub year: u64,
    pub month: u64,
    pub day: u64,
}

/// Whether the year has a leap day.
pub open spec fn is_leap(year: int) -> bool {
    year % 4 == 0 && (year % 100 != 0 || year % 400 == 0)
}

/// The days of the year.
pub open spec fn year_len(year: int) -> int {
    if is_leap(year) {
        366
    } else {
        365
    }
}

/// The days of the month.
pub open spec fn month_len(year: int, month: int) -> int {
    if month == 2 {
        if is_leap(year) {
            29
        } else {
            28
        }
    } else if month == 4 || month == 6 || month == 9 || month == 11 {
        30
    } else {
        31
    }
}

/// The days from the beginning of year 1 to the beginning of the year.
pub open spec fn days_before(year: int) -> int {
    let past = year - 1;
    365 * past + past / 4 - past / 100 + past / 400
}

/// The days of the year that lie before the month.
pub open spec fn days_before_month(year: int, month: int) -> int
    decreases month,
{
    if month <= 1 {
        0
    } else {
        days_before_month(year, month - 1) + month_len(year, month - 1)
    }
}

/// The days from the beginning of year 1 to the date.
pub open spec fn day_number(date: Date) -> int {
    days_before(date.year as int) + days_before_month(date.year as int, date.month as int)
        + date.day - 1
}

/// Whether there is such a date.
pub open spec fn is_date(date: Date) -> bool {
    &&& date.year >= 1
    &&& 1 <= date.month <= 12
    &&& 1 <= date.day <= month_len(date.year as int, date.month as int)
}

/// The days from the beginning of year 1 to the beginning of 1970.
pub const EPOCH_DAY: u64 = 719_162;

/// The seconds of a day.
pub const DAY_SECS: u64 = 86_400;

/// Whether the date is the day of the timestamp.
pub open spec fn is_day_of(date: Date, secs: u64) -> bool {
    is_date(date) && day_number(date) == EPOCH_DAY + secs / DAY_SECS
}

/// The day of the timestamp.
pub open spec fn date_of(secs: u64) -> Date {
    choose|date: Date| is_day_of(date, secs)
}

proof fn next_year(year: int)
    requires
        year >= 1,
    ensures
        days_before(year + 1) == days_before(year) + year_len(year),
{
}

proof fn years_ascend(a: int, b: int)
    requires
        1 <= a <= b,
    ensures
        days_before(a) <= days_before(b),
        a < b ==> days_before(a) + year_len(a) <= days_before(b),
    decreases b - a,
{
    if a < b {
        years_ascend(a, b - 1);
        next_year(b - 1);
        if a < b - 1 {
            years_ascend(a, b - 1);
        }
    }
}

proof fn months_ascend(year: int, a: int, b: int)
    requires
        1 <= a <= b,
    ensures
        days_before_month(year, a) <= days_before_month(year, b),
        a < b ==> days_before_month(year, a) + month_len(year, a) <= days_before_month(year, b),
    decreases b - a,
{
    if a < b {
        months_ascend(year, a, b - 1);
    }
}

proof fn twelve_months_make_a_year(year: int)
    ensures
        days_before_month(year, 13) == year_len(year),
{
    reveal_with_fuel(days_before_month, 14);
}

/// There is one date for each day number.
pub proof fn dates_are_unique(a: Date, b: Date)
    requires
        is_date(a),
        is_date(b),
        day_number(a) == day_number(b),
    ensures
        a == b,
{
    twelve_months_make_a_year(a.year as int);
    twelve_months_make_a_year(b.year as int);
    months_ascend(a.year as int, a.month as int, 13);
    months_ascend(b.year as int, b.month as int, 13);
    months_ascend(a.year as int, 1, a.month as int);
    months_ascend(b.year as int, 1, b.month as int);
    if a.year < b.year {
        years_ascend(a.year as int, b.year as int);
    } else if b.year < a.year {
        years_ascend(b.year as int, a.year as int);
    }
    if a.month < b.month {
        months_ascend(a.year as int, a.month as int, b.month as int);
    } else if b.month < a.month {
        months_ascend(a.year as int, b.month as int, a.month as int);
    }
}

fn leap(year: u64) -> (r: bool)
    ensures
        r == is_leap(year as int),
{
    year % 4 == 0 && (year % 100 != 0 || year % 400 == 0)
}

fn year_days(year: u64) -> (r: u64)
    ensures
        r == year_len(year as int),
        365 <= r <= 366,
{
    if leap(year) {
        366
    } else {
        365
    }
}

fn month_days(year: u64, month: u64) -> (r: u64)
    ensures
        r == month_len(year as int, month as int),
        28 <= r <= 31,
{
    if month == 2 {
        if leap(year) {
            29
        } else {
            28
        }
    } else if month == 4 || month == 6 || month == 9 || month == 11 {
        30
    } else {
        31
    }
}

/// The day of the timestamp.
pub fn unix_to_date(secs: u64) -> (r: Date)
    ensures
        is_day_of(r, secs),
        r == date_of(secs),
{
    let total: u64 = EPOCH_DAY + secs / DAY_SECS;
    let cycles: u64 = total / 146_097;
    let mut rest: u64 = total % 146_097;
    let mut year: u64 = 400 * cycles + 1;
    assert(days_before(year as int) == 146_097 * cycles);
    let ghost first = year;
    while rest >= year_days(year)
        invariant
            first == 400 * cycles + 1,
            first <= year,
            cycles <= 1_500_000_000,
            rest <= 146_096,
            total == days_before(year as int) + rest,
            total < days_before(first + 400),
            days_before(first + 400) == days_before(first as int) + 146_097,
        decreases rest,
    {
        proof {
            next_year(year as int);
            if year >= first + 400 {
                years_ascend(first + 400, year as int);
            }
        }
        rest = rest - year_days(year);
        year = year + 1;
    }
    let ghost in_year = rest as int;
    let mut month: u64 = 1;
    proof {
        twelve_months_make_a_year(year as int);
    }
    while rest >= month_days(year, month)
        invariant
            1 <= month <= 12,
            in_year == days_before_month(year as int, month as int) + rest,
            in_year < year_len(year as int),
            days_before_month(year as int, 13) == year_len(year as int),
        decreases rest,
    {
        proof {
            assert(days_before_month(year as int, month + 1) == days_before_month(
                year as int,
                month as int,
            ) + month_len(year as int, month as int));
        }
        rest = rest - month_days(year, month);
        month = month + 1;
    }
    let r = Date { year, month, day: rest + 1 };
    proof {
        assert(is_day_of(r, secs));
        dates_are_unique(r, date_of(secs));
    }
    r
}

/// The date as year, month and day, with hyphens between them.
pub open spec fn date_text(date: Date) -> Seq<char> {
    padded(date.year as nat, 4) + "-"@ + padded(date.month as nat, 2) + "-"@ + padded(
        date.day as nat,
        2,
    )
}

/// The date as year, month and day, with hyphens between them.
pub fn date_string(date: Date) -> (r: String)
    ensures
        r@ == date_text(date),
{
    let year = padded_string(date.year, 4);
    let month = padded_string(date.month, 2);
    let day = padded_string(date.day, 2);
    cat5(year.as_str(), "-", month.as_str(), "-", day.as_str())
}

/// The time of day of the timestamp, as hours and minutes.
pub open spec fn clock_text(secs: u64) -> Seq<char> {
    let in_day = secs % DAY_SECS;
    padded((in_day / 3600) as nat, 2) + ":"@ + padded((in_day % 3600 / 60) as nat, 2)
}

/// The time of day of the timestamp, as hours and minutes.
pub fn clock_string(secs: u64) -> (r: String)
    ensures
        r@ == clock_text(secs),
{
    let in_day: u64 = secs % DAY_SECS;
    let hours = padded_string(in_day / 3600, 2);
    let minutes = padded_string(in_day % 3600 / 60, 2);
    cat3(hours.as_str(), ":", minutes.as_str())
}

/// The timestamp as a date and a time of day.
pub open spec fn timestamp_text(secs: u64) -> Seq<char> {
    date_text(date_of(secs)) + " "@ + clock_text(secs)
}

/// The timestamp as a date and a time of day.
pub fn timestamp_string(secs: u64) -> (r: String)
    ensures
        r@ == timestamp_text(secs),
{
    let date = date_string(unix_to_date(secs));
    let clock = clock_string(secs);
    cat3(date.as_str(), " ", clock.as_str())
}

/// The months have their lengths: February one day more in a year that four divides, unless a
/// hundred does and four hundred does not.
pub proof fn months_have_their_lengths(year: int)
    ensures
        month_len(year, 1) == 31 && month_len(year, 3) == 31 && month_len(year, 5) == 31,
        month_len(year, 7) == 31 && month_len(year, 8) == 31 && month_len(year, 10) == 31,
        month_len(year, 12) == 31,
        month_len(year, 4) == 30 && month_len(year, 6) == 30 && month_len(year, 9) == 30,
        month_len(year, 11) == 30,
        month_len(year, 2) == 29 <==> year % 4 == 0 && (year % 100 != 0 || year % 400 == 0),
        month_len(year, 2) == 29 || month_len(year, 2) == 28,
{
}

/// The days follow each other: within a month, from its last day to the first of the next one, and
/// from the last day of December to the first of January.
pub proof fn days_follow_each_other(date: Date)
    requires
        is_date(date),
        date.year < u64::MAX,
    ensures
        ({
            let next = if date.day < month_len(date.year as int, date.month as int) {
                Date { day: (date.day + 1) as u64, ..date }
            } else if date.month < 12 {
                Date { month: (date.month + 1) as u64, day: 1, ..date }
            } else {
                Date { year: (date.year + 1) as u64, month: 1, day: 1 }
            };
            is_date(next) && day_number(next) == day_number(date) + 1
        }),
{
    let year = date.year as int;
    let month = date.month as int;
    next_year(year);
    twelve_months_make_a_year(year);
    assert(days_before_month(year, month + 1) == days_before_month(year, month) + month_len(year, month));
    assert(days_before_month(year + 1, 1) == 0);
}

/// Timestamps of one day have one date, and a day later it is the date of the next day.
pub proof fn dates_follow_the_clock(secs: u64, day: nat, rest: nat)
    requires
        secs == 86_400 * day + rest,
        rest < 86_400,
    ensures
        forall|date: Date| #[trigger]
            is_day_of(date, secs) ==> day_number(date) == 719_162 + day,
{
    assert(secs / 86_400 == day);
}

/// The time of day is told in hours and minutes, two digits each; days and seconds have no part in
/// it.
pub proof fn clocks_tell_hours_and_minutes(secs: u64, day: nat, hour: nat, minute: nat, second: nat)
    requires
        secs == 86_400 * day + 3_600 * hour + 60 * minute + second,
        hour < 24,
        minute < 60,
        second < 60,
    ensures
        clock_text(secs) == padded(hour, 2) + ":"@ + padded(minute, 2),
{
    let in_day: nat = 3_600 * hour + 60 * minute + second;
    assert(secs % 86_400 == in_day);
    assert(in_day / 3_600 == hour);
    assert(in_day % 3_600 / 60 == minute);
}

} // verus!
