//! How clock and calendar go together.

use crate::time::{
    calendar_of, day_number, days_before_month, days_in_month, is_leap_year, lemma_calendar_of,
    lemma_year_length, weekday_of, Calendar, DateTime,
};
use vstd::prelude::*;

verus! {

/// The time of day is what is left of the seconds after whole days.
pub proof fn lemma_time_of_day(t: DateTime)
    requires
        t.valid(),
    ensures
        ({
            let c = t.cal();
            let secs = t.secs();
            &&& c.hour < 24
            &&& c.minute < 60
            &&& c.second < 60
            &&& c.hour * 3600 + c.minute * 60 + c.second == secs % 86400
            &&& c.second == secs % 60
            &&& c.minute * 60 + c.second == secs % 3600
            &&& c.hour * 60 + c.minute == secs % 86400 / 60
        }),
{
    t.lemma_valid();
    let secs = t.secs();
    lemma_calendar_of(secs);
    reveal(Calendar::seconds);
    let c = calendar_of(secs);
    let day = crate::time::day_number(c.year as int, c.month as int, c.day as int);
    assert(secs == day * 86400 + c.hour * 3600 + c.minute * 60 + c.second);
    assert(secs == (day * 24 + c.hour) * 3600 + c.minute * 60 + c.second);
    assert(secs == (day * 1440 + c.hour * 60 + c.minute) * 60 + c.second);
}

/// The seconds of a moment are whole days and the time of day.
pub proof fn lemma_seconds_split(c: Calendar)
    requires
        c.valid(),
    ensures
        c.seconds() / 86400 == day_number(c.year as int, c.month as int, c.day as int),
        c.seconds() % 86400 == c.hour * 3600 + c.minute * 60 + c.second,
{
    reveal(Calendar::seconds);
    let n = day_number(c.year as int, c.month as int, c.day as int);
    let rest = c.hour * 3600 + c.minute * 60 + c.second;
    assert(c.seconds() == n * 86400 + rest);
    assert(0 <= rest < 86400);
}

/// What a month adds to the day of the week, counted from a year that begins in March.
pub open spec fn month_shift(m: int) -> int {
    if m == 1 {
        0
    } else if m == 2 {
        3
    } else if m == 3 {
        2
    } else if m == 4 {
        5
    } else if m == 5 {
        0
    } else if m == 6 {
        3
    } else if m == 7 {
        5
    } else if m == 8 {
        1
    } else if m == 9 {
        4
    } else if m == 10 {
        6
    } else if m == 11 {
        2
    } else {
        4
    }
}

/// The day of the week of a date, Sunday being 0, by the rule of the Gregorian calendar: a year
/// moves it by one day and a leap day by one more, where leap days belong to the end of a year
/// that begins in March.
pub open spec fn gregorian_weekday(y: int, m: int, d: int) -> int {
    let from_march = if m < 3 {
        y - 1
    } else {
        y
    };
    (from_march + from_march / 4 - from_march / 100 + from_march / 400 + month_shift(m) + d) % 7
}

proof fn lemma_leap_step(y: int)
    ensures
        y / 4 - y / 100 + y / 400 == (y - 1) / 4 - (y - 1) / 100 + (y - 1) / 400 + (
        if is_leap_year(y) {
            1int
        } else {
            0int
        }),
{
    lemma_year_length(y);
}

proof fn lemma_month_starts(y: int, m: int)
    requires
        1 <= m <= 12,
    ensures
        days_before_month(y, m) == (if m == 1 {
            0int
        } else if m == 2 {
            31
        } else if m == 3 {
            59
        } else if m == 4 {
            90
        } else if m == 5 {
            120
        } else if m == 6 {
            151
        } else if m == 7 {
            181
        } else if m == 8 {
            212
        } else if m == 9 {
            243
        } else if m == 10 {
            273
        } else if m == 11 {
            304
        } else {
            334
        }) + (if m > 2 && is_leap_year(y) {
            1int
        } else {
            0int
        }),
    decreases m,
{
    reveal(days_in_month);
    if m > 1 {
        lemma_month_starts(y, m - 1);
    }
}

/// The day of the week that is made up from the number of days is that of the calendar.
#[verifier::rlimit(50)]
pub proof fn law_weekday(c: Calendar)
    requires
        c.valid(),
    ensures
        weekday_of(c.seconds()) == gregorian_weekday(c.year as int, c.month as int, c.day as int),
{
    let (y, m, d) = (c.year as int, c.month as int, c.day as int);
    reveal(Calendar::seconds);
    let n = day_number(y, m, d);
    assert(c.seconds() / 86400 == n) by {
        let rest = c.hour * 3600 + c.minute * 60 + c.second;
        assert(c.seconds() == n * 86400 + rest);
        assert(0 <= rest < 86400);
    }
    lemma_leap_step(y);
    lemma_month_starts(y, m);
    let leap = if is_leap_year(y) {
        1int
    } else {
        0int
    };
    let from_march = if m < 3 {
        y - 1
    } else {
        y
    };
    let b = from_march + from_march / 4 - from_march / 100 + from_march / 400 + month_shift(m) + d;
    let e = days_before_month(y, m) - month_shift(m) - (if m < 3 {
        0int
    } else {
        1 + leap
    });
    assert(e % 7 == 0);
    let k = 52 * (y - 1) - 102737 + e / 7;
    assert(n + 4 == 7 * k + b);
    vstd::arithmetic::div_mod::lemma_mod_multiples_vanish(k, b, 7);
}

/// Days of a month: 28 of February and a leap day in every fourth year, but in a hundredth only
/// if it is a four-hundredth; 30 of April, June, September and November; 31 of the others.
pub proof fn law_month_lengths(y: int, m: int)
    requires
        1 <= m <= 12,
    ensures
        m == 2 && (y % 400 == 0 || (y % 4 == 0 && y % 100 != 0)) ==> days_in_month(y, m) == 29,
        m == 2 && y % 4 != 0 ==> days_in_month(y, m) == 28,
        m == 2 && y % 100 == 0 && y % 400 != 0 ==> days_in_month(y, m) == 28,
        m == 4 || m == 6 || m == 9 || m == 11 ==> days_in_month(y, m) == 30,
        m == 1 || m == 3 || m == 5 || m == 7 || m == 8 || m == 10 || m == 12 ==> days_in_month(y, m)
            == 31,
{
    reveal(days_in_month);
}

/// A day follows the one before it: the first of a month follows the last of the month before,
/// and every day has 86400 seconds.
#[verifier::rlimit(50)]
pub proof fn law_days_follow_each_other(a: Calendar, b: Calendar)
    requires
        a.valid(),
        b.valid(),
        (a.hour, a.minute, a.second) == (b.hour, b.minute, b.second),
        ({
            ||| a.year == b.year && a.month == b.month && b.day == a.day + 1
            ||| a.year == b.year && b.month == a.month + 1 && b.day == 1 && a.day == days_in_month(
                a.year as int,
                a.month as int,
            )
            ||| b.year == a.year + 1 && a.month == 12 && a.day == 31 && b.month == 1 && b.day == 1
        }),
    ensures
        b.seconds() == a.seconds() + 86400,
{
    reveal(Calendar::seconds);
    let y = a.year as int;
    lemma_month_starts(y, a.month as int);
    lemma_month_starts(b.year as int, b.month as int);
    lemma_leap_step(y);
    reveal(days_in_month);
}

} // verus!
