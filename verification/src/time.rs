//! Instants of the meter clock and their proleptic Gregorian calendar fields.

use chrono::{Datelike, TimeZone, Timelike};
use vstd::prelude::*;

verus! {

/// First representable second: 00:00:00 on 1 January of the year -262143.
pub const MIN_SECONDS: i64 = -8_334_601_228_800;

/// Last representable second: 23:59:59 on 31 December of the year 262142.
pub const MAX_SECONDS: i64 = 8_210_266_876_799;

pub const NANOS_PER_SECOND: u32 = 1_000_000_000;

pub open spec fn is_leap_year(y: int) -> bool {
    y % 4 == 0 && (y % 100 != 0 || y % 400 == 0)
}

#[verifier::opaque]
pub open spec fn days_in_month(y: int, m: int) -> int {
    if m == 2 {
        if is_leap_year(y) {
            29
        } else {
            28
        }
    } else if m == 4 || m == 6 || m == 9 || m == 11 {
        30
    } else {
        31
    }
}

/// Days of year `y` that precede the first day of month `m`.
pub open spec fn days_before_month(y: int, m: int) -> int
    decreases m,
{
    if m <= 1 {
        0
    } else {
        days_before_month(y, m - 1) + days_in_month(y, m - 1)
    }
}

/// Days from 1 January 1970 to 1 January of year `y`.
pub open spec fn days_before_year(y: int) -> int {
    365 * (y - 1) + (y - 1) / 4 - (y - 1) / 100 + (y - 1) / 400 - 719162
}

/// Days from 1 January 1970 to the given date.
pub open spec fn day_number(y: int, m: int, d: int) -> int {
    days_before_year(y) + days_before_month(y, m) + d - 1
}

/// Calendar fields of an instant, to the second.
#[derive(Debug, Clone, Copy, PartialEq, Eq, Structural)]
pub struct Calendar {
    pub year: i32,
    pub month: u32,
    pub day: u32,
    pub hour: u32,
    pub minute: u32,
    pub second: u32,
}

impl Calendar {
    /// The fields name an existing date and time of day in the supported years.
    pub open spec fn valid(self) -> bool {
        &&& -262143 <= self.year <= 262142
        &&& 1 <= self.month <= 12
        &&& 1 <= self.day <= days_in_month(self.year as int, self.month as int)
        &&& self.day <= 31
        &&& self.hour < 24
        &&& self.minute < 60
        &&& self.second < 60
    }

    /// Seconds from the start of 1970 to the instant that the fields name.
    #[verifier::opaque]
    pub open spec fn seconds(self) -> int {
        day_number(self.year as int, self.month as int, self.day as int) * 86400
            + self.hour * 3600 + self.minute * 60 + self.second
    }
}

/// The calendar fields of the second `secs` after the start of 1970.
pub open spec fn calendar_of(secs: int) -> Calendar {
    choose|c: Calendar| c.valid() && c.seconds() == secs
}

/// Day of the week of the second `secs`, with Sunday as 0.
pub open spec fn weekday_of(secs: int) -> int {
    (secs / 86400 + 4) % 7
}

proof fn lemma_div_step(a: int, d: int)
    requires
        d > 0,
    ensures
        (a + 1) / d == a / d + (if (a + 1) % d == 0 {
            1int
        } else {
            0int
        }),
{
    let (q, r) = (a / d, a % d);
    vstd::arithmetic::div_mod::lemma_fundamental_div_mod(a, d);
    if r == d - 1 {
        assert(a + 1 == (q + 1) * d) by (nonlinear_arith)
            requires
                a == d * q + r,
                r == d - 1,
        ;
        vstd::arithmetic::div_mod::lemma_fundamental_div_mod_converse(a + 1, d, q + 1, 0);
    } else {
        assert(a + 1 == q * d + (r + 1)) by (nonlinear_arith)
            requires
                a == d * q + r,
        ;
        vstd::arithmetic::div_mod::lemma_fundamental_div_mod_converse(a + 1, d, q, r + 1);
    }
}

/// A year has 365 days, and one more if it is a leap year.
pub proof fn lemma_year_length(y: int)
    ensures
        days_before_year(y + 1) == days_before_year(y) + 365 + (if is_leap_year(y) {
            1int
        } else {
            0int
        }),
{
    lemma_div_step(y - 1, 4);
    lemma_div_step(y - 1, 100);
    lemma_div_step(y - 1, 400);
    assert(y % 400 == 0 ==> y % 100 == 0);
    assert(y % 100 == 0 ==> y % 4 == 0);
}

proof fn lemma_years_ordered(y1: int, y2: int)
    requires
        y1 < y2,
    ensures
        days_before_year(y1 + 1) <= days_before_year(y2),
    decreases y2 - y1,
{
    if y1 + 1 < y2 {
        lemma_years_ordered(y1, y2 - 1);
        lemma_year_length(y2 - 1);
    }
}

proof fn lemma_months_ordered(y: int, m1: int, m2: int)
    requires
        1 <= m1 < m2,
    ensures
        days_before_month(y, m1) + days_in_month(y, m1) <= days_before_month(y, m2),
    decreases m2 - m1,
{
    reveal(days_in_month);
    if m1 + 1 < m2 {
        lemma_months_ordered(y, m1, m2 - 1);
    }
}

proof fn lemma_months_fill_year(y: int)
    ensures
        days_before_month(y, 13) == 365 + (if is_leap_year(y) {
            1int
        } else {
            0int
        }),
        days_before_month(y, 1) == 0,
{
    reveal(days_in_month);
    reveal_with_fuel(days_before_month, 14);
}

/// Months are counted from year 0 so that they can be ordered by one number.
pub open spec fn month_index(y: int, m: int) -> int {
    y * 12 + m - 1
}

/// A date in an earlier month lies before the first day of the later month.
pub proof fn lemma_dates_ordered(y1: int, m1: int, d1: int, y2: int, m2: int)
    requires
        1 <= m1 <= 12,
        1 <= m2 <= 12,
        1 <= d1 <= days_in_month(y1, m1),
        month_index(y1, m1) < month_index(y2, m2),
    ensures
        day_number(y1, m1, d1) < day_number(y2, m2, 1),
{
    reveal(days_in_month);
    if y1 == y2 {
        lemma_months_ordered(y1, m1, m2);
    } else {
        assert(y1 < y2);
        lemma_years_ordered(y1, y2);
        lemma_months_ordered(y1, m1, 13);
        lemma_months_fill_year(y1);
        lemma_months_fill_year(y2);
        lemma_year_length(y1);
        if m2 > 1 {
            lemma_months_ordered(y2, 1, m2);
        }
    }
}

/// No two calendar readings name the same second.
pub proof fn lemma_calendar_unique(a: Calendar, b: Calendar)
    requires
        a.valid(),
        b.valid(),
        a.seconds() == b.seconds(),
    ensures
        a == b,
{
    reveal(days_in_month);
    reveal(Calendar::seconds);
    let (ay, am, ad) = (a.year as int, a.month as int, a.day as int);
    let (by, bm, bd) = (b.year as int, b.month as int, b.day as int);
    assert(day_number(ay, am, ad) == day_number(by, bm, bd)) by {
        let ra = a.hour * 3600 + a.minute * 60 + a.second;
        let rb = b.hour * 3600 + b.minute * 60 + b.second;
        assert(0 <= ra < 86400 && 0 <= rb < 86400);
    }
    if month_index(ay, am) < month_index(by, bm) {
        lemma_dates_ordered(ay, am, ad, by, bm);
    } else if month_index(by, bm) < month_index(ay, am) {
        lemma_dates_ordered(by, bm, bd, ay, am);
    }
    assert(ay == by && am == bm);
}

/// Every day has a date.
proof fn lemma_date_exists(n: int) -> (r: (int, int, int))
    ensures
        1 <= r.1 <= 12,
        1 <= r.2 <= days_in_month(r.0, r.1),
        day_number(r.0, r.1, r.2) == n,
    decreases (if n >= 0 { n } else { -n }),
{
    reveal(days_in_month);
    if n == 0 {
        lemma_months_fill_year(1970);
        (1970, 1, 1)
    } else if n > 0 {
        let (y, m, d) = lemma_date_exists(n - 1);
        if d < days_in_month(y, m) {
            (y, m, d + 1)
        } else if m < 12 {
            (y, m + 1, 1)
        } else {
            lemma_months_fill_year(y);
            lemma_months_fill_year(y + 1);
            lemma_year_length(y);
            assert(days_before_month(y, 13) == days_before_month(y, 12) + days_in_month(y, 12));
            (y + 1, 1, 1)
        }
    } else {
        let (y, m, d) = lemma_date_exists(n + 1);
        if d > 1 {
            (y, m, d - 1)
        } else if m > 1 {
            (y, m - 1, days_in_month(y, m - 1))
        } else {
            lemma_months_fill_year(y);
            lemma_months_fill_year(y - 1);
            lemma_year_length(y - 1);
            assert(days_before_month(y - 1, 13) == days_before_month(y - 1, 12) + days_in_month(
                y - 1,
                12,
            ));
            (y - 1, 12, 31)
        }
    }
}

/// Every supported second has exactly one calendar reading, and it names that second.
pub proof fn lemma_calendar_of(secs: int)
    requires
        MIN_SECONDS <= secs <= MAX_SECONDS,
    ensures
        calendar_of(secs).valid(),
        calendar_of(secs).seconds() == secs,
{
    reveal(days_in_month);
    reveal(Calendar::seconds);
    let days = secs / 86400;
    let rest = secs % 86400;
    let (y, m, d) = lemma_date_exists(days);
    if y < -262143 {
        lemma_dates_ordered(y, m, d, -262143, 1);
        assert(day_number(-262143, 1, 1) * 86400 == MIN_SECONDS);
    }
    if y > 262142 {
        lemma_dates_ordered(262142, 12, 31, y, m);
        assert(day_number(262142, 12, 31) * 86400 + 86399 == MAX_SECONDS) by {
            reveal_with_fuel(days_before_month, 13);
        }
        assert(day_number(y, m, d) >= day_number(y, m, 1));
    }
    let c = Calendar {
        year: y as i32,
        month: m as u32,
        day: d as u32,
        hour: (rest / 3600) as u32,
        minute: (rest % 3600 / 60) as u32,
        second: (rest % 60) as u32,
    };
    assert(c.valid());
    assert(c.seconds() == secs);
}

/// A valid calendar reading lies in the supported range of seconds.
pub proof fn lemma_seconds_in_range(c: Calendar)
    requires
        c.valid(),
    ensures
        MIN_SECONDS <= c.seconds() <= MAX_SECONDS,
        calendar_of(c.seconds()) == c,
{
    reveal(days_in_month);
    reveal(Calendar::seconds);
    let (y, m, d) = (c.year as int, c.month as int, c.day as int);
    assert(day_number(-262143, 1, 1) * 86400 == MIN_SECONDS) by {
        lemma_months_fill_year(-262143);
    }
    assert(day_number(262142, 12, 31) * 86400 + 86399 == MAX_SECONDS) by {
        reveal_with_fuel(days_before_month, 13);
    }
    if month_index(-262143, 1) < month_index(y, m) {
        lemma_dates_ordered(-262143, 1, 1, y, m);
    }
    if month_index(y, m) < month_index(262142, 12) {
        lemma_dates_ordered(y, m, d, 262142, 12);
    }
    assert(c.valid() && c.seconds() == c.seconds());
    lemma_calendar_unique(c, calendar_of(c.seconds()));
}

/// `chrono::Utc.with_ymd_and_hms(..).single()`, as a timestamp in seconds. The
/// contract claims that chrono uses the proleptic Gregorian calendar, that it
/// refuses exactly the dates and times of day that do not exist or whose year is
/// outside -262143 to 262142, and that its timestamps ignore leap seconds.
#[verifier::external_body]
fn timestamp_of_civil(
    year: i32,
    month: u32,
    day: u32,
    hour: u32,
    minute: u32,
    second: u32,
) -> (r: Option<i64>)
    ensures
        r is Some <==> (Calendar { year, month, day, hour, minute, second }).valid(),
        r matches Some(s) ==> s == (Calendar { year, month, day, hour, minute, second }).seconds(),
{
    chrono::Utc.with_ymd_and_hms(year, month, day, hour, minute, second).single().map(
        |t| t.timestamp(),
    )
}

/// `chrono::DateTime::from_timestamp`, read through `Datelike` and `Timelike`. The
/// contract claims that the fields name an existing date and time of day, and that
/// it is the one `secs` seconds after the start of 1970.
#[verifier::external_body]
fn civil_of_timestamp(secs: i64) -> (r: Calendar)
    requires
        MIN_SECONDS <= secs <= MAX_SECONDS,
    ensures
        r.valid(),
        r.seconds() == secs,
{
    let t = chrono::DateTime::from_timestamp(secs, 0).unwrap();
    Calendar {
        year: t.year(),
        month: t.month(),
        day: t.day(),
        hour: t.hour(),
        minute: t.minute(),
        second: t.second(),
    }
}

/// `chrono::Utc::now`, as whole seconds and nanoseconds. Nothing is claimed of the
/// time itself, only that it lies in the supported range.
#[verifier::external_body]
fn utc_now_parts() -> (r: (i64, u32))
    ensures
        MIN_SECONDS <= r.0 <= MAX_SECONDS,
        r.1 < NANOS_PER_SECOND,
{
    let t = chrono::Utc::now();
    (t.timestamp(), t.timestamp_subsec_nanos())
}

/// `chrono::Local::now().naive_local()`, taken as if it were UTC, as whole seconds
/// and nanoseconds. Nothing is claimed of the time itself, only that it lies in the
/// supported range.
#[verifier::external_body]
fn local_now_parts() -> (r: (i64, u32))
    ensures
        MIN_SECONDS <= r.0 <= MAX_SECONDS,
        r.1 < NANOS_PER_SECOND,
{
    let t = chrono::Local::now().naive_local().and_utc();
    (t.timestamp(), t.timestamp_subsec_nanos())
}

/// An instant: seconds after the start of 1970 and nanoseconds within the second.
#[derive(Debug, Clone, Copy, PartialEq, Eq, Structural)]
pub struct DateTime {
    secs: i64,
    nanos: u32,
}

impl DateTime {
    #[verifier::type_invariant]
    spec fn in_range(self) -> bool {
        MIN_SECONDS <= self.secs <= MAX_SECONDS && self.nanos < NANOS_PER_SECOND
    }

    /// The instant lies in the supported range. Every value that exists at run time does.
    pub closed spec fn valid(self) -> bool {
        MIN_SECONDS <= self.secs <= MAX_SECONDS && self.nanos < NANOS_PER_SECOND
    }

    /// Whole seconds since the start of 1970, rounded down.
    pub closed spec fn secs(self) -> int {
        self.secs as int
    }

    /// Nanoseconds since the start of `secs`.
    pub closed spec fn subsec_nanos(self) -> int {
        self.nanos as int
    }

    /// Nanoseconds since the start of 1970.
    pub open spec fn total_nanos(self) -> int {
        self.secs() * 1_000_000_000 + self.subsec_nanos()
    }

    /// Calendar fields of the instant.
    pub open spec fn cal(self) -> Calendar {
        calendar_of(self.secs())
    }

    pub proof fn lemma_valid(self)
        ensures
            self.valid() <==> MIN_SECONDS <= self.secs() <= MAX_SECONDS && 0
                <= self.subsec_nanos() < 1_000_000_000,
    {
    }

    /// Two instants that lie equally far from the start of 1970 are the same.
    pub proof fn law_equal_instants(self, other: DateTime)
        requires
            self.valid(),
            other.valid(),
        ensures
            self == other <==> self.total_nanos() == other.total_nanos(),
    {
    }

    /// The instant `nanos` nanoseconds into second `secs`; `None` outside the supported range.
    pub fn from_timestamp(secs: i64, nanos: u32) -> (r: Option<DateTime>)
        ensures
            r is Some <==> MIN_SECONDS <= secs <= MAX_SECONDS && nanos < NANOS_PER_SECOND,
            r matches Some(t) ==> t.secs() == secs && t.subsec_nanos() == nanos && t.valid(),
    {
        if MIN_SECONDS <= secs && secs <= MAX_SECONDS && nanos < NANOS_PER_SECOND {
            Some(DateTime { secs, nanos })
        } else {
            None
        }
    }

    /// The instant `millis` milliseconds after the start of 1970; `None` outside the
    /// supported range.
    pub fn from_timestamp_millis(millis: i64) -> (r: Option<DateTime>)
        ensures
            r is Some <==> MIN_SECONDS <= millis as int / 1000 <= MAX_SECONDS,
            r matches Some(t) ==> t.total_nanos() == millis * 1_000_000 && t.valid(),
    {
        let (secs, rest) = floor_div_rem(millis, 1000);
        DateTime::from_timestamp(secs, (rest * 1_000_000) as u32)
    }

    /// The instant with the given calendar fields; `None` if there is none.
    pub fn with_ymd_and_hms(
        year: i32,
        month: u32,
        day: u32,
        hour: u32,
        minute: u32,
        second: u32,
    ) -> (r: Option<DateTime>)
        ensures
            r is Some <==> (Calendar { year, month, day, hour, minute, second }).valid(),
            r matches Some(t) ==> {
                let c = Calendar { year, month, day, hour, minute, second };
                t.secs() == c.seconds() && t.subsec_nanos() == 0 && t.cal() == c && t.valid()
            },
    {
        match timestamp_of_civil(year, month, day, hour, minute, second) {
            Some(secs) => {
                proof {
                    lemma_seconds_in_range(Calendar { year, month, day, hour, minute, second });
                }
                Some(DateTime { secs, nanos: 0 })
            },
            None => None,
        }
    }

    /// The current UTC time.
    pub fn now() -> (r: DateTime)
        ensures
            r.valid(),
    {
        let (secs, nanos) = utc_now_parts();
        DateTime { secs, nanos }
    }

    /// The current local time of day and date, carried as if it were UTC.
    pub fn local_now() -> (r: DateTime)
        ensures
            r.valid(),
    {
        let (secs, nanos) = local_now_parts();
        DateTime { secs, nanos }
    }

    /// Every instant at run time lies in the supported range.
    pub fn check_valid(&self)
        ensures
            self.valid(),
    {
        proof {
            use_type_invariant(self);
        }
    }

    /// The calendar fields of the instant.
    pub fn calendar(&self) -> (r: Calendar)
        ensures
            r == self.cal(),
            r.valid(),
            r.seconds() == self.secs(),
            self.valid(),
    {
        proof {
            use_type_invariant(self);
        }
        let c = civil_of_timestamp(self.secs);
        proof {
            lemma_calendar_of(self.secs as int);
            lemma_calendar_unique(c, calendar_of(self.secs as int));
        }
        c
    }

    pub fn year(&self) -> (r: i32)
        ensures
            r == self.cal().year,
    {
        self.calendar().year
    }

    pub fn month(&self) -> (r: u32)
        ensures
            r == self.cal().month,
    {
        self.calendar().month
    }

    pub fn day(&self) -> (r: u32)
        ensures
            r == self.cal().day,
    {
        self.calendar().day
    }

    pub fn hour(&self) -> (r: u32)
        ensures
            r == self.cal().hour,
    {
        self.calendar().hour
    }

    pub fn minute(&self) -> (r: u32)
        ensures
            r == self.cal().minute,
    {
        self.calendar().minute
    }

    pub fn second(&self) -> (r: u32)
        ensures
            r == self.cal().second,
    {
        self.calendar().second
    }

    /// Day of the week, with Sunday as 0.
    pub fn weekday_from_sunday(&self) -> (r: u8)
        ensures
            r == weekday_of(self.secs()),
            r < 7,
    {
        proof {
            use_type_invariant(self);
        }
        let (days, _rest) = floor_div_rem(self.secs, 86400);
        let (_weeks, day) = floor_div_rem(days + 4, 7);
        day as u8
    }

    /// Whole seconds since the start of 1970, rounded down.
    pub fn timestamp(&self) -> (r: i64)
        ensures
            r == self.secs(),
            MIN_SECONDS <= r <= MAX_SECONDS,
    {
        proof {
            use_type_invariant(self);
        }
        self.secs
    }

    /// Nanoseconds within the second.
    pub fn timestamp_subsec_nanos(&self) -> (r: u32)
        ensures
            r == self.subsec_nanos(),
            r < NANOS_PER_SECOND,
    {
        proof {
            use_type_invariant(self);
        }
        self.nanos
    }

    /// Whole milliseconds since the start of 1970, rounded down.
    pub fn timestamp_millis(&self) -> (r: i64)
        ensures
            r == self.total_nanos() / 1_000_000,
    {
        proof {
            use_type_invariant(self);
        }
        self.secs * 1000 + (self.nanos / 1_000_000) as i64
    }

    /// Nanoseconds from `other` to this instant; negative if `other` is the later one.
    pub fn nanos_since(&self, other: &DateTime) -> (r: i128)
        ensures
            r == self.total_nanos() - other.total_nanos(),
    {
        proof {
            use_type_invariant(self);
            use_type_invariant(other);
        }
        (self.secs as i128 - other.secs as i128) * 1_000_000_000 + (self.nanos as i128
            - other.nanos as i128)
    }

    /// Whether this instant comes before `other`.
    pub fn is_before(&self, other: &DateTime) -> (r: bool)
        ensures
            r == (self.total_nanos() < other.total_nanos()),
    {
        self.nanos_since(other) < 0
    }

    /// The instant `millis` milliseconds later.
    pub fn plus_millis(&self, millis: i64) -> (r: DateTime)
        requires
            MIN_SECONDS <= (self.total_nanos() + millis * 1_000_000) / 1_000_000_000 <= MAX_SECONDS,
        ensures
            r.total_nanos() == self.total_nanos() + millis * 1_000_000,
            r.valid(),
    {
        proof {
            use_type_invariant(self);
        }
        let (secs, rest) = floor_div_rem(millis, 1000);
        let nanos: u64 = self.nanos as u64 + rest as u64 * 1_000_000;
        if nanos >= 1_000_000_000 {
            DateTime { secs: self.secs + secs + 1, nanos: (nanos - 1_000_000_000) as u32 }
        } else {
            DateTime { secs: self.secs + secs, nanos: nanos as u32 }
        }
    }
}

/// Quotient rounded down and the remainder, which is never negative.
pub fn floor_div_rem(a: i64, b: i64) -> (r: (i64, i64))
    requires
        0 < b,
    ensures
        r.0 == a as int / b as int,
        r.1 == a as int % b as int,
        0 <= r.1 < b,
{
    if a >= 0 {
        let q: u64 = a as u64 / b as u64;
        let m: u64 = a as u64 % b as u64;
        proof {
            vstd::arithmetic::div_mod::lemma_fundamental_div_mod(a as int, b as int);
            assert(q <= a) by (nonlinear_arith)
                requires
                    q == a as int / b as int,
                    b > 0,
                    a >= 0,
            ;
        }
        (q as i64, m as i64)
    } else {
        // -(a + 1) cannot overflow, and a = -1 - n has floor(a / b) = -1 - floor(n / b)
        let n: u64 = (-(a + 1)) as u64;
        let q: u64 = n / b as u64;
        let m: u64 = n % b as u64;
        proof {
            vstd::arithmetic::div_mod::lemma_fundamental_div_mod(n as int, b as int);
            assert(q <= n) by (nonlinear_arith)
                requires
                    q == n as int / b as int,
                    b > 0,
            ;
            assert(a == b * (-1 - q) + (b - 1 - m)) by (nonlinear_arith)
                requires
                    n == b * q + m,
                    n == -(a + 1),
            ;
            vstd::arithmetic::div_mod::lemma_fundamental_div_mod_converse(
                a as int,
                b as int,
                -1 - q,
                b - 1 - m,
            );
        }
        (-1 - q as i64, b - 1 - m as i64)
    }
}

} // verus!
