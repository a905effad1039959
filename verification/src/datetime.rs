//! Calendar dates and zoned instants.
//!
//! A date is a count of days and an instant a count of seconds, both from
//! 1970-01-01. A zoned instant carries the offset that its zone has at that
//! instant, so that its local wall-clock time is a plain sum.

use crate::zone::{
    offset_in_range, time_in_range, zone_local_offsets, zone_offset_at, Pick, Zone, DAY_SECONDS, TIME_LIMIT,
};
use vstd::prelude::*;

verus! {

/// Dates are kept within this many days either side of 1970-01-01
/// (ten thousand Julian years).
pub const DAY_LIMIT: i64 = 3_652_500;

/// The day in which a count of seconds falls.
pub open spec fn day_of(seconds: int) -> int {
    seconds / (DAY_SECONDS as int)
}

/// The second within its day of a count of seconds.
pub open spec fn second_of_day(seconds: int) -> int {
    seconds % (DAY_SECONDS as int)
}

/// A day number that the library can hold.
pub open spec fn day_in_range(day: int) -> bool {
    -DAY_LIMIT <= day <= DAY_LIMIT
}

/// The days in a month of the proleptic Gregorian calendar.
pub open spec fn days_in_month(year: int, month: int) -> int {
    if month == 2 {
        if is_leap_year(year) {
            29
        } else {
            28
        }
    } else if month == 4 || month == 6 || month == 9 || month == 11 {
        30
    } else {
        31
    }
}

pub open spec fn is_leap_year(year: int) -> bool {
    year % 4 == 0 && (year % 100 != 0 || year % 400 == 0)
}

/// The days from 1970-01-01 to the first day of a year.
pub open spec fn days_before_year(year: int) -> int {
    let y = year - 1;
    365 * y + y / 4 - y / 100 + y / 400 - 719_162
}

/// The days from the first day of a year to the first day of one of its months.
pub open spec fn days_before_month(year: int, month: int) -> int
    decreases month,
{
    if month <= 1 {
        0
    } else {
        days_before_month(year, month - 1) + days_in_month(year, month - 1)
    }
}

/// The day number of a calendar date.
pub open spec fn days_from_civil(year: int, month: int, day: int) -> int {
    days_before_year(year) + days_before_month(year, month) + day - 1
}

/// The year, the month and the day of the date with a day number.
pub open spec fn civil_of(day: int) -> (int, int, int) {
    choose|c: (int, int, int)| is_civil_date(c.0, c.1, c.2) && days_from_civil(c.0, c.1, c.2) == day
}

/// Year, month and day name a date of the calendar.
pub open spec fn is_civil_date(year: int, month: int, day: int) -> bool {
    1 <= month <= 12 && 1 <= day <= days_in_month(year, month)
}

/// Years from which a date can be made.
pub open spec fn year_in_range(year: int) -> bool {
    -7_999 <= year <= 11_969
}

/// A calendar date without a zone: the number of days since 1970-01-01.
#[derive(Clone, Copy, Debug, PartialEq, Eq, Structural)]
pub struct Date {
    pub day: i64,
}

/// The floor of `seconds / 86400`.
pub fn day_number(seconds: i64) -> (day: i64)
    requires
        time_in_range(seconds as int),
    ensures
        day == day_of(seconds as int),
        day * DAY_SECONDS <= seconds < day * DAY_SECONDS + DAY_SECONDS,
{
    if seconds >= 0 {
        seconds / DAY_SECONDS
    } else {
        -((-seconds + (DAY_SECONDS - 1)) / DAY_SECONDS)
    }
}

fn leap_year(year: i32) -> (r: bool)
    ensures
        r == is_leap_year(year as int),
{
    year % 4 == 0 && (year % 100 != 0 || year % 400 == 0)
}

fn month_length(year: i32, month: u32) -> (r: u32)
    ensures
        r == days_in_month(year as int, month as int),
{
    if month == 2 {
        if leap_year(year) {
            29
        } else {
            28
        }
    } else if month == 4 || month == 6 || month == 9 || month == 11 {
        30
    } else {
        31
    }
}

impl Date {
    pub open spec fn wf(self) -> bool {
        day_in_range(self.day as int)
    }

    /// Local seconds at which the date begins.
    pub open spec fn midnight(self) -> int {
        self.day * DAY_SECONDS
    }

    /// Local seconds of the date's last second, 23:59:59.
    pub open spec fn last_second(self) -> int {
        self.day * DAY_SECONDS + DAY_SECONDS - 1
    }

    /// The date `n` days later.
    pub open spec fn plus(self, n: int) -> Date {
        Date { day: (self.day + n) as i64 }
    }

    /// The date with this day number, if the library can hold it.
    pub fn from_days(day: i64) -> (r: Option<Date>)
        ensures
            r == if day_in_range(day as int) {
                Some(Date { day })
            } else {
                None
            },
    {
        if -DAY_LIMIT <= day && day <= DAY_LIMIT {
            Some(Date { day })
        } else {
            None
        }
    }

    /// The date of the proleptic Gregorian calendar with this year, month and
    /// day: `None` where they name no date, or one that the library cannot
    /// hold.
    pub fn from_ymd(year: i32, month: u32, day: u32) -> (r: Option<Date>)
        ensures
            r.is_some() == (is_civil_date(year as int, month as int, day as int) && day_in_range(
                days_from_civil(year as int, month as int, day as int),
            )),
            r matches Some(d) ==> d.wf() && d.day == days_from_civil(
                year as int,
                month as int,
                day as int,
            ),
            year_in_range(year as int) && is_civil_date(year as int, month as int, day as int)
                ==> r.is_some() && -DAY_LIMIT + 40 <= r.unwrap().day <= DAY_LIMIT - 40,
    {
        if month < 1 || month > 12 || day < 1 || day > month_length(year, month) {
            return None;
        }
        if year < -8_100 || year > 12_000 {
            proof {
                lemma_far_years(year as int, month as int, day as int);
            }
            return None;
        }
        let before_year: i64 = first_day_of_year(year as i64);
        let mut before_month: i64 = 0;
        let mut m: u32 = 1;
        while m < month
            invariant
                1 <= m <= month <= 12,
                before_month == days_before_month(year as int, m as int),
                0 <= before_month <= 31 * (m - 1),
            decreases month - m,
        {
            before_month = before_month + month_length(year, m) as i64;
            m = m + 1;
        }
        Date::from_days(before_year + before_month + day as i64 - 1)
    }

    /// The year, the month and the day of the date.
    pub fn ymd(&self) -> (r: (i32, u32, u32))
        requires
            self.wf(),
        ensures
            is_civil_date(r.0 as int, r.1 as int, r.2 as int),
            days_from_civil(r.0 as int, r.1 as int, r.2 as int) == self.day,
            (r.0 as int, r.1 as int, r.2 as int) == civil_of(self.day as int),
    {
        let mut year: i64 = if self.day >= 0 {
            1970 + self.day / 366
        } else {
            1969 - (-self.day) / 365 - 1
        };
        let mut next: i64 = first_day_of_year(year + 1);
        while next <= self.day
            invariant
                self.wf(),
                -8_100 <= year <= 12_000,
                days_before_year(year as int) <= self.day,
                next == days_before_year(year + 1),
            decreases 12_001 - year,
        {
            year = year + 1;
            next = first_day_of_year(year + 1);
        }
        let rest: i64 = self.day - first_day_of_year(year);
        let mut month: u32 = 1;
        let mut before: i64 = 0;
        while month < 12 && before + month_length(year as i32, month) as i64 <= rest
            invariant
                1 <= month <= 12,
                -8_100 <= year <= 12_000,
                before == days_before_month(year as int, month as int),
                0 <= before <= 31 * (month - 1),
                before <= rest,
                rest == self.day - days_before_year(year as int),
                rest < days_before_year(year + 1) - days_before_year(year as int),
            decreases 12 - month,
        {
            before = before + month_length(year as i32, month) as i64;
            month = month + 1;
        }
        proof {
            if month == 12 {
                lemma_days_before_december(year as int);
            }
            let found = (year as int, month as int, rest - before + 1);
            let chosen = civil_of(self.day as int);
            assert(is_civil_date(found.0, found.1, found.2) && days_from_civil(
                found.0,
                found.1,
                found.2,
            ) == self.day);
            lemma_civil_date_is_unique(found.0, found.1, found.2, chosen.0, chosen.1, chosen.2);
        }
        (year as i32, month, (rest - before + 1) as u32)
    }

    /// The number of days since 1970-01-01.
    pub fn days(&self) -> (r: i64)
        ensures
            r == self.day,
    {
        self.day
    }

    /// The next date, if the library can hold it.
    pub fn succ(&self) -> (r: Option<Date>)
        requires
            self.wf(),
        ensures
            r == if self.day < DAY_LIMIT {
                Some(self.plus(1))
            } else {
                None
            },
            r matches Some(d) ==> d.wf(),
    {
        if self.day < DAY_LIMIT {
            Some(Date { day: self.day + 1 })
        } else {
            None
        }
    }

    /// Local seconds at which the date begins.
    pub fn midnight_seconds(&self) -> (r: i64)
        requires
            self.wf(),
        ensures
            r == self.midnight(),
            time_in_range(r as int),
    {
        self.day * DAY_SECONDS
    }

    /// Local seconds of 23:59:59 on the date.
    pub fn last_second_seconds(&self) -> (r: i64)
        requires
            self.wf(),
        ensures
            r == self.last_second(),
            time_in_range(r as int),
    {
        self.day * DAY_SECONDS + (DAY_SECONDS - 1)
    }
}

/// The day number of the first day of a year.
fn first_day_of_year(year: i64) -> (r: i64)
    requires
        -8_200 <= year <= 12_100,
    ensures
        r == days_before_year(year as int),
{
    let y: i64 = year - 1;
    365 * y + floor_div(y, 4) - floor_div(y, 100) + floor_div(y, 400) - 719_162
}

/// A later year begins later, by at least 365 days for each year between.
proof fn lemma_years_in_order(a: int, b: int)
    requires
        a <= b,
    ensures
        days_before_year(b) - days_before_year(a) >= 365 * (b - a),
    decreases b - a,
{
    if a < b {
        lemma_years_in_order(a, b - 1);
        lemma_days_before_december(b - 1);
    }
}

/// A date lies in its year: not before the first day of the year, and
/// before the first day of the next.
proof fn lemma_date_in_its_year(year: int, month: int, day: int)
    requires
        is_civil_date(year, month, day),
    ensures
        days_before_year(year) <= days_from_civil(year, month, day) < days_before_year(year + 1),
{
    reveal_with_fuel(days_before_month, 13);
    lemma_days_before_december(year);
}

/// No two dates of the calendar have one day number: the day number of a
/// date tells its year, its month and its day.
pub proof fn lemma_civil_date_is_unique(y1: int, m1: int, d1: int, y2: int, m2: int, d2: int)
    requires
        is_civil_date(y1, m1, d1),
        is_civil_date(y2, m2, d2),
        days_from_civil(y1, m1, d1) == days_from_civil(y2, m2, d2),
    ensures
        y1 == y2,
        m1 == m2,
        d1 == d2,
{
    lemma_date_in_its_year(y1, m1, d1);
    lemma_date_in_its_year(y2, m2, d2);
    if y1 < y2 {
        lemma_years_in_order(y1 + 1, y2);
    }
    if y2 < y1 {
        lemma_years_in_order(y2 + 1, y1);
    }
    assert(y1 == y2);
    reveal_with_fuel(days_before_month, 13);
}

/// A date that is made of the year, the month and the day of a date is that
/// date again.
pub proof fn lemma_civil_round_trip(year: int, month: int, day: int)
    requires
        is_civil_date(year, month, day),
    ensures
        civil_of(days_from_civil(year, month, day)) == (year, month, day),
{
    let n = days_from_civil(year, month, day);
    let given = (year, month, day);
    assert(is_civil_date(given.0, given.1, given.2) && days_from_civil(given.0, given.1, given.2)
        == n);
    let c = civil_of(n);
    lemma_civil_date_is_unique(year, month, day, c.0, c.1, c.2);
}

/// A date of a year far from 1970 has a day number that the library cannot
/// hold.
proof fn lemma_far_years(year: int, month: int, day: int)
    requires
        year < -8_100 || year > 12_000,
        1 <= month <= 12,
        1 <= day <= 31,
    ensures
        !day_in_range(days_from_civil(year, month, day)),
{
    lemma_days_before_month_bounds(year, month);
}

/// The days before a month are at most 31 for each month before it.
proof fn lemma_days_before_month_bounds(year: int, month: int)
    requires
        1 <= month <= 12,
    ensures
        0 <= days_before_month(year, month) <= 31 * (month - 1),
    decreases month,
{
    if month > 1 {
        lemma_days_before_month_bounds(year, month - 1);
    }
}

/// The first eleven months of a year have 334 days, and one more in a leap
/// year; a year has 365 days, and one more in a leap year.
proof fn lemma_days_before_december(year: int)
    ensures
        days_before_month(year, 12) == if is_leap_year(year) {
            335int
        } else {
            334int
        },
        days_before_year(year + 1) - days_before_year(year) == if is_leap_year(year) {
            366int
        } else {
            365int
        },
{
    reveal_with_fuel(days_before_month, 13);
    let y = year - 1;
    assert(year / 4 == y / 4 + if year % 4 == 0 { 1int } else { 0int });
    assert(year / 100 == y / 100 + if year % 100 == 0 { 1int } else { 0int });
    assert(year / 400 == y / 400 + if year % 400 == 0 { 1int } else { 0int });
    assert(year % 400 == 0 ==> year % 100 == 0) by {
        if year % 400 == 0 {
            assert(year == 400 * (year / 400));
            assert(year == 100 * (4 * (year / 400)));
        }
    }
    assert(year % 100 == 0 ==> year % 4 == 0) by {
        if year % 100 == 0 {
            assert(year == 100 * (year / 100));
            assert(year == 4 * (25 * (year / 100)));
        }
    }
}

/// The floor of `a / b` for a positive `b`.
fn floor_div(a: i64, b: i64) -> (q: i64)
    requires
        0 < b <= 1000,
        -1_000_000 <= a <= 1_000_000,
    ensures
        q == a as int / b as int,
{
    if a >= 0 {
        a / b
    } else {
        let n: i64 = -a + (b - 1);
        let q: i64 = -(n / b);
        proof {
            lemma_floor_of_negative(a as int, b as int);
        }
        q
    }
}

proof fn lemma_floor_of_negative(a: int, b: int)
    requires
        a < 0,
        b > 0,
    ensures
        a / b == -((-a + (b - 1)) / b),
{
    let n = -a + (b - 1);
    let k = n / b;
    assert(n == b * k + n % b && 0 <= n % b < b) by {
        vstd::arithmetic::div_mod::lemma_fundamental_div_mod(n, b);
        vstd::arithmetic::div_mod::lemma_mod_bound(n, b);
    }
    let r = b - 1 - n % b;
    assert(a == b * (-k) + r) by (nonlinear_arith)
        requires
            n == -a + (b - 1),
            n == b * k + n % b,
            r == b - 1 - n % b,
    ;
    assert(0 <= r < b);
    vstd::arithmetic::div_mod::lemma_fundamental_div_mod_converse(a, b, -k, r);
}

/// The days in a year.
pub fn days_of_year(year: i32) -> (r: u32)
    ensures
        r == if is_leap_year(year as int) {
            366int
        } else {
            365int
        },
{
    if leap_year(year) {
        366
    } else {
        365
    }
}

/// The days in a month (1 to 12) of a year.
pub fn days_of_month(month: u32, year: i32) -> (r: u32)
    requires
        1 <= month <= 12,
    ensures
        r == days_in_month(year as int, month as int),
        28 <= r <= 31,
{
    month_length(year, month)
}

/// An instant together with the zone in which it is read: seconds since
/// 1970-01-01T00:00:00 UTC, and the zone's offset from UTC at that instant.
#[derive(Clone, Copy, Debug, PartialEq, Eq, Structural)]
pub struct ZonedDateTime {
    pub utc: i64,
    pub offset: i32,
    pub zone: Zone,
}

/// A local time falls on a date that the library can hold.
pub open spec fn local_in_range(local: int) -> bool {
    -DAY_LIMIT * DAY_SECONDS <= local < (DAY_LIMIT + 1) * DAY_SECONDS
}

impl ZonedDateTime {
    /// The local wall-clock time, in seconds.
    pub open spec fn local(self) -> int {
        self.utc + self.offset
    }

    /// The local calendar date.
    pub open spec fn date(self) -> Date {
        Date { day: day_of(self.local()) as i64 }
    }

    /// The offset is smaller than a day and the local date can be held.
    pub open spec fn wf(self) -> bool {
        &&& self.zone.wf()
        &&& offset_in_range(self.offset as int)
        &&& local_in_range(self.local())
    }

    /// The instant `utc` read in `zone`.
    pub open spec fn at(zone: Zone, utc: int) -> ZonedDateTime {
        ZonedDateTime { utc: utc as i64, offset: zone_offset_at(zone.index(), utc) as i32, zone }
    }

    /// The instant `utc` read in `zone`, where the library can hold it.
    pub open spec fn try_at(zone: Zone, utc: int) -> Option<ZonedDateTime> {
        if time_in_range(utc) && local_in_range(utc + zone_offset_at(zone.index(), utc)) {
            Some(Self::at(zone, utc))
        } else {
            None
        }
    }

    /// The instant that has the local time `local` in `zone`, where there is
    /// one and the library can hold it.
    pub open spec fn try_at_local(zone: Zone, local: int, pick: Pick) -> Option<ZonedDateTime> {
        if local_in_range(local) {
            match zone_local_offsets(zone.index(), local).pick(pick) {
                Some(o) => Some(ZonedDateTime { utc: (local - o) as i64, offset: o, zone }),
                None => None,
            }
        } else {
            None
        }
    }

    /// The instant `utc` read in `zone`.
    pub fn from_utc(zone: Zone, utc: i64) -> (r: Option<ZonedDateTime>)
        requires
            zone.wf(),
        ensures
            r == Self::try_at(zone, utc as int),
            r matches Some(z) ==> z.wf(),
    {
        if utc < -TIME_LIMIT || utc > TIME_LIMIT {
            return None;
        }
        let offset = zone.offset_at(utc);
        let local: i64 = utc + offset as i64;
        if local < -DAY_LIMIT * DAY_SECONDS || local >= (DAY_LIMIT + 1) * DAY_SECONDS {
            return None;
        }
        Some(ZonedDateTime { utc, offset, zone })
    }

    /// The instant that has the local time `local` in `zone`.
    pub fn from_local(zone: Zone, local: i64, pick: Pick) -> (r: Option<ZonedDateTime>)
        requires
            zone.wf(),
        ensures
            r == Self::try_at_local(zone, local as int, pick),
            r matches Some(z) ==> z.wf() && z.local() == local,
    {
        if local < -DAY_LIMIT * DAY_SECONDS || local >= (DAY_LIMIT + 1) * DAY_SECONDS {
            return None;
        }
        match zone.local_offsets(local).choose_offset(pick) {
            Some(offset) => Some(ZonedDateTime { utc: local - offset as i64, offset, zone }),
            None => None,
        }
    }

    /// Seconds since 1970-01-01T00:00:00 UTC.
    pub fn timestamp(&self) -> (r: i64)
        ensures
            r == self.utc,
    {
        self.utc
    }

    /// The zone in which the instant is read.
    pub fn timezone(&self) -> (r: Zone)
        ensures
            r == self.zone,
    {
        self.zone
    }

    /// The local wall-clock time, in seconds.
    pub fn naive_local(&self) -> (r: i64)
        requires
            self.wf(),
        ensures
            r == self.local(),
            local_in_range(r as int),
    {
        self.utc + self.offset as i64
    }

    /// The local calendar date.
    pub fn date_naive(&self) -> (r: Date)
        requires
            self.wf(),
        ensures
            r == self.date(),
            r.wf(),
    {
        Date { day: day_number(self.utc + self.offset as i64) }
    }

    /// The same instant read in another zone.
    pub fn with_timezone(&self, zone: Zone) -> (r: Option<ZonedDateTime>)
        requires
            zone.wf(),
        ensures
            r == Self::try_at(zone, self.utc as int),
            r matches Some(z) ==> z.wf(),
    {
        Self::from_utc(zone, self.utc)
    }

    /// The instant `seconds` later, read in the same zone.
    pub fn checked_add(&self, seconds: i64) -> (r: Option<ZonedDateTime>)
        requires
            self.wf(),
        ensures
            r == Self::try_at(self.zone, self.utc + seconds),
            r matches Some(z) ==> z.wf(),
    {
        if seconds < -2 * TIME_LIMIT || seconds > 2 * TIME_LIMIT {
            return None;
        }
        Self::from_utc(self.zone, self.utc + seconds)
    }
}

} // verus!
