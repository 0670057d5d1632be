//! Dates of the proleptic Gregorian calendar, held as year, month and day,
//! with day-by-day stepping and the weekday of a date.
use vstd::arithmetic::div_mod::lemma_mod_multiples_vanish;
use vstd::prelude::*;

verus! {

/// A calendar date: `month` runs from 1 to 12 and `day` from 1 to the
/// length of that month (see `is_valid`).
#[derive(Clone, Copy, Debug, PartialEq, Eq, Structural)]
pub struct CalendarDate {
    pub year: i32,
    pub month: u32,
    pub day: u32,
}

pub open spec fn is_leap_year(y: int) -> bool {
    (y % 4 == 0 && y % 100 != 0) || y % 400 == 0
}

pub open spec fn month_length(y: int, m: int) -> int {
    if m == 2 {
        if is_leap_year(y) {
            29
        } else {
            28
        }
    } else if m == 4 || m == 6 || m == 9 || m == 11 {
        30
    } else {
        31
    }
}

/// Number of days in the months of year `y` that come before month `m`.
pub open spec fn days_before_month(y: int, m: int) -> int {
    let base: int = if m == 1 {
        0
    } else if m == 2 {
        31
    } else if m == 3 {
        59
    } else if m == 4 {
        90
    } else if m == 5 {
        120
    } else if m == 6 {
        151
    } else if m == 7 {
        181
    } else if m == 8 {
        212
    } else if m == 9 {
        243
    } else if m == 10 {
        273
    } else if m == 11 {
        304
    } else {
        334
    };
    if m > 2 && is_leap_year(y) {
        base + 1
    } else {
        base
    }
}

/// Day count from 1 January of year 1, which is day 1 (a Monday).
pub open spec fn day_number(d: CalendarDate) -> int {
    let p = d.year - 1;
    365 * p + p / 4 - p / 100 + p / 400 + days_before_month(d.year as int, d.month as int)
        + d.day
}

/// The day of the week: 0 is Sunday, 1 is Monday, ..., 6 is Saturday.
pub open spec fn weekday(d: CalendarDate) -> int {
    day_number(d) % 7
}

/// Chronological order of two dates.
pub open spec fn date_le(a: CalendarDate, b: CalendarDate) -> bool {
    a.year < b.year || (a.year == b.year && (a.month < b.month || (a.month == b.month && a.day
        <= b.day)))
}

/// The date after `d`.
pub open spec fn next_day(d: CalendarDate) -> CalendarDate {
    if (d.day as int) < month_length(d.year as int, d.month as int) {
        CalendarDate { day: (d.day + 1) as u32, ..d }
    } else if d.month < 12 {
        CalendarDate { year: d.year, month: (d.month + 1) as u32, day: 1 }
    } else {
        CalendarDate { year: (d.year + 1) as i32, month: 1, day: 1 }
    }
}

/// The date before `d`.
pub open spec fn prev_day(d: CalendarDate) -> CalendarDate {
    if d.day > 1 {
        CalendarDate { day: (d.day - 1) as u32, ..d }
    } else if d.month > 1 {
        CalendarDate {
            year: d.year,
            month: (d.month - 1) as u32,
            day: month_length(d.year as int, d.month - 1) as u32,
        }
    } else {
        CalendarDate { year: (d.year - 1) as i32, month: 12, day: 31 }
    }
}

/// The date `k` days after `d`.
pub open spec fn add_days(d: CalendarDate, k: nat) -> CalendarDate
    decreases k,
{
    if k == 0 {
        d
    } else {
        add_days(next_day(d), (k - 1) as nat)
    }
}

/// The date `k` days before `d`.
pub open spec fn sub_days(d: CalendarDate, k: nat) -> CalendarDate
    decreases k,
{
    if k == 0 {
        d
    } else {
        sub_days(prev_day(d), (k - 1) as nat)
    }
}

/// The first Sunday on or after `d`.
pub open spec fn sunday_on_or_after(d: CalendarDate) -> CalendarDate {
    add_days(d, ((7 - weekday(d)) % 7) as nat)
}

/// The last Sunday on or before `d`.
pub open spec fn sunday_on_or_before(d: CalendarDate) -> CalendarDate {
    sub_days(d, weekday(d) as nat)
}

impl CalendarDate {
    pub open spec fn is_valid(self) -> bool {
        1 <= self.month <= 12 && 1 <= self.day <= month_length(self.year as int, self.month as int)
    }

    /// The date with the given parts, or `None` where they name no date.
    pub fn new(year: i32, month: u32, day: u32) -> (r: Option<CalendarDate>)
        ensures
            r is Some <==> (CalendarDate { year, month, day }).is_valid(),
            r is Some ==> r->Some_0 == (CalendarDate { year, month, day }),
    {
        if 1 <= month && month <= 12 && 1 <= day && day <= days_in_month(year, month) {
            Some(CalendarDate { year, month, day })
        } else {
            None
        }
    }
}

pub fn leap_year(y: i32) -> (r: bool)
    ensures
        r == is_leap_year(y as int),
{
    // Shifted by a multiple of 400 to a non-negative value, the year keeps
    // its remainders modulo 4, 100 and 400.
    let a: u64 = (y as i64 + 4_000_000_000i64) as u64;
    let r4 = a % 4;
    let r100 = a % 100;
    let r400 = a % 400;
    proof {
        let yi = y as int;
        assert(a as int == 4 * 1_000_000_000 + yi);
        assert(a as int == 100 * 40_000_000 + yi);
        assert(a as int == 400 * 10_000_000 + yi);
        lemma_mod_multiples_vanish(1_000_000_000, yi, 4);
        lemma_mod_multiples_vanish(40_000_000, yi, 100);
        lemma_mod_multiples_vanish(10_000_000, yi, 400);
    }
    (r4 == 0 && r100 != 0) || r400 == 0
}

pub fn days_in_month(y: i32, m: u32) -> (r: u32)
    ensures
        r as int == month_length(y as int, m as int),
{
    if m == 2 {
        if leap_year(y) {
            29
        } else {
            28
        }
    } else if m == 4 || m == 6 || m == 9 || m == 11 {
        30
    } else {
        31
    }
}

/// The date after `d`.
pub fn following_day(d: CalendarDate) -> (r: CalendarDate)
    requires
        d.is_valid(),
        d.year < i32::MAX,
    ensures
        r == next_day(d),
        r.is_valid(),
{
    if d.day < days_in_month(d.year, d.month) {
        CalendarDate { day: d.day + 1, ..d }
    } else if d.month < 12 {
        CalendarDate { year: d.year, month: d.month + 1, day: 1 }
    } else {
        CalendarDate { year: d.year + 1, month: 1, day: 1 }
    }
}

/// The date before `d`.
pub fn preceding_day(d: CalendarDate) -> (r: CalendarDate)
    requires
        d.is_valid(),
        d.year > i32::MIN,
    ensures
        r == prev_day(d),
        r.is_valid(),
{
    if d.day > 1 {
        CalendarDate { day: d.day - 1, ..d }
    } else if d.month > 1 {
        CalendarDate { year: d.year, month: d.month - 1, day: days_in_month(d.year, d.month - 1) }
    } else {
        CalendarDate { year: d.year - 1, month: 12, day: 31 }
    }
}

/// The date `k` days after `d`, found by stepping one day at a time.
pub fn days_after(d: CalendarDate, k: u32) -> (r: CalendarDate)
    requires
        d.is_valid(),
        d.year + k < i32::MAX,
    ensures
        r == add_days(d, k as nat),
        r.is_valid(),
        d.year <= r.year <= d.year + k,
{
    let mut cur = d;
    let mut rem: u32 = k;
    while rem > 0
        invariant
            d.year + k < i32::MAX,
            cur.is_valid(),
            rem <= k,
            d.year <= cur.year <= d.year + (k - rem),
            add_days(cur, rem as nat) == add_days(d, k as nat),
        decreases rem,
    {
        cur = following_day(cur);
        rem = rem - 1;
    }
    cur
}

/// The date `k` days before `d`, found by stepping one day at a time.
pub fn days_before(d: CalendarDate, k: u32) -> (r: CalendarDate)
    requires
        d.is_valid(),
        d.year - k > i32::MIN,
    ensures
        r == sub_days(d, k as nat),
        r.is_valid(),
        d.year - k <= r.year <= d.year,
{
    let mut cur = d;
    let mut rem: u32 = k;
    while rem > 0
        invariant
            d.year - k > i32::MIN,
            cur.is_valid(),
            rem <= k,
            d.year - (k - rem) <= cur.year <= d.year,
            sub_days(cur, rem as nat) == sub_days(d, k as nat),
        decreases rem,
    {
        cur = preceding_day(cur);
        rem = rem - 1;
    }
    cur
}

/// The day of the week of `d`, with 0 for Sunday.
pub fn day_of_week(d: CalendarDate) -> (r: u32)
    requires
        d.is_valid(),
        d.year >= 1,
    ensures
        r as int == weekday(d),
        r < 7,
{
    let p: u64 = (d.year - 1) as u64;
    let leap_extra: u64 = if d.month > 2 && leap_year(d.year) { 1 } else { 0 };
    let before: u64 = match d.month {
        1 => 0,
        2 => 31,
        3 => 59,
        4 => 90,
        5 => 120,
        6 => 151,
        7 => 181,
        8 => 212,
        9 => 243,
        10 => 273,
        11 => 304,
        _ => 334,
    };
    assert(p / 100 <= p && p / 4 <= p && p / 400 <= p) by (nonlinear_arith)
        requires
            p >= 0,
    ;
    let n: u64 = 365 * p + p / 4 + p / 400 - p / 100 + before + leap_extra + d.day as u64;
    assert(n == day_number(d));
    (n % 7) as u32
}

/// The first Sunday on or after `d`.
pub fn next_sunday(d: CalendarDate) -> (r: CalendarDate)
    requires
        d.is_valid(),
        1 <= d.year < i32::MAX - 7,
    ensures
        r == sunday_on_or_after(d),
        r.is_valid(),
        d.year <= r.year <= d.year + 6,
{
    let w = day_of_week(d);
    days_after(d, (7 - w) % 7)
}

/// The last Sunday on or before `d`.
pub fn previous_sunday(d: CalendarDate) -> (r: CalendarDate)
    requires
        d.is_valid(),
        7 <= d.year,
    ensures
        r == sunday_on_or_before(d),
        r.is_valid(),
        d.year - 6 <= r.year <= d.year,
{
    let w = day_of_week(d);
    days_before(d, w)
}

/// Whether `a` falls on or before `b`.
pub fn on_or_before(a: CalendarDate, b: CalendarDate) -> (r: bool)
    ensures
        r == date_le(a, b),
{
    a.year < b.year || (a.year == b.year && (a.month < b.month || (a.month == b.month && a.day
        <= b.day)))
}

impl CalendarDate {
    /// Whether the month and day name a day of the year.
    pub fn check_valid(&self) -> (r: bool)
        ensures
            r == self.is_valid(),
    {
        1 <= self.month && self.month <= 12 && 1 <= self.day && self.day <= days_in_month(
            self.year,
            self.month,
        )
    }
}

/// A date falls before the next day of its year.
pub proof fn lemma_before_next_day(d: CalendarDate)
    requires
        d.is_valid(),
        d.year < i32::MAX,
        next_day(d).year == d.year,
    ensures
        date_le(d, next_day(d)),
{
    if (d.day as int) < month_length(d.year as int, d.month as int) {
        assert(next_day(d).day == d.day + 1 && next_day(d).month == d.month);
    } else if d.month < 12 {
        assert(next_day(d).month == d.month + 1);
    } else {
        assert(next_day(d).year == d.year + 1);
    }
}

} // verus!
