//! Day numbering with the Julian/Gregorian reform of 1582: dates before
//! 1582-10-15 follow the Julian calendar, later dates the Gregorian one, and
//! the ten days 1582-10-05..=1582-10-14 do not exist.
//!
//! A day is numbered by its Julian Day Number at noon (`jdn`), the integer
//! that the astronomical Julian Day takes at 12:00 of that date.

use vstd::prelude::*;

verus! {

/// Smallest year handled by the day-number conversions.
pub const JDN_YEAR_MIN: i32 = -4700;
/// Largest year handled by the day-number conversions.
pub const JDN_YEAR_MAX: i32 = 1_000_000;

/// Whether the calendar date lies on or after 1582-10-15, where the
/// Gregorian rule takes over.
pub open spec fn on_or_after_reform(y: int, m: int, d: int) -> bool {
    y * 372 + m * 31 + d >= 588829
}

/// Whether `y` is a leap year: the Julian rule up to 1582, the Gregorian rule
/// after it.
pub open spec fn leap_year(y: int) -> bool {
    if y > 1582 {
        y % 4 == 0 && (y % 100 != 0 || y % 400 == 0)
    } else {
        y % 4 == 0
    }
}

/// Number of days in month `m` of year `y` (the reform month October 1582 is
/// counted with its nominal 31 days; its gap is excluded separately).
pub open spec fn month_days(y: int, m: int) -> int {
    if m == 1 || m == 3 || m == 5 || m == 7 || m == 8 || m == 10 || m == 12 {
        31
    } else if m == 4 || m == 6 || m == 9 || m == 11 {
        30
    } else if m == 2 {
        if leap_year(y) { 29 } else { 28 }
    } else {
        0
    }
}

/// Whether the day falls in the reform gap 1582-10-05..=1582-10-14.
pub open spec fn in_reform_gap(y: int, m: int, d: int) -> bool {
    y == 1582 && m == 10 && 5 <= d <= 14
}

/// Whether `(y, m, d)` names a real day of the calendar, whatever the year.
pub open spec fn calendar_date(y: int, m: int, d: int) -> bool {
    &&& 1 <= m <= 12
    &&& 1 <= d <= month_days(y, m)
    &&& !in_reform_gap(y, m, d)
}

/// Number of days that month `m` of year `y` really has (21 for the reform
/// month October 1582).
pub open spec fn month_length(y: int, m: int) -> int {
    if y == 1582 && m == 10 { 21 } else { month_days(y, m) }
}

/// Julian Day Number at noon of the date `(y, m, d)`.
pub open spec fn jdn(y: int, m: int, d: int) -> int {
    let yy = if m <= 2 { y - 1 } else { y };
    let mm = if m <= 2 { m + 12 } else { m };
    let a = yy / 100;
    let n = if on_or_after_reform(y, m, d) { 2 - a + a / 4 } else { 0 };
    (1461 * (yy + 4716)) / 4 + (153 * (mm + 1)) / 5 + d + n - 1524
}

/// Whether the year is inside the range the day-number conversions handle.
pub open spec fn year_in_domain(y: int) -> bool {
    JDN_YEAR_MIN <= y <= JDN_YEAR_MAX
}

/// Position of day `d` inside its month, counting the reform gap as absent.
pub open spec fn day_position(y: int, m: int, d: int) -> int {
    if y == 1582 && m == 10 && d >= 15 { d - 11 } else { d - 1 }
}

proof fn lemma_reform_flag(y: int, m: int, d: int)
    requires
        1 <= m <= 12,
        1 <= d <= 31,
    ensures
        y > 1582 ==> on_or_after_reform(y, m, d),
        y < 1582 ==> !on_or_after_reform(y, m, d),
        y == 1582 ==> (on_or_after_reform(y, m, d) <==> (m > 10 || (m == 10 && d >= 15))),
{
}

/// Inside one month, consecutive days have consecutive day numbers, the
/// reform gap excepted.
pub proof fn lemma_jdn_in_month(y: int, m: int, d: int)
    requires
        calendar_date(y, m, d),
        year_in_domain(y),
    ensures
        jdn(y, m, d) == jdn(y, m, 1) + day_position(y, m, d),
{
    lemma_reform_flag(y, m, d);
    lemma_reform_flag(y, m, 1);
}

proof fn lemma_quarter_step(k: int)
    requires
        k >= 0,
    ensures
        (1461 * (k + 1)) / 4 - (1461 * k) / 4 == 365 + (if (k + 1) % 4 == 0 { 1int } else { 0 }),
{
    assert((1461 * k) / 4 == 365 * k + k / 4);
    assert((1461 * (k + 1)) / 4 == 365 * (k + 1) + (k + 1) / 4);
}

proof fn lemma_century_step(y: int)
    requires
        y > 1582,
    ensures
        ({
            let a = y / 100;
            let b = (y - 1) / 100;
            (2 - a + a / 4) - (2 - b + b / 4) == (if y % 100 == 0 && y % 400 != 0 { -1int } else { 0 })
        }),
{
    let a = y / 100;
    let b = (y - 1) / 100;
    if y % 100 == 0 {
        assert(a == b + 1);
        assert(y % 400 == 0 <==> a % 4 == 0);
    } else {
        assert(a == b);
    }
}

/// Consecutive months start `month_length` days apart.
pub proof fn lemma_jdn_month_step(y: int, m: int)
    requires
        1 <= m <= 11,
        year_in_domain(y),
    ensures
        jdn(y, m + 1, 1) == jdn(y, m, 1) + month_length(y, m),
{
    lemma_reform_flag(y, m, 1);
    lemma_reform_flag(y, m + 1, 1);
    if m == 2 {
        lemma_quarter_step(y - 1 + 4716);
        assert((y + 4716) % 4 == y % 4);
        if y > 1582 {
            lemma_century_step(y);
        }
    }
}

/// The first day of a year follows 31 days after December 1 of the year before.
pub proof fn lemma_jdn_year_step(y: int)
    requires
        year_in_domain(y),
    ensures
        jdn(y + 1, 1, 1) == jdn(y, 12, 1) + 31,
{
    lemma_reform_flag(y, 12, 1);
    lemma_reform_flag(y + 1, 1, 1);
}


/// Month starts increase through the year: month `m1` ends no later than
/// month `m2` begins.
pub proof fn lemma_month_starts_ordered(y: int, m1: int, m2: int)
    requires
        1 <= m1 < m2 <= 12,
        year_in_domain(y),
    ensures
        jdn(y, m1, 1) + month_length(y, m1) <= jdn(y, m2, 1),
    decreases m2 - m1,
{
    lemma_jdn_month_step(y, m2 - 1);
    if m1 < m2 - 1 {
        lemma_month_starts_ordered(y, m1, m2 - 1);
        assert(month_length(y, m2 - 1) >= 21);
    }
}

/// Every month of a year ends no later than the next year begins.
pub proof fn lemma_month_before_next_year(y: int, m: int)
    requires
        1 <= m <= 12,
        year_in_domain(y),
    ensures
        jdn(y, m, 1) + month_length(y, m) <= jdn(y + 1, 1, 1),
{
    lemma_jdn_year_step(y);
    if m < 12 {
        lemma_month_starts_ordered(y, m, 12);
    }
}

/// Days of year `y` before the first of month `m`.
pub open spec fn days_before_month(y: int, m: int) -> int
    decreases m,
{
    if m <= 1 {
        0
    } else {
        days_before_month(y, m - 1) + month_length(y, m - 1)
    }
}

/// The first of month `m` falls as many days after the first of January as
/// the earlier months of the year have.
pub proof fn lemma_month_start(y: int, m: int)
    requires
        1 <= m <= 12,
        year_in_domain(y),
    ensures
        jdn(y, m, 1) == jdn(y, 1, 1) + days_before_month(y, m),
    decreases m,
{
    if m > 1 {
        lemma_month_start(y, m - 1);
        lemma_jdn_month_step(y, m - 1);
    }
}

/// A year has at least 355 days (the reform year 1582 has exactly that).
pub proof fn lemma_year_length(y: int)
    requires
        year_in_domain(y),
    ensures
        jdn(y, 1, 1) + 355 <= jdn(y + 1, 1, 1),
{
    lemma_month_start(y, 12);
    lemma_jdn_year_step(y);
    assert(days_before_month(y, 12) >= 324) by {
        reveal_with_fuel(days_before_month, 12);
    }
}

/// Later years start later.
pub proof fn lemma_year_starts_ordered(y1: int, y2: int)
    requires
        y1 < y2,
        year_in_domain(y1),
        year_in_domain(y2),
    ensures
        jdn(y1 + 1, 1, 1) <= jdn(y2, 1, 1),
    decreases y2 - y1,
{
    if y1 + 1 < y2 {
        lemma_year_starts_ordered(y1 + 1, y2);
        lemma_year_length(y1 + 1);
    }
}

/// A real day lies inside its month and inside its year.
pub proof fn lemma_date_bounds(y: int, m: int, d: int)
    requires
        calendar_date(y, m, d),
        year_in_domain(y),
    ensures
        jdn(y, m, 1) <= jdn(y, m, d) < jdn(y, m, 1) + month_length(y, m),
        jdn(y, 1, 1) <= jdn(y, m, d) < jdn(y + 1, 1, 1),
{
    lemma_jdn_in_month(y, m, d);
    lemma_month_before_next_year(y, m);
    if m > 1 {
        lemma_month_starts_ordered(y, 1, m);
    }
}

/// Two real days with the same day number are the same day.
pub proof fn lemma_jdn_injective(y1: int, m1: int, d1: int, y2: int, m2: int, d2: int)
    requires
        calendar_date(y1, m1, d1),
        calendar_date(y2, m2, d2),
        year_in_domain(y1),
        year_in_domain(y2),
        jdn(y1, m1, d1) == jdn(y2, m2, d2),
    ensures
        y1 == y2,
        m1 == m2,
        d1 == d2,
{
    lemma_date_bounds(y1, m1, d1);
    lemma_date_bounds(y2, m2, d2);
    if y1 < y2 {
        lemma_year_starts_ordered(y1, y2);
    } else if y2 < y1 {
        lemma_year_starts_ordered(y2, y1);
    }
    assert(y1 == y2);
    if m1 < m2 {
        lemma_month_starts_ordered(y1, m1, m2);
    } else if m2 < m1 {
        lemma_month_starts_ordered(y1, m2, m1);
    }
    assert(m1 == m2);
    lemma_jdn_in_month(y1, m1, d1);
    lemma_jdn_in_month(y2, m2, d2);
}


/// Whether the day number belongs to a year the conversions handle.
pub open spec fn jdn_in_domain(n: int) -> bool {
    jdn(JDN_YEAR_MIN as int, 1, 1) <= n < jdn(JDN_YEAR_MAX as int, 1, 1)
}

/// Day numbers of the handled years stay within a generous window.
pub proof fn lemma_jdn_range(y: int, m: int, d: int)
    requires
        year_in_domain(y),
        1 <= m <= 12,
        1 <= d <= 31,
    ensures
        0 <= jdn(y, m, d) <= 400_000_000,
{
}

/// The year holding day number `n`, searching from year `y` on.
proof fn lemma_year_of_day(n: int, y: int) -> (r: int)
    requires
        year_in_domain(y),
        jdn(y, 1, 1) <= n,
        jdn_in_domain(n),
    ensures
        year_in_domain(r),
        r < JDN_YEAR_MAX,
        jdn(r, 1, 1) <= n < jdn(r + 1, 1, 1),
    decreases JDN_YEAR_MAX - y,
{
    if y == JDN_YEAR_MAX {
        assert(false);
        y
    } else if n < jdn(y + 1, 1, 1) {
        y
    } else {
        lemma_year_of_day(n, y + 1)
    }
}

/// The month of year `y` holding day number `n`, searching from month `m` down.
proof fn lemma_month_of_day(n: int, y: int, m: int) -> (r: int)
    requires
        year_in_domain(y),
        1 <= m <= 12,
        jdn(y, 1, 1) <= n,
        n < jdn(y, m, 1) + month_length(y, m),
    ensures
        1 <= r <= m,
        jdn(y, r, 1) <= n < jdn(y, r, 1) + month_length(y, r),
    decreases m,
{
    if jdn(y, m, 1) <= n {
        m
    } else {
        if m == 1 {
            assert(false);
        }
        lemma_jdn_month_step(y, m - 1);
        lemma_month_of_day(n, y, m - 1)
    }
}

/// Every handled day number is the day number of some real day.
pub proof fn lemma_day_number_has_date(n: int)
    requires
        jdn_in_domain(n),
    ensures
        exists|y: int, m: int, d: int| calendar_date(y, m, d) && year_in_domain(y) && jdn(y, m, d) == n,
{
    let y = lemma_year_of_day(n, JDN_YEAR_MIN as int);
    lemma_month_before_next_year(y, 12);
    let m = lemma_month_of_day(n, y, 12);
    let offset = n - jdn(y, m, 1);
    let d = if y == 1582 && m == 10 && offset >= 4 { offset + 11 } else { offset + 1 };
    lemma_jdn_in_month(y, m, d);
    assert(calendar_date(y, m, d) && year_in_domain(y) && jdn(y, m, d) == n);
}

/// Computes the Julian Day Number at noon of `(year, month, day)`.
pub fn jdn_of(year: i32, month: u8, day: u8) -> (r: i64)
    requires
        year_in_domain(year as int),
        1 <= month <= 12,
        1 <= day <= 31,
    ensures
        r == jdn(year as int, month as int, day as int),
{
    let yy: i64 = if month <= 2 { year as i64 - 1 } else { year as i64 };
    let mm: i64 = if month <= 2 { month as i64 + 12 } else { month as i64 };
    let reform: bool = (year as i64) * 372 + (month as i64) * 31 + (day as i64) >= 588829;
    let correction: i64 = if reform {
        assert(yy > 0);
        let a: i64 = ((yy as u64) / 100) as i64;
        2 - a + ((a as u64) / 4) as i64
    } else {
        0
    };
    let years_part: i64 = ((1461 * ((yy + 4716) as u64)) / 4) as i64;
    let months_part: i64 = ((153 * ((mm + 1) as u64)) / 5) as i64;
    years_part + months_part + day as i64 + correction - 1524
}

/// The calendar date whose day number is `n`.
pub fn date_of_jdn(n: i64) -> (r: (i32, u8, u8))
    requires
        jdn_in_domain(n as int),
    ensures
        calendar_date(r.0 as int, r.1 as int, r.2 as int),
        year_in_domain(r.0 as int),
        jdn(r.0 as int, r.1 as int, r.2 as int) == n,
{
    let lowest: i64 = jdn_of(JDN_YEAR_MIN, 1, 1);
    let highest: i64 = jdn_of(JDN_YEAR_MAX, 1, 1);
    // Julian-calendar estimate of the year, refined below.
    let estimate: i64 = ((4 * ((n - lowest) as u64)) / 1461) as i64 + JDN_YEAR_MIN as i64;
    let mut y: i32 = if estimate >= JDN_YEAR_MAX as i64 { JDN_YEAR_MAX - 1 } else { estimate as i32 };
    while jdn_of(y + 1, 1, 1) <= n
        invariant
            JDN_YEAR_MIN <= y < JDN_YEAR_MAX,
            jdn_in_domain(n as int),
            highest == jdn(JDN_YEAR_MAX as int, 1, 1),
        decreases JDN_YEAR_MAX - y,
    {
        y = y + 1;
    }
    assert(jdn((y + 1) as int, 1, 1) > n);
    while jdn_of(y, 1, 1) > n
        invariant
            JDN_YEAR_MIN <= y < JDN_YEAR_MAX,
            jdn_in_domain(n as int),
            jdn((y + 1) as int, 1, 1) > n,
        decreases y - JDN_YEAR_MIN,
    {
        if y == JDN_YEAR_MIN {
            assert(false);
        }
        y = y - 1;
    }
    let mut m: u8 = 12;
    proof {
        lemma_month_before_next_year(y as int, 12);
    }
    while jdn_of(y, m, 1) > n
        invariant
            1 <= m <= 12,
            year_in_domain(y as int),
            jdn(y as int, 1, 1) <= n,
            jdn(y as int, m as int, 1) + month_length(y as int, m as int) > n,
        decreases m,
    {
        if m == 1 {
            assert(false);
        }
        proof {
            lemma_jdn_month_step(y as int, m as int - 1);
        }
        m = m - 1;
    }
    let offset: i64 = n - jdn_of(y, m, 1);
    let d: u8 = if y == 1582 && m == 10 && offset >= 4 { (offset + 11) as u8 } else { (offset + 1) as u8 };
    proof {
        lemma_jdn_in_month(y as int, m as int, d as int);
    }
    (y, m, d)
}

} // verus!
