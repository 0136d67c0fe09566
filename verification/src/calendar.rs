//! Validation of solar dates and day counting between them.

use crate::date::SolarDate;
use crate::error::LunarError;
use crate::julian_day::{
    calendar_date, date_of_jdn, jdn, jdn_in_domain, jdn_of, lemma_jdn_injective, leap_year,
    month_days, year_in_domain,
};
use vstd::prelude::*;

verus! {

/// First solar year supported by the conversion APIs.
pub const MIN_SOLAR_YEAR: i32 = 1;
/// Last solar year supported by the conversion APIs.
pub const MAX_SOLAR_YEAR: i32 = 9_999;

/// Whether the solar year lies in the supported range `1..=9999`.
pub open spec fn solar_year_supported(year: int) -> bool {
    MIN_SOLAR_YEAR <= year <= MAX_SOLAR_YEAR
}

/// Whether `date` is a real day in a supported year.
pub open spec fn valid_solar_date(date: SolarDate) -> bool {
    solar_year_supported(date.year as int) && calendar_date(date.year as int, date.month as int, date.day as int)
}

/// The outcome of validating `date`: an out-of-range year is reported first,
/// then any other defect of the date.
pub open spec fn solar_date_check(date: SolarDate) -> Result<(), LunarError> {
    if !solar_year_supported(date.year as int) {
        Err(LunarError::SolarYearOutOfRange { year: date.year })
    } else if !calendar_date(date.year as int, date.month as int, date.day as int) {
        Err(LunarError::InvalidSolarDate { year: date.year, month: date.month, day: date.day })
    } else {
        Ok(())
    }
}

/// Day number at noon of a solar date.
pub open spec fn solar_jdn(date: SolarDate) -> int {
    jdn(date.year as int, date.month as int, date.day as int)
}

/// Checks that `date` is a real day in solar years `1..=9999`.
pub fn validate_solar_date(date: SolarDate) -> (r: Result<(), LunarError>)
    ensures
        r == solar_date_check(date),
        r is Ok <==> valid_solar_date(date),
{
    if date.year < MIN_SOLAR_YEAR || date.year > MAX_SOLAR_YEAR {
        return Err(LunarError::SolarYearOutOfRange { year: date.year });
    }
    if date.month < 1 || date.month > 12 {
        return Err(invalid_solar(date));
    }
    if date.year == 1582 && date.month == 10 && 5 <= date.day && date.day <= 14 {
        return Err(invalid_solar(date));
    }
    let max_day = days_in_month(date.year, date.month);
    if date.day < 1 || date.day > max_day {
        return Err(invalid_solar(date));
    }
    Ok(())
}

fn invalid_solar(date: SolarDate) -> (r: LunarError)
    ensures
        r == (LunarError::InvalidSolarDate { year: date.year, month: date.month, day: date.day }),
{
    LunarError::InvalidSolarDate { year: date.year, month: date.month, day: date.day }
}

/// Number of days in a month (`0` for a month outside `1..=12`).
pub fn days_in_month(year: i32, month: u8) -> (r: u8)
    ensures
        r == month_days(year as int, month as int),
{
    if month == 1 || month == 3 || month == 5 || month == 7 || month == 8 || month == 10 || month == 12 {
        31
    } else if month == 4 || month == 6 || month == 9 || month == 11 {
        30
    } else if month == 2 {
        if is_leap_year(year) { 29 } else { 28 }
    } else {
        0
    }
}

/// Whether `year` is a leap year: the Julian rule before the 1582 reform, the
/// Gregorian rule after it.
pub fn is_leap_year(year: i32) -> (r: bool)
    ensures
        r == leap_year(year as int),
{
    let y: i64 = year as i64 + 4_000_000_000;
    proof {
        vstd::arithmetic::div_mod::lemma_mod_multiples_vanish(10_000_000, year as int, 400);
        vstd::arithmetic::div_mod::lemma_mod_multiples_vanish(40_000_000, year as int, 100);
        vstd::arithmetic::div_mod::lemma_mod_multiples_vanish(1_000_000_000, year as int, 4);
    }
    let u: u64 = y as u64;
    if year <= 1582 {
        u % 4 == 0
    } else {
        u % 4 == 0 && (u % 100 != 0 || u % 400 == 0)
    }
}

/// Day number at noon of a valid solar date.
pub fn solar_day_number(date: SolarDate) -> (r: i64)
    requires
        valid_solar_date(date),
    ensures
        r == solar_jdn(date),
{
    jdn_of(date.year, date.month, date.day)
}

/// Number of days from `start` to `end` (negative when `end` comes first).
pub fn days_between(start: SolarDate, end: SolarDate) -> (r: Result<i32, LunarError>)
    ensures
        solar_date_check(start) matches Err(e) ==> r == Err::<i32, LunarError>(e),
        solar_date_check(start) is Ok ==> (solar_date_check(end) matches Err(e) ==> r == Err::<i32, LunarError>(e)),
        valid_solar_date(start) && valid_solar_date(end) ==> r == Ok::<i32, LunarError>((solar_jdn(end) - solar_jdn(start)) as i32),
        r is Ok ==> r->Ok_0 == solar_jdn(end) - solar_jdn(start),
{
    validate_solar_date(start)?;
    validate_solar_date(end)?;
    let start_days = solar_day_number(start);
    let end_days = solar_day_number(end);
    proof {
        lemma_solar_jdn_bounds(start);
        lemma_solar_jdn_bounds(end);
    }
    Ok((end_days - start_days) as i32)
}

/// Supported solar dates have day numbers inside a fixed window.
pub proof fn lemma_solar_jdn_bounds(date: SolarDate)
    requires
        valid_solar_date(date),
    ensures
        1721424 <= solar_jdn(date) <= 5373484,
{
    crate::julian_day::lemma_date_bounds(date.year as int, date.month as int, date.day as int);
    crate::julian_day::lemma_year_starts_ordered(1, date.year as int + 1);
    if date.year > 1 {
        crate::julian_day::lemma_year_starts_ordered(1, date.year as int);
    }
    if date.year < 9999 {
        crate::julian_day::lemma_year_starts_ordered(date.year as int, 9999);
    }
    crate::julian_day::lemma_year_starts_ordered(9999, 10000);
    assert(jdn(1, 1, 1) == 1721424);
    assert(jdn(10000, 1, 1) == 5373485);
}


/// The result of turning a day number into a date: the date itself when the
/// day number lies in the handled range (whatever its year), otherwise an
/// out-of-range error with the year saturated to the nearest `i32` bound.
pub open spec fn date_for_day_number(n: int, r: Result<SolarDate, LunarError>) -> bool {
    if jdn_in_domain(n) {
        r matches Ok(s) && calendar_date(s.year as int, s.month as int, s.day as int)
            && year_in_domain(s.year as int) && solar_jdn(s) == n
    } else if n < jdn(crate::julian_day::JDN_YEAR_MIN as int, 1, 1) {
        r == Err::<SolarDate, LunarError>(LunarError::SolarYearOutOfRange { year: i32::MIN })
    } else {
        r == Err::<SolarDate, LunarError>(LunarError::SolarYearOutOfRange { year: i32::MAX })
    }
}

/// The calendar date of day number `n`, or the out-of-range error that
/// [`to_solar_date`] reports for it.
pub open spec fn day_number_date(n: int) -> Result<SolarDate, LunarError> {
    if jdn_in_domain(n) {
        Ok(choose|s: SolarDate| calendar_date(s.year as int, s.month as int, s.day as int)
            && year_in_domain(s.year as int) && solar_jdn(s) == n)
    } else if n < jdn(crate::julian_day::JDN_YEAR_MIN as int, 1, 1) {
        Err(LunarError::SolarYearOutOfRange { year: i32::MIN })
    } else {
        Err(LunarError::SolarYearOutOfRange { year: i32::MAX })
    }
}

/// A handled day number has its date.
pub proof fn lemma_day_number_date_ok(n: int)
    requires
        jdn_in_domain(n),
    ensures
        day_number_date(n) matches Ok(s) && calendar_date(s.year as int, s.month as int, s.day as int)
            && year_in_domain(s.year as int) && solar_jdn(s) == n,
{
    crate::julian_day::lemma_day_number_has_date(n);
    let (y, m, d) = choose|y: int, m: int, d: int| calendar_date(y, m, d) && year_in_domain(y) && jdn(y, m, d) == n;
    let s = SolarDate { year: y as i32, month: m as u8, day: d as u8 };
    assert(calendar_date(s.year as int, s.month as int, s.day as int) && year_in_domain(s.year as int)
        && solar_jdn(s) == n);
}

/// The relation [`date_for_day_number`] pins down [`day_number_date`].
pub proof fn lemma_day_number_date(n: int, r: Result<SolarDate, LunarError>)
    requires
        date_for_day_number(n, r),
    ensures
        r == day_number_date(n),
{
    if jdn_in_domain(n) {
        let s = r->Ok_0;
        let c = choose|t: SolarDate| calendar_date(t.year as int, t.month as int, t.day as int)
            && year_in_domain(t.year as int) && solar_jdn(t) == n;
        assert(calendar_date(s.year as int, s.month as int, s.day as int) && year_in_domain(s.year as int)
            && solar_jdn(s) == n);
        lemma_jdn_injective(
            s.year as int,
            s.month as int,
            s.day as int,
            c.year as int,
            c.month as int,
            c.day as int,
        );
    }
}

/// Converts a day number (Julian Day at noon) to its calendar date.
pub fn to_solar_date(julian_day: i64) -> (r: Result<SolarDate, LunarError>)
    ensures
        date_for_day_number(julian_day as int, r),
        r == day_number_date(julian_day as int),
{
    let lowest = jdn_of(crate::julian_day::JDN_YEAR_MIN, 1, 1);
    let highest = jdn_of(crate::julian_day::JDN_YEAR_MAX, 1, 1);
    if julian_day < lowest {
        return Err(LunarError::SolarYearOutOfRange { year: i32::MIN });
    }
    if julian_day >= highest {
        return Err(LunarError::SolarYearOutOfRange { year: i32::MAX });
    }
    let (year, month, day) = date_of_jdn(julian_day);
    let r = Ok(SolarDate { year, month, day });
    proof {
        lemma_day_number_date(julian_day as int, r);
    }
    r
}

/// A valid solar date is recovered from its day number.
pub proof fn lemma_solar_date_round_trip(date: SolarDate, other: SolarDate)
    requires
        valid_solar_date(date),
        calendar_date(other.year as int, other.month as int, other.day as int),
        year_in_domain(other.year as int),
        solar_jdn(other) == solar_jdn(date),
    ensures
        other == date,
{
    lemma_jdn_injective(
        date.year as int,
        date.month as int,
        date.day as int,
        other.year as int,
        other.month as int,
        other.day as int,
    );
}

/// The handled day numbers end well before the `i64` limit.
pub proof fn lemma_domain_upper_bound()
    ensures
        jdn(crate::julian_day::JDN_YEAR_MAX as int, 1, 1) < 1_000_000_000,
{
}

/// Every valid solar date has a day number in the handled range.
pub proof fn lemma_valid_date_in_domain(date: SolarDate)
    requires
        valid_solar_date(date),
    ensures
        jdn_in_domain(solar_jdn(date)),
{
    lemma_solar_jdn_bounds(date);
    assert(jdn(crate::julian_day::JDN_YEAR_MIN as int, 1, 1) == 4383);
    crate::julian_day::lemma_year_starts_ordered(10000, crate::julian_day::JDN_YEAR_MAX as int);
    assert(jdn(10000, 1, 1) == 5373485);
}

} // verus!
