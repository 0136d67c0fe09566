//! The twelve Jie solar terms of a year as absolute instants.

use crate::astronomy::AstronomicalKernel;
use crate::calendar::{solar_date_check, validate_solar_date};
use crate::date::SolarDate;
use crate::error::LunarError;
use crate::julian_day::{jdn, jdn_of, year_in_domain};
use vstd::prelude::*;

verus! {

/// Seconds in a day.
pub const SECONDS_PER_DAY: i64 = 86_400;

/// First Gregorian year with solar-term lookups.
pub const MIN_YEAR: i32 = 1;
/// Last Gregorian year with solar-term lookups.
pub const MAX_YEAR: i32 = 9_999;

/// Index of the start of spring (LiChun) within a year's twelve ordered Jie.
pub const LI_CHUN: usize = 1;

/// The month-branch index each of the twelve Jie opens, in table order
/// (minor cold opens Chou, the start of spring opens Yin, ..., major snow
/// opens Zi).
pub open spec fn month_branch_of_jie(k: int) -> int {
    (k + 1) % 12
}

/// Second number of the moment `second_of_day` seconds after midnight of
/// `(year, month, day)`: the Julian Day of midnight, in seconds.
pub open spec fn instant(year: int, month: int, day: int, second_of_day: int) -> int {
    (jdn(year, month, day) * 86400 - 43200) + second_of_day
}

/// Whether `v` is the instant of a wall-clock time on a real day of solar
/// years `1..=9999`.
pub open spec fn valid_instant(v: int) -> bool {
    exists|y: int, m: int, d: int, s: int|
        1 <= y <= 9999 && crate::julian_day::calendar_date(y, m, d) && 0 <= s < 86400 && v == #[trigger] instant(
            y,
            m,
            d,
            s,
        )
}

/// The verdict on a year for solar-term lookups.
pub open spec fn solar_term_year_check(year: i32) -> Result<(), LunarError> {
    if MIN_YEAR <= year <= MAX_YEAR {
        Ok(())
    } else {
        Err(LunarError::SolarTermOutOfRange { year })
    }
}

/// Absolute instant, in seconds, of a wall-clock time on a calendar date:
/// Julian Day of the date's midnight times 86400, plus `second_of_day`.
pub fn day_instant(year: i32, month: u8, day: u8, second_of_day: i64) -> (r: i64)
    requires
        year_in_domain(year as int),
        1 <= month <= 12,
        1 <= day <= 31,
        i64::MIN <= instant(year as int, month as int, day as int, second_of_day as int) <= i64::MAX,
    ensures
        r == instant(year as int, month as int, day as int, second_of_day as int),
{
    let julian_day = jdn_of(year, month, day);
    proof {
        crate::julian_day::lemma_jdn_range(year as int, month as int, day as int);
    }
    (julian_day * SECONDS_PER_DAY - SECONDS_PER_DAY / 2) + second_of_day
}

/// The instants of the twelve Jie of `year`, in table order.
///
/// Each instant is that of a real day of solar years `1..=9999` at a valid
/// wall-clock time; which instant comes back rests on a floating-point
/// computation and is not stated.
///
/// # Errors
///
/// Returns [`LunarError::SolarTermOutOfRange`] when `year` is outside `1..=9999`.
pub fn jie_instants(year: i32) -> (r: Result<[i64; 12], LunarError>)
    ensures
        solar_term_year_check(year) matches Err(e) ==> r == Err::<[i64; 12], LunarError>(e),
        solar_term_year_check(year) is Ok ==> r is Ok,
        r matches Ok(a) ==> forall|i: int| 0 <= i < 12 ==> valid_instant(#[trigger] a[i] as int),
{
    if year < MIN_YEAR || year > MAX_YEAR {
        return Err(LunarError::SolarTermOutOfRange { year });
    }
    let mut out = [0i64; 12];
    let mut index: usize = 0;
    while index < 12
        invariant
            MIN_YEAR <= year <= MAX_YEAR,
            0 <= index <= 12,
            forall|i: int| 0 <= i < index ==> valid_instant(#[trigger] out@[i] as int),
        decreases 12 - index,
    {
        let term_index = (index as u8) * 2 + 1;
        let (y, m, d, hour, minute, second) = AstronomicalKernel::solar_term_moment_of(year, term_index);
        proof {
            crate::julian_day::lemma_jdn_range(y as int, m as int, d as int);
        }
        let value = day_instant(y, m, d, hour as i64 * 3600 + minute as i64 * 60 + second as i64);
        proof {
            let sec: int = hour as int * 3600 + minute as int * 60 + second as int;
            assert(value as int == instant(y as int, m as int, d as int, sec));
            assert(valid_instant(value as int));
        }
        out[index] = value;
        index = index + 1;
    }
    Ok(out)
}

/// The `(month, day)` on which the start of spring (LiChun) falls in `year`:
/// a month `1..=12` and a day `1..=31`; which day rests on a floating-point
/// computation and is not stated.
///
/// # Errors
///
/// Returns [`LunarError::SolarTermOutOfRange`] when `year` is outside `1..=9999`.
pub fn li_chun_date(year: i32) -> (r: Result<(u8, u8), LunarError>)
    ensures
        solar_term_year_check(year) matches Err(e) ==> r == Err::<(u8, u8), LunarError>(e),
        solar_term_year_check(year) is Ok ==> (r matches Ok(md) && 1 <= md.0 <= 12 && 1 <= md.1 <= 31),
{
    if year < MIN_YEAR || year > MAX_YEAR {
        return Err(LunarError::SolarTermOutOfRange { year });
    }
    // Term index 3 is the start of spring (0 is the winter solstice before it).
    let (_y, m, d, _hour, _minute, _second) = AstronomicalKernel::solar_term_moment_of(year, 3);
    Ok((m, d))
}

/// Whether `date` falls on or after the calendar day `(li_chun_month,
/// li_chun_day)` of its year; the time of day is not considered.
pub open spec fn on_or_after_day(date: SolarDate, li_chun_month: int, li_chun_day: int) -> bool {
    !(date.month < li_chun_month || (date.month == li_chun_month && date.day < li_chun_day))
}

/// Whether `date` falls on or after the day `(li_chun_month, li_chun_day)`
/// of its year.
pub fn is_on_or_after_day(date: SolarDate, li_chun_month: u8, li_chun_day: u8) -> (r: bool)
    ensures
        r == on_or_after_day(date, li_chun_month as int, li_chun_day as int),
{
    !(date.month < li_chun_month || (date.month == li_chun_month && date.day < li_chun_day))
}

/// Whether `date` falls on or after the LiChun date of its own year: the
/// comparison with some LiChun day (month `1..=12`, day `1..=31`) that
/// [`li_chun_date`] gives for the year.
///
/// # Errors
///
/// Returns [`LunarError::InvalidSolarDate`] if `date` is not a real day, or
/// [`LunarError::SolarYearOutOfRange`] if its year is outside `1..=9999`.
pub fn is_on_or_after_li_chun(date: SolarDate) -> (r: Result<bool, LunarError>)
    ensures
        solar_date_check(date) matches Err(e) ==> r == Err::<bool, LunarError>(e),
        solar_date_check(date) is Ok ==> exists|m: u8, d: u8|
            1 <= m <= 12 && 1 <= d <= 31 && r == Ok::<bool, LunarError>(#[trigger] on_or_after_day(date, m as int, d as int)),
{
    validate_solar_date(date)?;
    let (month, day) = li_chun_date(date.year)?;
    let r = Ok(is_on_or_after_day(date, month, day));
    assert(r == Ok::<bool, LunarError>(on_or_after_day(date, month as int, day as int)));
    r
}

} // verus!
