//! Lunar-month facts: leap months, month lengths and strict date validation.

use crate::astronomy::{leap_month_number, AstronomicalKernel};
use crate::date::LunarDate;
use crate::lunar_calendar::LunarMonth;
use crate::error::LunarError;
use crate::lunar_calendar::{lunar_year_check, lunar_year_supported, validate_lunar_year};
use vstd::prelude::*;

verus! {

/// The leap month of a lunar year as [`leap_month`] reports it.
pub open spec fn leap_month_result(year: i32) -> Result<Option<u8>, LunarError> {
    if !lunar_year_supported(year as int) {
        Err(LunarError::LunarYearOutOfRange { year })
    } else if leap_month_number(year as int) == 0 {
        Ok(None)
    } else {
        Ok(Some(leap_month_number(year as int) as u8))
    }
}

/// Returns the leap month number for a lunar year, if that year has one.
///
/// # Errors
///
/// Returns [`LunarError::LunarYearOutOfRange`] if `year` is outside `-1..=9999`.
pub fn leap_month(year: i32) -> (r: Result<Option<u8>, LunarError>)
    ensures
        r == leap_month_result(year),
        r matches Ok(Some(m)) ==> 1 <= m <= 12,
{
    validate_lunar_year(year)?;
    let code = AstronomicalKernel::leap_month_of(year);
    if code == 0 {
        Ok(None)
    } else {
        Ok(Some(code))
    }
}

/// Returns whether a lunar year has a leap month.
///
/// # Errors
///
/// Returns [`LunarError::LunarYearOutOfRange`] if `year` is outside `-1..=9999`.
pub fn has_leap_month(year: i32) -> (r: Result<bool, LunarError>)
    ensures
        leap_month_result(year) matches Err(e) ==> r == Err::<bool, LunarError>(e),
        leap_month_result(year) matches Ok(v) ==> r == Ok::<bool, LunarError>(v is Some),
{
    Ok(leap_month(year)?.is_some())
}


/// The signed month number of a month: negated for the leap instance.
pub open spec fn signed_month_number(month: u8, is_leap_month: bool) -> int {
    if is_leap_month { -(month as int) } else { month as int }
}

/// The verdict of [`lunar_month_days`] on a month before its length is
/// looked up: the month number, the year range and the leap instance.
pub open spec fn month_length_check(year: i32, month: u8, is_leap_month: bool) -> Result<(), LunarError> {
    if !(1 <= month <= 12) {
        Err(LunarError::InvalidLunarMonth { year, month, is_leap_month })
    } else if !lunar_year_supported(year as int) {
        Err(LunarError::LunarYearOutOfRange { year })
    } else if is_leap_month && month as int != leap_month_number(year as int) {
        Err(LunarError::InvalidLunarMonth { year, month, is_leap_month: true })
    } else {
        Ok(())
    }
}

/// Returns the number of days in a regular or leap lunar month.
///
/// The length comes from a floating-point new-moon computation, so only
/// which inputs succeed is stated, not the length itself.
///
/// # Errors
///
/// Returns [`LunarError::InvalidLunarMonth`] if the month is outside `1..=12`
/// or the requested leap month does not exist in that year. Returns
/// [`LunarError::LunarYearOutOfRange`] if `year` is outside `-1..=9999`.
pub fn lunar_month_days(year: i32, month: u8, is_leap_month: bool) -> (r: Result<u8, LunarError>)
    ensures
        month_length_check(year, month, is_leap_month) matches Err(e) ==> r == Err::<u8, LunarError>(e),
        month_length_check(year, month, is_leap_month) is Ok ==> r is Ok,
{
    if month < 1 || month > 12 {
        return Err(invalid_lunar_month_error(year, month, is_leap_month));
    }
    let month_with_leap: i8 = if is_leap_month { -(month as i8) } else { month as i8 };
    let lunar_month = LunarMonth::from_ym(year, month_with_leap)?;
    proof {
        lunar_month.lemma_wf();
    }
    lunar_month.day_count()
}

/// The verdict on a lunar date whose month has `days` days: a month or day
/// out of shape, a month that does not exist, or a day past the month's
/// end make the date invalid; an unsupported year is reported as such.
pub open spec fn lunar_date_verdict(date: LunarDate, days: int) -> Result<(), LunarError> {
    let invalid = LunarError::InvalidLunarDate {
        year: date.year,
        month: date.month,
        day: date.day,
        is_leap_month: date.is_leap_month,
    };
    if !(1 <= date.month <= 12) || date.day == 0 {
        Err(invalid)
    } else {
        match month_length_check(date.year, date.month, date.is_leap_month) {
            Err(LunarError::InvalidLunarMonth { .. }) => Err(invalid),
            Err(e) => Err(e),
            Ok(_) => if date.day > days { Err(invalid) } else { Ok(()) },
        }
    }
}

/// What [`validate_lunar_date`] may return for `date`: the verdict for some
/// length of its month.
pub open spec fn lunar_date_outcome(date: LunarDate, r: Result<(), LunarError>) -> bool {
    exists|days: u8| r == #[trigger] lunar_date_verdict(date, days as int)
}

/// Validates that a lunar date exists exactly as supplied.
///
/// Unlike [`crate::normalize_lunar_date`], this function does not clear a fake
/// leap-month flag before validation.
///
/// # Errors
///
/// Returns [`LunarError::InvalidLunarDate`] if the month/day shape is invalid,
/// the day exceeds the actual month length, or the leap-month flag does not
/// match the year's leap month. Returns [`LunarError::LunarYearOutOfRange`]
/// when the lunar year is outside `-1..=9999`.
pub fn validate_lunar_date(date: LunarDate) -> (r: Result<(), LunarError>)
    ensures
        lunar_date_outcome(date, r),
{
    if date.month < 1 || date.month > 12 || date.day == 0 {
        let r = Err(invalid_lunar_date(date));
        assert(r == lunar_date_verdict(date, 0u8 as int));
        return r;
    }
    let days = match lunar_month_days(date.year, date.month, date.is_leap_month) {
        Ok(days) => days,
        Err(LunarError::InvalidLunarMonth { year, month, is_leap_month }) => {
            let r = Err(invalid_lunar_date(date));
            assert(r == lunar_date_verdict(date, 0u8 as int));
            return r;
        },
        Err(other) => {
            let r = Err(other);
            assert(r == lunar_date_verdict(date, 0u8 as int));
            return r;
        },
    };
    let r = check_day_in_month(date, days);
    assert(r == lunar_date_verdict(date, days as int));
    r
}

/// Checks the day of a lunar date against its month's length `days`.
pub fn check_day_in_month(date: LunarDate, days: u8) -> (r: Result<(), LunarError>)
    ensures
        r == (if date.day > days {
            Err(LunarError::InvalidLunarDate {
                year: date.year,
                month: date.month,
                day: date.day,
                is_leap_month: date.is_leap_month,
            })
        } else {
            Ok(())
        }),
{
    if date.day > days {
        return Err(invalid_lunar_date(date));
    }
    Ok(())
}

fn invalid_lunar_month_error(year: i32, month: u8, is_leap_month: bool) -> (r: LunarError)
    ensures
        r == (LunarError::InvalidLunarMonth { year, month, is_leap_month }),
{
    LunarError::InvalidLunarMonth { year, month, is_leap_month }
}

fn invalid_lunar_date(date: LunarDate) -> (r: LunarError)
    ensures
        r == (LunarError::InvalidLunarDate {
            year: date.year,
            month: date.month,
            day: date.day,
            is_leap_month: date.is_leap_month,
        }),
{
    LunarError::InvalidLunarDate {
        year: date.year,
        month: date.month,
        day: date.day,
        is_leap_month: date.is_leap_month,
    }
}

/// A lunar date is accepted exactly when its month exists and its day lies
/// in `1..=days`, for the length `days` looked up for that month.
pub proof fn lemma_validation_accepts_exactly(date: LunarDate, days: int)
    ensures
        lunar_date_verdict(date, days) is Ok <==> (month_length_check(date.year, date.month, date.is_leap_month)
            is Ok && 1 <= date.day <= days),
{
}

} // verus!
