//! Normalization of externally supplied lunar dates.

use crate::astronomy::leap_month_number;
use crate::date::LunarDate;
use crate::error::LunarError;
use crate::lunar_calendar::lunar_year_supported;
use crate::lunar_month::{leap_month, lunar_date_verdict, validate_lunar_date};
use vstd::prelude::*;

verus! {

/// The verdict on the basic shape of a lunar date: month `1..=12`, day `1..=30`.
pub open spec fn lunar_shape_check(date: LunarDate) -> Result<(), LunarError> {
    if 1 <= date.month <= 12 && 1 <= date.day <= 30 {
        Ok(())
    } else {
        Err(LunarError::InvalidLunarDate {
            year: date.year,
            month: date.month,
            day: date.day,
            is_leap_month: date.is_leap_month,
        })
    }
}

/// The date with a leap flag that names no leap month of its year cleared.
pub open spec fn with_real_leap_flag(date: LunarDate) -> LunarDate {
    if date.is_leap_month && date.month as int != leap_month_number(date.year as int) {
        LunarDate { is_leap_month: false, ..date }
    } else {
        date
    }
}

/// What [`normalize_lunar_date`] returns for `date` when its (normalized)
/// month has `days` days.
pub open spec fn normalize_result(date: LunarDate, days: int) -> Result<LunarDate, LunarError> {
    if lunar_shape_check(date) is Err {
        Err(lunar_shape_check(date)->Err_0)
    } else if date.is_leap_month && !lunar_year_supported(date.year as int) {
        Err(LunarError::LunarYearOutOfRange { year: date.year })
    } else if lunar_date_verdict(with_real_leap_flag(date), days) is Err {
        Err(lunar_date_verdict(with_real_leap_flag(date), days)->Err_0)
    } else {
        Ok(with_real_leap_flag(date))
    }
}

/// What [`normalize_lunar_date`] may return for `date`: its result for some
/// length of the normalized date's month.
pub open spec fn normalize_outcome(date: LunarDate, r: Result<LunarDate, LunarError>) -> bool {
    exists|days: u8| r == #[trigger] normalize_result(date, days as int)
}

/// Normalizes a lunar date and verifies that it actually exists.
///
/// If `is_leap_month` is set on a month that has no leap instance in that year,
/// the flag is cleared. The day is then checked against that month's length.
///
/// # Errors
///
/// Returns [`LunarError::InvalidLunarDate`] if the month/day are out of shape or
/// the day exceeds the month's length, or [`LunarError::LunarYearOutOfRange`] if
/// the year is outside the supported range.
pub fn normalize_lunar_date(date: LunarDate) -> (r: Result<LunarDate, LunarError>)
    ensures
        normalize_outcome(date, r),
{
    if let Err(e) = validate_lunar_basic_shape(date) {
        let r = Err(e);
        assert(r == normalize_result(date, 0u8 as int));
        return r;
    }
    let normalized = if date.is_leap_month {
        match leap_month(date.year) {
            Err(e) => {
                let r = Err(e);
                assert(r == normalize_result(date, 0u8 as int));
                return r;
            },
            Ok(leap) => if leap != Some(date.month) {
                LunarDate { is_leap_month: false, ..date }
            } else {
                date
            },
        }
    } else {
        date
    };
    assert(normalized == with_real_leap_flag(date));
    let v = validate_lunar_date(normalized);
    let ghost days = choose|days: u8| v == lunar_date_verdict(normalized, days as int);
    match v {
        Err(e) => {
            let r = Err(e);
            assert(r == normalize_result(date, days as int));
            r
        },
        Ok(()) => {
            let r = Ok(normalized);
            assert(r == normalize_result(date, days as int));
            r
        },
    }
}

/// Checks that month is `1..=12` and day is `1..=30`.
pub fn validate_lunar_basic_shape(date: LunarDate) -> (r: Result<(), LunarError>)
    ensures
        r == lunar_shape_check(date),
{
    if date.month < 1 || date.month > 12 || date.day < 1 || date.day > 30 {
        return Err(LunarError::InvalidLunarDate {
            year: date.year,
            month: date.month,
            day: date.day,
            is_leap_month: date.is_leap_month,
        });
    }
    Ok(())
}

/// Normalizing twice changes nothing more than normalizing once, for any
/// length of the month.
pub proof fn lemma_normalize_idempotent(date: LunarDate, days: int)
    requires
        normalize_result(date, days) is Ok,
    ensures
        normalize_result(normalize_result(date, days)->Ok_0, days) == normalize_result(date, days),
{
}

/// A leap flag on a month that has no leap instance is ignored: for the same
/// looked-up length, a date of the right shape normalizes as the regular
/// date of that month, and it succeeds exactly when the regular month exists
/// and the day lies in `1..=days`.
pub proof fn lemma_fake_leap_normalizes_as_regular(date: LunarDate, days: int)
    requires
        date.is_leap_month,
        date.month as int != leap_month_number(date.year as int),
        lunar_year_supported(date.year as int),
        lunar_shape_check(date) is Ok,
    ensures
        normalize_result(date, days) == normalize_result((LunarDate { is_leap_month: false, ..date }), days),
        normalize_result(date, days) is Ok <==> 1 <= date.day <= days,
        normalize_result(date, days) is Ok ==> normalize_result(date, days)->Ok_0 == (LunarDate {
            is_leap_month: false,
            ..date
        }),
{
    crate::lunar_month::lemma_validation_accepts_exactly(LunarDate { is_leap_month: false, ..date }, days);
}

} // verus!
