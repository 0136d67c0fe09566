//! The exact date and time of the start of spring (LiChun).

use crate::astronomy::AstronomicalKernel;
use crate::date::SolarDate;
use crate::error::LunarError;
use crate::solar_terms::{MAX_YEAR, MIN_YEAR};
use vstd::prelude::*;

verus! {

/// The exact date and wall-clock time at which a solar term occurs, in local
/// solar time (no time-zone correction).
#[derive(Clone, Copy, Debug, PartialEq, Eq, PartialOrd, Ord, Hash, Structural)]
pub struct SolarTermDateTime {
    /// Gregorian date on which the solar term falls.
    pub date: SolarDate,
    /// Hour of the solar term (0–23).
    pub hour: u8,
    /// Minute of the solar term (0–59).
    pub minute: u8,
    /// Second of the solar term (0–59).
    pub second: u8,
}

/// Returns the exact datetime of the start of spring (LiChun) for `year`.
///
/// The supported range is `1..=9999`. This primitive gives second-level
/// precision; the four-pillar year boundary stays at date granularity. The
/// moment rests on a floating-point computation: the result is a real date of
/// solar years `1..=9999` with a valid time, and which moment it is, or that
/// it falls in `year`, is not stated.
///
/// # Errors
///
/// Returns [`LunarError::SolarYearOutOfRange`] when `year` is outside
/// `1..=9999`.
pub fn li_chun_datetime(year: i32) -> (r: Result<SolarTermDateTime, LunarError>)
    ensures
        !(MIN_YEAR <= year <= MAX_YEAR) ==> r == Err::<SolarTermDateTime, LunarError>(
            LunarError::SolarYearOutOfRange { year }),
        MIN_YEAR <= year <= MAX_YEAR ==> r is Ok,
        r matches Ok(t) ==> crate::calendar::valid_solar_date(t.date) && t.hour < 24 && t.minute < 60 && t.second < 60,
{
    if year < MIN_YEAR || year > MAX_YEAR {
        return Err(LunarError::SolarYearOutOfRange { year });
    }
    // Term index 3 is the start of spring (0 is the winter solstice before it).
    let (y, m, d, hour, minute, second) = AstronomicalKernel::solar_term_moment_of(year, 3);
    Ok(SolarTermDateTime { date: SolarDate { year: y, month: m, day: d }, hour, minute, second })
}

} // verus!
