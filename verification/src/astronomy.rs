//! Astronomical facts: leap months, new moons and solar terms.
//!
//! These come from the `tyme4rs` crate, whose new-moon and solar-term series
//! and calibration tables this library's calendar rules are built on. The
//! leap-month table is integer data, so its entries are named results. New
//! moons, winter solstices and solar-term moments are computed in floating point
//! (sines and cosines whose precision std leaves open), so nothing here
//! claims that two calls with the same arguments agree: the library states
//! what holds of every value they may return.

use vstd::prelude::*;

verus! {

/// The leap month number of a lunar year (`0` when the year has none).
pub uninterp spec fn leap_month_code(year: int) -> int;

/// The leap month number of a lunar year, `0` when it has none. (The
/// kernel's values lie in `0..=12`; others would be read as `0`.)
pub open spec fn leap_month_number(year: int) -> int {
    let code = leap_month_code(year);
    if 0 <= code <= 12 { code } else { 0 }
}

/// Whether `month_with_leap` names a month of lunar year `year`: a number in
/// `1..=12`, or the negated number of the year's leap month.
pub open spec fn names_lunar_month(year: int, month_with_leap: int) -> bool {
    &&& month_with_leap != 0
    &&& -12 <= month_with_leap <= 12
    &&& month_with_leap < 0 ==> -month_with_leap == leap_month_number(year)
}

/// The numerical kernel behind the calendar: new moons, month lengths, leap
/// months and solar-term instants.
pub struct AstronomicalKernel {}

impl AstronomicalKernel {
    /// Calls `tyme4rs::tyme::lunar::LunarYear::get_leap_month`. The contract
    /// claims the result is the named leap month of the year (an entry of an
    /// integer table) and, as the crate's source shows (a position in a
    /// table of twelve, or `11` for year `-1`), at most `12`. `from_year`
    /// panics outside `-1..=9999`.
    #[verifier::external_body]
    pub(crate) fn leap_month_of(year: i32) -> (r: u8)
        requires
            -1 <= year <= 9999,
        ensures
            r as int == leap_month_code(year as int),
            r <= 12,
            r as int == leap_month_number(year as int),
            year == -1 ==> r == 11,
    {
        tyme4rs::tyme::lunar::LunarYear::from_year(year as isize).get_leap_month() as u8
    }

    /// Calls `tyme4rs::tyme::solar::SolarTerm::from_index(year, 0)` and
    /// `get_cursory_julian_day`: the day (counted from J2000) of the winter
    /// solstice that opens the lunar reckoning of `year`. `calc_qi` returns a
    /// whole number of days, so the conversion to an integer is exact. The
    /// value comes from a floating-point series; nothing is claimed of it.
    #[verifier::external_body]
    pub(crate) fn winter_solstice_day_of(year: i32) -> (r: i64)
        requires
            -1 <= year <= 9999,
    {
        tyme4rs::tyme::solar::SolarTerm::from_index(year as isize, 0).get_cursory_julian_day() as i64
    }

    /// Calls `tyme4rs::tyme::util::ShouXingUtil::calc_shuo`: the day
    /// (counted from J2000) of the new moon that the series places around
    /// `day`. `calc_shuo` returns a whole number of days and does not panic
    /// for any finite argument. The value comes from a floating-point
    /// series; nothing is claimed of it.
    #[verifier::external_body]
    pub(crate) fn new_moon_near(day: i128) -> (r: i64) {
        tyme4rs::tyme::util::ShouXingUtil::calc_shuo(day as _) as i64
    }

    /// Calls `tyme4rs::tyme::solar::SolarTerm::from_index`, `get_julian_day`
    /// and `JulianDay::get_solar_time`. The moment is computed in floating
    /// point, so which moment comes back is not claimed. The contract claims
    /// only what holds of every value: `SolarTime::from_ymd_hms` returns
    /// validated values (it panics otherwise), so the result is a real day of
    /// solar years `1..=9999` with a valid wall-clock time. That the moment
    /// falls in `year`, and that the moments of a year increase, is not
    /// stated. Only the odd-numbered terms (the twelve Jie) of years
    /// `1..=9999` are admitted.
    #[verifier::external_body]
    pub(crate) fn solar_term_moment_of(year: i32, index: u8) -> (r: (i32, u8, u8, u8, u8, u8))
        requires
            1 <= year <= 9999,
            index < 24,
            index % 2 == 1,
        ensures
            1 <= r.0 <= 9999,
            crate::julian_day::calendar_date(r.0 as int, r.1 as int, r.2 as int),
            r.3 < 24,
            r.4 < 60,
            r.5 < 60,
    {
        let time = tyme4rs::tyme::solar::SolarTerm::from_index(year as isize, index as isize)
            .get_julian_day()
            .get_solar_time();
        (
            time.get_year() as i32,
            time.get_month() as u8,
            time.get_day() as u8,
            time.get_hour() as u8,
            time.get_minute() as u8,
            time.get_second() as u8,
        )
    }
}

} // verus!
