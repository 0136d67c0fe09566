//! Error types.

use crate::stem_branch::{EarthlyBranch, HeavenlyStem};
use vstd::prelude::*;

verus! {

/// Errors from date conversion and validation.
#[derive(Debug, Clone, PartialEq, Eq, Structural)]
#[non_exhaustive]
pub enum LunarError {
    /// The solar date is not a real calendar date.
    InvalidSolarDate { year: i32, month: u8, day: u8 },
    /// The lunar date does not exist in that lunar year.
    InvalidLunarDate { year: i32, month: u8, day: u8, is_leap_month: bool },
    /// The lunar month itself is invalid: the month number is outside `1..=12`,
    /// or a leap instance was requested for a month that has none that year.
    InvalidLunarMonth { year: i32, month: u8, is_leap_month: bool },
    /// The solar year falls outside the supported range (`1..=9999`).
    ///
    /// Also returned when a lunar-to-solar conversion produces a solar date
    /// outside that range.
    SolarYearOutOfRange { year: i32 },
    /// The lunar year falls outside the supported range (`-1..=9999`).
    LunarYearOutOfRange { year: i32 },
    /// The time is not a valid 24-hour wall-clock time.
    InvalidTime { hour: u8, minute: u8 },
    /// The time index is outside the valid `0..=12` range.
    InvalidTimeIndex { time_index: u8 },
    /// The Gregorian year is outside the range covered by solar-term lookups.
    SolarTermOutOfRange { year: i32 },
}

/// Errors from constructing a [`StemBranch`](crate::StemBranch).
#[derive(Debug, Clone, PartialEq, Eq, Structural)]
#[non_exhaustive]
pub enum StemBranchError {
    /// The stem and branch do not share a position in the sexagenary cycle
    /// (their indices have different parity).
    InvalidStemBranchPair { stem: HeavenlyStem, branch: EarthlyBranch },
}

} // verus!
