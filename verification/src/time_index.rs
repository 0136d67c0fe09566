//! The double-hour index of a wall-clock time.

use crate::error::LunarError;
use crate::stem_branch::EarthlyBranch;
use vstd::prelude::*;

verus! {

/// The double-hour index of hour `hour`: `0` for `00:xx` (early Zi), `12` for
/// `23:xx` (late Zi), and `(hour + 1) / 2` in between.
pub open spec fn double_hour(hour: int) -> int {
    if hour == 0 {
        0
    } else if hour == 23 {
        12
    } else {
        (hour + 1) / 2
    }
}

/// The verdict on a double-hour index: valid indices are `0..=12`.
pub open spec fn time_index_check(time_index: u8) -> Result<(), LunarError> {
    if time_index > 12 {
        Err(LunarError::InvalidTimeIndex { time_index })
    } else {
        Ok(())
    }
}

/// Returns the double-hour index for a wall-clock time.
///
/// Chinese timekeeping splits the day into twelve two-hour periods. The Zi
/// hour straddles midnight, so it is split: `23:00` returns `12` (late Zi)
/// while `00:00`–`00:59` returns `0` (early Zi). All other periods map to
/// `1..=11`.
///
/// # Errors
///
/// Returns [`LunarError::InvalidTime`] if `hour > 23` or `minute > 59`.
pub fn time_index(hour: u8, minute: u8) -> (r: Result<u8, LunarError>)
    ensures
        hour > 23 || minute > 59 ==> r == Err::<u8, LunarError>(LunarError::InvalidTime { hour, minute }),
        hour <= 23 && minute <= 59 ==> r == Ok::<u8, LunarError>(double_hour(hour as int) as u8),
{
    if hour > 23 || minute > 59 {
        return Err(LunarError::InvalidTime { hour, minute });
    }
    let index: u8 = if hour == 0 {
        0
    } else if hour <= 2 {
        1
    } else if hour <= 4 {
        2
    } else if hour <= 6 {
        3
    } else if hour <= 8 {
        4
    } else if hour <= 10 {
        5
    } else if hour <= 12 {
        6
    } else if hour <= 14 {
        7
    } else if hour <= 16 {
        8
    } else if hour <= 18 {
        9
    } else if hour <= 20 {
        10
    } else if hour <= 22 {
        11
    } else {
        12
    };
    Ok(index)
}

/// Returns the Earthly Branch for a double-hour index.
///
/// Both `0` (early Zi) and `12` (late Zi) map to [`EarthlyBranch::Zi`]; all
/// other indices map to their branch via `time_index % 12`.
///
/// # Errors
///
/// Returns [`LunarError::InvalidTimeIndex`] if `time_index > 12`.
pub fn time_index_to_branch(time_index: u8) -> (r: Result<EarthlyBranch, LunarError>)
    ensures
        time_index_check(time_index) matches Err(e) ==> r == Err::<EarthlyBranch, LunarError>(e),
        time_index <= 12 ==> r == Ok::<EarthlyBranch, LunarError>(EarthlyBranch::at(time_index as int)),
{
    if time_index > 12 {
        return Err(LunarError::InvalidTimeIndex { time_index });
    }
    Ok(EarthlyBranch::from_index((time_index % 12) as usize))
}

/// Returns `true` if `time_index` is the early Zi hour (`0`, 00:00–00:59).
///
/// # Errors
///
/// Returns [`LunarError::InvalidTimeIndex`] if `time_index > 12`.
pub fn is_early_zi(time_index: u8) -> (r: Result<bool, LunarError>)
    ensures
        time_index_check(time_index) matches Err(e) ==> r == Err::<bool, LunarError>(e),
        time_index <= 12 ==> r == Ok::<bool, LunarError>(time_index == 0),
{
    if time_index > 12 {
        return Err(LunarError::InvalidTimeIndex { time_index });
    }
    Ok(time_index == 0)
}

/// Returns `true` if `time_index` is the late Zi hour (`12`, 23:00–23:59).
///
/// # Errors
///
/// Returns [`LunarError::InvalidTimeIndex`] if `time_index > 12`.
pub fn is_late_zi(time_index: u8) -> (r: Result<bool, LunarError>)
    ensures
        time_index_check(time_index) matches Err(e) ==> r == Err::<bool, LunarError>(e),
        time_index <= 12 ==> r == Ok::<bool, LunarError>(time_index == 12),
{
    if time_index > 12 {
        return Err(LunarError::InvalidTimeIndex { time_index });
    }
    Ok(time_index == 12)
}

} // verus!
