//! The four pillars (year, month, day and hour stem-branch pairs) of a date
//! and double hour.
//!
//! The wall-clock time is synthesized from the double-hour index as
//! `hour = max(time_index * 2 - 1, 0)`, `minute = 30`.
//!
//! - Year pillar: [`YearDivide::Normal`] uses the lunar year (Chinese New
//!   Year boundary); [`YearDivide::Exact`] uses the start of spring (LiChun),
//!   compared at date granularity.
//! - Month pillar: [`MonthDivide::Normal`] derives it from the lunar month;
//!   [`MonthDivide::Exact`] from the twelve Jie solar terms, at the exact
//!   second.

use crate::calendar::{solar_date_check, solar_day_number, solar_jdn, validate_solar_date};
use crate::convert::{solar_to_lunar, solar_to_lunar_given, solar_to_lunar_outcome};
use crate::date::{LunarDate, SolarDate};
use crate::error::LunarError;
use crate::sexagenary::StemBranch;
use crate::solar_terms::{
    day_instant, instant, is_on_or_after_day, jie_instants, li_chun_date, on_or_after_day, valid_instant, LI_CHUN,
};
use crate::stem_branch::{EarthlyBranch, HeavenlyStem};
use crate::arith::rem_euclid;
use vstd::prelude::*;

verus! {

/// Highest valid double-hour index (late Zi).
pub const MAX_TIME_INDEX: u8 = 12;

/// First solar year of [`get_heavenly_stem_and_earthly_branch_by_solar_date`].
pub const PILLAR_MIN_YEAR: i32 = 1850;
/// Last solar year of [`get_heavenly_stem_and_earthly_branch_by_solar_date`].
pub const PILLAR_MAX_YEAR: i32 = 2150;

/// How to resolve the year pillar across the year boundary.
#[derive(Clone, Copy, Debug, Eq, PartialEq, Hash, Structural)]
pub enum YearDivide {
    /// Use the lunar year (Chinese New Year boundary).
    Normal,
    /// Use the start of spring (LiChun), at date granularity.
    Exact,
}

/// How to resolve the month pillar across the month boundary.
#[derive(Clone, Copy, Debug, Eq, PartialEq, Hash, Structural)]
pub enum MonthDivide {
    /// Use the lunar month (not solar terms).
    Normal,
    /// Use the twelve Jie solar-term boundaries at the exact second.
    Exact,
}

/// Options controlling the year and month pillar boundaries.
///
/// The default is `Exact` for both.
#[derive(Clone, Copy, Debug, Eq, PartialEq, Hash, Structural)]
pub struct StemBranchOptions {
    /// Year pillar boundary mode.
    pub year: YearDivide,
    /// Month pillar boundary mode.
    pub month: MonthDivide,
}

impl Default for StemBranchOptions {
    fn default() -> (r: Self)
        ensures
            r == (StemBranchOptions { year: YearDivide::Exact, month: MonthDivide::Exact }),
    {
        StemBranchOptions { year: YearDivide::Exact, month: MonthDivide::Exact }
    }
}

/// The four pillars of a date and time.
#[derive(Clone, Copy, Debug, Eq, PartialEq, Hash, Structural)]
pub struct HeavenlyStemAndEarthlyBranchDate {
    /// Year pillar.
    pub yearly: StemBranch,
    /// Month pillar.
    pub monthly: StemBranch,
    /// Day pillar.
    pub daily: StemBranch,
    /// Hour pillar.
    pub hourly: StemBranch,
}

/// The four pillars of a date and time.
pub type FourPillars = HeavenlyStemAndEarthlyBranchDate;

/// Seconds after midnight of the wall-clock time synthesized from a
/// double-hour index: `max(2 * time_index - 1, 0)` hours and 30 minutes.
pub open spec fn synthesized_second(time_index: int) -> int {
    let hour = if time_index == 0 { 0 } else { 2 * time_index - 1 };
    hour * 3600 + 30 * 60
}

/// The year whose sexagenary pair is the `Exact` year pillar when LiChun
/// falls on `li_chun` (month, day): the solar year, or the year before when
/// the date falls before that day.
pub open spec fn li_chun_pillar_year(solar: SolarDate, li_chun: (u8, u8)) -> int {
    if on_or_after_day(solar, li_chun.0 as int, li_chun.1 as int) { solar.year as int } else { solar.year - 1 }
}

/// The year pillar, given the outcome `lunar` of converting the date to a
/// lunar date (used by `Normal`) and the LiChun day `li_chun` of the solar
/// year (used by `Exact`).
pub open spec fn year_pillar_given(
    solar: SolarDate,
    divide: YearDivide,
    lunar: Result<LunarDate, LunarError>,
    li_chun: (u8, u8),
) -> Result<StemBranch, LunarError> {
    match divide {
        YearDivide::Normal => {
            if lunar is Err {
                Err(lunar->Err_0)
            } else {
                Ok(StemBranch::at(lunar->Ok_0.year - 1984))
            }
        },
        YearDivide::Exact => Ok(StemBranch::at(li_chun_pillar_year(solar, li_chun) - 1984)),
    }
}

/// Stem index of the first month (the Yin month) of a year with stem index
/// `year_stem`, by the five-tigers rule.
pub open spec fn yin_month_stem(year_stem: int) -> int {
    (year_stem % 5 * 2 + 2) % 10
}

/// Months past the first month that the `Normal` month pillar counts: a leap
/// month past its 15th day counts toward the following month.
pub open spec fn lunar_month_offset(lunar: LunarDate) -> int {
    (lunar.month - 1) + (if lunar.is_leap_month && lunar.day > 15 { 1int } else { 0 })
}

/// The `Normal` month pillar of a lunar date in a year whose pillar has stem
/// `year_stem`.
pub open spec fn normal_month_pillar(lunar: LunarDate, year_stem: HeavenlyStem) -> StemBranch {
    let offset = lunar_month_offset(lunar);
    StemBranch::of((yin_month_stem(year_stem.ordinal() as int) + offset) % 10, (2 + offset) % 12)
}

/// The number of Jie instants, taken in table order from `k` on, that are at
/// or before `t` before the first one that is later.
pub open spec fn jie_passed(jie: Seq<i64>, t: int, k: int) -> int
    decreases 12 - k,
{
    if k >= 12 {
        12
    } else if jie[k] <= t {
        jie_passed(jie, t, k + 1)
    } else {
        k
    }
}

/// The month pillar at instant `t` of solar year `year`, given the instants
/// of the year's twelve Jie in table order: the branch is the one opened by
/// the last Jie of the leading run at or before `t` (Zi before the first),
/// and the stem follows by the five-tigers rule from the year that begins at
/// the LiChun instant (the year before, earlier than it).
pub open spec fn month_pillar_of_jie(jie: Seq<i64>, year: int, t: int) -> StemBranch {
    let branch = jie_passed(jie, t, 0) % 12;
    let sui = if t >= jie[1] { year } else { year - 1 };
    StemBranch::of((yin_month_stem((sui - 4) % 10) + (branch + 12 - 2) % 12) % 10, branch)
}

/// Sexagenary day offset: noon Julian Day minus 11, rolled forward one day
/// for late Zi.
pub open spec fn day_offset(solar: SolarDate, time_index: int) -> int {
    solar_jdn(solar) - 11 + (if time_index == 12 { 1int } else { 0 })
}

/// The hour pillar: branch from the double-hour index, stem from the (rolled)
/// day stem by the five-rats rule.
pub open spec fn hour_pillar(solar: SolarDate, time_index: int) -> StemBranch {
    let branch = time_index % 12;
    StemBranch::of(((day_offset(solar, time_index) % 10) % 5 * 2 + branch) % 10, branch)
}

/// The month pillar, given the year pillar, the outcome `lunar` of
/// converting the date to a lunar date (used by `Normal`) and the instants
/// `jie` of the year's twelve Jie (used by `Exact`).
pub open spec fn month_pillar_given(
    solar: SolarDate,
    time_index: int,
    divide: MonthDivide,
    yearly: StemBranch,
    lunar: Result<LunarDate, LunarError>,
    jie: Seq<i64>,
) -> Result<StemBranch, LunarError> {
    match divide {
        MonthDivide::Normal => {
            if lunar is Err {
                Err(lunar->Err_0)
            } else {
                Ok(normal_month_pillar(lunar->Ok_0, yearly.stem_of()))
            }
        },
        MonthDivide::Exact => Ok(month_pillar_of_jie(
            jie,
            solar.year as int,
            instant(solar.year as int, solar.month as int, solar.day as int, synthesized_second(time_index)),
        )),
    }
}

/// The four pillars of a supported date and a valid double-hour index,
/// given the lunar-date outcomes used by the year and the month pillar, the
/// LiChun day and the Jie instants of the solar year.
pub open spec fn pillars_given(
    solar: SolarDate,
    time_index: int,
    options: StemBranchOptions,
    year_lunar: Result<LunarDate, LunarError>,
    month_lunar: Result<LunarDate, LunarError>,
    li_chun: (u8, u8),
    jie: Seq<i64>,
) -> Result<HeavenlyStemAndEarthlyBranchDate, LunarError> {
    let yearly = year_pillar_given(solar, options.year, year_lunar, li_chun);
    if yearly is Err {
        Err(yearly->Err_0)
    } else {
        let monthly = month_pillar_given(solar, time_index, options.month, yearly->Ok_0, month_lunar, jie);
        if monthly is Err {
            Err(monthly->Err_0)
        } else {
            Ok(HeavenlyStemAndEarthlyBranchDate {
                yearly: yearly->Ok_0,
                monthly: monthly->Ok_0,
                daily: StemBranch::at(day_offset(solar, time_index)),
                hourly: hour_pillar(solar, time_index),
            })
        }
    }
}

/// What a four-pillar function with solar years `min..=max` returns, given
/// the values its lookups gave (see [`pillars_given`]).
pub open spec fn four_pillars_given(
    solar: SolarDate,
    time_index: u8,
    options: StemBranchOptions,
    min: int,
    max: int,
    year_lunar: Result<LunarDate, LunarError>,
    month_lunar: Result<LunarDate, LunarError>,
    li_chun: (u8, u8),
    jie: Seq<i64>,
) -> Result<HeavenlyStemAndEarthlyBranchDate, LunarError> {
    if solar_date_check(solar) is Err {
        Err(solar_date_check(solar)->Err_0)
    } else if time_index > MAX_TIME_INDEX {
        Err(LunarError::InvalidTimeIndex { time_index })
    } else if !(min <= solar.year <= max) {
        Err(LunarError::SolarTermOutOfRange { year: solar.year })
    } else {
        pillars_given(solar, time_index as int, options, year_lunar, month_lunar, li_chun, jie)
    }
}

/// What a four-pillar function with solar years `min..=max` may return: its
/// result for some outcomes of the two lunar conversions, some LiChun day
/// and some twelve Jie instants.
pub open spec fn four_pillars_outcome(
    solar: SolarDate,
    time_index: u8,
    options: StemBranchOptions,
    min: int,
    max: int,
    r: Result<HeavenlyStemAndEarthlyBranchDate, LunarError>,
) -> bool {
    exists|yl: Result<LunarDate, LunarError>, ml: Result<LunarDate, LunarError>, li: (u8, u8), jie: Seq<i64>|
        solar_to_lunar_outcome(solar, yl) && solar_to_lunar_outcome(solar, ml) && valid_li_chun(li) && valid_jie(jie)
            && r == #[trigger] four_pillars_given(solar, time_index, options, min, max, yl, ml, li, jie)
}

/// Computes the four pillars for a Gregorian solar date and double-hour index.
///
/// `time_index` is in `0..=12`, where both `0` (early Zi) and `12` (late Zi)
/// map to the Zi branch; `12` additionally rolls the day pillar to the next
/// day. The supported range is 1850-01-01 ..= 2150-12-31.
///
/// # Errors
/// - [`LunarError::InvalidSolarDate`] if `solar` is not a real date, and
///   [`LunarError::SolarYearOutOfRange`] if its year is outside `1..=9999`.
/// - [`LunarError::InvalidTimeIndex`] if `time_index > 12`.
/// - [`LunarError::SolarTermOutOfRange`] if `solar.year` is outside 1850..=2150.
/// - [`LunarError::LunarYearOutOfRange`] for `Normal` options when the lunar
///   date cannot be resolved. The lunar months reach back to lunar year `-1`,
///   so no date of the supported range meets it: dates of 1850 before its
///   Chinese New Year resolve to lunar year 1849.
pub fn get_heavenly_stem_and_earthly_branch_by_solar_date(
    solar: SolarDate,
    time_index: u8,
    options: StemBranchOptions,
) -> (r: Result<HeavenlyStemAndEarthlyBranchDate, LunarError>)
    ensures
        four_pillars_outcome(solar, time_index, options, PILLAR_MIN_YEAR as int, PILLAR_MAX_YEAR as int, r),
{
    pillars_within(solar, time_index, options, PILLAR_MIN_YEAR, PILLAR_MAX_YEAR)
}

/// Shorter alias for [`get_heavenly_stem_and_earthly_branch_by_solar_date`].
pub fn solar_date_to_ganzhi(
    solar: SolarDate,
    time_index: u8,
    options: StemBranchOptions,
) -> (r: Result<HeavenlyStemAndEarthlyBranchDate, LunarError>)
    ensures
        four_pillars_outcome(solar, time_index, options, PILLAR_MIN_YEAR as int, PILLAR_MAX_YEAR as int, r),
{
    get_heavenly_stem_and_earthly_branch_by_solar_date(solar, time_index, options)
}

/// Computes the four pillars with explicit options over the whole supported
/// solar range `1..=9999`.
///
/// # Errors
/// - [`LunarError::InvalidSolarDate`] / [`LunarError::SolarYearOutOfRange`]
///   for an invalid or unsupported solar date.
/// - [`LunarError::InvalidTimeIndex`] if `time_index > 12`.
/// - [`LunarError::LunarYearOutOfRange`] for `Normal` options when the lunar
///   date cannot be resolved.
pub fn four_pillars_from_solar_date_with_options(
    solar: SolarDate,
    time_index: u8,
    options: StemBranchOptions,
) -> (r: Result<FourPillars, LunarError>)
    ensures
        four_pillars_outcome(solar, time_index, options, 1, 9999, r),
{
    pillars_within(solar, time_index, options, 1, 9999)
}

/// Computes the four pillars with the default options (`Exact`, `Exact`).
pub fn four_pillars_from_solar_date(solar: SolarDate, time_index: u8) -> (r: Result<FourPillars, LunarError>)
    ensures
        four_pillars_outcome(
            solar,
            time_index,
            StemBranchOptions { year: YearDivide::Exact, month: MonthDivide::Exact },
            1,
            9999,
            r,
        ),
{
    four_pillars_from_solar_date_with_options(solar, time_index, StemBranchOptions::default())
}

/// Late Zi: on the same date, double hour `12` gives the Zi hour branch, as
/// double hour `0` does, and the day pillar one step further in the
/// sixty-step cycle, whatever values the lookups of the two calls gave.
pub proof fn lemma_late_zi_rolls_day_pillar(
    solar: SolarDate,
    options: StemBranchOptions,
    min: int,
    max: int,
    early_inputs: (Result<LunarDate, LunarError>, Result<LunarDate, LunarError>, (u8, u8), Seq<i64>),
    late_inputs: (Result<LunarDate, LunarError>, Result<LunarDate, LunarError>, (u8, u8), Seq<i64>),
)
    requires
        four_pillars_given(solar, 0, options, min, max, early_inputs.0, early_inputs.1, early_inputs.2, early_inputs.3) is Ok,
        four_pillars_given(solar, 12, options, min, max, late_inputs.0, late_inputs.1, late_inputs.2, late_inputs.3) is Ok,
    ensures
        ({
            let early = four_pillars_given(
                solar, 0, options, min, max, early_inputs.0, early_inputs.1, early_inputs.2, early_inputs.3,
            )->Ok_0;
            let late = four_pillars_given(
                solar, 12, options, min, max, late_inputs.0, late_inputs.1, late_inputs.2, late_inputs.3,
            )->Ok_0;
            &&& early.hourly.branch_of() == EarthlyBranch::Zi
            &&& late.hourly.branch_of() == EarthlyBranch::Zi
            &&& late.daily.position() == (early.daily.position() + 1) % 60
        }),
{
    let i = solar_jdn(solar) - 11;
    StemBranch::lemma_of(((day_offset(solar, 0) % 10) % 5 * 2 + 0) % 10, 0);
    StemBranch::lemma_of(((day_offset(solar, 12) % 10) % 5 * 2 + 0) % 10, 0);
    crate::sexagenary::lemma_position_of_at(i);
    crate::sexagenary::lemma_position_of_at(i + 1);
    assert((i + 1) % 60 == (i % 60 + 1) % 60) by {
        vstd::arithmetic::div_mod::lemma_add_mod_noop(i, 1, 60);
    }
}

/// The `Exact` year pillar flips on the LiChun date: from the day the start
/// of spring falls on it is the pair of the solar year, and before that day
/// (in particular on the day before) it is the pair of the year before.
pub proof fn lemma_year_pillar_flips_at_li_chun(
    solar: SolarDate,
    time_index: u8,
    month: MonthDivide,
    min: int,
    max: int,
    year_lunar: Result<LunarDate, LunarError>,
    month_lunar: Result<LunarDate, LunarError>,
    li_chun: (u8, u8),
    jie: Seq<i64>,
)
    requires
        four_pillars_given(
            solar, time_index, StemBranchOptions { year: YearDivide::Exact, month }, min, max,
            year_lunar, month_lunar, li_chun, jie,
        ) is Ok,
    ensures
        ({
            let yearly = four_pillars_given(
                solar, time_index, StemBranchOptions { year: YearDivide::Exact, month }, min, max,
                year_lunar, month_lunar, li_chun, jie,
            )->Ok_0.yearly;
            &&& yearly == if on_or_after_day(solar, li_chun.0 as int, li_chun.1 as int) {
                StemBranch::at(solar.year - 1984)
            } else {
                StemBranch::at(solar.year - 1985)
            }
            &&& (solar.month == li_chun.0 && solar.day == li_chun.1) ==> yearly == StemBranch::at(
                solar.year - 1984,
            )
            &&& (solar.month == li_chun.0 && solar.day + 1 == li_chun.1) ==> yearly
                == StemBranch::at(solar.year - 1985)
        }),
{
}

/// Some outcome of converting `solar` to a lunar date, standing for the
/// conversion a mode does not use.
pub open spec fn unused_lunar(solar: SolarDate) -> Result<LunarDate, LunarError> {
    solar_to_lunar_given(solar, 0, Seq::empty())
}

/// A LiChun day that [`li_chun_date`] may give: a month `1..=12` and a day
/// `1..=31`.
pub open spec fn valid_li_chun(li: (u8, u8)) -> bool {
    1 <= li.0 <= 12 && 1 <= li.1 <= 31
}

/// Twelve instants such as [`jie_instants`] gives: each that of a
/// wall-clock time on a real day of solar years `1..=9999`.
pub open spec fn valid_jie(jie: Seq<i64>) -> bool {
    jie.len() == 12 && forall|i: int| 0 <= i < 12 ==> valid_instant(#[trigger] jie[i] as int)
}

/// Twelve Jie instants standing for the lookup a mode does not use:
/// midnight of 2000-01-01, twelve times.
pub open spec fn unused_jie() -> Seq<i64> {
    Seq::new(12, |k: int| instant(2000, 1, 1, 0) as i64)
}

proof fn lemma_unused_lunar_is_outcome(solar: SolarDate)
    ensures
        solar_to_lunar_outcome(solar, unused_lunar(solar)),
        valid_jie(unused_jie()),
        valid_li_chun((1u8, 1u8)),
{
    assert(unused_lunar(solar) == solar_to_lunar_given(solar, 0, Seq::empty()));
    crate::julian_day::lemma_jdn_range(2000, 1, 1);
    assert(crate::julian_day::calendar_date(2000, 1, 1));
    assert(valid_instant(instant(2000, 1, 1, 0)));
    assert forall|i: int| 0 <= i < 12 implies valid_instant(#[trigger] unused_jie()[i] as int) by {
        assert(unused_jie()[i] as int == instant(2000, 1, 1, 0));
    }
}

fn pillars_within(
    solar: SolarDate,
    time_index: u8,
    options: StemBranchOptions,
    min_year: i32,
    max_year: i32,
) -> (r: Result<HeavenlyStemAndEarthlyBranchDate, LunarError>)
    ensures
        four_pillars_outcome(solar, time_index, options, min_year as int, max_year as int, r),
{
    let ghost min = min_year as int;
    let ghost max = max_year as int;
    proof {
        lemma_unused_lunar_is_outcome(solar);
    }
    let ghost none = unused_lunar(solar);
    if let Err(e) = validate_solar_date(solar) {
        let r = Err(e);
        assert(r == four_pillars_given(solar, time_index, options, min, max, none, none, (1u8, 1u8), unused_jie()));
        return r;
    }
    if time_index > MAX_TIME_INDEX {
        let r = Err(LunarError::InvalidTimeIndex { time_index });
        assert(r == four_pillars_given(solar, time_index, options, min, max, none, none, (1u8, 1u8), unused_jie()));
        return r;
    }
    if solar.year < min_year || solar.year > max_year {
        let r = Err(LunarError::SolarTermOutOfRange { year: solar.year });
        assert(r == four_pillars_given(solar, time_index, options, min, max, none, none, (1u8, 1u8), unused_jie()));
        return r;
    }
    let r = pillars_of_valid(solar, time_index, options);
    let ghost (yl, ml, li, jie) = choose|
        yl: Result<LunarDate, LunarError>,
        ml: Result<LunarDate, LunarError>,
        li: (u8, u8),
        jie: Seq<i64>,
    |
        solar_to_lunar_outcome(solar, yl) && solar_to_lunar_outcome(solar, ml) && valid_li_chun(li) && valid_jie(jie) && r
            == #[trigger] pillars_given(solar, time_index as int, options, yl, ml, li, jie);
    assert(r == four_pillars_given(solar, time_index, options, min, max, yl, ml, li, jie));
    r
}

/// The four pillars of a supported date and valid double-hour index, for
/// the values the lookups give.
fn pillars_of_valid(solar: SolarDate, time_index: u8, options: StemBranchOptions) -> (r: Result<
    HeavenlyStemAndEarthlyBranchDate,
    LunarError,
>)
    requires
        crate::calendar::valid_solar_date(solar),
        time_index <= MAX_TIME_INDEX,
    ensures
        exists|yl: Result<LunarDate, LunarError>, ml: Result<LunarDate, LunarError>, li: (u8, u8), jie: Seq<i64>|
            solar_to_lunar_outcome(solar, yl) && solar_to_lunar_outcome(solar, ml) && valid_li_chun(li) && valid_jie(jie)
                && r == #[trigger] pillars_given(solar, time_index as int, options, yl, ml, li, jie),
{
    proof {
        lemma_unused_lunar_is_outcome(solar);
    }
    let ghost none = unused_lunar(solar);
    // Synthesized wall-clock time: hour = max(time_index * 2 - 1, 0), minute = 30.
    let synth_hour: i64 = if time_index == 0 { 0 } else { time_index as i64 * 2 - 1 };
    let synth_second_of_day: i64 = synth_hour * 3600 + 30 * 60;
    assert(synth_second_of_day == synthesized_second(time_index as int));

    let yearly_result = year_pillar(solar, options.year);
    let ghost (yl, li) = choose|yl: Result<LunarDate, LunarError>, li: (u8, u8)|
        solar_to_lunar_outcome(solar, yl) && valid_li_chun(li) && yearly_result == #[trigger] year_pillar_given(solar, options.year, yl, li);
    let yearly = match yearly_result {
        Ok(y) => y,
        Err(e) => {
            let r = Err(e);
            assert(r == pillars_given(solar, time_index as int, options, yl, none, li, unused_jie()));
            return r;
        },
    };
    let ghost mut ml = none;
    let ghost mut jie = unused_jie();
    let monthly_result = match options.month {
        MonthDivide::Normal => {
            let m = month_pillar_normal(solar, yearly);
            proof {
                ml = choose|ml: Result<LunarDate, LunarError>|
                    solar_to_lunar_outcome(solar, ml) && m == #[trigger] month_pillar_given(
                        solar, 0, MonthDivide::Normal, yearly, ml, unused_jie(),
                    );
            }
            m
        },
        MonthDivide::Exact => {
            let m = month_pillar_exact(solar, synth_second_of_day);
            proof {
                jie = choose|jie: Seq<i64>| valid_jie(jie) && m == Ok::<StemBranch, LunarError>(#[trigger] month_pillar_of_jie(
                    jie,
                    solar.year as int,
                    instant(solar.year as int, solar.month as int, solar.day as int, synth_second_of_day as int),
                ));
            }
            m
        },
    };
    assert(monthly_result == month_pillar_given(solar, time_index as int, options.month, yearly, ml, jie));
    let monthly = match monthly_result {
        Ok(m) => m,
        Err(e) => {
            let r = Err(e);
            assert(r == pillars_given(solar, time_index as int, options, yl, ml, li, jie));
            return r;
        },
    };
    let (daily, hourly) = day_and_hour_pillars(solar, time_index);
    let r = Ok(HeavenlyStemAndEarthlyBranchDate { yearly, monthly, daily, hourly });
    assert(r == pillars_given(solar, time_index as int, options, yl, ml, li, jie));
    r
}

/// The day and hour pillars of a supported date and valid double hour.
fn day_and_hour_pillars(solar: SolarDate, time_index: u8) -> (r: (StemBranch, StemBranch))
    requires
        crate::calendar::valid_solar_date(solar),
        time_index <= MAX_TIME_INDEX,
    ensures
        r.0 == StemBranch::at(day_offset(solar, time_index as int)),
        r.1 == hour_pillar(solar, time_index as int),
{
    // Day pillar: noon Julian Day minus 11, rolled forward for late Zi.
    let mut offset: i64 = day_pillar_offset(solar);
    if time_index == MAX_TIME_INDEX {
        offset = offset + 1;
    }
    proof {
        crate::calendar::lemma_solar_jdn_bounds(solar);
    }
    let daily = StemBranch::from_cycle_index(rem_euclid(offset as i128, 60) as usize);
    proof {
        crate::sexagenary::lemma_sixty_wraps(offset as int);
    }
    let day_stem_index = rem_euclid(offset as i128, 10) as usize;

    // Hour pillar: branch from time_index, stem from the (rolled) day stem.
    let hour_branch_index = (time_index % 12) as usize;
    let hour_stem_index = (day_stem_index % 5 * 2 + hour_branch_index) % 10;
    let hourly = pillar_from_indices(hour_stem_index, hour_branch_index);
    proof {
        StemBranch::lemma_of(offset as int, offset as int);
    }
    (daily, hourly)
}

/// The sexagenary day offset of a date: noon Julian Day minus 11.
pub fn day_pillar_offset(solar: SolarDate) -> (r: i64)
    requires
        crate::calendar::valid_solar_date(solar),
    ensures
        r == solar_jdn(solar) - 11,
{
    proof {
        crate::calendar::lemma_solar_jdn_bounds(solar);
    }
    solar_day_number(solar) - 11
}

fn year_pillar(solar: SolarDate, divide: YearDivide) -> (r: Result<StemBranch, LunarError>)
    requires
        crate::calendar::valid_solar_date(solar),
    ensures
        exists|yl: Result<LunarDate, LunarError>, li: (u8, u8)|
            solar_to_lunar_outcome(solar, yl) && valid_li_chun(li) && r == #[trigger] year_pillar_given(solar, divide, yl, li),
{
    proof {
        lemma_unused_lunar_is_outcome(solar);
    }
    match divide {
        YearDivide::Normal => {
            let lunar = solar_to_lunar(solar);
            let r = match lunar {
                Ok(l) => Ok(StemBranch::from_lunar_year(l.year)),
                Err(e) => Err(e),
            };
            assert(r == year_pillar_given(solar, divide, lunar, (1u8, 1u8)));
            r
        },
        YearDivide::Exact => {
            let (month, day) = li_chun_date(solar.year).unwrap();
            let pillar_year = if is_on_or_after_day(solar, month, day) { solar.year } else { solar.year - 1 };
            // The sexagenary pair of a Gregorian year: the 1984 anchor holds modulo 60.
            let r = Ok(StemBranch::from_lunar_year(pillar_year));
            assert(r == year_pillar_given(solar, divide, unused_lunar(solar), (month, day)));
            r
        },
    }
}

fn month_pillar_normal(solar: SolarDate, yearly: StemBranch) -> (r: Result<StemBranch, LunarError>)
    ensures
        exists|ml: Result<LunarDate, LunarError>|
            solar_to_lunar_outcome(solar, ml) && r == #[trigger] month_pillar_given(
                solar, 0, MonthDivide::Normal, yearly, ml, unused_jie(),
            ),
{
    let lunar = solar_to_lunar(solar);
    let r = match lunar {
        Ok(l) => Ok(month_pillar_of_lunar(l, yearly)),
        Err(e) => Err(e),
    };
    assert(r == month_pillar_given(solar, 0, MonthDivide::Normal, yearly, lunar, unused_jie()));
    r
}

/// The `Normal` month pillar of a lunar date (month `1..=12`) in a year whose
/// pillar is `yearly`: the five-tigers rule from the lunar month, a leap month
/// past its 15th day counting as the month after it.
pub fn month_pillar_of_lunar(lunar: LunarDate, yearly: StemBranch) -> (r: StemBranch)
    requires
        1 <= lunar.month <= 12,
    ensures
        r == normal_month_pillar(lunar, yearly.stem_of()),
{
    let year_stem = yearly.stem().index();
    let yin_stem = (year_stem % 5 * 2 + 2) % 10;
    // A leap month past its 15th day counts toward the following month.
    let fix_leap: usize = if lunar.is_leap_month && lunar.day > 15 { 1 } else { 0 };
    let offset = (lunar.month as usize - 1) + fix_leap;
    proof {
        lemma_five_tigers(year_stem as int, offset as int);
    }
    let stem = (yin_stem + offset) % 10;
    // Lunar month 1 is the Yin month (branch index 2).
    let branch = (2 + offset) % 12;
    pillar_from_indices(stem, branch)
}

/// The first-month stem of the five-tigers rule is an even stem index, so a
/// month `offset` past it shares parity with the branch `offset` past Yin.
proof fn lemma_five_tigers(year_stem: int, offset: int)
    requires
        0 <= year_stem < 10,
        0 <= offset,
    ensures
        0 <= yin_month_stem(year_stem) < 10,
        yin_month_stem(year_stem) % 2 == 0,
        ((yin_month_stem(year_stem) + offset) % 10) % 2 == ((2 + offset) % 12) % 2,
{
    let y = yin_month_stem(year_stem);
    assert(y % 2 == 0);
    assert(((y + offset) % 10) % 2 == ((2 + offset) % 12) % 2) by (nonlinear_arith)
        requires
            0 <= y < 10,
            y % 2 == 0,
            0 <= offset,
    ;
}

fn month_pillar_exact(solar: SolarDate, synth_second_of_day: i64) -> (r: Result<StemBranch, LunarError>)
    requires
        crate::calendar::valid_solar_date(solar),
        0 <= synth_second_of_day < 86400,
    ensures
        exists|jie: Seq<i64>| valid_jie(jie) && r == Ok::<StemBranch, LunarError>(#[trigger] month_pillar_of_jie(
            jie,
            solar.year as int,
            instant(solar.year as int, solar.month as int, solar.day as int, synth_second_of_day as int),
        )),
{
    proof {
        crate::julian_day::lemma_jdn_range(solar.year as int, solar.month as int, solar.day as int);
    }
    let instant = day_instant(solar.year, solar.month, solar.day, synth_second_of_day);
    let jie = jie_instants(solar.year).unwrap();
    let r = Ok(month_pillar_from_jie(&jie, solar.year, instant));
    assert(valid_jie(jie@));
    r
}

/// The month pillar at instant `t` of solar year `year`, given the instants
/// of the year's twelve Jie in table order (see [`month_pillar_of_jie`]).
pub fn month_pillar_from_jie(jie: &[i64; 12], year: i32, t: i64) -> (r: StemBranch)
    requires
        year > i32::MIN,
    ensures
        r == month_pillar_of_jie(jie@, year as int, t as int),
{
    // Month branch: the branch of the most recent Jie at or before `t`.
    let branch = passed_jie_branch(jie, t);
    // Month stem by the five-tigers rule from the LiChun year (exact second).
    let sui_year: i32 = if t >= jie[LI_CHUN] { year } else { year - 1 };
    let sui_stem = rem_euclid(sui_year as i128 - 4, 10) as usize;
    let yin_stem = (sui_stem % 5 * 2 + 2) % 10;
    let offset_from_yin = (branch + 12 - 2) % 12;
    proof {
        lemma_five_tigers(sui_stem as int, offset_from_yin as int);
        assert((2 + offset_from_yin) % 12 == branch);
    }
    let stem = (yin_stem + offset_from_yin) % 10;
    pillar_from_indices(stem, branch)
}

/// The branch index opened by the leading run of Jie at or before `t`.
fn passed_jie_branch(jie: &[i64; 12], t: i64) -> (r: usize)
    ensures
        r == jie_passed(jie@, t as int, 0) % 12,
        r < 12,
{
    let mut branch: usize = 0;
    let mut k: usize = 0;
    while k < 12
        invariant_except_break
            0 <= k <= 12,
            jie_passed(jie@, t as int, 0) == jie_passed(jie@, t as int, k as int),
            branch == k % 12,
        ensures
            branch == jie_passed(jie@, t as int, 0) % 12,
        decreases 12 - k,
    {
        if jie[k] <= t {
            branch = (k + 1) % 12;
            k = k + 1;
        } else {
            break;
        }
    }
    branch
}

/// Builds the pair from stem (`0..10`) and branch (`0..12`) indices that share
/// parity by construction.
fn pillar_from_indices(stem_index: usize, branch_index: usize) -> (r: StemBranch)
    requires
        stem_index < 10,
        branch_index < 12,
        stem_index % 2 == branch_index % 2,
    ensures
        r == StemBranch::of(stem_index as int, branch_index as int),
{
    let stem = HeavenlyStem::from_index(stem_index);
    let branch = EarthlyBranch::from_index(branch_index);
    match StemBranch::try_new(stem, branch) {
        Ok(pair) => {
            proof {
                StemBranch::lemma_of(stem_index as int, branch_index as int);
                pair.lemma_ext_equal(StemBranch::of(stem_index as int, branch_index as int));
            }
            pair
        },
        Err(_) => {
            proof {
                assert(false);
            }
            StemBranch::from_cycle_index(0)
        },
    }
}

/// With the `Exact` year divide, a date in a month after the LiChun month
/// takes its own solar year's pair, and a date in a month before it the
/// previous year's pair, whatever the lunar conversion gave.
pub proof fn lemma_exact_year_pillar_by_li_chun_month(
    solar: SolarDate,
    lunar: Result<LunarDate, LunarError>,
    li_chun: (u8, u8),
)
    ensures
        solar.month > li_chun.0 ==> year_pillar_given(solar, YearDivide::Exact, lunar, li_chun) == Ok::<
            StemBranch,
            LunarError,
        >(StemBranch::at(solar.year - 1984)),
        solar.month < li_chun.0 ==> year_pillar_given(solar, YearDivide::Exact, lunar, li_chun) == Ok::<
            StemBranch,
            LunarError,
        >(StemBranch::at(solar.year - 1 - 1984)),
{
}

} // verus!
