//! Lunar months and their navigation across lunar years.

use crate::astronomy::{leap_month_number, names_lunar_month, AstronomicalKernel};
use crate::calendar::{date_for_day_number, day_number_date, to_solar_date};
use crate::date::SolarDate;
use crate::error::LunarError;
use crate::lunar_month::{leap_month, leap_month_result};
use vstd::prelude::*;

verus! {

/// First lunar year with calendar facts.
pub const MIN_LUNAR_YEAR: i32 = -1;
/// Last lunar year with calendar facts.
pub const MAX_LUNAR_YEAR: i32 = 9_999;

/// Whether the lunar year lies in the supported range `-1..=9999`.
pub open spec fn lunar_year_supported(year: int) -> bool {
    MIN_LUNAR_YEAR <= year <= MAX_LUNAR_YEAR
}

/// Number of months of a lunar year: 13 when it has a leap month, else 12.
pub open spec fn months_in_year(year: int) -> int {
    if leap_month_number(year) != 0 { 13 } else { 12 }
}

/// Number of lunar months in the supported years before `year`.
pub open spec fn months_before(year: int) -> int
    decreases year - MIN_LUNAR_YEAR,
{
    if year <= MIN_LUNAR_YEAR {
        0
    } else {
        months_before(year - 1) + months_in_year(year - 1)
    }
}

/// Zero-based position of a month inside its lunar year, counting the leap
/// month right after the regular month it repeats.
pub open spec fn index_in_year_of(year: int, month: int, is_leap: bool) -> int {
    let code = leap_month_number(year);
    if is_leap {
        month
    } else if code != 0 && month > code {
        month
    } else {
        month - 1
    }
}

/// Total number of lunar months in the supported years.
pub open spec fn total_months() -> int {
    months_before(MAX_LUNAR_YEAR + 1)
}

/// The outcome of checking a lunar year.
pub open spec fn lunar_year_check(year: int) -> Result<(), LunarError> {
    if lunar_year_supported(year) {
        Ok(())
    } else {
        Err(LunarError::LunarYearOutOfRange { year: year as i32 })
    }
}

/// The absolute value of a signed month number, as a byte.
pub open spec fn month_number(month_with_leap: i8) -> u8 {
    if month_with_leap < 0 { (-(month_with_leap as int)) as u8 } else { month_with_leap as u8 }
}

/// The outcome of naming a lunar month by year and signed month number.
pub open spec fn lunar_month_check(year: i32, month_with_leap: i8) -> Result<(), LunarError> {
    if !lunar_year_supported(year as int) {
        Err(LunarError::LunarYearOutOfRange { year })
    } else if month_with_leap == 0 || month_with_leap < -12 || month_with_leap > 12 {
        Err(LunarError::InvalidLunarMonth {
            year,
            month: month_number(month_with_leap),
            is_leap_month: month_with_leap < 0,
        })
    } else if month_with_leap < 0 && -month_with_leap != leap_month_number(year as int) {
        Err(LunarError::InvalidLunarMonth { year, month: month_number(month_with_leap), is_leap_month: true })
    } else {
        Ok(())
    }
}

/// Checks that the lunar year lies in `-1..=9999`.
pub fn validate_lunar_year(year: i32) -> (r: Result<(), LunarError>)
    ensures
        r == lunar_year_check(year as int),
{
    if year < MIN_LUNAR_YEAR || year > MAX_LUNAR_YEAR {
        return Err(LunarError::LunarYearOutOfRange { year });
    }
    Ok(())
}

/// A month of a lunar year: regular, or the leap instance of its number.
#[derive(Debug, Clone, Copy, PartialEq, Eq, Structural)]
pub struct LunarMonth {
    year: i32,
    month: u8,
    is_leap: bool,
}

impl LunarMonth {
    /// The month names a real month of a supported lunar year.
    pub closed spec fn wf(self) -> bool {
        &&& lunar_year_supported(self.year as int)
        &&& 1 <= self.month <= 12
        &&& self.is_leap ==> self.month as int == leap_month_number(self.year as int)
    }

    /// The lunar year of the month.
    pub closed spec fn year_of(self) -> int {
        self.year as int
    }

    /// The month number, `1..=12`.
    pub closed spec fn month_of(self) -> int {
        self.month as int
    }

    /// Whether this is the leap instance of its number.
    pub closed spec fn leap_of(self) -> bool {
        self.is_leap
    }

    /// The signed month number: negated for the leap instance.
    pub open spec fn signed_month(self) -> int {
        if self.leap_of() { -self.month_of() } else { self.month_of() }
    }

    /// Position of the month in the sequence of all supported lunar months.
    pub open spec fn position(self) -> int {
        months_before(self.year_of()) + index_in_year_of(self.year_of(), self.month_of(), self.leap_of())
    }

    /// What a well-formed month satisfies.
    pub proof fn lemma_wf(self)
        requires
            self.wf(),
        ensures
            lunar_year_supported(self.year_of()),
            1 <= self.month_of() <= 12,
            self.leap_of() ==> self.month_of() == leap_month_number(self.year_of()),
            names_lunar_month(self.year_of(), self.signed_month()),
    {
    }

    /// A well-formed month has a position among the supported months.
    pub proof fn lemma_position_bounds(self)
        requires
            self.wf(),
        ensures
            0 <= self.position() < total_months(),
            months_before(self.year_of()) + months_in_year(self.year_of()) <= total_months(),
            months_before(self.year_of()) <= self.position() < months_before(self.year_of() + 1),
    {
        lemma_months_before_monotone(MIN_LUNAR_YEAR as int, self.year_of());
        lemma_months_before_monotone(self.year_of() + 1, MAX_LUNAR_YEAR + 1);
    }

    /// Names the month `month_with_leap` (negated for a leap month) of lunar
    /// year `year`.
    pub fn from_ym(year: i32, month_with_leap: i8) -> (r: Result<LunarMonth, LunarError>)
        ensures
            lunar_month_check(year, month_with_leap) matches Err(e) ==> r == Err::<LunarMonth, LunarError>(e),
            lunar_month_check(year, month_with_leap) is Ok ==> (r matches Ok(m) && m.wf() && m.year_of() == year
                && m.month_of() == month_number(month_with_leap) && m.leap_of() == (month_with_leap < 0)),
    {
        validate_lunar_year(year)?;
        if month_with_leap == 0 || month_with_leap < -12 || month_with_leap > 12 {
            return Err(invalid_lunar_month(year, unsigned_month(month_with_leap), month_with_leap < 0));
        }
        let month = unsigned_month(month_with_leap);
        let is_leap = month_with_leap < 0;
        if is_leap {
            let leap = leap_month(year)?;
            if leap != Some(month) {
                return Err(invalid_lunar_month(year, month, true));
            }
        }
        Ok(LunarMonth { year, month, is_leap })
    }

    /// The lunar year of the month.
    pub fn year(self) -> (r: i32)
        ensures
            r == self.year_of(),
    {
        self.year
    }

    /// The month number, `1..=12`.
    pub fn month(self) -> (r: u8)
        ensures
            r == self.month_of(),
    {
        self.month
    }

    /// The signed month number: negated for the leap instance.
    pub fn month_with_leap(self) -> (r: i8)
        requires
            self.wf(),
        ensures
            r == self.signed_month(),
    {
        if self.is_leap {
            -(self.month as i8)
        } else {
            self.month as i8
        }
    }

    /// Whether this is the leap instance of its number.
    pub fn is_leap(self) -> (r: bool)
        ensures
            r == self.leap_of(),
    {
        self.is_leap
    }

    /// Zero-based position of the month inside its lunar year.
    pub fn index_in_year(self) -> (r: u8)
        requires
            self.wf(),
        ensures
            r == index_in_year_of(self.year_of(), self.month_of(), self.leap_of()),
            0 <= r < months_in_year(self.year_of()),
    {
        let mut index = self.month - 1;
        if self.is_leap {
            index = index + 1;
        } else {
            let code = AstronomicalKernel::leap_month_of(self.year);
            if code != 0 && self.month > code {
                index = index + 1;
            }
        }
        index
    }
}

/// Number of months of a supported lunar year.
pub fn lunar_year_month_count(year: i32) -> (r: Result<u8, LunarError>)
    ensures
        lunar_year_check(year as int) matches Err(e) ==> r == Err::<u8, LunarError>(e),
        lunar_year_supported(year as int) ==> r == Ok::<u8, LunarError>(months_in_year(year as int) as u8),
{
    Ok(if leap_month(year)?.is_some() { 13 } else { 12 })
}

/// Every year holds at least as many months before it as the years before.
pub proof fn lemma_months_before_monotone(a: int, b: int)
    requires
        a <= b,
    ensures
        months_before(a) <= months_before(b),
    decreases b - a,
{
    if a < b {
        lemma_months_before_monotone(a, b - 1);
        if b > MIN_LUNAR_YEAR {
            assert(months_before(b) == months_before(b - 1) + months_in_year(b - 1));
        }
    }
}

impl LunarMonth {
    /// The month `n` months after this one (`n` may be negative).
    ///
    /// # Errors
    ///
    /// Returns [`LunarError::LunarYearOutOfRange`] when the target month lies
    /// after lunar year 9999 (with year `10000`) or before lunar year `-1`
    /// (with year `-2`).
    pub fn next(self, n: i32) -> (r: Result<LunarMonth, LunarError>)
        requires
            self.wf(),
        ensures
            n == 0 ==> r == Ok::<LunarMonth, LunarError>(self),
            0 <= self.position() + n < total_months() ==> (r matches Ok(m) && m.wf()
                && m.position() == self.position() + n),
            self.position() + n >= total_months() ==> r == Err::<LunarMonth, LunarError>(
                LunarError::LunarYearOutOfRange { year: 10_000i32 }),
            self.position() + n < 0 ==> r == Err::<LunarMonth, LunarError>(
                LunarError::LunarYearOutOfRange { year: -2i32 }),
    {
        proof {
            self.lemma_position_bounds();
        }
        if n == 0 {
            return Ok(self);
        }
        let ghost target: int = self.position() + n;
        let mut index: i64 = self.index_in_year() as i64 + 1 + n as i64;
        let mut year: i32 = self.year;
        let mut count: i64 = lunar_year_month_count(year)? as i64;
        proof {
            lemma_months_before_monotone(year as int + 1, MAX_LUNAR_YEAR + 1);
        }
        if n > 0 {
            while index > count
                invariant
                    n > 0,
                    target == self.position() + n,
                    target >= 0,
                    lunar_year_supported(year as int),
                    count == months_in_year(year as int),
                    months_before(year as int) + index - 1 == target,
                    index >= 1,
                    index <= i32::MAX as i64 + 14,
                decreases MAX_LUNAR_YEAR - year,
            {
                index = index - count;
                if year == MAX_LUNAR_YEAR {
                    proof {
                        lemma_months_before_monotone(year as int, year as int);
                    }
                    return Err(LunarError::LunarYearOutOfRange { year: year + 1 });
                }
                year = year + 1;
                count = lunar_year_month_count(year)? as i64;
            }
        } else {
            while index <= 0
                invariant
                    n < 0,
                    target == self.position() + n,
                    target < total_months(),
                    lunar_year_supported(year as int),
                    count == months_in_year(year as int),
                    months_before(year as int) + index - 1 == target,
                    index <= count,
                    index >= i32::MIN as i64 - 14,
                decreases year - MIN_LUNAR_YEAR,
            {
                if year == MIN_LUNAR_YEAR {
                    return Err(LunarError::LunarYearOutOfRange { year: year - 1 });
                }
                year = year - 1;
                count = lunar_year_month_count(year)? as i64;
                index = index + count;
            }
        }
        proof {
            lemma_months_before_monotone(year as int + 1, MAX_LUNAR_YEAR + 1);
            lemma_months_before_monotone(MIN_LUNAR_YEAR as int, year as int);
        }
        let code: u8 = AstronomicalKernel::leap_month_of(year);
        let mut is_leap = false;
        if code > 0 {
            if index == code as i64 + 1 {
                is_leap = true;
            }
            if index > code as i64 {
                index = index - 1;
            }
        }
        let month = index as i8;
        let month_with_leap: i8 = if is_leap { -month } else { month };
        let result = Self::from_ym(year, month_with_leap);
        result
    }
}

/// Ten-thousandths of a day in the mean lunation by which month starts are
/// estimated.
pub const MEAN_LUNATION: i64 = 295_306;
/// Ten-thousandths of a day stepped back when the new moon found near the
/// winter solstice lies after it.
pub const SOLSTICE_STEP_BACK: i64 = 295_300;
/// Day number of J2000, the origin of the new-moon and solar-term days.
pub const J2000_DAY: i64 = 2_451_545;

/// How many lunations after the new moon at the winter solstice the first
/// month of lunar year `year` starts, given the leap month of the year
/// before: one in years `9..=23`, three after a leap month past the tenth
/// (years 239 and 240 excepted), two otherwise.
pub open spec fn first_month_offset(year: int, previous_leap: int) -> int {
    if 8 < year < 24 {
        1
    } else if previous_leap > 10 && year != 239 && year != 240 {
        3
    } else {
        2
    }
}

/// The estimated start (ten-thousandths of a day after J2000) of the month
/// at `index` of lunar year `year`, from the year's winter-solstice day
/// `solstice`, the new-moon day `solstice_new_moon` found near it, and the
/// leap month of the year before.
pub open spec fn new_moon_estimate(
    year: int,
    index: int,
    solstice: int,
    solstice_new_moon: int,
    previous_leap: int,
) -> int {
    let start = if solstice_new_moon > solstice {
        10000 * solstice_new_moon - SOLSTICE_STEP_BACK
    } else {
        10000 * solstice_new_moon
    };
    start + MEAN_LUNATION * (first_month_offset(year, previous_leap) + index)
}

/// The whole day nearest to `x` ten-thousandths of a day (halves round up).
pub open spec fn nearest_day(x: int) -> int {
    (x + 5000) / 10000
}

/// The leap month of the lunar year before `year`; lunar year `-1` has no
/// year before it in the table and counts as following a year without one.
pub open spec fn previous_leap_number(year: int) -> int {
    if year == MIN_LUNAR_YEAR { 0 } else { leap_month_number(year - 1) }
}

/// A month length from the day numbers of its first day and of the next
/// month's first day, saturated to a byte.
pub open spec fn lunation_days_of(first: int, next: int) -> int {
    if next - first < 0 {
        0
    } else if next - first > 255 {
        255
    } else {
        next - first
    }
}

fn round_to_day(x: i128) -> (r: i128)
    requires
        -1_000_000_000_000_000_000_000_000_000_000i128 <= x <= 1_000_000_000_000_000_000_000_000_000_000i128,
    ensures
        r == nearest_day(x as int),
{
    let shifted: u128 = (x + 5000 + 10_000_000_000_000_000_000_000_000_000_000_000i128) as u128;
    let q: u128 = shifted / 10000;
    let rem: u128 = shifted % 10000;
    proof {
        vstd::arithmetic::div_mod::lemma_fundamental_div_mod(shifted as int, 10000);
        vstd::arithmetic::div_mod::lemma_fundamental_div_mod_converse(
            x + 5000,
            10000,
            q - 1_000_000_000_000_000_000_000_000_000_000int,
            rem as int,
        );
    }
    q as i128 - 1_000_000_000_000_000_000_000_000_000_000i128
}

/// The day (counted from J2000) around which the new moon is sought that
/// starts the month at `index` of lunar year `year`, or, with
/// `lunations_after` set, a later month: the estimate of
/// [`new_moon_estimate`] advanced by `lunations_after` mean lunations and
/// rounded to the nearest day.
pub fn new_moon_probe_day(
    year: i32,
    index: u8,
    solstice: i64,
    solstice_new_moon: i64,
    previous_leap: u8,
    lunations_after: u8,
) -> (r: i128)
    ensures
        r == nearest_day(
            new_moon_estimate(
                year as int,
                index as int,
                solstice as int,
                solstice_new_moon as int,
                previous_leap as int,
            ) + MEAN_LUNATION * lunations_after,
        ),
{
    let mut start: i128 = solstice_new_moon as i128 * 10000;
    if solstice_new_moon > solstice {
        start = start - SOLSTICE_STEP_BACK as i128;
    }
    let offset: i128 = if 8 < year && year < 24 {
        1
    } else if previous_leap > 10 && year != 239 && year != 240 {
        3
    } else {
        2
    };
    let estimate: i128 = start + MEAN_LUNATION as i128 * (offset + index as i128 + lunations_after as i128);
    round_to_day(estimate)
}

/// A month ends where the next month of its year begins: the day around
/// which the new moon after the month at `index` is sought (one mean
/// lunation past its own estimate) is the day sought for the month at
/// `index + 1`.
pub proof fn lemma_month_end_probe_is_next_start(
    year: int,
    index: int,
    solstice: int,
    solstice_new_moon: int,
    previous_leap: int,
)
    ensures
        nearest_day(new_moon_estimate(year, index, solstice, solstice_new_moon, previous_leap) + MEAN_LUNATION)
            == nearest_day(new_moon_estimate(year, index + 1, solstice, solstice_new_moon, previous_leap)),
{
    let k = first_month_offset(year, previous_leap);
    assert(MEAN_LUNATION * (k + index) + MEAN_LUNATION == MEAN_LUNATION * (k + index + 1)) by (nonlinear_arith);
}

/// The length of a month whose first day has day number `first` and whose
/// successor starts on day number `next`, saturated to `0..=255`.
pub fn lunation_days(first: i64, next: i64) -> (r: u8)
    ensures
        r == lunation_days_of(first as int, next as int),
{
    let diff: i128 = next as i128 - first as i128;
    if diff < 0 {
        0
    } else if diff > 255 {
        255
    } else {
        diff as u8
    }
}

/// The day number of the day `day` days after J2000 (saturating at the
/// largest day number).
pub fn day_number_after_j2000(day: i64) -> (r: i64)
    ensures
        day + J2000_DAY <= i64::MAX ==> r == day + J2000_DAY,
        day + J2000_DAY > i64::MAX ==> r == i64::MAX,
{
    if day > i64::MAX - J2000_DAY {
        i64::MAX
    } else {
        day + J2000_DAY
    }
}

fn previous_leap_month(year: i32) -> (r: u8)
    requires
        lunar_year_supported(year as int),
    ensures
        r == previous_leap_number(year as int),
{
    if year == MIN_LUNAR_YEAR {
        0
    } else {
        AstronomicalKernel::leap_month_of(year - 1)
    }
}

impl LunarMonth {
    /// The days (counted from J2000) around which the new moons that start
    /// this month and the next are sought.
    fn new_moon_probes(self) -> (r: (i128, i128))
        requires
            self.wf(),
    {
        let solstice = AstronomicalKernel::winter_solstice_day_of(self.year);
        let solstice_new_moon = AstronomicalKernel::new_moon_near(solstice as i128);
        let previous_leap = previous_leap_month(self.year);
        let index = self.index_in_year();
        let start = new_moon_probe_day(self.year, index, solstice, solstice_new_moon, previous_leap, 0);
        let next = new_moon_probe_day(self.year, index, solstice, solstice_new_moon, previous_leap, 1);
        (start, next)
    }

    /// The number of days of the month: the days between the new moon that
    /// starts it and the one that starts the next month. The new moons come
    /// from a floating-point computation, so only success is stated.
    pub fn day_count(self) -> (r: Result<u8, LunarError>)
        requires
            self.wf(),
        ensures
            r is Ok,
    {
        let (start, next) = self.new_moon_probes();
        let first = AstronomicalKernel::new_moon_near(start);
        let following = AstronomicalKernel::new_moon_near(next);
        Ok(lunation_days(first, following))
    }

    /// Day number (Julian Day at noon) of the month's first day, the day of
    /// the new moon that starts it. The new moon comes from a floating-point
    /// computation, so only success is stated.
    pub fn first_julian_day(self) -> (r: Result<i64, LunarError>)
        requires
            self.wf(),
        ensures
            r is Ok,
    {
        let (start, _) = self.new_moon_probes();
        let day = AstronomicalKernel::new_moon_near(start);
        Ok(day_number_after_j2000(day))
    }

    /// Solar date of the month's first day: the date of the day number that
    /// [`LunarMonth::first_julian_day`] gives.
    pub fn first_solar_date(self) -> (r: Result<SolarDate, LunarError>)
        requires
            self.wf(),
        ensures
            exists|n: i64| r == #[trigger] day_number_date(n as int),
    {
        let day = self.first_julian_day()?;
        let r = to_solar_date(day);
        assert(r == day_number_date(day as int));
        r
    }
}

/// The supported lunar month at position `p` of the sequence of all months.
pub open spec fn month_at(p: int) -> LunarMonth {
    choose|m: LunarMonth| m.wf() && m.position() == p
}

/// A day number that has a date in the handled range has it as its
/// [`day_number_date`].
pub proof fn lemma_day_number_date_any(n: int)
    requires
        day_number_date(n) is Ok,
    ensures
        crate::julian_day::jdn_in_domain(n),
{
}

/// The lunar year that holds position `p`, searching from year `y` on.
proof fn lemma_year_holding(p: int, y: int) -> (r: int)
    requires
        lunar_year_supported(y),
        months_before(y) <= p < total_months(),
    ensures
        lunar_year_supported(r),
        months_before(r) <= p < months_before(r + 1),
    decreases MAX_LUNAR_YEAR - y,
{
    if p < months_before(y + 1) {
        y
    } else {
        if y == MAX_LUNAR_YEAR {
            assert(false);
        }
        lemma_year_holding(p, y + 1)
    }
}

/// Every position of the supported months holds a well-formed month.
pub proof fn lemma_month_at_wf(p: int)
    requires
        0 <= p < total_months(),
    ensures
        month_at(p).wf(),
        month_at(p).position() == p,
{
    let y = lemma_year_holding(p, MIN_LUNAR_YEAR as int);
    let idx = p - months_before(y);
    let code = leap_month_number(y);
    let m = if code != 0 && idx == code {
        LunarMonth::lemma_leap(y);
        LunarMonth::spec_leap(y)
    } else if code != 0 && idx > code {
        LunarMonth::lemma_regular(y, idx);
        LunarMonth::spec_regular(y, idx)
    } else {
        LunarMonth::lemma_regular(y, idx + 1);
        LunarMonth::spec_regular(y, idx + 1)
    };
    assert(m.wf() && m.position() == p);
    m.lemma_is_month_at();
}

impl LunarMonth {
    /// The regular month `month` of lunar year `year`.
    pub closed spec fn spec_regular(year: int, month: int) -> LunarMonth {
        LunarMonth { year: year as i32, month: month as u8, is_leap: false }
    }

    /// A regular month of a supported year is well formed.
    pub proof fn lemma_regular(year: int, month: int)
        requires
            lunar_year_supported(year),
            1 <= month <= 12,
        ensures
            LunarMonth::spec_regular(year, month).wf(),
            LunarMonth::spec_regular(year, month).year_of() == year,
            LunarMonth::spec_regular(year, month).month_of() == month,
            !LunarMonth::spec_regular(year, month).leap_of(),
    {
    }

    /// The leap month of a supported year that has one is well formed.
    pub proof fn lemma_leap(year: int)
        requires
            lunar_year_supported(year),
            leap_month_number(year) != 0,
        ensures
            LunarMonth::spec_leap(year).wf(),
            LunarMonth::spec_leap(year).year_of() == year,
            LunarMonth::spec_leap(year).month_of() == leap_month_number(year),
            LunarMonth::spec_leap(year).leap_of(),
    {
    }

    /// The leap month of lunar year `year`.
    pub closed spec fn spec_leap(year: int) -> LunarMonth {
        LunarMonth { year: year as i32, month: leap_month_number(year) as u8, is_leap: true }
    }

    /// Well-formed months at the same position are the same month.
    pub proof fn lemma_position_injective(self, other: LunarMonth)
        requires
            self.wf(),
            other.wf(),
            self.position() == other.position(),
        ensures
            self == other,
    {
        let y1 = self.year_of();
        let y2 = other.year_of();
        if y1 < y2 {
            lemma_months_before_monotone(y1 + 1, y2);
        } else if y2 < y1 {
            lemma_months_before_monotone(y2 + 1, y1);
        }
        assert(y1 == y2);
    }

    /// A well-formed month is the month at its position.
    pub proof fn lemma_is_month_at(self)
        requires
            self.wf(),
        ensures
            month_at(self.position()) == self,
    {
        let p = self.position();
        assert(exists|m: LunarMonth| m.wf() && m.position() == p);
        let chosen = month_at(p);
        chosen.lemma_position_injective(self);
    }
}

/// Month navigation is invertible: the month `n` months before the month `n`
/// months after `m` is `m` itself (what [`LunarMonth::next`] gives for `n`
/// and then for `-n`).
pub proof fn lemma_next_round_trip(m: LunarMonth, forward: LunarMonth, back: LunarMonth, n: int)
    requires
        m.wf(),
        forward.wf(),
        back.wf(),
        forward.position() == m.position() + n,
        back.position() == forward.position() - n,
    ensures
        back == m,
{
    back.lemma_position_injective(m);
}

fn unsigned_month(month_with_leap: i8) -> (r: u8)
    ensures
        r == month_number(month_with_leap),
{
    if month_with_leap < 0 {
        (-(month_with_leap as i16)) as u8
    } else {
        month_with_leap as u8
    }
}

fn invalid_lunar_month(year: i32, month: u8, is_leap_month: bool) -> (r: LunarError)
    ensures
        r == (LunarError::InvalidLunarMonth { year, month, is_leap_month }),
{
    LunarError::InvalidLunarMonth { year, month, is_leap_month }
}

} // verus!
