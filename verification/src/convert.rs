//! Conversion between solar and lunar dates.
//!
//! New-moon days and month lengths come from floating-point computations, so
//! the conversions are specified over the values those lookups return: for
//! each conversion a spec function gives the result for given values, and
//! the executable function returns that result for the values it obtained.

use crate::calendar::{
    day_number_date, days_between, solar_date_check, solar_jdn, to_solar_date, valid_solar_date,
    validate_solar_date,
};
use crate::date::{LunarDate, SolarDate};
use crate::error::LunarError;
use crate::lunar_calendar::{index_in_year_of, month_at, months_before, LunarMonth};
use crate::normalize::{normalize_lunar_date, normalize_result};
use vstd::prelude::*;

verus! {

/// Position of the month from which [`solar_to_lunar`] starts its search:
/// the regular month with the solar month's number in the lunar year with
/// the solar year's number.
pub open spec fn start_position(date: SolarDate) -> int {
    months_before(date.year as int) + index_in_year_of(date.year as int, date.month as int, false)
}

/// The sum of the first `k` of the month lengths `lens`.
pub open spec fn lens_sum(lens: Seq<u8>, k: int) -> int
    decreases k,
{
    if k <= 0 {
        0
    } else {
        lens_sum(lens, k - 1) + lens[k - 1] as int
    }
}

/// Walks back from the month at position `p`, holding a day `offset` days
/// after that month's first day: while the offset is negative it steps to
/// the month before and adds that month's length, the next of `lens`.
/// Yields the month reached and the offset in it; there is no month before
/// position `0`, so stepping back from it reports lunar year `-2` out of
/// range.
pub open spec fn back_search(p: int, offset: int, lens: Seq<u8>) -> Result<(int, int), LunarError>
    decreases p,
{
    if offset >= 0 {
        Ok((p, offset))
    } else if p <= 0 {
        Err(LunarError::LunarYearOutOfRange { year: -2i32 })
    } else {
        back_search(p - 1, offset + lens[0] as int, lens.drop_first())
    }
}

/// Whether `lens` holds a length for every month that [`back_search`] from
/// position `p` and offset `offset` steps back over.
pub open spec fn lens_cover(p: int, offset: int, lens: Seq<u8>) -> bool
    decreases p,
{
    if offset >= 0 || p <= 0 {
        true
    } else {
        lens.len() > 0 && lens_cover(p - 1, offset + lens[0] as int, lens.drop_first())
    }
}

/// Whether `lens` covers the walk back of [`solar_to_lunar_given`] for
/// `date` from the first day `first` (always, where an earlier check fails).
pub open spec fn lookups_cover(date: SolarDate, first: int, lens: Seq<u8>) -> bool {
    solar_date_check(date) is Ok && day_number_date(first) is Ok && solar_date_check(
        day_number_date(first)->Ok_0,
    ) is Ok ==> lens_cover(
        start_position(date),
        solar_jdn(date) - solar_jdn(day_number_date(first)->Ok_0),
        lens,
    )
}

/// The lunar date `offset + 1` of the month at position `p`.
pub open spec fn lunar_date_at(p: int, offset: int) -> LunarDate {
    LunarDate {
        year: month_at(p).year_of() as i32,
        month: month_at(p).month_of() as u8,
        day: #[verifier::truncate] ((offset + 1) as u8),
        is_leap_month: month_at(p).leap_of(),
    }
}

/// What [`solar_to_lunar`] returns for `date` when the start month's first
/// day has day number `first` and the months it walks back through have the
/// lengths `lens`, in order.
pub open spec fn solar_to_lunar_given(date: SolarDate, first: int, lens: Seq<u8>) -> Result<LunarDate, LunarError> {
    if solar_date_check(date) is Err {
        Err(solar_date_check(date)->Err_0)
    } else {
        let first_date = day_number_date(first);
        if first_date is Err {
            Err(first_date->Err_0)
        } else if solar_date_check(first_date->Ok_0) is Err {
            Err(solar_date_check(first_date->Ok_0)->Err_0)
        } else {
            let found = back_search(start_position(date), solar_jdn(date) - solar_jdn(first_date->Ok_0), lens);
            if found is Err {
                Err(found->Err_0)
            } else {
                Ok(lunar_date_at(found->Ok_0.0, found->Ok_0.1))
            }
        }
    }
}

/// What [`solar_to_lunar`] may return for `date`: its result for some first
/// day of the start month and some lengths of the months walked through.
pub open spec fn solar_to_lunar_outcome(date: SolarDate, r: Result<LunarDate, LunarError>) -> bool {
    exists|first: int, lens: Seq<u8>| r == #[trigger] solar_to_lunar_given(date, first, lens)
}

/// The lunar date of `date`, given the day number `first_day` of the first
/// day of the start month (the regular month with the solar month's number
/// in the lunar year with the solar year's number) and the lengths
/// `month_lengths` of the months before it, latest first: the search walks
/// back month by month, adding each length, until the date is no longer
/// before the month's first day.
///
/// # Errors
///
/// Returns [`LunarError::InvalidSolarDate`] or
/// [`LunarError::SolarYearOutOfRange`] for a date (or a first day) that is
/// not a supported solar date, and [`LunarError::LunarYearOutOfRange`] (year
/// `-2`) when the walk would pass the first supported lunar month.
pub fn lunar_date_from_lookups(date: SolarDate, first_day: i64, month_lengths: &[u8]) -> (r: Result<
    LunarDate,
    LunarError,
>)
    requires
        lookups_cover(date, first_day as int, month_lengths@),
    ensures
        r == solar_to_lunar_given(date, first_day as int, month_lengths@),
        r matches Ok(l) ==> 1 <= l.month <= 12,
{
    validate_solar_date(date)?;
    let first = to_solar_date(first_day)?;
    validate_solar_date(first)?;
    proof {
        crate::lunar_calendar::lemma_day_number_date_any(first_day as int);
        crate::calendar::lemma_day_number_date_ok(first_day as int);
        crate::calendar::lemma_solar_jdn_bounds(first);
        crate::calendar::lemma_solar_jdn_bounds(date);
    }
    let mut offset = days_between(first, date)?;
    let mut month = LunarMonth::from_ym(date.year, date.month as i8).unwrap();
    let ghost lens = month_lengths@;
    let ghost p0 = start_position(date);
    let ghost off0 = offset as int;
    proof {
        lemma_start_month(date);
        LunarMonth::lemma_regular(date.year as int, date.month as int);
        month.lemma_is_month_at();
        assert(month.position() == p0);
        assert(lens.skip(0) =~= lens);
        assert(day_number_date(first_day as int) == Ok::<SolarDate, LunarError>(first));
        assert(off0 == solar_jdn(date) - solar_jdn(first));
    }
    let mut i: usize = 0;
    while offset < 0
        invariant
            month.wf(),
            0 <= i <= month_lengths.len(),
            lens == month_lengths@,
            -4_000_000 <= offset <= 4_000_000,
            back_search(p0, off0, lens) == back_search(month.position(), offset as int, lens.skip(i as int)),
            lens_cover(month.position(), offset as int, lens.skip(i as int)),
            solar_date_check(date) is Ok,
            day_number_date(first_day as int) == Ok::<SolarDate, LunarError>(first),
            solar_date_check(first) is Ok,
            p0 == start_position(date),
            off0 == solar_jdn(date) - solar_jdn(first),
        decreases month.position(),
    {
        proof {
            month.lemma_position_bounds();
        }
        let previous = match month.next(-1) {
            Ok(previous) => previous,
            Err(e) => {
                return Err(e);
            },
        };
        proof {
            assert(lens.skip(i as int).drop_first() =~= lens.skip(i as int + 1));
        }
        offset = offset + month_lengths[i] as i32;
        i = i + 1;
        month = previous;
    }
    proof {
        month.lemma_is_month_at();
        month.lemma_wf();
        month.lemma_position_bounds();
    }
    Ok(
        LunarDate {
            year: month.year(),
            month: month.month(),
            day: #[verifier::truncate] ((offset + 1) as u8),
            is_leap_month: month.is_leap(),
        },
    )
}

/// Converts a Gregorian (solar) date to its Chinese lunar date.
///
/// The search starts at the lunar month with the solar month's number in the
/// lunar year with the solar year's number, and walks back month by month
/// until the date is no longer before the month's first day (see
/// [`lunar_date_from_lookups`], which this calls with the first day and the
/// month lengths it looked up).
///
/// # Errors
///
/// Returns [`LunarError::InvalidSolarDate`] if `date` is not a real calendar
/// date, or [`LunarError::SolarYearOutOfRange`] if it falls outside solar years
/// `1..=9999`.
pub fn solar_to_lunar(date: SolarDate) -> (r: Result<LunarDate, LunarError>)
    ensures
        solar_to_lunar_outcome(date, r),
        r matches Ok(l) ==> 1 <= l.month <= 12,
{
    let mut lengths: Vec<u8> = Vec::new();
    if validate_solar_date(date).is_err() {
        return lunar_date_from_lookups(date, 0, lengths.as_slice());
    }
    let mut month = LunarMonth::from_ym(date.year, date.month as i8).unwrap();
    proof {
        month.lemma_wf();
    }
    let first_day = month.first_julian_day().unwrap();
    let first = match to_solar_date(first_day) {
        Ok(first) => first,
        Err(_) => return lunar_date_from_lookups(date, first_day, lengths.as_slice()),
    };
    if validate_solar_date(first).is_err() {
        return lunar_date_from_lookups(date, first_day, lengths.as_slice());
    }
    proof {
        crate::calendar::lemma_solar_jdn_bounds(first);
        crate::calendar::lemma_solar_jdn_bounds(date);
    }
    let mut offset = days_between(first, date).unwrap();
    let ghost p0 = month.position();
    let ghost off0 = offset as int;
    proof {
        LunarMonth::lemma_regular(date.year as int, date.month as int);
        month.lemma_position_bounds();
        assert(p0 == start_position(date));
        assert forall|s: Seq<u8>| lens_cover(month.position(), offset as int, s) implies #[trigger] lens_cover(
            p0,
            off0,
            lengths@ + s,
        ) by {
            assert(lengths@ + s =~= s);
        }
    }
    while offset < 0
        invariant
            month.wf(),
            offset <= 4_000_000,
            forall|s: Seq<u8>| lens_cover(month.position(), offset as int, s) ==> #[trigger] lens_cover(
                p0,
                off0,
                lengths@ + s,
            ),
        ensures
            offset >= 0 || month.position() <= 0,
        decreases month.position(),
    {
        proof {
            month.lemma_position_bounds();
        }
        let previous = match month.next(-1) {
            Ok(previous) => previous,
            Err(_) => {
                break;
            },
        };
        proof {
            previous.lemma_wf();
        }
        let days = previous.day_count().unwrap();
        proof {
            let old_lengths = lengths@;
            let p = month.position();
            let o = offset as int;
            assert forall|s: Seq<u8>| lens_cover(p - 1, o + days as int, s) implies #[trigger] lens_cover(
                p0,
                off0,
                old_lengths.push(days) + s,
            ) by {
                let s2 = seq![days] + s;
                assert(old_lengths.push(days) + s =~= old_lengths + s2);
                assert(s2.drop_first() =~= s);
                assert(lens_cover(p, o, s2));
            }
        }
        lengths.push(days);
        month = previous;
        offset = offset + days as i32;
    }
    proof {
        month.lemma_position_bounds();
        assert(lengths@ + Seq::<u8>::empty() =~= lengths@);
        assert(lens_cover(month.position(), offset as int, Seq::<u8>::empty()));
    }
    lunar_date_from_lookups(date, first_day, lengths.as_slice())
}

/// The signed month number of a lunar date: negated for the leap instance.
pub open spec fn signed_month_of(date: LunarDate) -> int {
    if date.is_leap_month { -(date.month as int) } else { date.month as int }
}

/// What [`lunar_to_solar`] returns for `date` when its normalized month has
/// `days` days and its first day has day number `first`.
pub open spec fn lunar_to_solar_given(date: LunarDate, days: int, first: int) -> Result<SolarDate, LunarError> {
    let normalized = normalize_result(date, days);
    if normalized is Err {
        Err(normalized->Err_0)
    } else {
        let solar = day_number_date(first + normalized->Ok_0.day - 1);
        if solar is Err {
            Err(solar->Err_0)
        } else if solar_date_check(solar->Ok_0) is Err {
            Err(solar_date_check(solar->Ok_0)->Err_0)
        } else {
            Ok(solar->Ok_0)
        }
    }
}

/// What [`lunar_to_solar`] may return for `date`: its result for some length
/// and some first day of the normalized date's month.
pub open spec fn lunar_to_solar_outcome(date: LunarDate, r: Result<SolarDate, LunarError>) -> bool {
    exists|days: u8, first: i64| r == #[trigger] lunar_to_solar_given(date, days as int, first as int)
}

/// Converts a Chinese lunar date to its Gregorian (solar) date.
///
/// The input is first normalized: an `is_leap_month` flag on a month that has
/// no leap instance in that year is dropped (see [`normalize_lunar_date`]).
///
/// # Errors
///
/// Returns [`LunarError::InvalidLunarDate`] if the date does not exist,
/// [`LunarError::LunarYearOutOfRange`] if the lunar year is outside `-1..=9999`,
/// or [`LunarError::SolarYearOutOfRange`] if the resulting solar date is outside
/// solar years `1..=9999`.
pub fn lunar_to_solar(date: LunarDate) -> (r: Result<SolarDate, LunarError>)
    ensures
        lunar_to_solar_outcome(date, r),
        r matches Ok(s) ==> valid_solar_date(s),
{
    let normalized = normalize_lunar_date(date);
    let ghost days: u8 = choose|days: u8| normalized == #[trigger] normalize_result(date, days as int);
    let n = match normalized {
        Ok(n) => n,
        Err(e) => {
            let r = Err(e);
            assert(r == lunar_to_solar_given(date, days as int, 0i64 as int));
            return r;
        },
    };
    let month_with_leap: i8 = if n.is_leap_month { -(n.month as i8) } else { n.month as i8 };
    let month = LunarMonth::from_ym(n.year, month_with_leap).unwrap();
    proof {
        month.lemma_wf();
    }
    let first = month.first_julian_day().unwrap();
    if first > i64::MAX - 31 {
        let r = Err(LunarError::SolarYearOutOfRange { year: i32::MAX });
        proof {
            crate::calendar::lemma_domain_upper_bound();
            assert(r == lunar_to_solar_given(date, days as int, first as int));
        }
        return r;
    }
    let solar_result = to_solar_date(first + n.day as i64 - 1);
    let solar = match solar_result {
        Ok(s) => s,
        Err(e) => {
            let r = Err(e);
            assert(r == lunar_to_solar_given(date, days as int, first as int));
            return r;
        },
    };
    if let Err(e) = validate_solar_date(solar) {
        let r = Err(e);
        assert(r == lunar_to_solar_given(date, days as int, first as int));
        return r;
    }
    let r = Ok(solar);
    assert(r == lunar_to_solar_given(date, days as int, first as int));
    r
}

/// Summing `k` lengths is the first length plus `k - 1` of the rest.
proof fn lemma_lens_sum_shift(lens: Seq<u8>, k: int)
    requires
        1 <= k <= lens.len(),
    ensures
        lens_sum(lens, k) == lens[0] as int + lens_sum(lens.drop_first(), k - 1),
    decreases k,
{
    let rest = lens.drop_first();
    if k > 1 {
        lemma_lens_sum_shift(lens, k - 1);
        assert(rest[k - 2] == lens[k - 1]);
        assert(lens_sum(rest, k - 1) == lens_sum(rest, k - 2) + rest[k - 2] as int);
    } else {
        assert(lens_sum(rest, 0) == 0);
        assert(lens_sum(lens, 1) == lens_sum(lens, 0) + lens[0] as int);
    }
}

/// What a successful walk back did: it stepped back `k` months, adding the
/// first `k` lengths; and it stopped at the first non-negative offset.
proof fn lemma_back_search_walk(p: int, offset: int, lens: Seq<u8>)
    requires
        p >= 0,
        back_search(p, offset, lens) is Ok,
    ensures
        ({
            let (found, off) = back_search(p, offset, lens)->Ok_0;
            let k = p - found;
            &&& 0 <= found <= p
            &&& off >= 0
            &&& k <= lens.len() ==> off == offset + lens_sum(lens, k)
            &&& (0 < k <= lens.len()) ==> offset + lens_sum(lens, k - 1) < 0
        }),
    decreases p,
{
    if offset < 0 {
        let rest = lens.drop_first();
        let o2 = offset + lens[0] as int;
        assert(back_search(p, offset, lens) == back_search(p - 1, o2, rest));
        lemma_back_search_walk(p - 1, o2, rest);
        let (found, off) = back_search(p, offset, lens)->Ok_0;
        let k = p - found;
        assert(k >= 1);
        if k <= lens.len() {
            lemma_lens_sum_shift(lens, k);
            assert(off == offset + lens_sum(lens, k));
            if k > 1 {
                lemma_lens_sum_shift(lens, k - 1);
                assert(offset + lens_sum(lens, k - 1) == o2 + lens_sum(rest, k - 2));
            } else {
                assert(lens_sum(lens, 0) == 0);
            }
        }
        if k == 1 {
            assert(found == p - 1);
        }
    } else {
        assert(back_search(p, offset, lens) == Ok::<(int, int), LunarError>((p, offset)));
    }
}

/// A walk back whose offset stays negative for `k` steps and then turns
/// non-negative stops `k` months back.
proof fn lemma_back_search_reaches(p: int, offset: int, lens: Seq<u8>, k: int)
    requires
        0 <= k <= p,
        k <= lens.len(),
        forall|i: int| 0 <= i < k ==> offset + #[trigger] lens_sum(lens, i) < 0,
        offset + lens_sum(lens, k) >= 0,
    ensures
        back_search(p, offset, lens) == Ok::<(int, int), LunarError>((p - k, offset + lens_sum(lens, k))),
    decreases k,
{
    if k > 0 {
        assert(offset + lens_sum(lens, 0) < 0);
        let rest = lens.drop_first();
        let o2 = offset + lens[0] as int;
        assert forall|i: int| 0 <= i < k - 1 implies o2 + #[trigger] lens_sum(rest, i) < 0 by {
            lemma_lens_sum_shift(lens, i + 1);
            assert(offset + lens_sum(lens, i + 1) < 0);
        }
        lemma_lens_sum_shift(lens, k);
        lemma_back_search_reaches(p - 1, o2, rest, k - 1);
    }
}

/// The regular month with the solar month's number, in the lunar year with
/// the solar year's number, is the month at the start position.
proof fn lemma_start_month(date: SolarDate)
    requires
        valid_solar_date(date),
    ensures
        month_at(start_position(date)) == LunarMonth::spec_regular(date.year as int, date.month as int),
        0 <= start_position(date) < crate::lunar_calendar::total_months(),
        month_at(start_position(date)).year_of() == date.year,
{
    LunarMonth::lemma_regular(date.year as int, date.month as int);
    let m = LunarMonth::spec_regular(date.year as int, date.month as int);
    m.lemma_is_month_at();
    m.lemma_position_bounds();
}

/// Solar round trip: converting a supported solar date to its lunar date and
/// back gives the same solar date, when the lookups answer consistently:
/// the first day given for the lunar month found is the start month's first
/// day less the lengths walked back over, and the length given for it is the
/// length the walk used (for the start month itself, one that covers the
/// date), at most 30 days.
pub proof fn lemma_solar_round_trip(date: SolarDate, first: int, lens: Seq<u8>, days: u8, first_back: int)
    requires
        solar_to_lunar_given(date, first, lens) is Ok,
        ({
            let found = back_search(start_position(date), solar_jdn(date) - first, lens)->Ok_0.0;
            let k = start_position(date) - found;
            &&& k <= lens.len()
            &&& first_back == first - lens_sum(lens, k)
            &&& days <= 30
            &&& k > 0 ==> days == lens[k - 1]
            &&& k == 0 ==> solar_jdn(date) - first < days
        }),
    ensures
        lunar_to_solar_given(solar_to_lunar_given(date, first, lens)->Ok_0, days as int, first_back)
            == Ok::<SolarDate, LunarError>(date),
{
    assert(valid_solar_date(date));
    crate::lunar_calendar::lemma_day_number_date_any(first);
    crate::calendar::lemma_day_number_date_ok(first);
    lemma_start_month(date);
    let p0 = start_position(date);
    let off0 = solar_jdn(date) - first;
    lemma_back_search_walk(p0, off0, lens);
    let (found, off) = back_search(p0, off0, lens)->Ok_0;
    let k = p0 - found;
    if k > 0 {
        assert(off == off0 + lens_sum(lens, k - 1) + lens[k - 1] as int);
    }
    assert(0 <= off < days);
    crate::lunar_calendar::lemma_month_at_wf(found);
    month_at(found).lemma_wf();
    let l = lunar_date_at(found, off);
    assert(l.day == off + 1);
    assert(normalize_result(l, days as int) == Ok::<LunarDate, LunarError>(l));
    assert(first_back + l.day - 1 == solar_jdn(date));
    crate::calendar::lemma_valid_date_in_domain(date);
    crate::calendar::lemma_day_number_date(solar_jdn(date), Ok(date));
}

/// The well-formed month that a lunar date names by year, number and leap flag.
pub open spec fn month_named(date: LunarDate) -> LunarMonth {
    if date.is_leap_month {
        LunarMonth::spec_leap(date.year as int)
    } else {
        LunarMonth::spec_regular(date.year as int, date.month as int)
    }
}

/// Lunar round trip: converting a lunar date to its solar date and back
/// gives the normalized lunar date, when the lookups answer consistently:
/// the first day given for the month where the walk back starts is a
/// supported date, that month is not earlier than the date's month, the
/// lengths walked back over lead from its first day exactly to the first day
/// given for the date's month, and the walk does not stop before it.
pub proof fn lemma_lunar_round_trip(date: LunarDate, days: u8, first: int, first_s: int, lens: Seq<u8>)
    requires
        lunar_to_solar_given(date, days as int, first) is Ok,
        ({
            let n = normalize_result(date, days as int)->Ok_0;
            let s = lunar_to_solar_given(date, days as int, first)->Ok_0;
            let k = start_position(s) - month_named(n).position();
            &&& 0 <= k <= lens.len()
            &&& day_number_date(first_s) is Ok
            &&& solar_date_check(day_number_date(first_s)->Ok_0) is Ok
            &&& first_s - lens_sum(lens, k) == first
            &&& forall|i: int| 0 <= i < k ==> first_s - #[trigger] lens_sum(lens, i) > solar_jdn(s)
        }),
    ensures
        solar_to_lunar_given(lunar_to_solar_given(date, days as int, first)->Ok_0, first_s, lens)
            == normalize_result(date, days as int),
{
    let n = normalize_result(date, days as int)->Ok_0;
    let s = lunar_to_solar_given(date, days as int, first)->Ok_0;
    let named = month_named(n);
    if n.is_leap_month {
        LunarMonth::lemma_leap(n.year as int);
    } else {
        LunarMonth::lemma_regular(n.year as int, n.month as int);
    }
    named.lemma_is_month_at();
    named.lemma_position_bounds();
    let pn = named.position();
    crate::lunar_calendar::lemma_day_number_date_any(first + n.day - 1);
    crate::calendar::lemma_day_number_date_ok(first + n.day - 1);
    assert(solar_jdn(s) == first + n.day - 1);
    assert(valid_solar_date(s));
    lemma_start_month(s);
    let p0 = start_position(s);
    crate::lunar_calendar::lemma_day_number_date_any(first_s);
    crate::calendar::lemma_day_number_date_ok(first_s);
    let k = p0 - pn;
    let off0 = solar_jdn(s) - first_s;
    assert forall|i: int| 0 <= i < k implies off0 + #[trigger] lens_sum(lens, i) < 0 by {
        assert(first_s - lens_sum(lens, i) > solar_jdn(s));
    }
    lemma_back_search_reaches(p0, off0, lens, k);
    assert(lunar_date_at(pn, n.day - 1) == n);
}

/// Converting a lunar date to solar gives what converting its normalized
/// form gives, for the same looked-up length and first day: a leap flag on a
/// month without a leap instance is ignored.
pub proof fn lemma_lunar_to_solar_ignores_fake_leap(date: LunarDate, days: int, first: int)
    requires
        normalize_result(date, days) is Ok,
    ensures
        lunar_to_solar_given(normalize_result(date, days)->Ok_0, days, first) == lunar_to_solar_given(date, days, first),
{
    crate::normalize::lemma_normalize_idempotent(date, days);
}

/// A lunar date converts to the first day of the month it names plus
/// `day - 1`: for the same looked-up length and first day, two days of one
/// lunar month convert to solar dates exactly as many days apart.
pub proof fn lemma_lunar_to_solar_counts_days(date: LunarDate, other_day: u8, days: int, first: int)
    requires
        lunar_to_solar_given(date, days, first) is Ok,
        lunar_to_solar_given((LunarDate { day: other_day, ..date }), days, first) is Ok,
    ensures
        solar_jdn(lunar_to_solar_given(date, days, first)->Ok_0) - solar_jdn(
            lunar_to_solar_given((LunarDate { day: other_day, ..date }), days, first)->Ok_0,
        ) == date.day - other_day,
{
    let other = LunarDate { day: other_day, ..date };
    let n = normalize_result(date, days)->Ok_0;
    let m = normalize_result(other, days)->Ok_0;
    assert(n.day == date.day);
    assert(m.day == other_day);
    crate::lunar_calendar::lemma_day_number_date_any(first + n.day - 1);
    crate::calendar::lemma_day_number_date_ok(first + n.day - 1);
    crate::lunar_calendar::lemma_day_number_date_any(first + m.day - 1);
    crate::calendar::lemma_day_number_date_ok(first + m.day - 1);
}

} // verus!
