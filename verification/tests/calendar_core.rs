use lunar_lite::calendar::{days_between, days_in_month, is_leap_year, to_solar_date, validate_solar_date};
use lunar_lite::four_pillars::day_pillar_offset;
use lunar_lite::julian_day::{date_of_jdn, jdn_of};
use lunar_lite::lunar_calendar::{lunar_year_month_count, LunarMonth};
use lunar_lite::solar_terms::{day_instant, jie_instants, li_chun_date, LI_CHUN, SECONDS_PER_DAY};
use lunar_lite::{leap_month, li_chun_datetime, LunarError, SolarDate};

fn solar(year: i32, month: u8, day: u8) -> SolarDate {
    SolarDate { year, month, day }
}

fn cycle(year: i32, month: u8, day: u8) -> (i64, i64) {
    let offset = day_pillar_offset(solar(year, month, day));
    (offset.rem_euclid(10), offset.rem_euclid(12))
}

#[test]
fn known_day_pillars_match_reference() {
    assert_eq!(cycle(1970, 1, 1), (7, 5));
    assert_eq!(cycle(2000, 1, 1), (4, 6));
    assert_eq!(cycle(1984, 2, 2), (2, 2));
    assert_eq!(cycle(1850, 1, 1), (8, 0));
    assert_eq!(cycle(2150, 12, 31), (5, 5));
}

#[test]
fn julian_day_round_trips_across_reform() {
    let before = jdn_of(1582, 10, 4);
    let after = jdn_of(1582, 10, 15);

    assert_eq!(after - before, 1);
    assert_eq!(to_solar_date(before).unwrap(), solar(1582, 10, 4));
    assert_eq!(to_solar_date(after).unwrap(), solar(1582, 10, 15));
    assert_eq!(to_solar_date(before + 1).unwrap(), solar(1582, 10, 15));
}

#[test]
fn julian_calendar_leap_day_before_reform_round_trips() {
    let day = jdn_of(1500, 2, 29);
    assert_eq!(to_solar_date(day).unwrap(), solar(1500, 2, 29));
}

#[test]
fn li_chun_dates_match_reference() {
    assert_eq!(li_chun_date(2000).unwrap(), (2, 4));
    assert_eq!(li_chun_date(2024).unwrap(), (2, 4));
}

#[test]
fn jie_instants_are_strictly_increasing() {
    let instants = jie_instants(2000).unwrap();
    for pair in instants.windows(2) {
        assert!(pair[0] < pair[1]);
    }
}

#[test]
fn li_chun_2000_instant_matches_tyme_reference() {
    let instants = jie_instants(2000).unwrap();
    let expected = day_instant(2000, 2, 4, 20 * 3600 + 40 * 60 + 24);
    assert_eq!(instants[LI_CHUN], expected);
}

#[test]
fn pre_reform_julian_leap_day_does_not_collapse() {
    let feb28 = day_instant(1500, 2, 28, 0);
    let feb29 = day_instant(1500, 2, 29, 0);
    let mar01 = day_instant(1500, 3, 1, 0);

    assert!(feb28 < feb29 && feb29 < mar01);
    assert_eq!(feb29 - feb28, SECONDS_PER_DAY);
    assert_eq!(mar01 - feb29, SECONDS_PER_DAY);
}

#[test]
fn out_of_range_years_error() {
    assert_eq!(jie_instants(0).unwrap_err(), LunarError::SolarTermOutOfRange { year: 0 });
    assert_eq!(li_chun_date(10_000).unwrap_err(), LunarError::SolarTermOutOfRange { year: 10_000 });
}

#[test]
fn month_lengths_and_first_days_match_tyme() {
    let cases = [
        (2020, 4, 30, solar(2020, 4, 23)),
        (2020, -4, 29, solar(2020, 5, 23)),
        (2023, 6, 29, solar(2023, 7, 18)),
        (2023, 7, 30, solar(2023, 8, 16)),
        (2023, 8, 30, solar(2023, 9, 15)),
        (2023, 9, 29, solar(2023, 10, 15)),
        (2033, -11, 29, solar(2033, 12, 22)),
        (2033, 12, 30, solar(2034, 1, 20)),
        (9_999, 12, 29, solar(9_999, 12, 30)),
    ];

    for (year, month, days, first_day) in cases {
        let lunar_month = LunarMonth::from_ym(year, month).unwrap();
        assert_eq!(lunar_month.day_count().unwrap(), days, "{year}-{month}");
        assert_eq!(lunar_month.first_solar_date().unwrap(), first_day, "{year}-{month}");
    }
}

#[test]
fn next_month_matches_tyme_leap_navigation() {
    assert_eq!(LunarMonth::from_ym(2008, 11).unwrap().next(1).unwrap().month_with_leap(), 12);
    assert_eq!(LunarMonth::from_ym(2008, 11).unwrap().next(2).unwrap().month_with_leap(), 1);
    assert_eq!(LunarMonth::from_ym(2020, 4).unwrap().next(1).unwrap().month_with_leap(), -4);
    assert_eq!(LunarMonth::from_ym(2020, -4).unwrap().next(1).unwrap().month_with_leap(), 5);
}

#[test]
fn known_leap_months_match_tyme() {
    assert_eq!(leap_month(-1).unwrap(), Some(11));
    assert_eq!(leap_month(2020).unwrap(), Some(4));
    assert_eq!(leap_month(2023).unwrap(), Some(2));
    assert_eq!(leap_month(2024).unwrap(), None);
    assert_eq!(leap_month(2033).unwrap(), Some(11));
    assert_eq!(leap_month(9_999).unwrap(), None);
}

#[test]
fn known_li_chun_instants_match_tyme() {
    let hms = |year: i32| {
        let t = li_chun_datetime(year).unwrap();
        (t.date.year, t.date.month, t.date.day, t.hour, t.minute, t.second)
    };
    assert_eq!(hms(2000), (2000, 2, 4, 20, 40, 24));
    assert_eq!(hms(2024), (2024, 2, 4, 16, 27, 7));
    assert_eq!(hms(2034), (2034, 2, 4, 2, 41, 10));
}

// --- Further cases -----------------------------------------------------------

#[test]
fn julian_day_number_known_values() {
    assert_eq!(jdn_of(2000, 1, 1), 2_451_545);
    assert_eq!(jdn_of(1970, 1, 1), 2_440_588);
    assert_eq!(jdn_of(1, 1, 1), 1_721_424);
    assert_eq!(date_of_jdn(2_451_545), (2000, 1, 1));
    assert_eq!(date_of_jdn(2_299_161), (1582, 10, 15));
    assert_eq!(date_of_jdn(2_299_160), (1582, 10, 4));
}

#[test]
fn to_solar_date_handles_its_whole_day_range() {
    assert_eq!(to_solar_date(1_721_423).unwrap(), solar(0, 12, 31));
    assert_eq!(to_solar_date(1_721_424).unwrap(), solar(1, 1, 1));
    assert_eq!(to_solar_date(5_373_484).unwrap(), solar(9999, 12, 31));
    assert_eq!(to_solar_date(5_373_485).unwrap(), solar(10_000, 1, 1));
    assert_eq!(to_solar_date(0).unwrap_err(), LunarError::SolarYearOutOfRange { year: i32::MIN });
    assert_eq!(to_solar_date(i64::MAX).unwrap_err(), LunarError::SolarYearOutOfRange { year: i32::MAX });
}

#[test]
fn solar_leap_years_follow_julian_then_gregorian_rules() {
    assert!(is_leap_year(1500));
    assert!(!is_leap_year(1700));
    assert!(is_leap_year(2000));
    assert!(!is_leap_year(2023));
    assert_eq!(days_in_month(1500, 2), 29);
    assert_eq!(days_in_month(1900, 2), 28);
    assert_eq!(days_in_month(2024, 2), 29);
    assert_eq!(days_in_month(2024, 4), 30);
    assert_eq!(days_in_month(2024, 13), 0);
}

#[test]
fn validate_solar_date_covers_each_error() {
    assert_eq!(validate_solar_date(solar(2024, 2, 29)), Ok(()));
    assert_eq!(validate_solar_date(solar(0, 1, 1)), Err(LunarError::SolarYearOutOfRange { year: 0 }));
    assert_eq!(
        validate_solar_date(solar(1582, 10, 14)),
        Err(LunarError::InvalidSolarDate { year: 1582, month: 10, day: 14 })
    );
    assert_eq!(
        validate_solar_date(solar(2023, 2, 29)),
        Err(LunarError::InvalidSolarDate { year: 2023, month: 2, day: 29 })
    );
}

#[test]
fn days_between_counts_across_reform_gap() {
    assert_eq!(days_between(solar(1582, 10, 4), solar(1582, 10, 15)), Ok(1));
    assert_eq!(days_between(solar(2024, 3, 1), solar(2024, 2, 28)), Ok(-2));
    assert_eq!(
        days_between(solar(2024, 2, 30), solar(2024, 3, 1)),
        Err(LunarError::InvalidSolarDate { year: 2024, month: 2, day: 30 })
    );
}

#[test]
fn lunar_month_navigation_errors_at_range_ends() {
    assert_eq!(
        LunarMonth::from_ym(9_999, 12).unwrap().next(1),
        Err(LunarError::LunarYearOutOfRange { year: 10_000 })
    );
    assert_eq!(
        LunarMonth::from_ym(-1, 1).unwrap().next(-1),
        Err(LunarError::LunarYearOutOfRange { year: -2 })
    );
    assert_eq!(
        LunarMonth::from_ym(2024, 0),
        Err(LunarError::InvalidLunarMonth { year: 2024, month: 0, is_leap_month: false })
    );
    assert_eq!(
        LunarMonth::from_ym(2024, -1),
        Err(LunarError::InvalidLunarMonth { year: 2024, month: 1, is_leap_month: true })
    );
    assert_eq!(lunar_year_month_count(2023), Ok(13));
    assert_eq!(lunar_year_month_count(2024), Ok(12));
}

#[test]
fn li_chun_instants_cover_a_full_year() {
    let a = jie_instants(2024).unwrap();
    assert_eq!(a[LI_CHUN], day_instant(2024, 2, 4, 16 * 3600 + 27 * 60 + 7));
    assert!(a[11] - a[0] > 300 * SECONDS_PER_DAY);
}

#[test]
fn lunar_month_navigation_round_trips() {
    for (year, month, n) in [(2020, 4, 1), (2008, 11, 2), (2023, -2, 13), (2024, 1, -25), (1, 1, 500)] {
        let start = LunarMonth::from_ym(year, month).unwrap();
        let forward = start.next(n).unwrap();
        assert_eq!(forward.next(-n).unwrap(), start, "{year}-{month} by {n}");
    }
    assert_eq!(LunarMonth::from_ym(2023, 2).unwrap().next(1).unwrap().month_with_leap(), -2);
    assert_eq!(LunarMonth::from_ym(2023, 12).unwrap().next(1).unwrap().year(), 2024);
}
