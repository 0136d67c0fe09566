use lunar_lite::{
    leap_month, lunar_month_days, lunar_to_solar, normalize_lunar_date, solar_to_lunar, LunarDate,
    LunarError, SolarDate,
};

fn solar(year: i32, month: u8, day: u8) -> SolarDate {
    SolarDate { year, month, day }
}

fn lunar(year: i32, month: u8, day: u8, is_leap_month: bool) -> LunarDate {
    LunarDate { year, month, day, is_leap_month }
}

#[test]
fn solar_to_lunar_chinese_new_year_2023() {
    assert_eq!(solar_to_lunar(solar(2023, 1, 22)).unwrap(), lunar(2023, 1, 1, false));
}

#[test]
fn solar_to_lunar_leap_month_2023() {
    assert_eq!(solar_to_lunar(solar(2023, 3, 22)).unwrap(), lunar(2023, 2, 1, true));
}

#[test]
fn lunar_to_solar_leap_month_2023() {
    assert_eq!(lunar_to_solar(lunar(2023, 2, 1, true)).unwrap(), solar(2023, 3, 22));
}

#[test]
fn normalize_fake_leap_month() {
    assert_eq!(normalize_lunar_date(lunar(2024, 1, 1, true)).unwrap(), lunar(2024, 1, 1, false));
}

#[test]
fn solar_to_lunar_reports_solar_year_out_of_range() {
    assert_eq!(solar_to_lunar(solar(0, 1, 1)).unwrap_err(), LunarError::SolarYearOutOfRange { year: 0 });
    assert_eq!(
        solar_to_lunar(solar(10_000, 1, 1)).unwrap_err(),
        LunarError::SolarYearOutOfRange { year: 10_000 }
    );
}

#[test]
fn lunar_to_solar_reports_lunar_year_out_of_range() {
    assert_eq!(
        lunar_to_solar(lunar(-2, 1, 1, false)).unwrap_err(),
        LunarError::LunarYearOutOfRange { year: -2 }
    );
    assert_eq!(
        lunar_to_solar(lunar(10_000, 1, 1, false)).unwrap_err(),
        LunarError::LunarYearOutOfRange { year: 10_000 }
    );
}

#[test]
fn lunar_error_is_matchable_with_wildcard() {
    let err = solar_to_lunar(solar(0, 1, 1)).unwrap_err();
    let described = match err {
        LunarError::SolarYearOutOfRange { year } => format!("solar year {year}"),
        _ => "other".to_string(),
    };
    assert_eq!(described, "solar year 0");
}

// --- solar -> lunar ------------------------------------------------------------

#[test]
fn solar_to_lunar_rejects_invalid_gregorian_dates() {
    let cases = [
        ("month 0", solar(2024, 0, 1)),
        ("month 13", solar(2024, 13, 1)),
        ("day 0", solar(2024, 1, 0)),
        ("April 31", solar(2024, 4, 31)),
        ("Feb 29 in non-leap year", solar(2023, 2, 29)),
    ];
    for (label, date) in cases {
        assert_eq!(
            solar_to_lunar(date).unwrap_err(),
            LunarError::InvalidSolarDate { year: date.year, month: date.month, day: date.day },
            "{label} should be an invalid solar date"
        );
    }
}

#[test]
fn solar_to_lunar_accepts_gregorian_leap_day() {
    let result = solar_to_lunar(solar(2024, 2, 29));
    assert!(
        !matches!(result, Err(LunarError::InvalidSolarDate { .. })),
        "2024-02-29 is a valid Gregorian date, got {result:?}"
    );
    assert!(result.is_ok());
}

#[test]
fn solar_to_lunar_first_supported_lunar_new_year() {
    assert_eq!(solar_to_lunar(solar(1850, 2, 12)).unwrap(), lunar(1850, 1, 1, false));
}

#[test]
fn solar_to_lunar_day_before_old_generated_range_new_year_is_supported() {
    assert_eq!(solar_to_lunar(solar(1850, 2, 11)).unwrap(), lunar(1849, 12, 30, false));
}

#[test]
fn solar_to_lunar_near_upper_supported_range() {
    assert_eq!(solar_to_lunar(solar(2150, 12, 31)).unwrap(), lunar(2150, 11, 13, false));
}

#[test]
fn solar_to_lunar_lunar_2150_tail_in_gregorian_2151_is_supported() {
    assert_eq!(solar_to_lunar(solar(2151, 1, 18)).unwrap(), lunar(2150, 12, 1, false));
}

#[test]
fn solar_to_lunar_chinese_new_years() {
    let cases = [
        (solar(2023, 1, 22), lunar(2023, 1, 1, false)),
        (solar(2024, 2, 10), lunar(2024, 1, 1, false)),
        (solar(2025, 1, 29), lunar(2025, 1, 1, false)),
    ];
    for (input, expected) in cases {
        assert_eq!(solar_to_lunar(input).unwrap(), expected, "{input:?}");
    }
}

#[test]
fn solar_to_lunar_2023_leap_second_month() {
    assert_eq!(solar_to_lunar(solar(2023, 3, 22)).unwrap(), lunar(2023, 2, 1, true));
}

#[test]
fn solar_to_lunar_year_boundary_around_2024_new_year() {
    assert_eq!(solar_to_lunar(solar(2024, 2, 9)).unwrap(), lunar(2023, 12, 30, false));
    assert_eq!(solar_to_lunar(solar(2024, 2, 10)).unwrap(), lunar(2024, 1, 1, false));
}

// --- lunar -> solar ------------------------------------------------------------

#[test]
fn lunar_to_solar_chinese_new_years() {
    let cases = [
        (lunar(2023, 1, 1, false), solar(2023, 1, 22)),
        (lunar(2024, 1, 1, false), solar(2024, 2, 10)),
        (lunar(2025, 1, 1, false), solar(2025, 1, 29)),
    ];
    for (input, expected) in cases {
        assert_eq!(lunar_to_solar(input).unwrap(), expected, "{input:?}");
    }
}

#[test]
fn lunar_to_solar_2023_leap_second_month() {
    assert_eq!(lunar_to_solar(lunar(2023, 2, 1, true)).unwrap(), solar(2023, 3, 22));
}

#[test]
fn lunar_to_solar_lunar_2150_tail_lands_in_gregorian_2151() {
    assert_eq!(lunar_to_solar(lunar(2150, 12, 1, false)).unwrap(), solar(2151, 1, 18));
}

#[test]
fn lunar_to_solar_rejects_invalid_basic_shape() {
    let cases = [
        ("month 0", lunar(2024, 0, 1, false)),
        ("month 13", lunar(2024, 13, 1, false)),
        ("day 0", lunar(2024, 1, 0, false)),
        ("day 31", lunar(2024, 1, 31, false)),
    ];
    for (label, date) in cases {
        assert_eq!(
            lunar_to_solar(date).unwrap_err(),
            LunarError::InvalidLunarDate {
                year: date.year,
                month: date.month,
                day: date.day,
                is_leap_month: date.is_leap_month,
            },
            "{label} should be an invalid lunar date"
        );
    }
}

#[test]
fn lunar_to_solar_rejects_day_30_in_29_day_month() {
    assert_eq!(
        lunar_to_solar(lunar(2024, 1, 30, false)).unwrap_err(),
        LunarError::InvalidLunarDate { year: 2024, month: 1, day: 30, is_leap_month: false }
    );
}

#[test]
fn lunar_to_solar_rejects_invalid_day_in_real_leap_month() {
    assert_eq!(
        lunar_to_solar(lunar(2023, 2, 30, true)).unwrap_err(),
        LunarError::InvalidLunarDate { year: 2023, month: 2, day: 30, is_leap_month: true }
    );
}

#[test]
fn lunar_to_solar_rejects_invalid_day_after_fake_leap_normalized_away() {
    assert_eq!(
        lunar_to_solar(lunar(2024, 1, 30, true)).unwrap_err(),
        LunarError::InvalidLunarDate { year: 2024, month: 1, day: 30, is_leap_month: false }
    );
}

// --- normalization -------------------------------------------------------------

#[test]
fn normalize_fake_leap_month_with_valid_day() {
    assert_eq!(normalize_lunar_date(lunar(2024, 1, 29, true)).unwrap(), lunar(2024, 1, 29, false));
}

#[test]
fn normalize_fake_leap_month_then_reject_invalid_day() {
    assert_eq!(
        normalize_lunar_date(lunar(2024, 1, 30, true)).unwrap_err(),
        LunarError::InvalidLunarDate { year: 2024, month: 1, day: 30, is_leap_month: false }
    );
}

#[test]
fn normalize_regular_month_rejects_invalid_day() {
    assert_eq!(
        normalize_lunar_date(lunar(2023, 1, 30, false)).unwrap_err(),
        LunarError::InvalidLunarDate { year: 2023, month: 1, day: 30, is_leap_month: false }
    );
}

#[test]
fn normalize_real_leap_month_with_valid_day() {
    assert_eq!(normalize_lunar_date(lunar(2023, 2, 29, true)).unwrap(), lunar(2023, 2, 29, true));
}

#[test]
fn normalize_real_leap_month_rejects_invalid_day() {
    assert_eq!(
        normalize_lunar_date(lunar(2023, 2, 30, true)).unwrap_err(),
        LunarError::InvalidLunarDate { year: 2023, month: 2, day: 30, is_leap_month: true }
    );
}

#[test]
fn normalize_rejects_invalid_basic_shape() {
    assert_eq!(
        normalize_lunar_date(lunar(2024, 13, 1, false)).unwrap_err(),
        LunarError::InvalidLunarDate { year: 2024, month: 13, day: 1, is_leap_month: false }
    );
}

// --- round trips and shape invariants -----------------------------------------

#[test]
fn solar_round_trip_holds_across_range() {
    let years = [1, 18, 1500, 1582, 1900, 2000, 2024, 2100, 9999];
    for year in years {
        for (month, day) in [(3u8, 15u8), (6, 15), (9, 15)] {
            let s = solar(year, month, day);
            let l = solar_to_lunar(s).unwrap_or_else(|e| panic!("solar_to_lunar {s:?}: {e:?}"));
            let back = lunar_to_solar(l).unwrap_or_else(|e| panic!("lunar_to_solar {l:?}: {e:?}"));
            assert_eq!(back, s, "solar round trip failed for {s:?} (via {l:?})");
        }
    }
}

#[test]
fn solar_round_trip_reform_boundary() {
    for s in [solar(1582, 10, 4), solar(1582, 10, 15)] {
        let l = solar_to_lunar(s).unwrap();
        assert_eq!(lunar_to_solar(l).unwrap(), s, "reform edge {s:?}");
    }
    for day in 5..=14u8 {
        assert!(solar_to_lunar(solar(1582, 10, day)).is_err(), "reform gap 1582-10-{day} must be invalid");
    }
}

#[test]
fn lunar_round_trip_equals_normalized_input() {
    let cases = [
        lunar(2024, 3, 15, false),
        lunar(2023, 2, 15, false),
        lunar(2023, 2, 15, true),
        lunar(2020, 4, 29, true),
        lunar(2024, 1, 1, true),
        lunar(1900, 8, 1, false),
    ];
    for l in cases {
        let s = lunar_to_solar(l).unwrap_or_else(|e| panic!("lunar_to_solar {l:?}: {e:?}"));
        let back = solar_to_lunar(s).unwrap_or_else(|e| panic!("solar_to_lunar {s:?}: {e:?}"));
        let expected = normalize_lunar_date(l).unwrap();
        assert_eq!(back, expected, "lunar round trip failed for {l:?} (via {s:?})");
    }
}

#[test]
fn lunar_month_days_are_29_or_30() {
    for year in [1, 1500, 1900, 1984, 2000, 2020, 2023, 2024, 2100, 9998] {
        for month in 1..=12u8 {
            let days = lunar_month_days(year, month, false).unwrap();
            assert!(days == 29 || days == 30, "regular {year}-{month} has {days} days");
            if leap_month(year).unwrap() == Some(month) {
                let leap_days = lunar_month_days(year, month, true).unwrap();
                assert!(leap_days == 29 || leap_days == 30, "leap {year}-{month} has {leap_days} days");
            }
        }
    }
}

#[test]
fn lunar_year_day_sums_are_in_range() {
    for year in [1, 1500, 1900, 1984, 2000, 2020, 2023, 2024, 2033, 2100, 9998] {
        let mut total: u32 = 0;
        for month in 1..=12u8 {
            total += lunar_month_days(year, month, false).unwrap() as u32;
        }
        let leap = leap_month(year).unwrap();
        if let Some(lm) = leap {
            total += lunar_month_days(year, lm, true).unwrap() as u32;
        }
        if leap.is_some() {
            assert!((383..=385).contains(&total), "leap lunar year {year} has {total} days");
        } else {
            assert!((353..=355).contains(&total), "common lunar year {year} has {total} days");
        }
    }
}

// --- Further cases -------------------------------------------------------------

#[test]
fn lunar_to_solar_past_solar_range_reports_solar_year_out_of_range() {
    // Lunar 9999-12-30 (if the month is long) or the days after solar 9999-12-31
    // land in solar year 10000.
    let days = lunar_month_days(9_999, 12, false).unwrap();
    let last = lunar_to_solar(lunar(9_999, 12, days, false));
    assert_eq!(last, Err(LunarError::SolarYearOutOfRange { year: 10_000 }));
    assert_eq!(lunar_to_solar(lunar(9_999, 12, 2, false)).unwrap(), solar(9_999, 12, 31));
}

#[test]
fn lunar_to_solar_result_before_solar_year_1_reports_solar_year_out_of_range() {
    // Lunar year -1 is a valid lunar-month fact, but its dates land before
    // solar year 1, so the conversion result is out of solar range.
    assert_eq!(leap_month(-1).unwrap(), Some(11));
    assert_eq!(
        lunar_to_solar(lunar(-1, 1, 1, false)).unwrap_err(),
        LunarError::SolarYearOutOfRange { year: -1 }
    );
}

#[test]
fn lunar_year_minus_one_months_all_have_lengths() {
    for month in 1..=12u8 {
        let days = lunar_month_days(-1, month, false).unwrap();
        assert!([29, 30].contains(&days), "month {month} of lunar year -1 has {days} days");
    }
    let leap_days = lunar_month_days(-1, 11, true).unwrap();
    assert!([29, 30].contains(&leap_days));
    assert!(lunar_month_days(-1, 10, true).is_err());
}

#[test]
fn solar_to_lunar_first_day_of_solar_range() {
    let l = solar_to_lunar(solar(1, 1, 1)).unwrap();
    assert_eq!(lunar_to_solar(l).unwrap(), solar(1, 1, 1));
}
