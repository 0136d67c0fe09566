use lunar_lite::{
    is_early_zi, is_late_zi, lunar_year_branch, lunar_year_stem, lunar_year_stem_branch, time_index,
    time_index_to_branch, EarthlyBranch, HeavenlyStem, LunarError, StemBranch, StemBranchError,
    EARTHLY_BRANCHES, HEAVENLY_STEMS,
};

// --- sexagenary pairs ----------------------------------------------------------

#[test]
fn lunar_year_helpers_delegate_to_from_lunar_year() {
    let expected = StemBranch::from_lunar_year(2024);
    assert_eq!(lunar_year_stem_branch(2024), expected);
    assert_eq!(lunar_year_stem(2024), HeavenlyStem::Jia);
    assert_eq!(lunar_year_branch(2024), EarthlyBranch::Chen);
}

#[test]
fn lunar_year_helpers_agree_with_pillar_accessors() {
    for year in [1850, 1984, 2000, 2023, 2150] {
        let pillar = StemBranch::from_lunar_year(year);
        assert_eq!(lunar_year_stem_branch(year), pillar);
        assert_eq!(lunar_year_stem(year), pillar.stem());
        assert_eq!(lunar_year_branch(year), pillar.branch());
    }
}

#[test]
fn try_new_accepts_matching_parity() {
    let sb = StemBranch::try_new(HeavenlyStem::Jia, EarthlyBranch::Zi).unwrap();
    assert_eq!(sb.stem(), HeavenlyStem::Jia);
    assert_eq!(sb.branch(), EarthlyBranch::Zi);
}

#[test]
fn try_new_rejects_mismatched_parity() {
    let err = StemBranch::try_new(HeavenlyStem::Jia, EarthlyBranch::Chou).unwrap_err();
    assert_eq!(
        err,
        StemBranchError::InvalidStemBranchPair { stem: HeavenlyStem::Jia, branch: EarthlyBranch::Chou }
    );
}

#[test]
fn try_new_admits_exactly_sixty_pairs() {
    let mut valid = 0;
    for stem in HEAVENLY_STEMS {
        for branch in EARTHLY_BRANCHES {
            if StemBranch::try_new(stem, branch).is_ok() {
                valid += 1;
            }
        }
    }
    assert_eq!(valid, 60);
}

#[test]
fn cycle_index_anchors() {
    let jiazi = StemBranch::from_cycle_index(0);
    assert_eq!(jiazi.stem(), HeavenlyStem::Jia);
    assert_eq!(jiazi.branch(), EarthlyBranch::Zi);
    let yichou = StemBranch::from_cycle_index(1);
    assert_eq!(yichou.stem(), HeavenlyStem::Yi);
    assert_eq!(yichou.branch(), EarthlyBranch::Chou);
    let guihai = StemBranch::from_cycle_index(59);
    assert_eq!(guihai.stem(), HeavenlyStem::Gui);
    assert_eq!(guihai.branch(), EarthlyBranch::Hai);
}

#[test]
fn from_cycle_index_wraps_modulo_sixty() {
    assert_eq!(StemBranch::from_cycle_index(60), StemBranch::from_cycle_index(0));
    assert_eq!(StemBranch::from_cycle_index(61), StemBranch::from_cycle_index(1));
    assert_eq!(StemBranch::from_cycle_index(120 + 7), StemBranch::from_cycle_index(7));
}

#[test]
fn from_cycle_index_only_yields_valid_pairs() {
    for index in 0..60 {
        let sb = StemBranch::from_cycle_index(index);
        assert!(StemBranch::try_new(sb.stem(), sb.branch()).is_ok());
    }
}

#[test]
fn cycle_index_round_trips_for_all_sixty_positions() {
    for index in 0..60 {
        let sb = StemBranch::from_cycle_index(index);
        assert_eq!(sb.cycle_index(), index, "round-trip failed at {index}");
    }
}

#[test]
fn distinct_positions_are_distinct_pairs() {
    let mut seen = std::collections::HashSet::new();
    for index in 0..60 {
        let sb = StemBranch::from_cycle_index(index);
        assert!(seen.insert(sb), "duplicate stem-branch at index {index}");
    }
    assert_eq!(seen.len(), 60);
}

#[test]
fn lunar_year_anchor_1984_is_jiazi() {
    let sb = StemBranch::from_lunar_year(1984);
    assert_eq!(sb.stem(), HeavenlyStem::Jia);
    assert_eq!(sb.branch(), EarthlyBranch::Zi);
    assert_eq!(sb.cycle_index(), 0);
}

#[test]
fn lunar_year_known_regression_anchors() {
    let y2023 = StemBranch::from_lunar_year(2023);
    assert_eq!(y2023.stem(), HeavenlyStem::Gui);
    assert_eq!(y2023.branch(), EarthlyBranch::Mao);
    let y2024 = StemBranch::from_lunar_year(2024);
    assert_eq!(y2024.stem(), HeavenlyStem::Jia);
    assert_eq!(y2024.branch(), EarthlyBranch::Chen);
}

#[test]
fn lunar_year_repeats_every_sixty_years() {
    for year in 1900..1960 {
        assert_eq!(StemBranch::from_lunar_year(year), StemBranch::from_lunar_year(year + 60));
    }
}

#[test]
fn lunar_year_handles_years_before_anchor() {
    let sb = StemBranch::from_lunar_year(1983);
    assert_eq!(sb.cycle_index(), 59);
    assert_eq!(sb.stem(), HeavenlyStem::Gui);
    assert_eq!(sb.branch(), EarthlyBranch::Hai);
}

#[test]
fn ganzhi_public_types_smoke_test() {
    let jia_zi = StemBranch::try_new(HeavenlyStem::Jia, EarthlyBranch::Zi).expect("Jia-Zi is a valid stem-branch pair");
    assert_eq!(StemBranch::from_cycle_index(0), jia_zi);
    assert_eq!(jia_zi.stem(), HeavenlyStem::Jia);
    assert_eq!(jia_zi.branch(), EarthlyBranch::Zi);
    assert_eq!(jia_zi.cycle_index(), 0);
    assert_eq!(HeavenlyStem::from_index(0), HeavenlyStem::Jia);
    assert_eq!(EarthlyBranch::from_index(0), EarthlyBranch::Zi);
    assert!(StemBranch::try_new(HeavenlyStem::Jia, EarthlyBranch::Chou).is_err());
}

// --- stems and branches --------------------------------------------------------

#[test]
fn heavenly_stem_index_matches_table_position() {
    for (position, stem) in HEAVENLY_STEMS.iter().enumerate() {
        assert_eq!(stem.index(), position, "stem {stem:?} out of order");
    }
}

#[test]
fn earthly_branch_index_matches_table_position() {
    for (position, branch) in EARTHLY_BRANCHES.iter().enumerate() {
        assert_eq!(branch.index(), position, "branch {branch:?} out of order");
    }
}

#[test]
fn tables_have_expected_lengths() {
    assert_eq!(HEAVENLY_STEMS.len(), 10);
    assert_eq!(EARTHLY_BRANCHES.len(), 12);
}

#[test]
fn first_and_last_table_entries_are_anchored() {
    assert_eq!(HEAVENLY_STEMS[0], HeavenlyStem::Jia);
    assert_eq!(HEAVENLY_STEMS[9], HeavenlyStem::Gui);
    assert_eq!(EARTHLY_BRANCHES[0], EarthlyBranch::Zi);
    assert_eq!(EARTHLY_BRANCHES[11], EarthlyBranch::Hai);
}

#[test]
fn heavenly_stem_from_index_round_trips() {
    for stem in HEAVENLY_STEMS {
        assert_eq!(HeavenlyStem::from_index(stem.index()), stem);
    }
}

#[test]
fn earthly_branch_from_index_round_trips() {
    for branch in EARTHLY_BRANCHES {
        assert_eq!(EarthlyBranch::from_index(branch.index()), branch);
    }
}

#[test]
fn heavenly_stem_from_index_wraps_modulo_ten() {
    assert_eq!(HeavenlyStem::from_index(10), HeavenlyStem::Jia);
    assert_eq!(HeavenlyStem::from_index(11), HeavenlyStem::Yi);
    assert_eq!(HeavenlyStem::from_index(25), HeavenlyStem::Ji);
}

#[test]
fn earthly_branch_from_index_wraps_modulo_twelve() {
    assert_eq!(EarthlyBranch::from_index(12), EarthlyBranch::Zi);
    assert_eq!(EarthlyBranch::from_index(13), EarthlyBranch::Chou);
    assert_eq!(EarthlyBranch::from_index(25), EarthlyBranch::Chou);
}

#[test]
fn heavenly_stem_offset_advances_and_wraps() {
    assert_eq!(HeavenlyStem::Jia.offset(0), HeavenlyStem::Jia);
    assert_eq!(HeavenlyStem::Jia.offset(1), HeavenlyStem::Yi);
    assert_eq!(HeavenlyStem::Gui.offset(1), HeavenlyStem::Jia);
    assert_eq!(HeavenlyStem::Jia.offset(10), HeavenlyStem::Jia);
}

#[test]
fn heavenly_stem_offset_handles_negative_deltas() {
    assert_eq!(HeavenlyStem::Jia.offset(-1), HeavenlyStem::Gui);
    assert_eq!(HeavenlyStem::Jia.offset(-11), HeavenlyStem::Gui);
    assert_eq!(HeavenlyStem::Yi.offset(-2), HeavenlyStem::Jia.offset(-1));
}

#[test]
fn earthly_branch_offset_advances_and_wraps() {
    assert_eq!(EarthlyBranch::Zi.offset(0), EarthlyBranch::Zi);
    assert_eq!(EarthlyBranch::Zi.offset(1), EarthlyBranch::Chou);
    assert_eq!(EarthlyBranch::Hai.offset(1), EarthlyBranch::Zi);
    assert_eq!(EarthlyBranch::Zi.offset(12), EarthlyBranch::Zi);
}

#[test]
fn earthly_branch_offset_handles_negative_deltas() {
    assert_eq!(EarthlyBranch::Zi.offset(-1), EarthlyBranch::Hai);
    assert_eq!(EarthlyBranch::Zi.offset(-13), EarthlyBranch::Hai);
}

#[test]
fn offset_is_consistent_across_full_cycle() {
    for stem in HEAVENLY_STEMS {
        for delta in -25..=25 {
            assert_eq!(
                stem.offset(delta),
                HeavenlyStem::from_index((stem.index() as isize + delta).rem_euclid(10) as usize),
            );
        }
    }
    for branch in EARTHLY_BRANCHES {
        for delta in -25..=25 {
            assert_eq!(
                branch.offset(delta),
                EarthlyBranch::from_index((branch.index() as isize + delta).rem_euclid(12) as usize),
            );
        }
    }
}

// --- double hours ----------------------------------------------------------------

#[test]
fn branch_maps_both_zi_halves_to_zi() {
    assert_eq!(time_index_to_branch(0).unwrap(), EarthlyBranch::Zi);
    assert_eq!(time_index_to_branch(12).unwrap(), EarthlyBranch::Zi);
}

#[test]
fn branch_maps_intermediate_indices() {
    assert_eq!(time_index_to_branch(1).unwrap(), EarthlyBranch::Chou);
    assert_eq!(time_index_to_branch(6).unwrap(), EarthlyBranch::Wu);
    assert_eq!(time_index_to_branch(11).unwrap(), EarthlyBranch::Hai);
}

#[test]
fn early_and_late_zi_predicates() {
    assert!(is_early_zi(0).unwrap());
    assert!(!is_early_zi(12).unwrap());
    assert!(is_late_zi(12).unwrap());
    assert!(!is_late_zi(0).unwrap());
}

#[test]
fn invalid_time_index_is_rejected() {
    assert_eq!(time_index_to_branch(13), Err(LunarError::InvalidTimeIndex { time_index: 13 }));
    assert_eq!(is_early_zi(13), Err(LunarError::InvalidTimeIndex { time_index: 13 }));
    assert_eq!(is_late_zi(13), Err(LunarError::InvalidTimeIndex { time_index: 13 }));
}

#[test]
fn time_index_distinguishes_early_and_late_zi() {
    assert_eq!(time_index(0, 0).unwrap(), 0);
    assert_eq!(time_index(0, 59).unwrap(), 0);
    assert_eq!(time_index(23, 0).unwrap(), 12);
    assert_eq!(time_index(23, 59).unwrap(), 12);
}

#[test]
fn time_index_covers_every_bucket() {
    let cases = [
        (0, 0, 0), (0, 59, 0), (1, 0, 1), (2, 59, 1), (3, 0, 2), (4, 59, 2), (5, 0, 3), (6, 59, 3),
        (7, 0, 4), (8, 59, 4), (9, 0, 5), (10, 59, 5), (11, 0, 6), (12, 59, 6), (13, 0, 7),
        (14, 59, 7), (15, 0, 8), (16, 59, 8), (17, 0, 9), (18, 59, 9), (19, 0, 10), (20, 59, 10),
        (21, 0, 11), (22, 59, 11), (23, 0, 12), (23, 59, 12),
    ];
    for (hour, minute, expected) in cases {
        assert_eq!(
            time_index(hour, minute).unwrap(),
            expected,
            "time_index({hour:02}:{minute:02}) should be {expected}"
        );
    }
}

#[test]
fn time_index_rejects_invalid_hour() {
    assert_eq!(time_index(24, 0).unwrap_err(), LunarError::InvalidTime { hour: 24, minute: 0 });
}

#[test]
fn time_index_rejects_invalid_minute() {
    assert_eq!(time_index(23, 60).unwrap_err(), LunarError::InvalidTime { hour: 23, minute: 60 });
}

// --- Further cases -----------------------------------------------------------------

#[test]
fn lunar_year_pairs_for_negative_and_far_years() {
    assert_eq!(StemBranch::from_lunar_year(4).cycle_index(), 0);
    assert_eq!(StemBranch::from_lunar_year(3).cycle_index(), 59);
    assert_eq!(StemBranch::from_lunar_year(-1).cycle_index(), 55);
    assert_eq!(StemBranch::from_lunar_year(9999).cycle_index(), 35);
}

#[test]
fn cycle_index_of_every_valid_pair_names_that_pair() {
    for stem in HEAVENLY_STEMS {
        for branch in EARTHLY_BRANCHES {
            if let Ok(sb) = StemBranch::try_new(stem, branch) {
                let i = sb.cycle_index();
                assert_eq!(i % 10, stem.index());
                assert_eq!(i % 12, branch.index());
                assert_eq!(StemBranch::from_cycle_index(i), sb);
            }
        }
    }
}
