//! Chinese lunisolar calendar conversion and the sexagenary cycle, with
//! machine-checked contracts.

pub mod arith;
pub mod astronomy;
pub mod calendar;
pub mod convert;
pub mod date;
pub mod error;
pub mod four_pillars;
pub mod julian_day;
pub mod lunar_calendar;
pub mod lunar_month;
pub mod normalize;
pub mod sexagenary;
pub mod solar_term_datetime;
pub mod solar_terms;
pub mod stem_branch;
pub mod time_index;

pub use astronomy::AstronomicalKernel;
pub use convert::{lunar_to_solar, solar_to_lunar};
pub use date::{LunarDate, SolarDate};
pub use error::{LunarError, StemBranchError};
pub use lunar_month::{has_leap_month, leap_month, lunar_month_days, validate_lunar_date};
pub use normalize::normalize_lunar_date;
pub use sexagenary::{lunar_year_branch, lunar_year_stem, lunar_year_stem_branch, StemBranch};
pub use stem_branch::{EarthlyBranch, HeavenlyStem, EARTHLY_BRANCHES, HEAVENLY_STEMS};
pub use time_index::{is_early_zi, is_late_zi, time_index, time_index_to_branch};
pub use solar_term_datetime::{li_chun_datetime, SolarTermDateTime};
pub use solar_terms::is_on_or_after_li_chun;
pub use four_pillars::{
    four_pillars_from_solar_date, four_pillars_from_solar_date_with_options,
    get_heavenly_stem_and_earthly_branch_by_solar_date, solar_date_to_ganzhi, FourPillars,
    HeavenlyStemAndEarthlyBranchDate, MonthDivide, StemBranchOptions, YearDivide,
};
