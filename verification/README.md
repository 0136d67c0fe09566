# lunar_lite

Chinese lunisolar calendar conversion, the sexagenary (stem-branch) cycle and
four-pillar calculation, written in Verus with machine-checked contracts.

## Layout

- `src/` — the verified library.
  - `julian_day.rs`, `calendar.rs`: integer Julian Day Numbers (Julian calendar
    before 1582-10-15, Gregorian after) and solar-date validation.
  - `astronomy.rs`: the astronomical series, which are those of the `tyme4rs`
    crate, called through trusted wrappers: the new-moon series
    (`ShouXingUtil::calc_shuo`), the winter-solstice estimate of `SolarTerm`,
    the solar-term moments, and the leap-month table. The series are
    floating point and are not reimplemented here; the leap-month table is
    integer data and its entries are named. The library's contracts hold for
    whatever values the floating-point series return.
  - `lunar_calendar.rs` places each lunar month on that series itself, in
    verified integer code: from the winter solstice and the new moon near
    it, the first-month offset (with its exceptions for early years and
    years after a late leap month), the month's index in its year, and the
    estimate in ten-thousandths of a day rounded to the day whose new moon
    is sought. Month lengths and first days are the differences and values
    of those new moons.
  - `lunar_calendar.rs`, `lunar_month.rs`, `normalize.rs`, `convert.rs`:
    lunar months, their navigation, validation, normalization and the
    solar/lunar conversions. Each conversion has a spec function giving its
    result for given looked-up values, and the round-trip laws are stated
    over those values.
  - `stem_branch.rs`, `sexagenary.rs`, `time_index.rs`: stems, branches, the
    sixty-pair cycle and double hours.
  - `solar_terms.rs`, `solar_term_datetime.rs`, `four_pillars.rs`: the twelve
    Jie, the LiChun boundary and the year/month/day/hour pillars.
- `tests/` — executable tests, including cross-checks against `tyme4rs`.
- `app/` — serde and `std::error::Error` support: serializable and
  displayable mirrors of the library's types, with conversions both ways.
