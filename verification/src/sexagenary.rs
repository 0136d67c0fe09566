//! Valid sexagenary stem-branch pairs.
//!
//! A `StemBranch` is one position of the sixty-step cycle: only the sixty
//! stem/branch combinations whose indices share parity are valid.

use crate::arith::rem_euclid;
use crate::error::StemBranchError;
use crate::stem_branch::{lemma_branch_positions, lemma_stem_positions, EarthlyBranch, HeavenlyStem};
use vstd::prelude::*;

verus! {

/// A valid Heavenly Stem / Earthly Branch pair in the sexagenary cycle.
#[derive(Clone, Copy, Debug, PartialEq, Eq, Hash, Structural)]
pub struct StemBranch {
    stem: HeavenlyStem,
    branch: EarthlyBranch,
}

/// Whether a stem and a branch share a position of the sixty-step cycle:
/// their indices have the same parity.
pub open spec fn pairs_up(stem: HeavenlyStem, branch: EarthlyBranch) -> bool {
    stem.ordinal() % 2 == branch.ordinal() % 2
}

/// The cycle position `0..60` with stem index `s` and branch index `b`
/// (meaningful when `s` and `b` share parity).
pub open spec fn cycle_position(s: int, b: int) -> int {
    (6 * s - 5 * b) % 60
}

impl StemBranch {
    /// Stem and branch share parity.
    #[verifier::type_invariant]
    pub closed spec fn well_paired(self) -> bool {
        pairs_up(self.stem, self.branch)
    }

    /// The Heavenly Stem of the pair.
    pub closed spec fn stem_of(self) -> HeavenlyStem {
        self.stem
    }

    /// The Earthly Branch of the pair.
    pub closed spec fn branch_of(self) -> EarthlyBranch {
        self.branch
    }

    /// The pair at position `i` (taken modulo sixty) of the cycle.
    pub closed spec fn at(i: int) -> StemBranch {
        StemBranch { stem: HeavenlyStem::at(i), branch: EarthlyBranch::at(i) }
    }

    /// The pair of the stem at position `s` and the branch at position `b`.
    pub closed spec fn of(s: int, b: int) -> StemBranch {
        StemBranch { stem: HeavenlyStem::at(s), branch: EarthlyBranch::at(b) }
    }

    /// What the spec accessors say of [`StemBranch::of`].
    pub proof fn lemma_of(s: int, b: int)
        ensures
            StemBranch::of(s, b).stem_of() == HeavenlyStem::at(s),
            StemBranch::of(s, b).branch_of() == EarthlyBranch::at(b),
            StemBranch::at(s) == StemBranch::of(s, s),
    {
    }

    /// The position of the pair in the cycle.
    pub open spec fn position(self) -> int {
        cycle_position(self.stem_of().ordinal() as int, self.branch_of().ordinal() as int)
    }

    /// What the spec accessors say of the pair at a position.
    pub proof fn lemma_at(i: int)
        ensures
            StemBranch::at(i).stem_of() == HeavenlyStem::at(i),
            StemBranch::at(i).branch_of() == EarthlyBranch::at(i),
            StemBranch::at(i).well_paired(),
    {
        lemma_stem_positions(HeavenlyStem::Jia, i);
        lemma_branch_positions(EarthlyBranch::Zi, i);
        assert((i % 10) % 2 == (i % 12) % 2);
    }

    /// Pairs are equal when their stems and branches are.
    pub proof fn lemma_ext_equal(self, other: StemBranch)
        requires
            self.stem_of() == other.stem_of(),
            self.branch_of() == other.branch_of(),
        ensures
            self == other,
    {
    }

    /// Creates a valid stem-branch pair.
    ///
    /// Returns an error if the stem and branch do not belong to the same
    /// sexagenary-cycle position.
    pub fn try_new(stem: HeavenlyStem, branch: EarthlyBranch) -> (r: Result<StemBranch, StemBranchError>)
        ensures
            pairs_up(stem, branch) ==> (r matches Ok(sb) && sb.stem_of() == stem && sb.branch_of() == branch),
            !pairs_up(stem, branch) ==> r == Err::<StemBranch, StemBranchError>(
                StemBranchError::InvalidStemBranchPair { stem, branch }),
    {
        if stem.index() % 2 == branch.index() % 2 {
            Ok(StemBranch { stem, branch })
        } else {
            Err(StemBranchError::InvalidStemBranchPair { stem, branch })
        }
    }

    /// Creates a stem-branch pair from a zero-based sexagenary-cycle index.
    ///
    /// Index `0` is JiaZi, `1` is YiChou, ..., `59` is GuiHai.
    /// The input wraps modulo 60.
    pub fn from_cycle_index(index: usize) -> (r: StemBranch)
        ensures
            r == StemBranch::at(index as int),
            r.stem_of() == HeavenlyStem::at(index as int),
            r.branch_of() == EarthlyBranch::at(index as int),
    {
        let index = index % 60;
        proof {
            StemBranch::lemma_at(index as int);
        }
        StemBranch { stem: HeavenlyStem::from_index(index), branch: EarthlyBranch::from_index(index) }
    }

    /// Creates the stem-branch pair for a lunar year.
    ///
    /// Uses the conventional anchor `1984 = JiaZi`.
    pub fn from_lunar_year(year: i32) -> (r: StemBranch)
        ensures
            r == StemBranch::at(year - 1984),
    {
        let index = rem_euclid(year as i128 - 1984, 60);
        proof {
            lemma_sixty_wraps(year - 1984);
        }
        StemBranch::from_cycle_index(index as usize)
    }

    /// Returns the Heavenly Stem.
    pub fn stem(&self) -> (r: HeavenlyStem)
        ensures
            r == self.stem_of(),
    {
        self.stem
    }

    /// Returns the Earthly Branch.
    pub fn branch(&self) -> (r: EarthlyBranch)
        ensures
            r == self.branch_of(),
    {
        self.branch
    }

    /// Returns the zero-based sexagenary-cycle index.
    pub fn cycle_index(&self) -> (r: usize)
        ensures
            r < 60,
            r % 10 == self.stem_of().ordinal(),
            r % 12 == self.branch_of().ordinal(),
            r == self.position(),
    {
        proof {
            use_type_invariant(self);
        }
        let s = self.stem.index();
        let b = self.branch.index();
        let ghost witness = cycle_position(s as int, b as int);
        proof {
            lemma_cycle_position(s as int, b as int);
        }
        let mut index: usize = 0;
        while index < 60
            invariant
                0 <= index <= witness,
                witness < 60,
                witness % 10 == s,
                witness % 12 == b,
                s < 10,
                b < 12,
                s == self.stem_of().ordinal(),
                b == self.branch_of().ordinal(),
                witness == self.position(),
            decreases 60 - index,
        {
            if index % 10 == s && index % 12 == b {
                proof {
                    lemma_cycle_unique(index as int, witness, s as int, b as int);
                }
                return index;
            }
            index = index + 1;
        }
        0
    }
}

/// The cycle position of a parity-matched stem/branch pair has that stem and
/// branch.
pub proof fn lemma_cycle_position(s: int, b: int)
    requires
        0 <= s < 10,
        0 <= b < 12,
        s % 2 == b % 2,
    ensures
        0 <= cycle_position(s, b) < 60,
        cycle_position(s, b) % 10 == s,
        cycle_position(s, b) % 12 == b,
{
    let x = 6 * s - 5 * b;
    let p = x % 60;
    assert(p % 10 == x % 10) by {
        vstd::arithmetic::div_mod::lemma_mod_mod(x, 10, 6);
    }
    assert(p % 12 == x % 12) by {
        vstd::arithmetic::div_mod::lemma_mod_mod(x, 12, 5);
    }
}

/// Two cycle positions with the same stem and branch indices are equal.
pub proof fn lemma_cycle_unique(i: int, j: int, s: int, b: int)
    requires
        0 <= i < 60,
        0 <= j < 60,
        i % 10 == s,
        j % 10 == s,
        i % 12 == b,
        j % 12 == b,
    ensures
        i == j,
{
    assert((i - j) % 10 == 0 && (i - j) % 12 == 0 ==> (i - j) % 60 == 0) by (nonlinear_arith)
        requires
            -60 < i - j < 60,
    ;
}

/// Positions congruent modulo sixty name the same pair.
pub proof fn lemma_sixty_wraps(i: int)
    ensures
        StemBranch::at(i) == StemBranch::at(i % 60),
{
    assert((i % 60) % 10 == i % 10) by {
        vstd::arithmetic::div_mod::lemma_mod_mod(i, 10, 6);
    }
    assert((i % 60) % 12 == i % 12) by {
        vstd::arithmetic::div_mod::lemma_mod_mod(i, 12, 5);
    }
}

/// Cycle index round trip: the pair at a position reports that position
/// (taken modulo sixty) as its cycle index.
pub proof fn lemma_position_of_at(i: int)
    ensures
        StemBranch::at(i).position() == i % 60,
{
    StemBranch::lemma_at(i);
    lemma_stem_positions(HeavenlyStem::Jia, i);
    lemma_branch_positions(EarthlyBranch::Zi, i);
    let s = i % 10;
    let b = i % 12;
    lemma_sixty_wraps(i);
    lemma_cycle_position(s, b);
    lemma_cycle_unique(cycle_position(s, b), i % 60, s, b);
}

/// Cycle index round trip: the pair at a valid pair's position is that pair.
pub proof fn lemma_at_position(sb: StemBranch)
    requires
        sb.well_paired(),
    ensures
        StemBranch::at(sb.position()) == sb,
{
    let s = sb.stem_of().ordinal() as int;
    let b = sb.branch_of().ordinal() as int;
    lemma_cycle_position(s, b);
    StemBranch::lemma_at(sb.position());
    lemma_stem_positions(sb.stem_of(), sb.position());
    lemma_branch_positions(sb.branch_of(), sb.position());
    lemma_stem_positions(HeavenlyStem::at(sb.position()), 0);
    lemma_branch_positions(EarthlyBranch::at(sb.position()), 0);
    StemBranch::at(sb.position()).lemma_ext_equal(sb);
}

/// The lunar-year pair repeats every sixty years.
pub proof fn lemma_lunar_year_period(year: int)
    ensures
        StemBranch::at(year + 60 - 1984) == StemBranch::at(year - 1984),
{
    lemma_sixty_wraps(year + 60 - 1984);
    lemma_sixty_wraps(year - 1984);
}

/// Returns the stem-branch of a Chinese lunar year.
pub fn lunar_year_stem_branch(lunar_year: i32) -> (r: StemBranch)
    ensures
        r == StemBranch::at(lunar_year - 1984),
{
    StemBranch::from_lunar_year(lunar_year)
}

/// Returns the Heavenly Stem of a Chinese lunar year.
pub fn lunar_year_stem(lunar_year: i32) -> (r: HeavenlyStem)
    ensures
        r == HeavenlyStem::at(lunar_year - 1984),
{
    let pillar = StemBranch::from_lunar_year(lunar_year);
    proof {
        StemBranch::lemma_at(lunar_year - 1984);
    }
    pillar.stem()
}

/// Returns the Earthly Branch of a Chinese lunar year.
pub fn lunar_year_branch(lunar_year: i32) -> (r: EarthlyBranch)
    ensures
        r == EarthlyBranch::at(lunar_year - 1984),
{
    let pillar = StemBranch::from_lunar_year(lunar_year);
    proof {
        StemBranch::lemma_at(lunar_year - 1984);
    }
    pillar.branch()
}

} // verus!
