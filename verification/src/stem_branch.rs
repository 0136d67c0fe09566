//! The ten Heavenly Stems and the twelve Earthly Branches.

use crate::arith::rem_euclid;
use vstd::prelude::*;

verus! {

/// One of the ten Heavenly Stems.
#[derive(Clone, Copy, Debug, PartialEq, Eq, Hash, Structural)]
pub enum HeavenlyStem {
    /// Jia stem.
    Jia,
    /// Yi stem.
    Yi,
    /// Bing stem.
    Bing,
    /// Ding stem.
    Ding,
    /// Wu stem.
    Wu,
    /// Ji stem.
    Ji,
    /// Geng stem.
    Geng,
    /// Xin stem.
    Xin,
    /// Ren stem.
    Ren,
    /// Gui stem.
    Gui,
}

/// One of the twelve Earthly Branches.
#[derive(Clone, Copy, Debug, PartialEq, Eq, Hash, Structural)]
pub enum EarthlyBranch {
    /// Zi branch.
    Zi,
    /// Chou branch.
    Chou,
    /// Yin branch.
    Yin,
    /// Mao branch.
    Mao,
    /// Chen branch.
    Chen,
    /// Si branch.
    Si,
    /// Wu branch.
    Wu,
    /// Wei branch.
    Wei,
    /// Shen branch.
    Shen,
    /// You branch.
    You,
    /// Xu branch.
    Xu,
    /// Hai branch.
    Hai,
}

/// Canonical cyclic ordering of the ten Heavenly Stems.
pub const HEAVENLY_STEMS: [HeavenlyStem; 10] = [
    HeavenlyStem::Jia,
    HeavenlyStem::Yi,
    HeavenlyStem::Bing,
    HeavenlyStem::Ding,
    HeavenlyStem::Wu,
    HeavenlyStem::Ji,
    HeavenlyStem::Geng,
    HeavenlyStem::Xin,
    HeavenlyStem::Ren,
    HeavenlyStem::Gui,
];

/// Canonical cyclic ordering of the twelve Earthly Branches.
pub const EARTHLY_BRANCHES: [EarthlyBranch; 12] = [
    EarthlyBranch::Zi,
    EarthlyBranch::Chou,
    EarthlyBranch::Yin,
    EarthlyBranch::Mao,
    EarthlyBranch::Chen,
    EarthlyBranch::Si,
    EarthlyBranch::Wu,
    EarthlyBranch::Wei,
    EarthlyBranch::Shen,
    EarthlyBranch::You,
    EarthlyBranch::Xu,
    EarthlyBranch::Hai,
];

impl HeavenlyStem {
    /// Position of the stem in the canonical ordering, `0..10`.
    pub open spec fn ordinal(self) -> nat {
        match self {
            HeavenlyStem::Jia => 0,
            HeavenlyStem::Yi => 1,
            HeavenlyStem::Bing => 2,
            HeavenlyStem::Ding => 3,
            HeavenlyStem::Wu => 4,
            HeavenlyStem::Ji => 5,
            HeavenlyStem::Geng => 6,
            HeavenlyStem::Xin => 7,
            HeavenlyStem::Ren => 8,
            HeavenlyStem::Gui => 9,
        }
    }

    /// The stem at position `i` (taken modulo ten) of the canonical ordering.
    pub open spec fn at(i: int) -> HeavenlyStem {
        let k = i % 10;
        if k == 0 {
            HeavenlyStem::Jia
        } else if k == 1 {
            HeavenlyStem::Yi
        } else if k == 2 {
            HeavenlyStem::Bing
        } else if k == 3 {
            HeavenlyStem::Ding
        } else if k == 4 {
            HeavenlyStem::Wu
        } else if k == 5 {
            HeavenlyStem::Ji
        } else if k == 6 {
            HeavenlyStem::Geng
        } else if k == 7 {
            HeavenlyStem::Xin
        } else if k == 8 {
            HeavenlyStem::Ren
        } else {
            HeavenlyStem::Gui
        }
    }

    /// Returns this stem's zero-based position in [`HEAVENLY_STEMS`].
    pub fn index(self) -> (r: usize)
        ensures
            r == self.ordinal(),
            r < 10,
    {
        match self {
            HeavenlyStem::Jia => 0,
            HeavenlyStem::Yi => 1,
            HeavenlyStem::Bing => 2,
            HeavenlyStem::Ding => 3,
            HeavenlyStem::Wu => 4,
            HeavenlyStem::Ji => 5,
            HeavenlyStem::Geng => 6,
            HeavenlyStem::Xin => 7,
            HeavenlyStem::Ren => 8,
            HeavenlyStem::Gui => 9,
        }
    }

    /// Returns the stem at `index`, wrapping with modulo arithmetic.
    pub fn from_index(index: usize) -> (r: HeavenlyStem)
        ensures
            r == HeavenlyStem::at(index as int),
            r.ordinal() == index % 10,
    {
        let k = index % 10;
        if k == 0 {
            HeavenlyStem::Jia
        } else if k == 1 {
            HeavenlyStem::Yi
        } else if k == 2 {
            HeavenlyStem::Bing
        } else if k == 3 {
            HeavenlyStem::Ding
        } else if k == 4 {
            HeavenlyStem::Wu
        } else if k == 5 {
            HeavenlyStem::Ji
        } else if k == 6 {
            HeavenlyStem::Geng
        } else if k == 7 {
            HeavenlyStem::Xin
        } else if k == 8 {
            HeavenlyStem::Ren
        } else {
            HeavenlyStem::Gui
        }
    }

    /// Returns the stem offset by `delta`, wrapping in both directions.
    pub fn offset(self, delta: isize) -> (r: HeavenlyStem)
        requires
            self.ordinal() + delta <= isize::MAX,
        ensures
            r == HeavenlyStem::at(self.ordinal() + delta),
    {
        let index = rem_euclid(self.index() as i128 + delta as i128, 10);
        HeavenlyStem::from_index(index as usize)
    }
}

impl EarthlyBranch {
    /// Position of the branch in the canonical ordering, `0..12`.
    pub open spec fn ordinal(self) -> nat {
        match self {
            EarthlyBranch::Zi => 0,
            EarthlyBranch::Chou => 1,
            EarthlyBranch::Yin => 2,
            EarthlyBranch::Mao => 3,
            EarthlyBranch::Chen => 4,
            EarthlyBranch::Si => 5,
            EarthlyBranch::Wu => 6,
            EarthlyBranch::Wei => 7,
            EarthlyBranch::Shen => 8,
            EarthlyBranch::You => 9,
            EarthlyBranch::Xu => 10,
            EarthlyBranch::Hai => 11,
        }
    }

    /// The branch at position `i` (taken modulo twelve) of the canonical ordering.
    pub open spec fn at(i: int) -> EarthlyBranch {
        let k = i % 12;
        if k == 0 {
            EarthlyBranch::Zi
        } else if k == 1 {
            EarthlyBranch::Chou
        } else if k == 2 {
            EarthlyBranch::Yin
        } else if k == 3 {
            EarthlyBranch::Mao
        } else if k == 4 {
            EarthlyBranch::Chen
        } else if k == 5 {
            EarthlyBranch::Si
        } else if k == 6 {
            EarthlyBranch::Wu
        } else if k == 7 {
            EarthlyBranch::Wei
        } else if k == 8 {
            EarthlyBranch::Shen
        } else if k == 9 {
            EarthlyBranch::You
        } else if k == 10 {
            EarthlyBranch::Xu
        } else {
            EarthlyBranch::Hai
        }
    }

    /// Returns this branch's zero-based position in [`EARTHLY_BRANCHES`].
    pub fn index(self) -> (r: usize)
        ensures
            r == self.ordinal(),
            r < 12,
    {
        match self {
            EarthlyBranch::Zi => 0,
            EarthlyBranch::Chou => 1,
            EarthlyBranch::Yin => 2,
            EarthlyBranch::Mao => 3,
            EarthlyBranch::Chen => 4,
            EarthlyBranch::Si => 5,
            EarthlyBranch::Wu => 6,
            EarthlyBranch::Wei => 7,
            EarthlyBranch::Shen => 8,
            EarthlyBranch::You => 9,
            EarthlyBranch::Xu => 10,
            EarthlyBranch::Hai => 11,
        }
    }

    /// Returns the branch at `index`, wrapping with modulo arithmetic.
    pub fn from_index(index: usize) -> (r: EarthlyBranch)
        ensures
            r == EarthlyBranch::at(index as int),
            r.ordinal() == index % 12,
    {
        let k = index % 12;
        if k == 0 {
            EarthlyBranch::Zi
        } else if k == 1 {
            EarthlyBranch::Chou
        } else if k == 2 {
            EarthlyBranch::Yin
        } else if k == 3 {
            EarthlyBranch::Mao
        } else if k == 4 {
            EarthlyBranch::Chen
        } else if k == 5 {
            EarthlyBranch::Si
        } else if k == 6 {
            EarthlyBranch::Wu
        } else if k == 7 {
            EarthlyBranch::Wei
        } else if k == 8 {
            EarthlyBranch::Shen
        } else if k == 9 {
            EarthlyBranch::You
        } else if k == 10 {
            EarthlyBranch::Xu
        } else {
            EarthlyBranch::Hai
        }
    }

    /// Returns the branch offset by `delta`, wrapping in both directions.
    pub fn offset(self, delta: isize) -> (r: EarthlyBranch)
        requires
            self.ordinal() + delta <= isize::MAX,
        ensures
            r == EarthlyBranch::at(self.ordinal() + delta),
    {
        let index = rem_euclid(self.index() as i128 + delta as i128, 12);
        EarthlyBranch::from_index(index as usize)
    }
}

/// Position `i` of the canonical ordering holds the stem of ordinal `i mod 10`,
/// and a stem sits at its own ordinal.
pub proof fn lemma_stem_positions(stem: HeavenlyStem, i: int)
    ensures
        HeavenlyStem::at(i).ordinal() == i % 10,
        HeavenlyStem::at(stem.ordinal() as int) == stem,
{
}

/// Position `i` of the canonical ordering holds the branch of ordinal
/// `i mod 12`, and a branch sits at its own ordinal.
pub proof fn lemma_branch_positions(branch: EarthlyBranch, i: int)
    ensures
        EarthlyBranch::at(i).ordinal() == i % 12,
        EarthlyBranch::at(branch.ordinal() as int) == branch,
{
}

} // verus!
