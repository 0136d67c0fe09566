//! Euclidean remainder on signed integers.

use vstd::prelude::*;

verus! {

/// The Euclidean remainder of `x` by `m`: the value in `0..m` congruent to `x`.
pub fn rem_euclid(x: i128, m: i128) -> (r: i128)
    requires
        0 < m <= 1000,
        -0x1_0000_0000_0000_0000 <= x <= 0x1_0000_0000_0000_0000,
    ensures
        r == x % m,
        0 <= r < m,
{
    let k: i128 = 0x1_0000_0000_0000_0000 / m + 1;
    proof {
        assert(k * m >= 0x1_0000_0000_0000_0000) by (nonlinear_arith)
            requires
                k == 0x1_0000_0000_0000_0000i128 / m + 1,
                m > 0,
        ;
        assert(k * m <= 0x1_0000_0000_0000_0000 + 1000) by (nonlinear_arith)
            requires
                k == 0x1_0000_0000_0000_0000i128 / m + 1,
                0 < m <= 1000,
        ;
        vstd::arithmetic::div_mod::lemma_mod_multiples_vanish(k as int, x as int, m as int);
    }
    let shifted: i128 = x + k * m;
    ((shifted as u128) % (m as u128)) as i128
}

} // verus!
