//! Size arithmetic for precomputed tables spanning a range of power-of-two
//! sizes.

use vstd::prelude::*;

use crate::util::{lemma_pow2_adds, lemma_pow2_pos, pow2_exec, spec_pow2};

verus! {

/// Smallest table exponent that is precomputed.
pub const PRE_COMPUTE_START: usize = 10;

/// Largest table exponent that is precomputed.
pub const PRE_COMPUTE_END: usize = 18;

/// Total number of entries across all tables with exponents in
/// `[start, end]`: `2^start * (2^(end - start + 1) - 1)`, which equals
/// `2^(end + 1) - 2^start`.
pub fn get_pre_compute_size(start: usize, end: usize) -> (r: usize)
    requires
        start <= end,
        spec_pow2((end + 1) as nat) <= usize::MAX,
    ensures
        r == spec_pow2(start as nat) * (spec_pow2((end - start + 1) as nat) - 1),
        r == spec_pow2((end + 1) as nat) - spec_pow2(start as nat),
{
    proof {
        crate::util::lemma_pow2_gt((end + 1) as nat);
        lemma_pow2_pos(start as nat);
        lemma_pow2_pos((end - start + 1) as nat);
        lemma_pow2_adds(start as nat, (end - start + 1) as nat);
        crate::util::lemma_pow2_le((end - start + 1) as nat, (end + 1) as nat);
        vstd::arithmetic::mul::lemma_mul_is_distributive_sub(
            spec_pow2(start as nat) as int,
            spec_pow2((end - start + 1) as nat) as int,
            1,
        );
        vstd::arithmetic::mul::lemma_mul_nonnegative(
            spec_pow2(start as nat) as int,
            spec_pow2((end - start + 1) as nat) as int - 1,
        );
    }
    let nums = pow2_exec(end - start + 1) - 1;
    let base = pow2_exec(start);
    proof {
        vstd::arithmetic::mul::lemma_mul_upper_bound(
            base as int,
            spec_pow2(start as nat) as int,
            nums as int,
            spec_pow2((end - start + 1) as nat) as int - 1,
        );
    }
    base * nums
}

} // verus!
