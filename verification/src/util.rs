//! Powers of two and exact binary logarithms, used throughout the tree's
//! layout arithmetic.

use vstd::prelude::*;

verus! {

/// `2^e`.
pub open spec fn spec_pow2(e: nat) -> nat
    decreases e,
{
    if e == 0 {
        1
    } else {
        2 * spec_pow2((e - 1) as nat)
    }
}

/// Whether `n` is a power of two.
pub open spec fn spec_is_pow2(n: nat) -> bool
    decreases n,
{
    if n == 0 {
        false
    } else if n == 1 {
        true
    } else {
        n % 2 == 0 && spec_is_pow2(n / 2)
    }
}

/// The exact binary logarithm of `n`, for `n` a power of two (floor of the
/// logarithm otherwise).
pub open spec fn spec_lg(n: nat) -> nat
    decreases n,
{
    if n <= 1 {
        0
    } else {
        1 + spec_lg(n / 2)
    }
}

/// A power of two is `spec_pow2` of its logarithm.
pub proof fn lemma_pow2_lg(n: nat)
    requires
        spec_is_pow2(n),
    ensures
        spec_pow2(spec_lg(n)) == n,
    decreases n,
{
    if n > 1 {
        lemma_pow2_lg(n / 2);
    }
}

/// `spec_pow2` is positive.
pub proof fn lemma_pow2_pos(e: nat)
    ensures
        spec_pow2(e) >= 1,
    decreases e,
{
    if e > 0 {
        lemma_pow2_pos((e - 1) as nat);
    }
}

/// `spec_pow2` is monotone.
pub proof fn lemma_pow2_le(e1: nat, e2: nat)
    requires
        e1 <= e2,
    ensures
        spec_pow2(e1) <= spec_pow2(e2),
    decreases e2,
{
    if e1 < e2 {
        lemma_pow2_le(e1, (e2 - 1) as nat);
        lemma_pow2_pos(e1);
    }
}

/// Powers of two are powers of two, and their logarithm is the exponent.
pub proof fn lemma_pow2_is_pow2(e: nat)
    ensures
        spec_is_pow2(spec_pow2(e)),
        spec_lg(spec_pow2(e)) == e,
    decreases e,
{
    if e > 0 {
        lemma_pow2_is_pow2((e - 1) as nat);
        lemma_pow2_pos((e - 1) as nat);
    }
}

/// `2^(a + b) == 2^a * 2^b`.
pub proof fn lemma_pow2_adds(a: nat, b: nat)
    ensures
        spec_pow2(a + b) == spec_pow2(a) * spec_pow2(b),
    decreases a,
{
    if a == 0 {
        vstd::arithmetic::mul::lemma_mul_basics(spec_pow2(b) as int);
    } else {
        lemma_pow2_adds((a - 1) as nat, b);
        vstd::arithmetic::mul::lemma_mul_is_associative(
            2,
            spec_pow2((a - 1) as nat) as int,
            spec_pow2(b) as int,
        );
    }
}

/// `2^e` exceeds `e`.
pub proof fn lemma_pow2_gt(e: nat)
    ensures
        spec_pow2(e) > e,
    decreases e,
{
    if e > 0 {
        lemma_pow2_gt((e - 1) as nat);
    }
}

/// The logarithm is no larger than its argument.
pub proof fn lemma_lg_le(n: nat)
    ensures
        spec_lg(n) <= n,
    decreases n,
{
    if n > 1 {
        lemma_lg_le(n / 2);
    }
}

/// The exact binary logarithm of a power of two. In the reference system this
/// panics on other inputs; here those inputs are excluded up front.
pub fn log2_strict(n: usize) -> (r: usize)
    requires
        spec_is_pow2(n as nat),
    ensures
        r == spec_lg(n as nat),
        spec_pow2(r as nat) == n,
{
    proof {
        lemma_pow2_lg(n as nat);
        lemma_lg_le(n as nat);
    }
    let mut m: usize = n;
    let mut r: usize = 0;
    while m > 1
        invariant
            m >= 1,
            spec_is_pow2(m as nat),
            spec_lg(n as nat) == r + spec_lg(m as nat),
            spec_lg(n as nat) <= n <= usize::MAX,
            spec_pow2((r + spec_lg(m as nat)) as nat) == n,
        decreases m,
    {
        m = m / 2;
        r = r + 1;
    }
    r
}

/// Computes the exact binary logarithm, or reports that the input is not a
/// power of two.
pub fn try_log2_strict(n: usize) -> (r: Option<usize>)
    ensures
        r is Some <==> spec_is_pow2(n as nat),
        r matches Some(e) ==> e == spec_lg(n as nat) && spec_pow2(e as nat) == n,
{
    if n == 0 {
        return None;
    }
    proof {
        lemma_lg_le(n as nat);
    }
    let mut m: usize = n;
    let mut r: usize = 0;
    while m > 1
        invariant
            m >= 1,
            spec_is_pow2(n as nat) <==> spec_is_pow2(m as nat),
            spec_lg(n as nat) == r + spec_lg(m as nat),
            spec_lg(n as nat) <= n <= usize::MAX,
        decreases m,
    {
        if m % 2 == 1 {
            return None;
        }
        m = m / 2;
        r = r + 1;
    }
    proof {
        lemma_pow2_lg(n as nat);
    }
    Some(r)
}

/// `2^e`, executable.
pub fn pow2_exec(e: usize) -> (r: usize)
    requires
        spec_pow2(e as nat) <= usize::MAX,
    ensures
        r == spec_pow2(e as nat),
        r >= 1,
{
    let mut r: usize = 1;
    let mut i: usize = 0;
    while i < e
        invariant
            i <= e,
            r == spec_pow2(i as nat),
            spec_pow2(e as nat) <= usize::MAX,
        decreases e - i,
    {
        proof {
            lemma_pow2_le((i + 1) as nat, e as nat);
        }
        r = r * 2;
        i = i + 1;
    }
    proof {
        lemma_pow2_pos(e as nat);
    }
    r
}

} // verus!
