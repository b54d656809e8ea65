//! Small arithmetic helpers shared by the core.

use vstd::prelude::*;
use vstd::arithmetic::div_mod::lemma_fundamental_div_mod;
use vstd::arithmetic::div_mod::lemma_fundamental_div_mod_converse;

verus! {

/// For a positive divisor `d`, a value below `a * d` divides to below `a`.
pub proof fn lemma_div_bound(x: int, d: int, a: int)
    requires
        d >= 1,
        0 <= x,
        x < a * d,
    ensures
        0 <= x / d < a,
{
    assert(0 <= x / d && d * (x / d) <= x && x % d < d) by {
        lemma_fundamental_div_mod(x, d);
        assert(x / d >= 0) by (nonlinear_arith)
            requires
                d >= 1,
                0 <= x,
        ;
        assert(d * (x / d) <= x) by (nonlinear_arith)
            requires
                d >= 1,
                x == d * (x / d) + x % d,
                0 <= x % d,
        ;
    }
    assert(x / d < a) by (nonlinear_arith)
        requires
            d >= 1,
            d * (x / d) <= x,
            x < a * d,
    ;
}

/// The Euclidean decomposition `q * d + r` with `0 <= r < d` is unique.
pub proof fn lemma_decompose_unique(d: int, q1: int, r1: int, q2: int, r2: int)
    requires
        d >= 1,
        0 <= r1 < d,
        0 <= r2 < d,
        q1 * d + r1 == q2 * d + r2,
    ensures
        q1 == q2,
        r1 == r2,
{
    let x = q1 * d + r1;
    lemma_fundamental_div_mod_converse(x, d, q1, r1);
    lemma_fundamental_div_mod_converse(x, d, q2, r2);
}

/// Exact product of two `u32` values, which always fits a `u64`.
pub fn mul_u32(a: u32, b: u32) -> (r: u64)
    ensures
        r == a as int * b as int,
{
    proof {
        assert(a as int * b as int <= u64::MAX) by (nonlinear_arith)
            requires
                a <= u32::MAX,
                b <= u32::MAX,
        ;
        assert(a as int * b as int >= 0) by (nonlinear_arith)
            requires
                a >= 0,
                b >= 0,
        ;
    }
    (a as u64) * (b as u64)
}

} // verus!
