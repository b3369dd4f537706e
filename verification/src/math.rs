//! Integer square roots, used to normalise movement steps in fixed point.

use vstd::prelude::*;

verus! {

/// `r` is the integer square root of `n`: the greatest `r` with `r * r <= n`.
pub open spec fn is_sqrt(n: nat, r: nat) -> bool {
    r * r <= n < (r + 1) * (r + 1)
}

/// The integer square root of `n`.
pub open spec fn sqrt_of(n: nat) -> nat {
    choose|r: nat| is_sqrt(n, r)
}

/// A number has at most one integer square root.
pub proof fn lemma_sqrt_unique(n: nat, r1: nat, r2: nat)
    requires
        is_sqrt(n, r1),
        is_sqrt(n, r2),
    ensures
        r1 == r2,
{
    if r1 < r2 {
        assert((r1 + 1) * (r1 + 1) <= r2 * r2) by (nonlinear_arith)
            requires
                r1 + 1 <= r2,
        ;
    }
    if r2 < r1 {
        assert((r2 + 1) * (r2 + 1) <= r1 * r1) by (nonlinear_arith)
            requires
                r2 + 1 <= r1,
        ;
    }
}

/// Any witness of `is_sqrt` is the value `sqrt_of` denotes.
pub proof fn lemma_sqrt_of_is(n: nat, r: nat)
    requires
        is_sqrt(n, r),
    ensures
        sqrt_of(n) == r,
{
    assert(is_sqrt(n, sqrt_of(n))) by {
        assert(exists|x: nat| is_sqrt(n, x));
    }
    lemma_sqrt_unique(n, sqrt_of(n), r);
}

/// The integer square root, by binary search.
pub fn isqrt(n: u64) -> (r: u64)
    ensures
        is_sqrt(n as nat, r as nat),
        r as nat == sqrt_of(n as nat),
{
    let mut lo: u64 = 0;
    let mut hi: u64 = 0x1_0000_0000;
    assert((hi as nat) * (hi as nat) == 0x1_0000_0000_0000_0000nat) by (nonlinear_arith)
        requires
            hi == 0x1_0000_0000u64,
    ;
    while lo + 1 < hi
        invariant
            lo < hi <= 0x1_0000_0000u64,
            (lo as nat) * (lo as nat) <= n as nat,
            (n as nat) < (hi as nat) * (hi as nat),
        decreases hi - lo,
    {
        let mid: u64 = lo + (hi - lo) / 2;
        assert(mid * mid <= 0xffff_ffffu64 * 0xffff_ffffu64) by (nonlinear_arith)
            requires
                mid <= 0xffff_ffffu64,
        ;
        if mid * mid <= n {
            lo = mid;
        } else {
            hi = mid;
        }
    }
    proof {
        lemma_sqrt_of_is(n as nat, lo as nat);
    }
    lo
}

} // verus!
