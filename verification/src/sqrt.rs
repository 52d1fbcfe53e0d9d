//! The floor of the square root of an integer.

use vstd::prelude::*;

verus! {

/// `s` is not negative, and `n` lies between its square and the next.
pub open spec fn is_floor_sqrt(n: int, s: int) -> bool {
    0 <= s && s * s <= n < (s + 1) * (s + 1)
}

/// The largest `s` with `s * s <= n`, for `n >= 0`.
pub open spec fn floor_sqrt(n: int) -> int {
    choose|s: int| is_floor_sqrt(n, s)
}

/// Any `s` between whose square and the next `n` lies is the floor of the
/// square root of `n`.
pub proof fn lemma_floor_sqrt_is(n: int, s: int)
    requires
        is_floor_sqrt(n, s),
    ensures
        floor_sqrt(n) == s,
{
    let t = floor_sqrt(n);
    assert(is_floor_sqrt(n, t));
    assert(t == s) by (nonlinear_arith)
        requires
            0 <= s,
            s * s <= n < (s + 1) * (s + 1),
            0 <= t,
            t * t <= n < (t + 1) * (t + 1),
    ;
}

/// Every number that is not negative has a floor of its square root.
pub proof fn lemma_floor_sqrt_exists(n: int)
    requires
        0 <= n,
    ensures
        is_floor_sqrt(n, floor_sqrt(n)),
    decreases n,
{
    if n == 0 {
        assert(is_floor_sqrt(0, 0));
    } else {
        lemma_floor_sqrt_exists(n - 1);
        let s = floor_sqrt(n - 1);
        if n < (s + 1) * (s + 1) {
            assert(is_floor_sqrt(n, s));
        } else {
            assert(is_floor_sqrt(n, s + 1)) by (nonlinear_arith)
                requires
                    0 <= s,
                    s * s <= n - 1 < (s + 1) * (s + 1),
                    n >= (s + 1) * (s + 1),
            ;
        }
    }
}

/// The floor of the square root of `n`.
pub fn isqrt(n: u128) -> (s: u128)
    ensures
        s == floor_sqrt(n as int),
        is_floor_sqrt(n as int, s as int),
        s < 0x1_0000_0000_0000_0000,
{
    let mut lo: u128 = 0;
    let mut hi: u128 = 0x1_0000_0000_0000_0000;
    assert(n < hi * hi) by (nonlinear_arith)
        requires
            hi == 0x1_0000_0000_0000_0000,
            n <= u128::MAX,
    ;
    while hi - lo > 1
        invariant
            lo < hi <= 0x1_0000_0000_0000_0000,
            lo * lo <= n < hi * hi,
        decreases hi - lo,
    {
        let mid: u128 = lo + (hi - lo) / 2;
        assert(mid * mid <= u128::MAX) by (nonlinear_arith)
            requires
                mid < 0x1_0000_0000_0000_0000,
        ;
        if mid * mid <= n {
            lo = mid;
        } else {
            hi = mid;
        }
    }
    proof {
        lemma_floor_sqrt_is(n as int, lo as int);
    }
    lo
}

} // verus!
