//! Scalar integer foundations: truncating division and integer square root.
//!
//! Machine division rounds toward zero while Verus's mathematical `/` on `int`
//! is Euclidean, so the truncating quotient is defined here once and every
//! contract in the crate speaks in terms of it.

use vstd::prelude::*;
use vstd::arithmetic::div_mod::{
    lemma_div_is_ordered, lemma_div_pos_is_pos, lemma_fundamental_div_mod,
    lemma_div_is_ordered_by_denominator,
};

verus! {

/// Truncating (round-toward-zero) quotient for a positive divisor.
pub open spec fn tdiv(n: int, d: int) -> int
    recommends
        d > 0,
{
    if n >= 0 {
        n / d
    } else {
        -((-n) / d)
    }
}

/// Truncating quotient for any nonzero divisor, as machine division computes it.
pub open spec fn sdiv(n: int, d: int) -> int
    recommends
        d != 0,
{
    if d > 0 {
        tdiv(n, d)
    } else {
        tdiv(-n, -d)
    }
}

/// Clamp `x` into the interval `[lo, hi]`.
pub open spec fn clamp_spec(x: int, lo: int, hi: int) -> int
    recommends
        lo <= hi,
{
    if x < lo {
        lo
    } else if x > hi {
        hi
    } else {
        x
    }
}

/// The integer square root: the largest `r` with `r * r <= n`.
pub open spec fn isqrt_spec(n: nat) -> nat
    decreases n,
{
    if n == 0 {
        0
    } else {
        let r = isqrt_spec((n - 1) as nat);
        if (r + 1) * (r + 1) <= n {
            r + 1
        } else {
            r
        }
    }
}

/// `isqrt_spec(n)` is indeed the integer square root of `n`.
pub proof fn lemma_isqrt_bounds(n: nat)
    ensures
        isqrt_spec(n) * isqrt_spec(n) <= n,
        n < (isqrt_spec(n) + 1) * (isqrt_spec(n) + 1),
    decreases n,
{
    if n == 0 {
        assert(isqrt_spec(n) == 0);
        assert(n < (isqrt_spec(n) + 1) * (isqrt_spec(n) + 1)) by (nonlinear_arith)
            requires
                n == 0,
                isqrt_spec(n) == 0,
        ;
    } else {
        let r: nat = isqrt_spec((n - 1) as nat);
        lemma_isqrt_bounds((n - 1) as nat);
        assert(isqrt_spec(n) == if (r + 1) * (r + 1) <= n {
            r + 1
        } else {
            r
        });
        if (r + 1) * (r + 1) <= n {
            assert(n - 1 < (r + 1) * (r + 1));
            assert(n < (isqrt_spec(n) + 1) * (isqrt_spec(n) + 1)) by (nonlinear_arith)
                requires
                    n <= (r + 1) * (r + 1),
                    isqrt_spec(n) == r + 1,
                    r >= 0,
            ;
        } else {
            assert(n < (isqrt_spec(n) + 1) * (isqrt_spec(n) + 1));
        }
    }
}

/// Any `r` in the square-root window equals `isqrt_spec(n)`.
pub proof fn lemma_isqrt_unique(n: nat, r: nat)
    requires
        r * r <= n,
        n < (r + 1) * (r + 1),
    ensures
        r == isqrt_spec(n),
{
    let s: nat = isqrt_spec(n);
    lemma_isqrt_bounds(n);
    assert(r == s) by (nonlinear_arith)
        requires
            r * r <= n < (r + 1) * (r + 1),
            s * s <= n < (s + 1) * (s + 1),
            r >= 0,
            s >= 0,
    ;
}

/// The truncating quotient never grows past the dividend: `|tdiv(n, d)| <= |n|`,
/// and it keeps the dividend's sign.
pub proof fn lemma_tdiv_bounds(n: int, d: int)
    requires
        d > 0,
    ensures
        n >= 0 ==> 0 <= tdiv(n, d) <= n,
        n < 0 ==> n <= tdiv(n, d) <= 0,
{
    if n >= 0 {
        lemma_div_pos_is_pos(n, d);
        lemma_div_is_ordered_by_denominator(n, 1, d);
    } else {
        lemma_div_pos_is_pos(-n, d);
        lemma_div_is_ordered_by_denominator(-n, 1, d);
    }
}

/// `tdiv(n, d) * d` misses `n` by less than `d`.
pub proof fn lemma_tdiv_close(n: int, d: int)
    requires
        d > 0,
    ensures
        n >= 0 ==> 0 <= n - tdiv(n, d) * d < d,
        n < 0 ==> -d < n - tdiv(n, d) * d <= 0,
{
    if n >= 0 {
        lemma_fundamental_div_mod(n, d);
        assert(d * (n / d) == (n / d) * d) by (nonlinear_arith);
    } else {
        lemma_fundamental_div_mod(-n, d);
        assert(-n == d * ((-n) / d) + (-n) % d);
        assert(n - tdiv(n, d) * d == -((-n) % d)) by (nonlinear_arith)
            requires
                -n == d * ((-n) / d) + (-n) % d,
                tdiv(n, d) == -((-n) / d),
                n < 0,
        ;
    }
}

/// The truncating quotient is antisymmetric in its numerator.
pub proof fn lemma_sdiv_neg(n: int, d: int)
    requires
        d != 0,
    ensures
        sdiv(-n, d) == -sdiv(n, d),
{
    if n == 0 {
        if d > 0 {
            vstd::arithmetic::div_mod::lemma_div_of0(d);
        } else {
            vstd::arithmetic::div_mod::lemma_div_of0(-d);
        }
    }
}

/// `sdiv(n, d) * d` misses `n` by less than `|d|`, whatever the signs.
pub proof fn lemma_sdiv_close(n: int, d: int)
    requires
        d != 0,
    ensures
        -vstd::math::abs(d) < n - sdiv(n, d) * d < vstd::math::abs(d),
{
    if d > 0 {
        lemma_tdiv_close(n, d);
    } else {
        lemma_tdiv_close(-n, -d);
        assert(n - tdiv(-n, -d) * d == -((-n) - tdiv(-n, -d) * (-d))) by (nonlinear_arith);
    }
}

/// Monotone bound: if `|n| <= m` then `|tdiv(n, d)| <= m / d`.
pub proof fn lemma_tdiv_abs_le(n: int, d: int, m: int)
    requires
        d > 0,
        -m <= n <= m,
        m >= 0,
    ensures
        -(m / d) <= tdiv(n, d) <= m / d,
{
    if n >= 0 {
        lemma_tdiv_bounds(n, d);
        lemma_div_is_ordered(n, m, d);
        lemma_div_pos_is_pos(m, d);
    } else {
        lemma_tdiv_bounds(n, d);
        lemma_div_is_ordered(-n, m, d);
        lemma_div_pos_is_pos(m, d);
    }
}

/// Machine (truncating) division on `i128`.
pub fn div_trunc(n: i128, d: i128) -> (q: i128)
    requires
        d != 0,
        !(n == i128::MIN && d == -1),
    ensures
        q == sdiv(n as int, d as int),
{
    proof {
        if d > 0 {
            lemma_tdiv_bounds(n as int, d as int);
        } else {
            if n == i128::MIN {
                lemma_tdiv_bounds(-(n as int), -(d as int));
                assert(-(d as int) >= 2);
                assert((-(n as int)) / (-(d as int)) <= (-(n as int)) / 2) by {
                    lemma_div_is_ordered_by_denominator(-(n as int), 2, -(d as int));
                };
                assert((-(n as int)) / 2 < i128::MAX) by (nonlinear_arith)
                    requires
                        n == i128::MIN,
                ;
            } else {
                lemma_tdiv_bounds(-(n as int), -(d as int));
            }
        }
    }
    match n.checked_div(d) {
        Some(q) => q,
        None => {
            proof {
                assert(false);
            }
            0
        },
    }
}

/// Machine division by a divisor already known positive.
pub fn div_trunc_pos(n: i128, d: i128) -> (q: i128)
    requires
        d > 0,
    ensures
        q == tdiv(n as int, d as int),
{
    div_trunc(n, d)
}

/// Clamp an `i128` into `[lo, hi]`.
pub fn clamp_i128(x: i128, lo: i128, hi: i128) -> (r: i128)
    requires
        lo <= hi,
    ensures
        r == clamp_spec(x as int, lo as int, hi as int),
{
    if x < lo {
        lo
    } else if x > hi {
        hi
    } else {
        x
    }
}

/// Integer square root of a `u128`, by bisection on the answer.
pub fn isqrt(n: u128) -> (r: u64)
    ensures
        r as nat == isqrt_spec(n as nat),
        (r as int) * (r as int) <= n as int,
        (n as int) < ((r as int) + 1) * ((r as int) + 1),
{
    let mut lo: u128 = 0;
    let mut hi: u128 = 0x1_0000_0000_0000_0000;
    proof {
        assert((hi as int) * (hi as int) > n as int) by (nonlinear_arith)
            requires
                hi == 0x1_0000_0000_0000_0000,
                n <= u128::MAX,
        ;
    }
    while lo + 1 < hi
        invariant
            0 <= lo < hi <= 0x1_0000_0000_0000_0000,
            (lo as int) * (lo as int) <= n as int,
            (hi as int) * (hi as int) > n as int,
        decreases hi - lo,
    {
        let mid: u128 = lo + (hi - lo) / 2;
        proof {
            assert(lo < mid < hi);
            assert((mid as int) * (mid as int) < 0x1_0000_0000_0000_0000_0000_0000_0000_0000)
                by (nonlinear_arith)
                requires
                    0 <= mid < 0x1_0000_0000_0000_0000,
            ;
        }
        if mid * mid <= n {
            lo = mid;
        } else {
            hi = mid;
        }
    }
    proof {
        assert(hi == lo + 1);
        lemma_isqrt_unique(n as nat, lo as nat);
    }
    lo as u64
}

} // verus!
