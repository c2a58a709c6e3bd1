//! Exact integer arithmetic that the physics formulas are built from:
//! division rounding toward zero, and the integer square root.

use vstd::prelude::*;
use vstd::arithmetic::div_mod::{
    lemma_div_pos_is_pos, lemma_fundamental_div_mod, lemma_fundamental_div_mod_converse,
    lemma_mod_bound,
};

verus! {

/// Quotient of `a` by `b` rounded toward zero, the way machine division of
/// signed integers rounds. For a positive divisor this agrees with `a / b`
/// on nonnegative dividends and mirrors it on negative ones.
pub open spec fn div_trunc(a: int, b: int) -> int
    recommends
        b > 0,
{
    if a >= 0 {
        a / b
    } else {
        -((-a) / b)
    }
}

/// For a nonnegative dividend and a positive divisor the quotient lies
/// between zero and the dividend.
pub proof fn lemma_div_le(a: int, b: int)
    requires
        a >= 0,
        b >= 1,
    ensures
        0 <= a / b <= a,
{
    lemma_div_pos_is_pos(a, b);
    lemma_fundamental_div_mod(a, b);
    lemma_mod_bound(a, b);
    assert(a / b <= a) by (nonlinear_arith)
        requires
            a >= 0,
            b >= 1,
            a == b * (a / b) + (a % b),
            a % b >= 0,
            a / b >= 0,
    ;
}

/// Truncating division is an odd function of the dividend.
pub proof fn lemma_div_trunc_neg(a: int, b: int)
    requires
        b > 0,
    ensures
        div_trunc(-a, b) == -div_trunc(a, b),
{
    if a > 0 {
        assert(div_trunc(-a, b) == -((-(-a)) / b));
    }
}

/// The magnitude of a truncated quotient never exceeds the dividend's.
pub proof fn lemma_div_trunc_bounds(a: int, b: int)
    requires
        b >= 1,
    ensures
        a >= 0 ==> 0 <= div_trunc(a, b) <= a,
        a < 0 ==> a <= div_trunc(a, b) <= 0,
{
    if a >= 0 {
        lemma_div_le(a, b);
    } else {
        lemma_div_le(-a, b);
    }
}

/// When the divisor divides the dividend evenly, truncating division is
/// exact division, whatever the dividend's sign.
pub proof fn lemma_div_trunc_exact(a: int, b: int)
    requires
        b >= 1,
        a % b == 0,
    ensures
        b * div_trunc(a, b) == a,
        div_trunc(a, b) == a / b,
{
    lemma_fundamental_div_mod(a, b);
    if a < 0 {
        let q = a / b;
        assert(-a == (-q) * b + 0) by (nonlinear_arith)
            requires
                a == b * q,
        ;
        lemma_fundamental_div_mod_converse(-a, b, -q, 0);
    }
}

/// Largest integer whose square does not exceed `n` (zero for negative `n`).
pub open spec fn sqrt_floor(n: int) -> int
    decreases n,
{
    if n <= 0 {
        0
    } else {
        let p = sqrt_floor(n - 1);
        if (p + 1) * (p + 1) <= n {
            p + 1
        } else {
            p
        }
    }
}

/// `sqrt_floor(n)` is characterized by the two square bounds around `n`.
pub proof fn lemma_sqrt_floor_bounds(n: int)
    requires
        n >= 0,
    ensures
        sqrt_floor(n) >= 0,
        sqrt_floor(n) * sqrt_floor(n) <= n,
        n < (sqrt_floor(n) + 1) * (sqrt_floor(n) + 1),
    decreases n,
{
    if n > 0 {
        lemma_sqrt_floor_bounds(n - 1);
        let p = sqrt_floor(n - 1);
        if (p + 1) * (p + 1) <= n {
            assert(n <= (p + 1) * (p + 1));
            assert((p + 1) * (p + 1) < (p + 2) * (p + 2)) by (nonlinear_arith)
                requires
                    p >= 0,
            ;
        }
    }
}

/// Any integer sitting between the same two square bounds is `sqrt_floor(n)`.
pub proof fn lemma_sqrt_floor_unique(n: int, r: int)
    requires
        n >= 0,
        r >= 0,
        r * r <= n,
        n < (r + 1) * (r + 1),
    ensures
        r == sqrt_floor(n),
{
    lemma_sqrt_floor_bounds(n);
    let s = sqrt_floor(n);
    if r < s {
        assert((r + 1) * (r + 1) <= s * s) by (nonlinear_arith)
            requires
                0 <= r,
                r + 1 <= s,
        ;
    }
    if s < r {
        assert((s + 1) * (s + 1) <= r * r) by (nonlinear_arith)
            requires
                0 <= s,
                s + 1 <= r,
        ;
    }
}

/// Integer square root, rounded down.
pub fn isqrt(n: u64) -> (r: u64)
    ensures
        r == sqrt_floor(n as int),
{
    let mut r: u64 = 0;
    while ((r as u128) + 1) * ((r as u128) + 1) <= (n as u128)
        invariant
            (r as int) * (r as int) <= n as int,
            r <= n,
            ((r as int) + 1) * ((r as int) + 1) <= 0x1_0000_0000_0000_0000,
        decreases n - r,
    {
        proof {
            assert(((r as int) + 1) * ((r as int) + 1) <= n as int);
            assert((r as int) + 1 <= n as int) by (nonlinear_arith)
                requires
                    ((r as int) + 1) * ((r as int) + 1) <= n as int,
                    r >= 0,
            ;
            assert(((r as int) + 2) * ((r as int) + 2) <= 0x1_0000_0000_0000_0000)
                by (nonlinear_arith)
                requires
                    ((r as int) + 1) * ((r as int) + 1) <= n as int,
                    n < 0x1_0000_0000_0000_0000,
                    r >= 0,
            ;
        }
        r = r + 1;
    }
    proof {
        lemma_sqrt_floor_unique(n as int, r as int);
    }
    r
}

/// Truncating division on machine integers; the divisor must be positive.
pub fn div_trunc_i128(a: i128, b: i128) -> (q: i128)
    requires
        b >= 1,
        a > i128::MIN,
    ensures
        q == div_trunc(a as int, b as int),
        a >= 0 ==> 0 <= q <= a,
        a < 0 ==> a <= q <= 0,
{
    proof {
        lemma_div_trunc_bounds(a as int, b as int);
    }
    if a >= 0 {
        let q = (a as u128) / (b as u128);
        proof {
            lemma_div_le(a as int, b as int);
        }
        q as i128
    } else {
        let q = ((-a) as u128) / (b as u128);
        proof {
            lemma_div_le(-a as int, b as int);
        }
        -(q as i128)
    }
}

} // verus!
