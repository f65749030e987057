use vstd::arithmetic::div_mod::{
    lemma_div_is_ordered, lemma_div_pos_is_pos, lemma_fundamental_div_mod,
    lemma_fundamental_div_mod_converse,
};
use vstd::prelude::*;

verus! {

/// Quotient of `n` by a positive `d`, rounded toward zero: the rounding that
/// `/` performs on `i64` values.
pub open spec fn tdiv(n: int, d: int) -> int {
    if n >= 0 {
        n / d
    } else {
        -((-n) / d)
    }
}

/// `r` is the floor of the square root of `n`.
pub open spec fn is_sqrt(n: int, r: int) -> bool {
    0 <= r && r * r <= n && n < (r + 1) * (r + 1)
}

/// The floor of the square root of a nonnegative `n`.
pub open spec fn sqrt_floor(n: int) -> int {
    choose|r: int| is_sqrt(n, r)
}

/// Two floors of the square root of the same number are the same number.
pub proof fn lemma_is_sqrt_unique(n: int, r1: int, r2: int)
    requires
        is_sqrt(n, r1),
        is_sqrt(n, r2),
    ensures
        r1 == r2,
{
    assert(r1 == r2) by (nonlinear_arith)
        requires
            0 <= r1,
            0 <= r2,
            r1 * r1 <= n,
            n < (r1 + 1) * (r1 + 1),
            r2 * r2 <= n,
            n < (r2 + 1) * (r2 + 1),
    ;
}

/// Floor of the square root, by binary search on the root.
pub fn isqrt(n: u64) -> (r: u64)
    ensures
        is_sqrt(n as int, r as int),
        r == sqrt_floor(n as int),
{
    let mut lo: u64 = 0;
    let mut hi: u64 = 0x1_0000_0000;
    proof {
        assert((0x1_0000_0000int) * (0x1_0000_0000int) > n);
    }
    while hi - lo > 1
        invariant
            lo < hi <= 0x1_0000_0000,
            (lo as int) * (lo as int) <= n as int,
            (n as int) < (hi as int) * (hi as int),
        decreases hi - lo,
    {
        let mid = lo + (hi - lo) / 2;
        proof {
            assert(mid < 0x1_0000_0000);
            assert((mid as int) * (mid as int) < 0x1_0000_0000_0000_0000int) by (nonlinear_arith)
                requires
                    mid < 0x1_0000_0000,
            ;
        }
        if mid * mid <= n {
            lo = mid;
        } else {
            hi = mid;
        }
    }
    proof {
        assert(hi == lo + 1);
        assert(is_sqrt(n as int, lo as int));
        assert(is_sqrt(n as int, sqrt_floor(n as int)));
        lemma_is_sqrt_unique(n as int, lo as int, sqrt_floor(n as int));
    }
    lo
}

/// A quotient `(a * b) / d` stays within the bound of `b` when `|a| <= d`.
pub proof fn lemma_tdiv_product_bound(a: int, b: int, d: int, m: int)
    requires
        1 <= d,
        -d <= a <= d,
        -m <= b <= m,
    ensures
        -m <= tdiv(a * b, d) <= m,
{
    lemma_fundamental_div_mod(a * b, d);
    if a * b >= 0 {
        assert(a * b <= d * m) by (nonlinear_arith)
            requires
                -d <= a <= d,
                -m <= b <= m,
                a * b >= 0,
        ;
        lemma_div_pos_is_pos(a * b, d);
        lemma_div_is_ordered(a * b, d * m, d);
        vstd::arithmetic::div_mod::lemma_div_multiples_vanish(m, d);
    } else {
        assert(-(a * b) <= d * m && -(a * b) >= 0) by (nonlinear_arith)
            requires
                -d <= a <= d,
                -m <= b <= m,
                a * b < 0,
        ;
        lemma_div_pos_is_pos(-(a * b), d);
        lemma_div_is_ordered(-(a * b), d * m, d);
        vstd::arithmetic::div_mod::lemma_div_multiples_vanish(m, d);
    }
}

/// When `d` divides `n`, the truncating and the Euclidean quotient agree and
/// the division is exact.
pub proof fn lemma_tdiv_exact(n: int, d: int)
    requires
        1 <= d,
        n % d == 0,
    ensures
        tdiv(n, d) == n / d,
        d * (n / d) == n,
{
    lemma_fundamental_div_mod(n, d);
    if n < 0 {
        let q = n / d;
        assert(n == d * q);
        assert(-n == d * (-q)) by (nonlinear_arith)
            requires
                n == d * q,
        ;
        assert((-q) * d == d * (-q)) by (nonlinear_arith);
        lemma_fundamental_div_mod_converse(-n, d, -q, 0);
    }
}

/// Quotient of `n` by a positive `d`, rounded toward zero.
pub fn div_trunc(n: i64, d: i64) -> (r: i64)
    requires
        n > i64::MIN,
        d > 0,
    ensures
        r == tdiv(n as int, d as int),
{
    if n >= 0 {
        let q = (n as u64) / (d as u64);
        q as i64
    } else {
        let m = (-n) as u64;
        let q = m / (d as u64);
        proof {
            let mi = m as int;
            let di = d as int;
            let qi = mi / di;
            lemma_div_pos_is_pos(mi, di);
            lemma_fundamental_div_mod(mi, di);
            vstd::arithmetic::div_mod::lemma_mod_bound(mi, di);
            assert(di * qi >= qi) by (nonlinear_arith)
                requires
                    di >= 1,
                    qi >= 0,
            ;
        }
        -(q as i64)
    }
}

/// Floor (Euclidean) quotient of `n` by a positive `d`.
pub fn floor_div(n: i64, d: i64) -> (r: i64)
    requires
        i64::MIN + d < n,
        d > 0,
    ensures
        r == n as int / d as int,
{
    if n >= 0 {
        let q = (n as u64) / (d as u64);
        q as i64
    } else {
        let m = (-n) as u64;
        // ceiling of m / d, negated
        let q = (m + (d as u64) - 1) / (d as u64);
        proof {
            let mi = m as int;
            let di = d as int;
            let t = mi + di - 1;
            let qi = t / di;
            let ri = t % di;
            lemma_fundamental_div_mod(t, di);
            vstd::arithmetic::div_mod::lemma_mod_bound(t, di);
            lemma_div_pos_is_pos(t, di);
            assert(mi <= di * qi);
            assert(di * qi - mi < di);
            assert((-qi) * di == -(di * qi)) by (nonlinear_arith);
            lemma_fundamental_div_mod_converse(n as int, di, -qi, di * qi - mi);
            assert(di * qi >= qi) by (nonlinear_arith)
                requires
                    di >= 1,
                    qi >= 0,
            ;
        }
        -(q as i64)
    }
}

/// Euclidean remainder of `n` by a positive `d`, always in `[0, d)`.
pub fn floor_rem(n: i64, d: i64) -> (r: i64)
    requires
        i64::MIN + d < n,
        n <= i64::MAX - d,
        d > 0,
    ensures
        r == n as int % d as int,
        0 <= r < d,
{
    let q = floor_div(n, d);
    proof {
        lemma_fundamental_div_mod(n as int, d as int);
        assert(0 <= (n as int) % (d as int) < (d as int)) by {
            vstd::arithmetic::div_mod::lemma_mod_bound(n as int, d as int);
        }
        assert(d * q <= n <= d * q + d) by (nonlinear_arith)
            requires
                d > 0,
                (n as int) % (d as int) == n - d * q,
                0 <= (n as int) % (d as int) < (d as int),
        ;
    }
    n - q * d
}

} // verus!
