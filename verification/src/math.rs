//! Small integer helpers shared by the physics and genetics code: clamping,
//! non-negative division, and an integer square root.

use vstd::prelude::*;

verus! {

/// Mathematical clamp of `x` into `[-lim, lim]`.
pub open spec fn clamp_spec(x: int, lim: int) -> int {
    if x < -lim {
        -lim
    } else if x > lim {
        lim
    } else {
        x
    }
}

/// Clamps a wide intermediate result back into `[-lim, lim]` as an `i64`.
pub fn clamp_i128(x: i128, lim: i64) -> (r: i64)
    requires
        0 <= lim,
    ensures
        r == clamp_spec(x as int, lim as int),
{
    if x < -(lim as i128) {
        -lim
    } else if x > lim as i128 {
        lim
    } else {
        x as i64
    }
}

/// Quotient of two non-negative numbers, rounding down.
pub fn div_nn(a: i128, b: i128) -> (r: i128)
    requires
        0 <= a,
        0 < b,
    ensures
        r == a as int / b as int,
        0 <= r <= a,
{
    a / b
}

/// Quotient rounded toward minus infinity, matching the spec-level `/` for a
/// positive divisor.
pub fn div_floor(a: i128, b: i128) -> (r: i128)
    requires
        0 < b <= 0x10000000000000000000000000000,
        -0x10000000000000000000000000000 <= a <= 0x10000000000000000000000000000,
    ensures
        r == a as int / b as int,
{
    if a >= 0 {
        a / b
    } else {
        let q: i128 = (-a + b - 1) / b;
        proof {
            let ai = a as int;
            let bi = b as int;
            let ni = (-a + b - 1) as int;
            vstd::arithmetic::div_mod::lemma_fundamental_div_mod(ni, bi);
            vstd::arithmetic::div_mod::lemma_fundamental_div_mod(ai, bi);
            vstd::arithmetic::div_mod::lemma_mod_bound(ni, bi);
            vstd::arithmetic::div_mod::lemma_mod_bound(ai, bi);
            let qq = ni / bi;
            let rr = ni % bi;
            let q2 = ai / bi;
            let r2 = ai % bi;
            assert(q2 == -qq) by (nonlinear_arith)
                requires
                    0 < bi,
                    ni == -ai + bi - 1,
                    ni == bi * qq + rr,
                    0 <= rr < bi,
                    ai == bi * q2 + r2,
                    0 <= r2 < bi,
            ;
        }
        -q
    }
}

/// Floor of the square root, as a spec-level recurrence.
pub open spec fn isqrt_spec(n: nat) -> nat
    decreases n,
{
    if n == 0 {
        0
    } else {
        let r = isqrt_spec((n - 1) as nat);
        if (r + 1) * (r + 1) <= n {
            r + 1
        } else {
            r
        }
    }
}

/// `isqrt_spec(n)` is the unique integer whose square brackets `n`.
pub proof fn lemma_isqrt_bounds(n: nat)
    ensures
        isqrt_spec(n) * isqrt_spec(n) <= n,
        n < (isqrt_spec(n) + 1) * (isqrt_spec(n) + 1),
    decreases n,
{
    let s = isqrt_spec(n);
    if n > 0 {
        let m = (n - 1) as nat;
        lemma_isqrt_bounds(m);
        let r = isqrt_spec(m);
        assert(r * r <= m && m < (r + 1) * (r + 1));
        if (r + 1) * (r + 1) <= n {
            assert(s == r + 1);
            assert(s * s <= n && n < (s + 1) * (s + 1)) by (nonlinear_arith)
                requires
                    s == r + 1,
                    (r + 1) * (r + 1) <= n,
                    n - 1 < (r + 1) * (r + 1),
            ;
        } else {
            assert(s == r);
            assert(s * s <= n && n < (s + 1) * (s + 1)) by (nonlinear_arith)
                requires
                    s == r,
                    r * r <= n - 1,
                    n < (r + 1) * (r + 1),
            ;
        }
    } else {
        assert(s == 0);
        assert(s * s <= n && n < (s + 1) * (s + 1)) by (nonlinear_arith)
            requires
                s == 0,
                n == 0,
        ;
    }
}

/// Any integer whose square brackets `n` is `isqrt_spec(n)`.
pub proof fn lemma_isqrt_unique(n: nat, r: nat)
    requires
        r * r <= n,
        n < (r + 1) * (r + 1),
    ensures
        r == isqrt_spec(n),
{
    lemma_isqrt_bounds(n);
    let s = isqrt_spec(n);
    if r < s {
        assert((r + 1) * (r + 1) <= s * s) by (nonlinear_arith)
            requires
                r + 1 <= s,
        ;
    }
    if s < r {
        assert((s + 1) * (s + 1) <= r * r) by (nonlinear_arith)
            requires
                s + 1 <= r,
        ;
    }
}

/// Floor of the square root, by bisection.
pub fn isqrt(n: u64) -> (r: u64)
    requires
        n < 0x4000000000000000,
    ensures
        r == isqrt_spec(n as nat),
        r * r <= n,
        n < (r + 1) * (r + 1),
{
    let mut lo: u64 = 0;
    let mut hi: u64 = 0x80000000;
    assert(hi as int * hi as int == 0x4000000000000000);
    while hi - lo > 1
        invariant
            lo < hi <= 0x80000000,
            (lo * lo) as nat <= n as nat,
            (n as nat) < ((hi * hi) as nat),
        decreases hi - lo,
    {
        let mid: u64 = lo + (hi - lo) / 2;
        assert(mid as nat * mid as nat <= 0x80000000 * 0x80000000) by (nonlinear_arith)
            requires
                mid <= 0x80000000,
        ;
        if mid as u128 * mid as u128 <= n as u128 {
            lo = mid;
        } else {
            hi = mid;
        }
    }
    proof {
        lemma_isqrt_unique(n as nat, lo as nat);
    }
    lo
}

} // verus!
