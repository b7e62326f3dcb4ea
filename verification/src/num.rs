//! Fixed-point arithmetic helpers shared by the signal modules.
//!
//! All levels and amplitudes in this crate are integer counts of micro-units
//! (1_000_000 = full scale), so the only nontrivial numeric operations are
//! integer square roots and sign-aware truncating division.

use vstd::prelude::*;

verus! {

/// Truncating (round-toward-zero) division, the semantics of Rust's `/`
/// on signed integers, for a positive divisor.
pub open spec fn sdiv(n: int, d: int) -> int
    recommends
        d > 0,
{
    if n >= 0 {
        n / d
    } else {
        -((-n) / d)
    }
}

/// `clamp(v, lo, hi)` for spec-level reasoning.
pub open spec fn spec_clamp(v: int, lo: int, hi: int) -> int
    recommends
        lo <= hi,
{
    if v < lo {
        lo
    } else if v > hi {
        hi
    } else {
        v
    }
}

/// Truncating division moves a value toward zero and never past it.
pub proof fn lemma_sdiv_bounds(n: int, d: int)
    requires
        d > 0,
    ensures
        n >= 0 ==> 0 <= sdiv(n, d) <= n,
        n <= 0 ==> n <= sdiv(n, d) <= 0,
{
    if n >= 0 {
        assert(0 <= n / d <= n) by (nonlinear_arith)
            requires
                n >= 0,
                d > 0,
        ;
    } else {
        assert(0 <= (-n) / d <= -n) by (nonlinear_arith)
            requires
                -n >= 0,
                d > 0,
        ;
    }
}

/// Scaling by a fraction of at most one never grows a value's magnitude.
pub proof fn lemma_scale_bound(s: int, f: int, d: int)
    requires
        d > 0,
        0 <= f <= d,
    ensures
        abs(sdiv(s * f, d)) <= abs(s),
        s >= 0 ==> 0 <= sdiv(s * f, d),
        s <= 0 ==> sdiv(s * f, d) <= 0,
{
    if s >= 0 {
        assert(0 <= s * f <= s * d) by (nonlinear_arith)
            requires
                s >= 0,
                0 <= f <= d,
        ;
        assert(0 <= (s * f) / d <= s) by (nonlinear_arith)
            requires
                0 <= s * f <= s * d,
                d > 0,
        ;
    } else {
        assert(0 <= (-s) * f <= (-s) * d) by (nonlinear_arith)
            requires
                -s >= 0,
                0 <= f <= d,
        ;
        assert(0 <= ((-s) * f) / d <= -s) by (nonlinear_arith)
            requires
                0 <= (-s) * f <= (-s) * d,
                d > 0,
        ;
        assert(s * f == -((-s) * f)) by (nonlinear_arith);
    }
}

/// A quotient's magnitude is bounded by any bound on the dividend over the
/// divisor.
pub proof fn lemma_div_magnitude(x: int, b: int, d: int)
    requires
        d > 0,
        b >= 0,
        abs(x) <= b * d,
    ensures
        abs(sdiv(x, d)) <= b,
{
    if x >= 0 {
        assert(0 <= x / d <= b) by (nonlinear_arith)
            requires
                0 <= x <= b * d,
                d > 0,
        ;
    } else {
        assert(0 <= (-x) / d <= b) by (nonlinear_arith)
            requires
                0 <= -x <= b * d,
                d > 0,
        ;
    }
}

/// Truncating division of an `i64` by a positive divisor.
pub fn div_i64(n: i64, d: i64) -> (r: i64)
    requires
        d > 0,
        n > i64::MIN,
    ensures
        r == sdiv(n as int, d as int),
{
    if n >= 0 {
        n / d
    } else {
        -((-n) / d)
    }
}

/// Clamps an `i64` into `[lo, hi]`.
pub fn clamp_i64(v: i64, lo: i64, hi: i64) -> (r: i64)
    requires
        lo <= hi,
    ensures
        r == spec_clamp(v as int, lo as int, hi as int),
{
    if v < lo {
        lo
    } else if v > hi {
        hi
    } else {
        v
    }
}

/// Absolute value for spec-level reasoning.
pub open spec fn abs(v: int) -> int {
    if v >= 0 {
        v
    } else {
        -v
    }
}

/// `r` is the integer square root of `n`.
pub open spec fn is_sqrt(n: int, r: int) -> bool {
    0 <= r && r * r <= n && n < (r + 1) * (r + 1)
}

/// The integer square root of a nonnegative `n`.
pub open spec fn spec_isqrt(n: int) -> int
    recommends
        n >= 0,
{
    choose|r: int| is_sqrt(n, r)
}

/// Every nonnegative integer has an integer square root.
pub proof fn lemma_isqrt_exists(n: int)
    requires
        n >= 0,
    ensures
        is_sqrt(n, spec_isqrt(n)),
    decreases n,
{
    if n == 0 {
        assert(is_sqrt(0, 0));
    } else {
        lemma_isqrt_exists(n - 1);
        let r = spec_isqrt(n - 1);
        assert(is_sqrt(n - 1, r));
        if n < (r + 1) * (r + 1) {
            assert(is_sqrt(n, r));
        } else {
            assert(n == (r + 1) * (r + 1));
            assert((r + 1) * (r + 1) < (r + 2) * (r + 2)) by (nonlinear_arith)
                requires
                    r >= 0,
            ;
            assert(is_sqrt(n, r + 1));
        }
    }
    let w = choose|x: int| is_sqrt(n, x);
    assert(is_sqrt(n, w));
}

/// The integer square root is unique, so any witness pins `spec_isqrt` down.
pub proof fn lemma_isqrt_unique(n: int, r: int)
    requires
        is_sqrt(n, r),
    ensures
        spec_isqrt(n) == r,
{
    assert(exists|x: int| is_sqrt(n, x)) by {
        assert(is_sqrt(n, r));
    }
    let rr = spec_isqrt(n);
    assert(is_sqrt(n, rr));
    assert(rr == r) by (nonlinear_arith)
        requires
            is_sqrt(n, rr),
            is_sqrt(n, r),
    ;
}

/// Integer square root: the largest `r` with `r * r <= n`.
pub fn isqrt_u64(n: u64) -> (r: u64)
    ensures
        r * r <= n,
        n < (r + 1) * (r + 1),
        r <= 0xffff_ffff,
        r == spec_isqrt(n as int),
{
    let mut lo: u64 = 0;
    let mut hi: u64 = 0x1_0000_0000;
    // Invariant: lo * lo <= n < hi * hi, so the answer is in [lo, hi).
    while lo + 1 < hi
        invariant
            lo < hi,
            hi <= 0x1_0000_0000,
            lo * lo <= n,
            (n as int) < (hi as int) * (hi as int),
        decreases hi - lo,
    {
        let mid: u64 = lo + (hi - lo) / 2;
        // mid <= 2^32, so mid * mid fits in u128.
        proof {
            assert((mid as int) * (mid as int) <= 0x1_0000_0000_0000_0000) by (nonlinear_arith)
                requires
                    0 <= mid <= 0x1_0000_0000,
            ;
        }
        let sq: u128 = (mid as u128) * (mid as u128);
        if sq <= n as u128 {
            lo = mid;
        } else {
            hi = mid;
        }
    }
    proof {
        lemma_isqrt_unique(n as int, lo as int);
    }
    lo
}

} // verus!
