//! Fixed-point scale, truncating division and integer square roots.
use vstd::prelude::*;

verus! {

/// Number of fixed-point units in one world unit (or one second, or one unit of
/// weight): every scalar of the simulation is stored multiplied by this.
pub const SCALE: i64 = 1000;

/// Division rounding toward zero, as Rust's integer `/` does (the spec-level `/`
/// rounds toward negative infinity).
pub open spec fn div_trunc(a: int, b: int) -> int {
    if a >= 0 {
        a / b
    } else {
        -((-a) / b)
    }
}

/// `r` is the square root of `n` rounded down.
pub open spec fn is_floor_sqrt(n: int, r: int) -> bool {
    0 <= r && r * r <= n && n < (r + 1) * (r + 1)
}

/// `r` is the square root of `n` rounded up.
pub open spec fn is_ceil_sqrt(n: int, r: int) -> bool {
    0 <= r && n <= r * r && (r == 0 || (r - 1) * (r - 1) < n)
}

pub open spec fn floor_sqrt(n: int) -> int {
    choose|r: int| is_floor_sqrt(n, r)
}

pub open spec fn ceil_sqrt(n: int) -> int {
    choose|r: int| is_ceil_sqrt(n, r)
}

proof fn lemma_square_monotonic(a: int, b: int)
    requires
        0 <= a <= b,
    ensures
        a * a <= b * b,
{
    assert(a * a <= b * b) by (nonlinear_arith)
        requires
            0 <= a <= b,
    ;
}

/// The rounded-down square root is unique.
pub proof fn lemma_floor_sqrt_unique(n: int, r: int)
    requires
        is_floor_sqrt(n, r),
    ensures
        floor_sqrt(n) == r,
{
    let s = floor_sqrt(n);
    assert(is_floor_sqrt(n, s));
    if s < r {
        lemma_square_monotonic(s + 1, r);
    } else if r < s {
        lemma_square_monotonic(r + 1, s);
    }
}

/// The rounded-up square root is unique.
pub proof fn lemma_ceil_sqrt_unique(n: int, r: int)
    requires
        is_ceil_sqrt(n, r),
    ensures
        ceil_sqrt(n) == r,
{
    let s = ceil_sqrt(n);
    assert(is_ceil_sqrt(n, s));
    if s < r {
        lemma_square_monotonic(s, r - 1);
    } else if r < s {
        lemma_square_monotonic(r, s - 1);
    }
}

/// A rounded-up square root of a positive number is positive, and stays at or
/// below any `k` whose square reaches `n`.
pub proof fn lemma_ceil_sqrt_bounds(n: int, r: int, k: int)
    requires
        is_ceil_sqrt(n, r),
        0 <= k,
        n <= k * k,
    ensures
        n > 0 ==> r > 0,
        r <= k,
{
    if n > 0 && r == 0 {
        assert(r * r == 0);
    }
    if r > k {
        lemma_square_monotonic(k, r - 1);
    }
}

/// A rounded-down square root stays at or below any `k` whose square reaches `n`.
pub proof fn lemma_floor_sqrt_le(n: int, r: int, k: int)
    requires
        is_floor_sqrt(n, r),
        0 <= k,
        n <= k * k,
    ensures
        r <= k,
{
    if r > k {
        lemma_square_monotonic(k + 1, r);
        assert(k * k < (k + 1) * (k + 1)) by (nonlinear_arith)
            requires
                k >= 0,
        ;
    }
}

/// Every natural number has a rounded-down square root.
pub proof fn lemma_floor_sqrt_exists(n: int)
    requires
        n >= 0,
    ensures
        is_floor_sqrt(n, floor_sqrt(n)),
    decreases n,
{
    if n == 0 {
        assert(is_floor_sqrt(0, 0));
    } else {
        let m = n - 1;
        lemma_floor_sqrt_exists(m);
        let r = floor_sqrt(m);
        if n < (r + 1) * (r + 1) {
            assert(is_floor_sqrt(n, r));
        } else {
            assert(n == (r + 1) * (r + 1));
            assert(n < (r + 2) * (r + 2)) by (nonlinear_arith)
                requires
                    n == (r + 1) * (r + 1),
                    r >= 0,
            ;
            assert(is_floor_sqrt(n, r + 1));
        }
    }
}

/// Square root rounded down, by bisection.
pub fn isqrt_floor(n: u128) -> (r: u128)
    requires
        n <= 0x4000_0000_0000_0000_0000_0000_0000_0000,
    ensures
        is_floor_sqrt(n as int, r as int),
        r == floor_sqrt(n as int),
        r <= 0x8000_0000_0000_0000,
{
    let mut lo: u128 = 0;
    let mut hi: u128 = 0x8000_0000_0000_0001;
    assert(hi * hi > 0x4000_0000_0000_0000_0000_0000_0000_0000) by (nonlinear_arith)
        requires
            hi == 0x8000_0000_0000_0001u128,
    ;
    while hi - lo > 1
        invariant
            lo < hi <= 0x8000_0000_0000_0001,
            lo * lo <= n,
            n < hi * hi,
        decreases hi - lo,
    {
        let mid: u128 = lo + (hi - lo) / 2;
        assert(mid * mid <= 0x8000_0000_0000_0001 * 0x8000_0000_0000_0001) by (nonlinear_arith)
            requires
                mid <= 0x8000_0000_0000_0001,
        ;
        if mid * mid <= n {
            lo = mid;
        } else {
            hi = mid;
        }
    }
    assert(hi == lo + 1);
    proof {
        if lo > 0x8000_0000_0000_0000 {
            lemma_square_monotonic(0x8000_0000_0000_0001, lo as int);
        }
        lemma_floor_sqrt_unique(n as int, lo as int);
    }
    lo
}

/// Square root rounded up.
pub fn isqrt_ceil(n: u128) -> (r: u128)
    requires
        n <= 0x4000_0000_0000_0000_0000_0000_0000_0000,
    ensures
        is_ceil_sqrt(n as int, r as int),
        r == ceil_sqrt(n as int),
        r <= 0x8000_0000_0000_0001,
{
    let f = isqrt_floor(n);
    let r = if f * f == n {
        f
    } else {
        f + 1
    };
    proof {
        let fi = f as int;
        let ri = r as int;
        let ni = n as int;
        assert(fi * fi <= ni < (fi + 1) * (fi + 1));
        if r != f {
            assert(ri == fi + 1);
            assert(fi * fi < ni);
            assert(ni <= ri * ri);
            assert((ri - 1) * (ri - 1) < ni);
        } else {
            assert(fi * fi == ni);
            if ri > 0 {
                assert((ri - 1) * (ri - 1) < ri * ri) by (nonlinear_arith)
                    requires
                        ri > 0,
                ;
            }
        }
        assert(is_ceil_sqrt(ni, ri));
        lemma_ceil_sqrt_unique(n as int, r as int);
    }
    r
}

/// `a / b` rounded toward zero.
pub fn div_toward_zero(a: i128, b: i128) -> (r: i128)
    requires
        a > i128::MIN,
        b > 0,
    ensures
        r == div_trunc(a as int, b as int),
{
    if a >= 0 {
        a / b
    } else {
        -((-a) / b)
    }
}

} // verus!
