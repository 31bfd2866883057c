//! Integer arithmetic of the simulation: division that rounds toward zero,
//! gains in thousandths, saturation to the coordinate range and a rounded-up
//! square root.

use vstd::prelude::*;

verus! {

/// Quotient of `a` by a positive `b`, rounded toward zero.
pub open spec fn trunc_div(a: int, b: int) -> int
    recommends
        b > 0,
{
    if a >= 0 {
        a / b
    } else {
        -((-a) / b)
    }
}

/// `v` multiplied by a gain given in thousandths, rounded toward zero.
pub open spec fn scale(v: int, permille: int) -> int {
    trunc_div(v * permille, 1000)
}

/// `v` clamped to the range of a stored coordinate.
pub open spec fn saturate(v: int) -> int {
    if v < i32::MIN {
        i32::MIN as int
    } else if v > i32::MAX {
        i32::MAX as int
    } else {
        v
    }
}

/// Bound under which the wide intermediate values of the simulation stay.
pub open spec fn wide_limit() -> int {
    0x1_0000_0000_0000_0000_0000_0000
}

/// `s` is the least non-negative integer whose square reaches `n`.
pub open spec fn is_sqrt_ceil(n: int, s: int) -> bool {
    &&& s >= 0
    &&& s * s >= n
    &&& (s == 0 || (s - 1) * (s - 1) < n)
}

/// The square root of `n`, rounded up to an integer.
pub open spec fn sqrt_ceil(n: int) -> int {
    choose|s: int| is_sqrt_ceil(n, s)
}

/// At most one integer is the rounded-up square root of `n`.
pub proof fn lemma_sqrt_ceil_unique(n: int, s: int, t: int)
    requires
        is_sqrt_ceil(n, s),
        is_sqrt_ceil(n, t),
    ensures
        s == t,
{
    if s < t {
        assert(s * s <= (t - 1) * (t - 1)) by (nonlinear_arith)
            requires
                0 <= s <= t - 1,
        ;
    }
    if t < s {
        assert(t * t <= (s - 1) * (s - 1)) by (nonlinear_arith)
            requires
                0 <= t <= s - 1,
        ;
    }
}

/// Every natural number has a rounded-up square root.
pub proof fn lemma_sqrt_ceil_exists(n: nat)
    ensures
        is_sqrt_ceil(n as int, sqrt_ceil(n as int)),
    decreases n,
{
    if n == 0 {
        assert(is_sqrt_ceil(0, 0));
    } else {
        lemma_sqrt_ceil_exists((n - 1) as nat);
        let s = sqrt_ceil(n - 1);
        if s * s >= n {
            assert(is_sqrt_ceil(n as int, s));
        } else {
            assert((s + 1) * (s + 1) >= n) by (nonlinear_arith)
                requires
                    s >= 0,
                    s * s >= n - 1,
            ;
            assert(is_sqrt_ceil(n as int, s + 1));
        }
    }
}

/// A product of two bounded factors is bounded by the product of the bounds.
pub proof fn lemma_product_bound(a: int, b: int, ma: int, mb: int)
    by (nonlinear_arith)
    requires
        -ma <= a <= ma,
        -mb <= b <= mb,
    ensures
        -(ma * mb) <= a * b <= ma * mb,
{
}

/// Rounding toward zero brings a quotient no further from zero than the
/// exact quotient: `trunc_div(a, b) * b` lies between zero and `a`.
pub proof fn lemma_trunc_div_bounds(a: int, b: int)
    by (nonlinear_arith)
    requires
        b > 0,
    ensures
        a >= 0 ==> 0 <= trunc_div(a, b) * b <= a,
        a <= 0 ==> a <= trunc_div(a, b) * b <= 0,
        a >= 0 ==> 0 <= trunc_div(a, b) <= a,
        a <= 0 ==> a <= trunc_div(a, b) <= 0,
        trunc_div(-a, b) == -trunc_div(a, b),
{
}

/// Divides by a positive number, rounding toward zero.
pub fn div_toward_zero(a: i128, b: i128) -> (q: i128)
    requires
        b > 0,
    ensures
        q == trunc_div(a as int, b as int),
{
    a / b
}

/// Product of two 64-bit values, which always fits in 128 bits.
pub fn wide_product(a: i64, b: i64) -> (p: i128)
    ensures
        p == a * b,
{
    proof {
        lemma_product_bound(a as int, b as int, 0x8000_0000_0000_0000, 0x8000_0000_0000_0000);
    }
    (a as i128) * (b as i128)
}

/// Applies a gain in thousandths to a wide value.
pub fn scale_by(v: i128, permille: u16) -> (r: i128)
    requires
        -wide_limit() <= v <= wide_limit(),
    ensures
        r == scale(v as int, permille as int),
        -(0x1_0000 * wide_limit()) <= r <= 0x1_0000 * wide_limit(),
{
    proof {
        lemma_product_bound(v as int, permille as int, wide_limit(), 0x1_0000);
        lemma_trunc_div_bounds(v * permille, 1000);
    }
    div_toward_zero(v * (permille as i128), 1000)
}

/// Computes the square root of `n`, rounded up, by bisection.
pub fn ceil_sqrt(n: u64) -> (s: u64)
    ensures
        is_sqrt_ceil(n as int, s as int),
        s == sqrt_ceil(n as int),
        s <= 0x1_0000_0000,
{
    let mut lo: u64 = 0;
    let mut hi: u64 = 0x1_0000_0000;
    while lo < hi
        invariant
            lo <= hi <= 0x1_0000_0000,
            hi * hi >= n,
            lo == 0 || (lo - 1) * (lo - 1) < n,
        decreases hi - lo,
    {
        let mid: u64 = lo + (hi - lo) / 2;
        proof {
            lemma_product_bound(mid as int, mid as int, 0x1_0000_0000, 0x1_0000_0000);
        }
        let sq: u128 = (mid as u128) * (mid as u128);
        if sq >= n as u128 {
            hi = mid;
        } else {
            lo = mid + 1;
        }
    }
    proof {
        lemma_sqrt_ceil_unique(n as int, lo as int, sqrt_ceil(n as int));
    }
    lo
}

/// Clamps a wide value to the coordinate range.
pub fn saturate_i32(v: i128) -> (r: i32)
    ensures
        r == saturate(v as int),
{
    if v < -2147483648 {
        i32::MIN
    } else if v > 2147483647 {
        i32::MAX
    } else {
        v as i32
    }
}

} // verus!
