//! Fixed-point arithmetic shared by every component.
//!
//! All real-valued quantities (lengths in pixels, durations in seconds,
//! blend fractions) are stored as signed integers counting millionths, so
//! `ONE` stands for `1.0`. Products and quotients round toward zero, which
//! keeps every formula symmetric under a change of sign.
use vstd::prelude::*;

verus! {

/// The fixed-point representation of `1.0`.
pub const ONE: i64 = 1_000_000;

/// Magnitudes up to this limit can be multiplied by one another without
/// leaving the 64-bit range once the product is rescaled.
pub const LIMIT: i64 = 1_099_511_627_776;

/// Whether `v` lies within `LIMIT` of zero.
pub open spec fn bounded(v: int) -> bool {
    -LIMIT <= v <= LIMIT
}

/// Whether `v` can be stored in an `i64`.
pub open spec fn fits(v: int) -> bool {
    i64::MIN <= v <= i64::MAX
}

/// The quotient of `a` by a positive `b`, rounded toward zero.
pub open spec fn trunc_div(a: int, b: int) -> int
    recommends
        b > 0,
{
    if a >= 0 {
        a / b
    } else {
        -((-a) / b)
    }
}

/// The fixed-point product of `a` and `b`.
pub open spec fn fx_mul(a: int, b: int) -> int {
    trunc_div(a * b, ONE as int)
}

/// The fixed-point quotient of `a` by a positive `b`.
pub open spec fn fx_div(a: int, b: int) -> int
    recommends
        b > 0,
{
    trunc_div(a * ONE, b)
}

/// `v` limited to the interval from `lo` to `hi`.
pub open spec fn clamp(v: int, lo: int, hi: int) -> int
    recommends
        lo <= hi,
{
    if v < lo {
        lo
    } else if v > hi {
        hi
    } else {
        v
    }
}

/// The absolute value of `v`.
pub open spec fn abs(v: int) -> int {
    if v < 0 {
        -v
    } else {
        v
    }
}

/// The magnitude of a product is the product of the magnitudes.
pub proof fn lemma_product_bound(a: int, b: int, m: int, n: int)
    by (nonlinear_arith)
    requires
        -m <= a <= m,
        -n <= b <= n,
    ensures
        -(m * n) <= a * b <= m * n,
{
}

/// Rounding toward zero never increases a magnitude and keeps the sign.
pub proof fn lemma_trunc_div_bound(a: int, b: int)
    by (nonlinear_arith)
    requires
        b > 0,
    ensures
        abs(trunc_div(a, b)) <= abs(a),
        a >= 0 ==> 0 <= trunc_div(a, b) <= a,
        a <= 0 ==> a <= trunc_div(a, b) <= 0,
        abs(trunc_div(a, b)) * b <= abs(a) < (abs(trunc_div(a, b)) + 1) * b,
        trunc_div(-a, b) == -trunc_div(a, b),
{
}

/// Rounding toward zero preserves order.
pub proof fn lemma_trunc_div_monotonic(a: int, c: int, b: int)
    by (nonlinear_arith)
    requires
        b > 0,
        a <= c,
    ensures
        trunc_div(a, b) <= trunc_div(c, b),
{
}

/// A fraction of a value is no larger than the value: scaling by a factor
/// between zero and one shrinks toward zero.
pub proof fn lemma_fx_mul_fraction(a: int, f: int)
    requires
        0 <= f <= ONE,
    ensures
        abs(fx_mul(a, f)) <= abs(a),
        a >= 0 ==> 0 <= fx_mul(a, f) <= a,
        a <= 0 ==> a <= fx_mul(a, f) <= 0,
        fx_mul(a, ONE as int) == a,
        fx_mul(a, 0) == 0,
{
    assert(a >= 0 ==> 0 <= a * f <= a * ONE) by (nonlinear_arith)
        requires
            0 <= f <= ONE,
    ;
    assert(a <= 0 ==> a * ONE <= a * f <= 0) by (nonlinear_arith)
        requires
            0 <= f <= ONE,
    ;
    lemma_trunc_div_bound(a * f, ONE as int);
    assert(trunc_div(a * ONE, ONE as int) == a) by (nonlinear_arith);
    if a >= 0 {
        lemma_trunc_div_monotonic(a * f, a * ONE, ONE as int);
        lemma_trunc_div_monotonic(0, a * f, ONE as int);
    } else {
        lemma_trunc_div_monotonic(a * ONE, a * f, ONE as int);
        lemma_trunc_div_monotonic(a * f, 0, ONE as int);
    }
    assert(a * 0 == 0);
}

/// A point or displacement in the plane, in fixed-point units.
#[derive(Clone, Copy, Debug, PartialEq, Eq, Structural)]
pub struct Vec2 {
    pub x: i64,
    pub y: i64,
}

impl Default for Vec2 {
    fn default() -> (v: Self)
        ensures
            v.x == 0,
            v.y == 0,
    {
        Vec2 { x: 0, y: 0 }
    }
}

impl Vec2 {
    /// Both coordinates lie within `LIMIT` of zero.
    pub open spec fn bounded(self) -> bool {
        bounded(self.x as int) && bounded(self.y as int)
    }

    pub fn new(x: i64, y: i64) -> (v: Self)
        ensures
            v.x == x,
            v.y == y,
    {
        Vec2 { x, y }
    }

    /// The origin.
    pub fn zero() -> (v: Self)
        ensures
            v.x == 0,
            v.y == 0,
    {
        Vec2 { x: 0, y: 0 }
    }
}

/// Whether `r` is the square root of `n`, rounded down.
pub open spec fn is_sqrt(n: int, r: int) -> bool {
    0 <= r && r * r <= n < (r + 1) * (r + 1)
}

/// The square root of `n`, rounded down.
pub open spec fn sqrt(n: int) -> int
    recommends
        n >= 0,
{
    choose|r: int| is_sqrt(n, r)
}

/// Squaring preserves the order of numbers that are not negative.
pub proof fn lemma_square_monotonic(a: int, b: int)
    by (nonlinear_arith)
    requires
        0 <= a <= b,
    ensures
        a * a <= b * b,
{
}

/// A number has at most one square root rounded down.
pub proof fn lemma_sqrt_unique(n: int, r: int)
    requires
        is_sqrt(n, r),
    ensures
        sqrt(n) == r,
{
    let s = sqrt(n);
    assert(is_sqrt(n, s));
    if s < r {
        lemma_square_monotonic(s + 1, r);
    }
    if r < s {
        lemma_square_monotonic(r + 1, s);
    }
}

/// Every number that is not negative has a square root rounded down.
pub proof fn lemma_sqrt_exists(n: int)
    requires
        n >= 0,
    ensures
        is_sqrt(n, sqrt(n)),
    decreases n,
{
    if n == 0 {
        assert(is_sqrt(0, 0));
    } else {
        lemma_sqrt_exists(n - 1);
        let r = sqrt(n - 1);
        assert((r + 2) * (r + 2) > (r + 1) * (r + 1)) by (nonlinear_arith)
            requires
                r >= 0,
        ;
        if n < (r + 1) * (r + 1) {
            assert(is_sqrt(n, r));
        } else {
            assert(is_sqrt(n, r + 1));
        }
    }
}

/// A common positive factor can be dropped from both sides of a
/// comparison.
pub proof fn lemma_cancel(x: int, y: int, n: int)
    by (nonlinear_arith)
    requires
        n > 0,
    ensures
        x * n <= y * n ==> x <= y,
        x * n < y * n ==> x < y,
{
}

/// Of two numbers that are not negative, the one with the smaller square
/// is the smaller.
pub proof fn lemma_square_order(a: int, b: int)
    by (nonlinear_arith)
    requires
        0 <= a,
        0 <= b,
    ensures
        a * a < b * b ==> a < b,
        a * a <= b * b ==> a <= b,
{
}

/// The square root of `n`, rounded down.
pub fn sqrt_floor(n: u128) -> (r: u64)
    requires
        n < 0x4000_0000_0000_0000_0000_0000_0000_0000,
    ensures
        is_sqrt(n as int, r as int),
        r == sqrt(n as int),
        r < 0x8000_0000_0000_0000,
{
    let mut lo: u128 = 0;
    let mut hi: u128 = 0x8000_0000_0000_0000;
    proof {
        assert(0x8000_0000_0000_0000int * 0x8000_0000_0000_0000int
            == 0x4000_0000_0000_0000_0000_0000_0000_0000int) by (nonlinear_arith);
    }
    while hi - lo > 1
        invariant
            lo < hi <= 0x8000_0000_0000_0000,
            lo * lo <= n < hi * hi,
        decreases hi - lo,
    {
        let mid: u128 = lo + (hi - lo) / 2;
        proof {
            lemma_square_monotonic(mid as int, 0x8000_0000_0000_0000);
            assert(0x8000_0000_0000_0000int * 0x8000_0000_0000_0000int
                == 0x4000_0000_0000_0000_0000_0000_0000_0000int) by (nonlinear_arith);
        }
        if mid * mid <= n {
            lo = mid;
        } else {
            hi = mid;
        }
    }
    proof {
        lemma_sqrt_unique(n as int, lo as int);
    }
    lo as u64
}

} // verus!
