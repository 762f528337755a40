//! Fixed-point plane geometry: vectors of integer sub-pixel units and the
//! integer operations the steering rules are built from.
use vstd::prelude::*;

verus! {

/// A point or displacement in the plane, in sub-pixel units.
#[derive(Clone, Copy, Debug, PartialEq, Eq, Structural)]
pub struct Vec2 {
    pub x: i64,
    pub y: i64,
}

impl Vec2 {
    pub fn new(x: i64, y: i64) -> (r: Vec2)
        ensures
            r.x == x,
            r.y == y,
    {
        Vec2 { x, y }
    }
}

/// Division rounding toward zero, as Rust's `/` does on signed integers.
pub open spec fn tdiv(a: int, d: int) -> int {
    if a >= 0 {
        a / d
    } else {
        -((-a) / d)
    }
}

/// Division rounding away from zero: any nonzero dividend gives a nonzero quotient.
pub open spec fn adiv(a: int, d: int) -> int {
    if a > 0 {
        (a + d - 1) / d
    } else if a < 0 {
        -((-a + d - 1) / d)
    } else {
        0
    }
}

/// Squared Euclidean distance between two points.
pub open spec fn dist_sq(a: Vec2, b: Vec2) -> int {
    (b.x - a.x) * (b.x - a.x) + (b.y - a.y) * (b.y - a.y)
}

/// `r` is the smallest natural number whose square reaches `n`.
pub open spec fn is_ceil_sqrt(n: int, r: int) -> bool {
    r >= 0 && r * r >= n && (r == 0 || (r - 1) * (r - 1) < n)
}

pub open spec fn ceil_sqrt(n: int) -> int {
    choose|r: int| is_ceil_sqrt(n, r)
}

pub proof fn lemma_ceil_sqrt_unique(n: int, r1: int, r2: int)
    requires
        is_ceil_sqrt(n, r1),
        is_ceil_sqrt(n, r2),
    ensures
        r1 == r2,
{
    if r1 < r2 {
        assert((r2 - 1) * (r2 - 1) >= r1 * r1) by (nonlinear_arith)
            requires
                r2 - 1 >= r1,
                r1 >= 0,
        ;
    } else if r2 < r1 {
        assert((r1 - 1) * (r1 - 1) >= r2 * r2) by (nonlinear_arith)
            requires
                r1 - 1 >= r2,
                r2 >= 0,
        ;
    }
}

/// Every natural number has a ceiling square root.
pub proof fn lemma_ceil_sqrt_exists(n: int)
    requires
        n >= 0,
    ensures
        is_ceil_sqrt(n, ceil_sqrt(n)),
    decreases n,
{
    if n == 0 {
        assert(is_ceil_sqrt(0, 0));
    } else {
        lemma_ceil_sqrt_exists(n - 1);
        let r = ceil_sqrt(n - 1);
        if r * r >= n {
            assert(is_ceil_sqrt(n, r));
        } else {
            assert(r * r == n - 1);
            assert((r + 1) * (r + 1) >= n) by (nonlinear_arith)
                requires
                    r >= 0,
                    r * r == n - 1,
            ;
            assert(is_ceil_sqrt(n, r + 1));
        }
    }
}

/// Bounds on a quotient rounded toward zero.
pub proof fn lemma_tdiv_bound(a: int, d: int, m: int)
    requires
        d > 0,
        -(m * d) <= a <= m * d,
    ensures
        -m <= tdiv(a, d) <= m,
        a >= 0 ==> tdiv(a, d) >= 0,
        a <= 0 ==> tdiv(a, d) <= 0,
{
    if a >= 0 {
        assert(a / d <= m) by (nonlinear_arith)
            requires
                d > 0,
                a >= 0,
                a <= m * d,
        ;
        assert(a / d >= 0) by (nonlinear_arith)
            requires
                d > 0,
                a >= 0,
        ;
    } else {
        assert((-a) / d <= m) by (nonlinear_arith)
            requires
                d > 0,
                -a >= 0,
                -a <= m * d,
        ;
        assert((-a) / d >= 0) by (nonlinear_arith)
            requires
                d > 0,
                -a >= 0,
        ;
    }
}

/// A quotient rounded toward zero is no larger in size than the dividend.
pub proof fn lemma_tdiv_shrinks(a: int, d: int)
    requires
        d > 0,
    ensures
        a >= 0 ==> 0 <= tdiv(a, d) <= a,
        a < 0 ==> a <= tdiv(a, d) <= 0,
{
    if a >= 0 {
        assert(0 <= a / d <= a) by (nonlinear_arith)
            requires
                d > 0,
                a >= 0,
        ;
    } else {
        assert(0 <= (-a) / d <= -a) by (nonlinear_arith)
            requires
                d > 0,
                -a >= 0,
        ;
    }
}

/// Bounds and sign of a quotient rounded away from zero.
pub proof fn lemma_adiv_bound(a: int, d: int, m: int)
    requires
        d > 0,
        -(m * d) <= a <= m * d,
    ensures
        -m <= adiv(a, d) <= m,
        a > 0 ==> 1 <= adiv(a, d),
        a < 0 ==> adiv(a, d) <= -1,
        a == 0 ==> adiv(a, d) == 0,
        a >= 0 ==> adiv(a, d) * d >= a,
        a <= 0 ==> adiv(a, d) * d <= a,
{
    if a > 0 {
        assert(1 <= (a + d - 1) / d <= m && (a + d - 1) / d * d >= a) by (nonlinear_arith)
            requires
                d > 0,
                a > 0,
                a <= m * d,
        ;
    } else if a < 0 {
        let q = (-a + d - 1) / d;
        assert(1 <= q <= m && q * d >= -a) by (nonlinear_arith)
            requires
                q == (-a + d - 1) / d,
                d > 0,
                -a > 0,
                -a <= m * d,
        ;
        assert((-q) * d == -(q * d)) by (nonlinear_arith);
    } else {
        assert(m >= 0) by (nonlinear_arith)
            requires
                d > 0,
                0 <= m * d,
        ;
    }
}

/// A quotient rounded away from zero has the dividend's sign.
pub proof fn lemma_adiv_sign(a: int, d: int)
    requires
        d > 0,
    ensures
        a > 0 ==> 1 <= adiv(a, d),
        a < 0 ==> adiv(a, d) <= -1,
        a == 0 ==> adiv(a, d) == 0,
{
    let m = if a >= 0 { a } else { -a };
    assert(-(m * d) <= a <= m * d) by (nonlinear_arith)
        requires
            d > 0,
            m >= 0,
            m == a || m == -a,
    ;
    lemma_adiv_bound(a, d, m);
}

/// Quotient of `a` by a positive `d`, rounded away from zero.
pub fn div_away(a: i128, d: i128) -> (r: i128)
    requires
        0 < d <= 0x1_0000,
        -0x1_0000_0000_0000_0000 <= a <= 0x1_0000_0000_0000_0000,
    ensures
        r == adiv(a as int, d as int),
{
    if a > 0 {
        (a + d - 1) / d
    } else if a < 0 {
        proof {
            let na = -(a as int);
            let di = d as int;
            assert(0 <= (na + di - 1) / di <= na + di - 1) by (nonlinear_arith)
                requires
                    di > 0,
                    na > 0,
            ;
        }
        -((-a + d - 1) / d)
    } else {
        0
    }
}

/// Quotient of `a` by a positive `d`, rounded toward zero.
pub fn div_trunc(a: i128, d: i128) -> (r: i128)
    requires
        d > 0,
        a > i128::MIN,
    ensures
        r == tdiv(a as int, d as int),
{
    if a >= 0 {
        a / d
    } else {
        proof {
            lemma_tdiv_shrinks(a as int, d as int);
        }
        let q = (-a) / d;
        -q
    }
}

/// Smallest natural number whose square is at least `n`, found by bisection.
pub fn ceil_sqrt_u128(n: u128) -> (r: u128)
    requires
        0 < n <= 0x1_0000_0000_0000_0000_0000,
    ensures
        is_ceil_sqrt(n as int, r as int),
        r as int == ceil_sqrt(n as int),
        r <= 0x100_0000_0001,
{
    let mut lo: u128 = 0;
    let mut hi: u128 = 0x100_0000_0001;
    assert(hi * hi >= n) by (nonlinear_arith)
        requires
            hi == 0x100_0000_0001,
            n <= 0x1_0000_0000_0000_0000_0000,
    ;
    while hi - lo > 1
        invariant
            lo < hi <= 0x100_0000_0001,
            lo * lo < n,
            hi * hi >= n,
        decreases hi - lo,
    {
        let mid = lo + (hi - lo) / 2;
        assert(mid * mid <= hi * hi) by (nonlinear_arith)
            requires
                mid <= hi,
        ;
        assert(hi * hi <= 0x100_0000_0001 * 0x100_0000_0001) by (nonlinear_arith)
            requires
                hi <= 0x100_0000_0001,
        ;
        if mid * mid >= n {
            hi = mid;
        } else {
            lo = mid;
        }
    }
    assert(hi - 1 == lo);
    assert(is_ceil_sqrt(n as int, hi as int));
    proof {
        let c = ceil_sqrt(n as int);
        assert(is_ceil_sqrt(n as int, c));
        lemma_ceil_sqrt_unique(n as int, c, hi as int);
    }
    hi
}

} // verus!
