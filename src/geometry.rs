use vstd::prelude::*;

verus! {

/// Steps per screen unit: the screen spans `-UNITS..=UNITS` on each axis.
pub const UNITS: i64 = 1000;

/// A point of the screen, in steps of `1 / UNITS` of a screen unit.
#[derive(Clone, Copy, Debug, PartialEq, Eq, Structural)]
pub struct Point {
    pub x: i64,
    pub y: i64,
}

impl Point {
    pub fn new(x: i64, y: i64) -> (r: Point)
        ensures
            r.x == x,
            r.y == y,
    {
        Point { x, y }
    }
}

/// x coordinate of corner `j` of the upward triangle whose base-left corner
/// is at `x` and whose base is `w` wide: base-left, base-right, apex.
pub open spec fn corner_x(x: int, w: int, j: int) -> int {
    if j == 0 {
        x
    } else if j == 1 {
        x + w
    } else {
        x + w / 2
    }
}

/// y coordinate of corner `j` of the upward triangle whose base lies at `y`
/// and whose apex is `h` above it.
pub open spec fn corner_y(y: int, h: int, j: int) -> int {
    if j == 2 {
        y + h
    } else {
        y
    }
}

/// Whether `p` is corner `j` of the upward triangle at `(x, y)` of size
/// `w` by `h`.
pub open spec fn is_corner(p: Point, x: int, y: int, w: int, h: int, j: int) -> bool {
    p.x == corner_x(x, w, j) && p.y == corner_y(y, h, j)
}

/// The three corners of the upward triangle whose base-left corner is
/// `(x, y)`, whose base is `w` wide and whose apex is `h` above the base,
/// `w / 2` to the right of the base-left corner.
pub fn upward_triangle(x: i64, y: i64, w: i64, h: i64) -> (r: [Point; 3])
    requires
        w >= 0,
        h >= 0,
        x + w <= i64::MAX,
        y + h <= i64::MAX,
    ensures
        forall|j: int| 0 <= j < 3 ==> is_corner(#[trigger] r@[j], x as int, y as int, w as int, h as int, j),
{
    [Point { x, y }, Point { x: x + w, y }, Point { x: x + w / 2, y: y + h }]
}

/// Squared Euclidean distance between two points given by their coordinates.
pub open spec fn dist_sq(ax: int, ay: int, bx: int, by: int) -> int {
    (ax - bx) * (ax - bx) + (ay - by) * (ay - by)
}

/// `sqrt(a) + sqrt(b) < t`, for `a, b >= 0`, written without square roots:
/// squaring both sides twice gives `2 sqrt(ab) < t^2 - a - b`.
pub open spec fn sqrt_sum_lt(a: int, b: int, t: int) -> bool {
    &&& t > 0
    &&& a + b < t * t
    &&& 4 * (a * b) < (t * t - a - b) * (t * t - a - b)
}

/// With perfect squares the comparison is the plain sum of the roots.
pub proof fn lemma_sqrt_sum_lt_squares(x: int, y: int, t: int)
    requires
        x >= 0,
        y >= 0,
        t > 0,
    ensures
        sqrt_sum_lt(x * x, y * y, t) <==> x + y < t,
{
    assert((t * t - x * x - y * y) * (t * t - x * x - y * y) - 4 * ((x * x) * (y * y)) == (t * t - (x + y) * (x + y)) * (t * t - (x - y) * (x - y)))
        by (nonlinear_arith);
    if x + y < t {
        assert((x + y) * (x + y) < t * t) by (nonlinear_arith)
            requires x >= 0, y >= 0, x + y < t;
        assert((x - y) * (x - y) <= (x + y) * (x + y)) by (nonlinear_arith)
            requires x >= 0, y >= 0;
        assert((t * t - (x + y) * (x + y)) * (t * t - (x - y) * (x - y)) > 0) by (nonlinear_arith)
            requires (x + y) * (x + y) < t * t, (x - y) * (x - y) <= (x + y) * (x + y);
        assert(x * y >= 0) by (nonlinear_arith) requires x >= 0, y >= 0;
        assert(x * x + y * y <= (x + y) * (x + y)) by (nonlinear_arith) requires x * y >= 0;
    } else {
        assert((x + y) * (x + y) >= t * t) by (nonlinear_arith)
            requires x >= 0, y >= 0, x + y >= t, t > 0;
        if sqrt_sum_lt(x * x, y * y, t) {
            assert(x * y >= 0) by (nonlinear_arith) requires x >= 0, y >= 0;
            assert((x - y) * (x - y) == x * x + y * y - 2 * x * y) by (nonlinear_arith);
            assert((t * t - (x + y) * (x + y)) * (t * t - (x - y) * (x - y)) <= 0) by (nonlinear_arith)
                requires
                    t * t - (x + y) * (x + y) <= 0,
                    t * t - (x - y) * (x - y) >= 0,
            ;
        }
    }
}

proof fn lemma_mul_le(a: int, b: int, c: int)
    requires
        0 <= a <= c,
        0 <= b <= c,
    ensures
        a * b <= c * c,
{
    assert(a * b <= c * c) by (nonlinear_arith)
        requires 0 <= a <= c, 0 <= b <= c;
}

/// Bounding each root from above bounds their sum.
pub proof fn lemma_sqrt_sum_lt_bounded(a: int, b: int, p: int, q: int, t: int)
    requires
        0 <= a <= p * p,
        0 <= b <= q * q,
        p >= 0,
        q >= 0,
        p + q < t,
    ensures
        sqrt_sum_lt(a, b, t),
{
    lemma_sqrt_sum_lt_squares(p, q, t);
    let d: int = t * t - p * p - q * q;
    assert(4 * (a * b) <= 4 * ((p * p) * (q * q))) by (nonlinear_arith)
        requires 0 <= a <= p * p, 0 <= b <= q * q;
    assert((t * t - a - b) * (t * t - a - b) >= d * d) by (nonlinear_arith)
        requires t * t - a - b >= d, d > 0;
}

/// Scaling all three sides by the same factor keeps the comparison.
pub proof fn lemma_sqrt_sum_lt_unscale(a: int, b: int, t: int)
    requires
        a >= 0,
        b >= 0,
        sqrt_sum_lt(16 * a, 16 * b, 4 * t),
    ensures
        sqrt_sum_lt(a, b, t),
{
    assert((4 * t) * (4 * t) == 16 * (t * t)) by (nonlinear_arith);
    assert(4 * ((16 * a) * (16 * b)) == 256 * (4 * (a * b))) by (nonlinear_arith);
    let d: int = t * t - a - b;
    assert((16 * (t * t) - 16 * a - 16 * b) * (16 * (t * t) - 16 * a - 16 * b) == 256 * (d * d)) by (nonlinear_arith)
        requires d == t * t - a - b;
    assert(t > 0) by (nonlinear_arith)
        requires 4 * t > 0;
}

/// Decides `sqrt(a) + sqrt(b) < t` exactly.
pub fn sqrt_sum_below(a: u128, b: u128, t: u64) -> (r: bool)
    requires
        t < 0x4000_0000,
    ensures
        r == sqrt_sum_lt(a as int, b as int, t as int),
{
    if t == 0 {
        return false;
    }
    proof {
        lemma_mul_le(t as int, t as int, 0x4000_0000);
    }
    let t2: u128 = (t as u128) * (t as u128);
    if a >= t2 || b >= t2 - a {
        return false;
    }
    let rest: u128 = t2 - a - b;
    proof {
        lemma_mul_le(rest as int, rest as int, 0x1000_0000_0000_0000);
        lemma_mul_le(a as int, b as int, 0x1000_0000_0000_0000);
    }
    4 * (a * b) < rest * rest
}

} // verus!
