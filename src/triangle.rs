use vstd::prelude::*;
use rand::Rng;

use crate::geometry::{
    dist_sq, is_corner, lemma_sqrt_sum_lt_bounded, lemma_sqrt_sum_lt_unscale, sqrt_sum_below, sqrt_sum_lt,
    upward_triangle, Point, UNITS,
};

verus! {

/// Largest width or height of a target, and largest distance of its
/// base-left corner from the centre, in steps (about four screen units).
pub const MAX_EXTENT: i64 = 4096;

/// Random positions of the base-left corner are drawn from
/// `SPAWN_MIN..SPAWN_MAX` on each axis.
pub const SPAWN_MIN: i64 = -900;

/// Upper bound (exclusive) of the random positions.
pub const SPAWN_MAX: i64 = 800;

/// First vertex of edge `i`: edges are (base-left, base-right),
/// (base-left, apex), (base-right, apex).
pub open spec fn edge_from(i: int) -> int {
    if i == 2 {
        1
    } else {
        0
    }
}

/// Second vertex of edge `i`.
pub open spec fn edge_to(i: int) -> int {
    if i == 0 {
        1
    } else {
        2
    }
}

/// Four times the area against which the hit test compares: half of width
/// times height, plus a hundredth of the height in screen units (which, in
/// steps squared, is `height * UNITS / 100`).
pub open spec fn area_bound(width: int, height: int) -> int {
    2 * width * height + 4 * (height * UNITS / 100)
}

/// Twice the distance from a click to the midpoint of edge `i`, times the
/// edge's length, squared: `(2 d_i l_i)^2`, where `d_i l_i / 2` is the
/// area-like term of that edge.
pub open spec fn edge_term(v: Seq<Point>, i: int, cx: int, cy: int) -> int {
    let a = v[edge_from(i)];
    let b = v[edge_to(i)];
    dist_sq(2 * cx, 2 * cy, a.x + b.x, a.y + b.y) * dist_sq(a.x as int, a.y as int, b.x as int, b.y as int)
}

/// The hit test over the vertices `v` of a `width` by `height` target: the
/// terms of the first two edges, (base-left, base-right) and (base-left,
/// apex), sum to less than the area plus the tolerance. With `d_i` the
/// distance to the midpoint and `l_i` the length of edge `i`, this is
/// `d_0 l_0 / 2 + d_1 l_1 / 2 < width * height / 2 + height * UNITS / 100`.
pub open spec fn hit_test(v: Seq<Point>, width: int, height: int, cx: int, cy: int) -> bool {
    sqrt_sum_lt(edge_term(v, 0, cx, cy), edge_term(v, 1, cx, cy), area_bound(width, height))
}

/// The clickable triangle: a fixed shape that moves around the screen.
pub struct Triangle {
    vertices: [Point; 3],
    width: i64,
    height: i64,
    /// Sum of the two ends of each edge: twice its midpoint, kept exact.
    midpoint_sums: [Point; 3],
    /// Squared length of each edge.
    length_squares: [i64; 3],
}

/// Relies on rand::thread_rng and rand::Rng::gen_range: a value drawn from
/// `lo..hi`, which must not be empty.
#[verifier::external_body]
pub(crate) fn random_in(lo: i64, hi: i64) -> (r: i64)
    requires
        lo < hi,
    ensures
        lo <= r < hi,
{
    rand::thread_rng().gen_range(lo..hi)
}

impl Triangle {
    /// The vertices: base-left, base-right, apex.
    pub closed spec fn spec_vertices(&self) -> Seq<Point> {
        self.vertices@
    }

    pub closed spec fn spec_width(&self) -> int {
        self.width as int
    }

    pub closed spec fn spec_height(&self) -> int {
        self.height as int
    }

    /// Whether the vertices form the target's shape with the base-left
    /// corner at `(x, y)`.
    pub open spec fn is_at(&self, x: int, y: int) -> bool {
        forall|j: int|
            0 <= j < 3 ==> is_corner(
                #[trigger] self.spec_vertices()[j],
                x,
                y,
                self.spec_width(),
                self.spec_height(),
                j,
            )
    }

    /// The resting position: the base straddles `x = 0` on `y = 0`.
    pub open spec fn is_at_default(&self) -> bool {
        self.is_at(-(self.spec_width() / 2), 0)
    }

    /// Whether a click at `(cx, cy)` counts as a hit.
    pub open spec fn hits(&self, cx: int, cy: int) -> bool {
        hit_test(self.spec_vertices(), self.spec_width(), self.spec_height(), cx, cy)
    }

    /// Well-formed: a bounded positive size, the vertices in the target's
    /// shape at a bounded place, and the cached midpoints and lengths those
    /// of the vertices' edges.
    pub closed spec fn wf(&self) -> bool {
        &&& 0 < self.width <= MAX_EXTENT
        &&& 0 < self.height <= MAX_EXTENT
        &&& -MAX_EXTENT <= self.vertices[0].x <= MAX_EXTENT
        &&& -MAX_EXTENT <= self.vertices[0].y <= MAX_EXTENT
        &&& self.is_at(self.vertices[0].x as int, self.vertices[0].y as int)
        &&& forall|i: int|
            0 <= i < 3 ==> {
                let a = self.vertices@[edge_from(i)];
                let b = self.vertices@[edge_to(i)];
                &&& (#[trigger] self.midpoint_sums@[i]).x == a.x + b.x
                &&& self.midpoint_sums@[i].y == a.y + b.y
                &&& self.length_squares@[i] == dist_sq(a.x as int, a.y as int, b.x as int, b.y as int)
            }
    }

    /// What well-formedness bounds: vertices, midpoint sums and squared
    /// lengths, as the hit test's arithmetic needs.
    proof fn lemma_wf_bounds(&self)
        requires
            self.wf(),
        ensures
            forall|j: int|
                0 <= j < 3 ==> -2 * MAX_EXTENT <= #[trigger] self.vertices@[j].x <= 2 * MAX_EXTENT
                    && -2 * MAX_EXTENT <= self.vertices@[j].y <= 2 * MAX_EXTENT,
            forall|i: int|
                0 <= i < 3 ==> -0x10000 <= (#[trigger] self.midpoint_sums@[i]).x <= 0x10000
                    && -0x10000 <= self.midpoint_sums@[i].y <= 0x10000,
            forall|i: int| 0 <= i < 3 ==> 0 <= #[trigger] self.length_squares@[i] <= 0x2000_0000,
    {
        let x: int = self.vertices[0].x as int;
        let y: int = self.vertices[0].y as int;
        assert(is_corner(self.spec_vertices()[0], x, y, self.spec_width(), self.spec_height(), 0));
        assert(is_corner(self.spec_vertices()[1], x, y, self.spec_width(), self.spec_height(), 1));
        assert(is_corner(self.spec_vertices()[2], x, y, self.spec_width(), self.spec_height(), 2));
        assert forall|i: int| 0 <= i < 3 implies 0 <= #[trigger] self.length_squares@[i] <= 0x2000_0000 by {
            let a = self.vertices@[edge_from(i)];
            let b = self.vertices@[edge_to(i)];
            let dx: int = a.x - b.x;
            let dy: int = a.y - b.y;
            assert(self.midpoint_sums@[i].x == a.x + b.x);
            assert(0 <= dx * dx <= 0x1000_0000) by (nonlinear_arith)
                requires -0x4000 <= dx <= 0x4000;
            assert(0 <= dy * dy <= 0x1000_0000) by (nonlinear_arith)
                requires -0x4000 <= dy <= 0x4000;
        }
        assert forall|i: int| 0 <= i < 3 implies -0x10000 <= (#[trigger] self.midpoint_sums@[i]).x <= 0x10000
            && -0x10000 <= self.midpoint_sums@[i].y <= 0x10000 by {
            assert(0 <= self.length_squares@[i]);
        }
    }

    /// A target of the given size at its resting position.
    pub fn new(width: i64, height: i64) -> (r: Triangle)
        requires
            0 < width <= MAX_EXTENT,
            0 < height <= MAX_EXTENT,
        ensures
            r.wf(),
            r.spec_width() == width,
            r.spec_height() == height,
            r.is_at_default(),
    {
        let vertices = upward_triangle(-(width / 2), 0, width, height);
        let midpoint_sums = Triangle::calculate_midpoints(&vertices);
        let length_squares = Triangle::calculate_lengths(&vertices);
        Triangle { vertices, width, height, midpoint_sums, length_squares }
    }

    /// The vertices: base-left, base-right, apex.
    pub fn vertices(&self) -> (r: [Point; 3])
        ensures
            r@ == self.spec_vertices(),
    {
        self.vertices
    }

    pub fn width(&self) -> (r: i64)
        ensures
            r == self.spec_width(),
    {
        self.width
    }

    pub fn height(&self) -> (r: i64)
        ensures
            r == self.spec_height(),
    {
        self.height
    }

    /// Moves the target back to its resting position.
    pub fn reset_to_default(&mut self)
        requires
            old(self).wf(),
        ensures
            final(self).wf(),
            final(self).spec_width() == old(self).spec_width(),
            final(self).spec_height() == old(self).spec_height(),
            final(self).is_at_default(),
    {
        self.place(-(self.width / 2), 0);
    }

    /// Moves the target so that its base-left corner is at `(x, y)`.
    pub fn place(&mut self, x: i64, y: i64)
        requires
            old(self).wf(),
            -MAX_EXTENT <= x <= MAX_EXTENT,
            -MAX_EXTENT <= y <= MAX_EXTENT,
        ensures
            final(self).wf(),
            final(self).spec_width() == old(self).spec_width(),
            final(self).spec_height() == old(self).spec_height(),
            final(self).is_at(x as int, y as int),
    {
        let vertices = upward_triangle(x, y, self.width, self.height);
        self.midpoint_sums = Triangle::calculate_midpoints(&vertices);
        self.length_squares = Triangle::calculate_lengths(&vertices);
        self.vertices = vertices;
    }

    /// Moves the target to a random place, its base-left corner drawn from
    /// `SPAWN_MIN..SPAWN_MAX` on each axis.
    pub fn generate_new_coordinates(&mut self)
        requires
            old(self).wf(),
        ensures
            final(self).wf(),
            final(self).spec_width() == old(self).spec_width(),
            final(self).spec_height() == old(self).spec_height(),
            SPAWN_MIN <= final(self).spec_vertices()[0].x < SPAWN_MAX,
            SPAWN_MIN <= final(self).spec_vertices()[0].y < SPAWN_MAX,
            final(self).spec_vertices()[1].x == final(self).spec_vertices()[0].x + final(self).spec_width(),
            final(self).spec_vertices()[1].y == final(self).spec_vertices()[0].y,
            final(self).spec_vertices()[2].y == final(self).spec_vertices()[0].y + final(self).spec_height(),
            final(self).is_at(final(self).spec_vertices()[0].x as int, final(self).spec_vertices()[0].y as int),
    {
        let x: i64 = random_in(SPAWN_MIN, SPAWN_MAX);
        let y: i64 = random_in(SPAWN_MIN, SPAWN_MAX);
        self.place(x, y);
        assert(is_corner(self.spec_vertices()[1], x as int, y as int, self.spec_width(), self.spec_height(), 1));
        assert(is_corner(self.spec_vertices()[2], x as int, y as int, self.spec_width(), self.spec_height(), 2));
    }

    /// Squared lengths of the edges (base-left, base-right),
    /// (base-left, apex), (base-right, apex).
    fn calculate_lengths(vertices: &[Point; 3]) -> (r: [i64; 3])
        requires
            forall|j: int|
                0 <= j < 3 ==> -2 * MAX_EXTENT <= #[trigger] vertices@[j].x <= 2 * MAX_EXTENT
                    && -2 * MAX_EXTENT <= vertices@[j].y <= 2 * MAX_EXTENT,
        ensures
            forall|i: int|
                0 <= i < 3 ==> #[trigger] r@[i] == dist_sq(
                    vertices@[edge_from(i)].x as int,
                    vertices@[edge_from(i)].y as int,
                    vertices@[edge_to(i)].x as int,
                    vertices@[edge_to(i)].y as int,
                ),
    {
        let mut res: [i64; 3] = [0; 3];
        let mut i: usize = 0;
        while i < 3
            invariant
                i <= 3,
                forall|j: int|
                    0 <= j < 3 ==> -2 * MAX_EXTENT <= #[trigger] vertices@[j].x <= 2 * MAX_EXTENT
                        && -2 * MAX_EXTENT <= vertices@[j].y <= 2 * MAX_EXTENT,
                forall|k: int|
                    0 <= k < i ==> #[trigger] res@[k] == dist_sq(
                        vertices@[edge_from(k)].x as int,
                        vertices@[edge_from(k)].y as int,
                        vertices@[edge_to(k)].x as int,
                        vertices@[edge_to(k)].y as int,
                    ),
            decreases 3 - i,
        {
            let (from, to): (usize, usize) = if i == 2 {
                (1, 2)
            } else if i == 0 {
                (0, 1)
            } else {
                (0, 2)
            };
            assert(-2 * MAX_EXTENT <= vertices@[from as int].x <= 2 * MAX_EXTENT);
            assert(-2 * MAX_EXTENT <= vertices@[from as int].y <= 2 * MAX_EXTENT);
            assert(-2 * MAX_EXTENT <= vertices@[to as int].x <= 2 * MAX_EXTENT);
            assert(-2 * MAX_EXTENT <= vertices@[to as int].y <= 2 * MAX_EXTENT);
            let dx: i64 = vertices[from].x - vertices[to].x;
            let dy: i64 = vertices[from].y - vertices[to].y;
            assert(0 <= dx * dx <= 0x1_0000_0000) by (nonlinear_arith)
                requires -0x8000 <= dx <= 0x8000;
            assert(0 <= dy * dy <= 0x1_0000_0000) by (nonlinear_arith)
                requires -0x8000 <= dy <= 0x8000;
            let len_sq: i64 = dx * dx + dy * dy;
            res[i] = len_sq;
            i = i + 1;
        }
        res
    }

    /// Sums of the ends of the edges (base-left, base-right),
    /// (base-left, apex), (base-right, apex): twice their midpoints.
    fn calculate_midpoints(vertices: &[Point; 3]) -> (r: [Point; 3])
        requires
            forall|j: int|
                0 <= j < 3 ==> -2 * MAX_EXTENT <= #[trigger] vertices@[j].x <= 2 * MAX_EXTENT
                    && -2 * MAX_EXTENT <= vertices@[j].y <= 2 * MAX_EXTENT,
        ensures
            forall|i: int|
                0 <= i < 3 ==> (#[trigger] r@[i]).x == vertices@[edge_from(i)].x + vertices@[edge_to(i)].x
                    && r@[i].y == vertices@[edge_from(i)].y + vertices@[edge_to(i)].y,
    {
        let mut res: [Point; 3] = [Point { x: 0, y: 0 }; 3];
        let mut i: usize = 0;
        while i < 3
            invariant
                i <= 3,
                forall|j: int|
                    0 <= j < 3 ==> -2 * MAX_EXTENT <= #[trigger] vertices@[j].x <= 2 * MAX_EXTENT
                        && -2 * MAX_EXTENT <= vertices@[j].y <= 2 * MAX_EXTENT,
                forall|k: int|
                    0 <= k < i ==> (#[trigger] res@[k]).x == vertices@[edge_from(k)].x + vertices@[edge_to(k)].x
                        && res@[k].y == vertices@[edge_from(k)].y + vertices@[edge_to(k)].y,
            decreases 3 - i,
        {
            let (from, to): (usize, usize) = if i == 2 {
                (1, 2)
            } else if i == 0 {
                (0, 1)
            } else {
                (0, 2)
            };
            assert(-2 * MAX_EXTENT <= vertices@[from as int].x <= 2 * MAX_EXTENT);
            assert(-2 * MAX_EXTENT <= vertices@[from as int].y <= 2 * MAX_EXTENT);
            assert(-2 * MAX_EXTENT <= vertices@[to as int].x <= 2 * MAX_EXTENT);
            assert(-2 * MAX_EXTENT <= vertices@[to as int].y <= 2 * MAX_EXTENT);
            res[i] = Point { x: vertices[from].x + vertices[to].x, y: vertices[from].y + vertices[to].y };
            i = i + 1;
        }
        res
    }

    /// Whether a click at `(click_x, click_y)` counts as a hit: the
    /// area-like terms of the first two edges sum to less than the area plus
    /// the tolerance (see `hit_test`). The third edge takes no part.
    pub fn in_triangle(&self, click_x: i32, click_y: i32) -> (r: bool)
        requires
            self.wf(),
        ensures
            r == self.hits(click_x as int, click_y as int),
    {
        proof {
            self.lemma_wf_bounds();
        }
        let cx2: i128 = 2 * (click_x as i128);
        let cy2: i128 = 2 * (click_y as i128);
        let ghost v = self.vertices@;
        let mut terms: [u128; 2] = [0; 2];
        let mut i: usize = 0;
        while i < 2
            invariant
                i <= 2,
                self.wf(),
                v == self.vertices@,
                cx2 == 2 * click_x,
                cy2 == 2 * click_y,
                forall|k: int| 0 <= k < i ==> #[trigger] terms@[k] == edge_term(v, k, click_x as int, click_y as int),
            decreases 2 - i,
        {
            proof {
                self.lemma_wf_bounds();
            }
            let m = self.midpoint_sums[i];
            let dx: i128 = cx2 - m.x as i128;
            let dy: i128 = cy2 - m.y as i128;
            let len_sq: i64 = self.length_squares[i];
            assert(-0x10000 <= m.x <= 0x10000 && -0x10000 <= m.y <= 0x10000);
            assert(0 <= len_sq <= 0x2000_0000);
            assert(0 <= dx * dx <= 0x10_0000_0000_0000_0000) by (nonlinear_arith)
                requires -0x2_0000_0000 <= dx <= 0x2_0000_0000;
            assert(0 <= dy * dy <= 0x10_0000_0000_0000_0000) by (nonlinear_arith)
                requires -0x2_0000_0000 <= dy <= 0x2_0000_0000;
            let d_sq: i128 = dx * dx + dy * dy;
            assert(0 <= d_sq * (len_sq as i128) <= 0x20_0000_0000_0000_0000 * 0x2000_0000) by (nonlinear_arith)
                requires 0 <= d_sq <= 0x20_0000_0000_0000_0000, 0 <= len_sq <= 0x2000_0000;
            terms[i] = (d_sq * (len_sq as i128)) as u128;
            i = i + 1;
        }
        assert(0 <= 2 * self.width * self.height <= 2 * MAX_EXTENT * MAX_EXTENT) by (nonlinear_arith)
            requires 0 < self.width <= MAX_EXTENT, 0 < self.height <= MAX_EXTENT;
        let bound: i64 = 2 * self.width * self.height + 4 * (self.height * UNITS / 100);
        sqrt_sum_below(terms[0], terms[1], bound as u64)
    }
}

/// x of the target's centroid: the average of its vertices, rounded down.
pub open spec fn centroid_x(t: &Triangle) -> int {
    (t.spec_vertices()[0].x + t.spec_vertices()[1].x + t.spec_vertices()[2].x) / 3
}

/// y of the target's centroid, rounded down.
pub open spec fn centroid_y(t: &Triangle) -> int {
    (t.spec_vertices()[0].y + t.spec_vertices()[1].y + t.spec_vertices()[2].y) / 3
}

/// A click at the centroid is a hit, for every target whose width and
/// height are each at most three times the other.
pub proof fn lemma_centroid_hits(t: &Triangle)
    requires
        t.wf(),
        t.spec_width() <= 3 * t.spec_height(),
        t.spec_height() <= 3 * t.spec_width(),
    ensures
        t.hits(centroid_x(t), centroid_y(t)),
{
    let v = t.spec_vertices();
    let x: int = v[0].x as int;
    let y: int = v[0].y as int;
    let w: int = t.spec_width();
    let h: int = t.spec_height();
    assert(is_corner(v[0], x, y, w, h, 0));
    assert(is_corner(v[1], x, y, w, h, 1));
    assert(is_corner(v[2], x, y, w, h, 2));
    let m: int = w / 2;
    let q: int = h / 3;
    let k: int = h - 2 * q;
    let cx: int = centroid_x(t);
    let cy: int = centroid_y(t);
    assert(cx == x + (w + m) / 3);
    assert(cy == y + q);
    assert(2 * cx - (x + (x + w)) == 2 * ((w + m) / 3) - w);
    assert(-1 <= 2 * ((w + m) / 3) - w <= 0);
    assert(2 * ((w + m) / 3) - m == m);
    // the base's term
    let e0: int = edge_term(v, 0, cx, cy);
    let u: int = 2 * ((w + m) / 3) - w;
    assert(e0 == (u * u + (2 * q) * (2 * q)) * (w * w)) by (nonlinear_arith)
        requires
            e0 == dist_sq(2 * cx, 2 * cy, v[0].x + v[1].x, v[0].y + v[1].y) * dist_sq(v[0].x as int, v[0].y as int, v[1].x as int, v[1].y as int),
            2 * cx - (v[0].x + v[1].x) == u,
            2 * cy - (v[0].y + v[1].y) == 2 * q,
            v[1].x - v[0].x == w,
            v[1].y == v[0].y,
    ;
    let p: int = w * (2 * q + 1);
    assert(0 <= u * u <= 1) by (nonlinear_arith) requires -1 <= u <= 0;
    assert(0 <= e0 <= p * p) by (nonlinear_arith)
        requires
            e0 == (u * u + (2 * q) * (2 * q)) * (w * w),
            0 <= u * u <= 1,
            q >= 0,
            p == w * (2 * q + 1),
    ;
    // the left side's term
    let e1: int = edge_term(v, 1, cx, cy);
    let d1: int = m * m + k * k;
    let l1: int = m * m + h * h;
    assert(e1 == d1 * l1) by (nonlinear_arith)
        requires
            e1 == dist_sq(2 * cx, 2 * cy, v[0].x + v[2].x, v[0].y + v[2].y) * dist_sq(v[0].x as int, v[0].y as int, v[2].x as int, v[2].y as int),
            2 * cx - (v[0].x + v[2].x) == m,
            2 * cy - (v[0].y + v[2].y) == -k,
            v[2].x - v[0].x == m,
            v[2].y - v[0].y == h,
            d1 == m * m + k * k,
            l1 == m * m + h * h,
    ;
    let big_q: int = 4 * d1 + l1;
    assert(0 <= 16 * e1 <= big_q * big_q) by (nonlinear_arith)
        requires e1 == d1 * l1, d1 >= 0, l1 >= 0, big_q == 4 * d1 + l1;
    assert(d1 >= 0 && l1 >= 0) by (nonlinear_arith) requires d1 == m * m + k * k, l1 == m * m + h * h;
    // the bound: 4p + Q < 4T
    let bound: int = area_bound(w, h);
    assert(bound == 2 * w * h + 40 * h);
    assert(0 <= 2 * m <= w);
    assert(0 <= 3 * q <= h);
    assert(0 <= k && 3 * k <= h + 4);
    assert(36 * (5 * (m * m)) <= 45 * (w * w)) by (nonlinear_arith) requires 0 <= 2 * m <= w;
    assert(36 * (8 * (w * q)) <= 96 * (w * h)) by (nonlinear_arith) requires 0 <= 3 * q <= h, w >= 0;
    assert(36 * (4 * (k * k)) <= 16 * ((h + 4) * (h + 4))) by (nonlinear_arith) requires 0 <= 3 * k <= h + 4;
    assert((3 * h - w) * (3 * w - h) >= 0) by (nonlinear_arith) requires w <= 3 * h, h <= 3 * w;
    assert(4 * (h * h) <= 12 * (w * h)) by (nonlinear_arith) requires h <= 3 * w, h >= 0;
    assert(45 * (w * w) + 52 * (h * h) - 192 * (w * h) <= 0) by (nonlinear_arith)
        requires
            (3 * h - w) * (3 * w - h) >= 0,
            4 * (h * h) <= 12 * (w * h),
            w >= 1,
            h >= 1,
    ;
    assert(4 * p + big_q < 4 * bound) by (nonlinear_arith)
        requires
            p == w * (2 * q + 1),
            big_q == 4 * (m * m + k * k) + (m * m + h * h),
            bound == 2 * w * h + 40 * h,
            36 * (5 * (m * m)) <= 45 * (w * w),
            36 * (8 * (w * q)) <= 96 * (w * h),
            36 * (4 * (k * k)) <= 16 * ((h + 4) * (h + 4)),
            45 * (w * w) + 52 * (h * h) - 192 * (w * h) <= 0,
            w <= 3 * h,
            w >= 1,
            h >= 1,
    ;
    assert((4 * p) * (4 * p) == 16 * (p * p)) by (nonlinear_arith);
    assert(p >= 0 && big_q >= 0) by (nonlinear_arith)
        requires p == w * (2 * q + 1), w >= 1, q >= 0, big_q == 4 * d1 + l1, d1 >= 0, l1 >= 0;
    lemma_sqrt_sum_lt_bounded(16 * e0, 16 * e1, 4 * p, big_q, 4 * bound);
    lemma_sqrt_sum_lt_unscale(e0, e1, bound);
}

/// A click at least 21 heights outside the target's bounding box, on
/// either axis, is never a hit.
pub proof fn lemma_far_click_misses(t: &Triangle, cx: int, cy: int)
    requires
        t.wf(),
        cx <= t.spec_vertices()[0].x - 21 * t.spec_height()
            || cx >= t.spec_vertices()[0].x + t.spec_width() + 21 * t.spec_height()
            || cy <= t.spec_vertices()[0].y - 21 * t.spec_height()
            || cy >= t.spec_vertices()[0].y + t.spec_height() + 21 * t.spec_height(),
    ensures
        !t.hits(cx, cy),
{
    let v = t.spec_vertices();
    let x: int = v[0].x as int;
    let y: int = v[0].y as int;
    let w: int = t.spec_width();
    let h: int = t.spec_height();
    assert(is_corner(v[0], x, y, w, h, 0));
    assert(is_corner(v[1], x, y, w, h, 1));
    let dx: int = 2 * cx - (x + (x + w));
    let dy: int = 2 * cy - (y + y);
    let d_sq: int = dist_sq(2 * cx, 2 * cy, v[0].x + v[1].x, v[0].y + v[1].y);
    let len_sq: int = dist_sq(v[0].x as int, v[0].y as int, v[1].x as int, v[1].y as int);
    assert(d_sq == dx * dx + dy * dy);
    assert(len_sq == w * w) by (nonlinear_arith)
        requires
            len_sq == (v[0].x - v[1].x) * (v[0].x - v[1].x) + (v[0].y - v[1].y) * (v[0].y - v[1].y),
            v[1].x == v[0].x + w,
            v[1].y == v[0].y,
    ;
    assert(dx * dx + dy * dy >= 1764 * (h * h)) by (nonlinear_arith)
        requires
            dx <= -42 * h || dx >= 42 * h || dy <= -42 * h || dy >= 42 * h,
            h > 0,
    ;
    assert(d_sq * len_sq >= 1764 * (h * h) * (w * w)) by (nonlinear_arith)
        requires d_sq >= 1764 * (h * h), len_sq == w * w;
    let bound: int = area_bound(w, h);
    assert(bound == 2 * w * h + 40 * h);
    assert(bound * bound <= 1764 * (h * h) * (w * w)) by (nonlinear_arith)
        requires bound == 2 * w * h + 40 * h, w >= 1, h >= 1;
    let e1: int = edge_term(v, 1, cx, cy);
    let a1 = v[0];
    let b1 = v[2];
    assert(e1 >= 0) by {
        let p: int = dist_sq(2 * cx, 2 * cy, a1.x + b1.x, a1.y + b1.y);
        let q: int = dist_sq(a1.x as int, a1.y as int, b1.x as int, b1.y as int);
        assert(p >= 0 && q >= 0) by (nonlinear_arith)
            requires
                p == (2 * cx - (a1.x + b1.x)) * (2 * cx - (a1.x + b1.x)) + (2 * cy - (a1.y + b1.y)) * (2 * cy - (a1.y + b1.y)),
                q == (a1.x - b1.x) * (a1.x - b1.x) + (a1.y - b1.y) * (a1.y - b1.y),
        ;
        assert(p * q >= 0) by (nonlinear_arith) requires p >= 0, q >= 0;
    }
}

} // verus!
