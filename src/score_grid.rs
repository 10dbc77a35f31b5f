use vstd::prelude::*;
use vstd::arithmetic::div_mod::lemma_fundamental_div_mod_converse;

use crate::geometry::{is_corner, upward_triangle, Point, UNITS};

verus! {

/// How many glyphs one column holds: half the window height in pixels times
/// the glyph size in screen units, rounded down.
pub open spec fn column_count(element_size: int, window_height: int) -> int {
    window_height * element_size / (2 * UNITS)
}

/// How many glyphs one column holds, for glyphs of `element_size` steps in
/// a window `window_height` pixels high.
pub fn column_count_of(element_size: u16, window_height: u32) -> (r: u64)
    ensures
        r == column_count(element_size as int, window_height as int),
        r < 0x40_0000_0000,
        window_height * element_size >= 2 * UNITS ==> r >= 1,
{
    proof {
        lemma_mul_lt(window_height as int, element_size as int, 0xffff_ffff, 0xffff);
    }
    let product: u64 = (window_height as u64) * (element_size as u64);
    assert(product as int / 2000 <= 0xffff_fffe_ffff_int / 2000);
    product / (2 * UNITS as u64)
}

/// x of the base-left corner of the first column's glyphs.
pub open spec fn first_x(element_size: int) -> int {
    -UNITS + element_size / 2
}

/// y of the base-left corner of the top glyph of every column.
pub open spec fn first_y(element_size: int) -> int {
    UNITS - 3 * element_size / 2
}

/// Base-left x of glyph `k`: glyphs fill columns of `cc`, left to right.
pub open spec fn glyph_x(k: int, element_size: int, cc: int) -> int {
    first_x(element_size) + (k / cc) * (2 * element_size)
}

/// Base-left y of glyph `k`: each column is filled from the top down.
pub open spec fn glyph_y(k: int, element_size: int, cc: int) -> int {
    first_y(element_size) - (k % cc) * (2 * element_size)
}

/// Whether `p` is point `i` of the grid: corner `i % 3` of glyph `i / 3`.
pub open spec fn is_grid_point(p: Point, i: int, element_size: int, cc: int) -> bool {
    is_corner(
        p,
        glyph_x(i / 3, element_size, cc),
        glyph_y(i / 3, element_size, cc),
        element_size,
        element_size,
        i % 3,
    )
}

/// Whether `s` is the grid of `score` glyphs of size `element_size`, in
/// columns of `cc`.
pub open spec fn is_score_grid(s: Seq<Point>, score: int, element_size: int, cc: int) -> bool {
    &&& s.len() == 3 * score
    &&& forall|i: int| 0 <= i < s.len() ==> is_grid_point(#[trigger] s[i], i, element_size, cc)
}

proof fn lemma_mul_lt(a: int, b: int, c: int, d: int)
    requires
        0 <= a <= c,
        0 <= b <= d,
    ensures
        0 <= a * b <= c * d,
{
    assert(0 <= a * b <= c * d) by (nonlinear_arith)
        requires 0 <= a <= c, 0 <= b <= d;
}

/// Appends one glyph whose base-left corner is `(x, y)`.
fn push_glyph(res: &mut Vec<Point>, x: i64, y: i64, element_size: i64)
    requires
        0 <= element_size <= 0x1_0000,
        -0x1000_0000_0000_0000 <= x <= 0x1000_0000_0000_0000,
        -0x1000_0000_0000_0000 <= y <= 0x1000_0000_0000_0000,
    ensures
        final(res)@.len() == old(res)@.len() + 3,
        forall|i: int| 0 <= i < old(res)@.len() ==> final(res)@[i] == old(res)@[i],
        forall|j: int|
            0 <= j < 3 ==> is_corner(
                #[trigger] final(res)@[old(res)@.len() + j],
                x as int,
                y as int,
                element_size as int,
                element_size as int,
                j,
            ),
{
    let t = upward_triangle(x, y, element_size, element_size);
    res.push(t[0]);
    res.push(t[1]);
    res.push(t[2]);
}

/// Lays `score` glyphs out in columns of `column_count` glyphs, starting
/// at the top-left corner of the screen; the last column may be partial.
pub fn generate_score_grid(score: u32, element_size: u16, window_height: u32) -> (r: Vec<Point>)
    requires
        window_height * element_size >= 2 * UNITS,
    ensures
        r@.len() == 3 * score,
        score == 0 ==> r@.len() == 0,
        is_score_grid(
            r@,
            score as int,
            element_size as int,
            column_count(element_size as int, window_height as int),
        ),
{
    let ghost cc_spec = column_count(element_size as int, window_height as int);
    let g: i64 = element_size as i64;
    let step: i64 = 2 * g;
    let mut res: Vec<Point> = Vec::new();
    let start_y: i64 = UNITS - 3 * g / 2;
    let mut current_x: i64 = -UNITS + g / 2;
    let mut current_y: i64 = start_y;
    let column_count: u64 = column_count_of(element_size, window_height);
    let row_count: u64 = score as u64 / column_count;
    assert(row_count <= score) by {
        vstd::arithmetic::div_mod::lemma_div_is_ordered_by_denominator(score as int, 1, column_count as int);
    }
    proof {
        vstd::arithmetic::div_mod::lemma_fundamental_div_mod(score as int, column_count as int);
        assert(row_count * column_count == column_count * row_count) by (nonlinear_arith);
    }
    let mut c: u64 = 0;
    while c < row_count
        invariant
            cc_spec == column_count,
            1 <= column_count < 0x40_0000_0000,
            row_count <= score,
            row_count * column_count <= score,
            g == element_size,
            step == 2 * g,
            start_y == first_y(g as int),
            c <= row_count,
            current_x == first_x(g as int) + c * step,
            current_y == start_y,
            res@.len() == 3 * (c * column_count),
            forall|i: int| 0 <= i < res@.len() ==> is_grid_point(#[trigger] res@[i], i, g as int, cc_spec),
        decreases row_count - c,
    {
        let mut r: u64 = 0;
        while r < column_count
            invariant
                cc_spec == column_count,
                1 <= column_count < 0x40_0000_0000,
                g == element_size,
                step == 2 * g,
                start_y == first_y(g as int),
                c < row_count,
                row_count <= score,
                r <= column_count,
                current_x == first_x(g as int) + c * step,
                current_y == start_y - r * step,
                res@.len() == 3 * (c * column_count + r),
                forall|i: int| 0 <= i < res@.len() ==> is_grid_point(#[trigger] res@[i], i, g as int, cc_spec),
            decreases column_count - r,
        {
            proof {
                lemma_mul_lt(c as int, step as int, 0x1_0000_0000, 0x2_0000);
                lemma_mul_lt(r as int, step as int, 0x40_0000_0000, 0x2_0000);
                lemma_mul_lt(r as int + 1, step as int, 0x40_0000_0000, 0x2_0000);
            }
            let ghost k = c * column_count + r;
            let ghost old_res = res@;
            push_glyph(&mut res, current_x, current_y, g);
            proof {
                lemma_fundamental_div_mod_converse(k as int, column_count as int, c as int, r as int);
                assert forall|i: int| 0 <= i < res@.len() implies is_grid_point(#[trigger] res@[i], i, g as int, cc_spec) by {
                    if i >= old_res.len() {
                        let j: int = i - old_res.len();
                        assert(res@[old_res.len() + j] == res@[i]);
                        assert(i / 3 == k && i % 3 == j);
                    } else {
                        assert(res@[i] == old_res[i]);
                    }
                }
                assert((r + 1) * step == r * step + step) by (nonlinear_arith);
                assert(c * column_count + r + 1 == c * column_count + (r + 1));
            }
            current_y = current_y - step;
            r = r + 1;
        }
        proof {
            assert((c + 1) * step == c * step + step) by (nonlinear_arith);
            assert((c + 1) * column_count == c * column_count + column_count) by (nonlinear_arith);
            lemma_mul_lt(c as int + 1, column_count as int, row_count as int, column_count as int);
            lemma_mul_lt(c as int + 1, step as int, 0x1_0000_0000, 0x2_0000);
        }
        current_x = current_x + step;
        current_y = start_y;
        c = c + 1;
    }
    let rest: u64 = score as u64 % column_count;
    proof {
        vstd::arithmetic::div_mod::lemma_fundamental_div_mod(score as int, column_count as int);
        assert(c == row_count);
    }
    let mut r: u64 = 0;
    while r < rest
        invariant
            cc_spec == column_count,
            1 <= column_count < 0x40_0000_0000,
            g == element_size,
            step == 2 * g,
            start_y == first_y(g as int),
            c == row_count,
            row_count <= score,
            rest < column_count,
            score == row_count * column_count + rest,
            r <= rest,
            current_x == first_x(g as int) + c * step,
            current_y == start_y - r * step,
            res@.len() == 3 * (c * column_count + r),
            forall|i: int| 0 <= i < res@.len() ==> is_grid_point(#[trigger] res@[i], i, g as int, cc_spec),
        decreases rest - r,
    {
        proof {
            lemma_mul_lt(c as int, step as int, 0x1_0000_0000, 0x2_0000);
            lemma_mul_lt(r as int, step as int, 0x40_0000_0000, 0x2_0000);
            lemma_mul_lt(r as int + 1, step as int, 0x40_0000_0000, 0x2_0000);
        }
        let ghost k = c * column_count + r;
        let ghost old_res = res@;
        push_glyph(&mut res, current_x, current_y, g);
        proof {
            lemma_fundamental_div_mod_converse(k as int, column_count as int, c as int, r as int);
            assert forall|i: int| 0 <= i < res@.len() implies is_grid_point(#[trigger] res@[i], i, g as int, cc_spec) by {
                if i >= old_res.len() {
                    let j: int = i - old_res.len();
                    assert(res@[old_res.len() + j] == res@[i]);
                    assert(i / 3 == k && i % 3 == j);
                } else {
                    assert(res@[i] == old_res[i]);
                }
            }
            assert((r + 1) * step == r * step + step) by (nonlinear_arith);
        }
        current_y = current_y - step;
        r = r + 1;
    }
    res
}

/// The vertices of `triangle` followed by the score grid of `score` glyphs:
/// everything drawn when a round ends.
pub fn concat_triangle_with_score_grid(
    triangle: &[Point; 3],
    score: u32,
    element_size: u16,
    window_height: u32,
) -> (r: Vec<Point>)
    requires
        window_height * element_size >= 2 * UNITS,
    ensures
        r@.len() == 3 + 3 * score,
        r@.take(3) == triangle@,
        is_score_grid(
            r@.skip(3),
            score as int,
            element_size as int,
            column_count(element_size as int, window_height as int),
        ),
{
    let mut v: Vec<Point> = Vec::new();
    v.push(triangle[0]);
    v.push(triangle[1]);
    v.push(triangle[2]);
    let mut grid = generate_score_grid(score, element_size, window_height);
    let ghost grid_view = grid@;
    v.append(&mut grid);
    assert(v@.take(3) =~= triangle@);
    assert(v@.skip(3) =~= grid_view);
    v
}

} // verus!
