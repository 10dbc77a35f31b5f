use trxsh::geometry::{sqrt_sum_below, upward_triangle, Point};
use trxsh::score_grid::{concat_triangle_with_score_grid, generate_score_grid};

#[test]
fn sqrt_sum_exact_at_perfect_squares() {
    assert!(!sqrt_sum_below(9, 16, 7));
    assert!(sqrt_sum_below(9, 16, 8));
    assert!(!sqrt_sum_below(0, 0, 0));
    assert!(sqrt_sum_below(0, 0, 1));
}

#[test]
fn sqrt_sum_between_squares() {
    // 1.414.. + 1.414.. < 3, but 1.414.. + 1.732.. > 3
    assert!(sqrt_sum_below(2, 2, 3));
    assert!(!sqrt_sum_below(2, 3, 3));
    // 9.949.. + 0 < 10
    assert!(sqrt_sum_below(99, 0, 10));
    assert!(!sqrt_sum_below(100, 0, 10));
}

#[test]
fn upward_triangle_corners() {
    let t = upward_triangle(-50, 0, 100, 100);
    assert_eq!(t, [Point::new(-50, 0), Point::new(50, 0), Point::new(0, 100)]);
    let odd = upward_triangle(10, 20, 7, 3);
    assert_eq!(odd, [Point::new(10, 20), Point::new(17, 20), Point::new(13, 23)]);
}

#[test]
fn grid_empty_for_zero_score() {
    assert!(generate_score_grid(0, 50, 800).is_empty());
    assert!(generate_score_grid(0, 1, 2000).is_empty());
}

#[test]
fn grid_five_glyphs_in_one_partial_column() {
    let g = generate_score_grid(5, 50, 800);
    assert_eq!(g.len(), 15);
    assert_eq!(g[0], Point::new(-975, 925));
    assert_eq!(g[1], Point::new(-925, 925));
    assert_eq!(g[2], Point::new(-950, 975));
    for k in 0..5 {
        let y = 925 - 100 * k as i64;
        assert_eq!(g[3 * k], Point::new(-975, y));
        assert_eq!(g[3 * k + 1], Point::new(-925, y));
        assert_eq!(g[3 * k + 2], Point::new(-950, y + 50));
    }
}

#[test]
fn grid_count_matches_score() {
    for score in [1u32, 19, 20, 21, 40, 45, 137] {
        assert_eq!(generate_score_grid(score, 50, 800).len(), 3 * score as usize);
    }
    assert_eq!(generate_score_grid(7, 10, 400).len(), 21);
}

#[test]
fn grid_spills_into_next_column() {
    // 800 * 50 / 2000 = 20 glyphs per column
    let g = generate_score_grid(45, 50, 800);
    assert_eq!(g.len(), 135);
    assert_eq!(g[3 * 19], Point::new(-975, 925 - 1900));
    assert_eq!(g[3 * 20], Point::new(-875, 925));
    assert_eq!(g[3 * 40], Point::new(-775, 925));
    assert_eq!(g[3 * 44 + 2], Point::new(-775 + 25, 925 - 400 + 50));
}

#[test]
fn grid_single_glyph_columns() {
    // 40 * 50 / 2000 = 1 glyph per column
    let g = generate_score_grid(3, 50, 40);
    assert_eq!(g[0], Point::new(-975, 925));
    assert_eq!(g[3], Point::new(-875, 925));
    assert_eq!(g[6], Point::new(-775, 925));
}

#[test]
fn grid_odd_glyph_size() {
    // 1000 * 5 / 2000 = 2 glyphs per column
    let g = generate_score_grid(3, 5, 1000);
    assert_eq!(g[0], Point::new(-998, 993));
    assert_eq!(g[1], Point::new(-993, 993));
    assert_eq!(g[2], Point::new(-996, 998));
    assert_eq!(g[3], Point::new(-998, 983));
    assert_eq!(g[6], Point::new(-988, 993));
}

#[test]
fn concat_puts_triangle_first() {
    let t = [Point::new(-50, 0), Point::new(50, 0), Point::new(0, 100)];
    let v = concat_triangle_with_score_grid(&t, 2, 50, 800);
    assert_eq!(v.len(), 9);
    assert_eq!(&v[0..3], &t[..]);
    assert_eq!(&v[3..], &generate_score_grid(2, 50, 800)[..]);
    let only = concat_triangle_with_score_grid(&t, 0, 50, 800);
    assert_eq!(only, t.to_vec());
}
