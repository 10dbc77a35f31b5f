use trxsh::geometry::Point;
use trxsh::round::{Outcome, Phase, RoundController, DEFAULT_LIMIT_MILLIS, LIMIT_STEP_MILLIS};
use trxsh::score_grid::generate_score_grid;
use trxsh::triangle::{Triangle, SPAWN_MAX, SPAWN_MIN};

fn origin(t: &Triangle) -> Point {
    t.vertices()[0]
}

#[test]
fn new_target_rests_at_default() {
    let t = Triangle::new(100, 100);
    assert_eq!(t.vertices(), [Point::new(-50, 0), Point::new(50, 0), Point::new(0, 100)]);
    assert_eq!(t.width(), 100);
    assert_eq!(t.height(), 100);
    let wide = Triangle::new(300, 40);
    assert_eq!(wide.vertices(), [Point::new(-150, 0), Point::new(150, 0), Point::new(0, 40)]);
}

#[test]
fn spawn_keeps_shape() {
    let mut t = Triangle::new(100, 70);
    for _ in 0..200 {
        t.generate_new_coordinates();
        let v = t.vertices();
        assert!(SPAWN_MIN <= v[0].x && v[0].x < SPAWN_MAX);
        assert!(SPAWN_MIN <= v[0].y && v[0].y < SPAWN_MAX);
        assert_eq!(v[1].x, v[0].x + 100);
        assert_eq!(v[1].y, v[0].y);
        assert_eq!(v[2].x, v[0].x + 50);
        assert_eq!(v[2].y, v[0].y + 70);
    }
}

#[test]
fn spawn_positions_vary() {
    let mut t = Triangle::new(100, 100);
    let mut seen = Vec::new();
    for _ in 0..20 {
        t.generate_new_coordinates();
        seen.push(origin(&t));
    }
    assert!(seen.iter().any(|p| *p != seen[0]));
    assert!(seen.iter().any(|p| p.x != p.y));
}

#[test]
fn reset_returns_to_default() {
    let mut t = Triangle::new(100, 100);
    t.place(300, -200);
    assert_eq!(origin(&t), Point::new(300, -200));
    assert!(!t.in_triangle(0, 33));
    t.reset_to_default();
    assert_eq!(t.vertices(), Triangle::new(100, 100).vertices());
    assert!(t.in_triangle(0, 33));
}

#[test]
fn hit_at_centroid() {
    let t = Triangle::new(100, 100);
    assert!(t.in_triangle(0, 33));
    let mut moved = Triangle::new(100, 100);
    moved.place(-400, 250);
    assert!(moved.in_triangle(-350, 283));
    let wide = Triangle::new(200, 100);
    assert!(wide.in_triangle(0, 33));
}

#[test]
fn hit_test_is_permissive_near_base() {
    let t = Triangle::new(100, 100);
    assert!(t.in_triangle(0, 50));
    assert!(t.in_triangle(0, -20));
    // the apex itself is outside the heuristic's band
    assert!(!t.in_triangle(0, 100));
}

#[test]
fn miss_far_away() {
    let t = Triangle::new(100, 100);
    assert!(!t.in_triangle(10_000, 10_000));
    assert!(!t.in_triangle(200, 0));
    assert!(!t.in_triangle(-2_000_000_000, 2_000_000_000));
    assert!(!t.in_triangle(i32::MIN, i32::MAX));
}

#[test]
fn round_start_score_and_expiry() {
    let mut rc = RoundController::new(100, 100, 800);
    assert_eq!(rc.phase(), Phase::Idle);
    assert_eq!(rc.score(), 0);

    let out = rc.handle_click(0, 33, 10_000, 100, 200);
    assert!(matches!(out, Outcome::Started));
    assert_eq!(rc.phase(), Phase::Armed);
    assert_eq!(rc.score(), 0);
    assert_eq!(rc.time_budget_millis(), DEFAULT_LIMIT_MILLIS);
    assert_eq!(rc.vertices()[0], Point::new(100, 200));

    let out = rc.handle_click(150, 233, 10_500, -300, -300);
    assert!(matches!(out, Outcome::Scored));
    assert_eq!(rc.score(), 1);
    assert_eq!(rc.time_budget_millis(), 995);
    assert_eq!(rc.vertices()[0], Point::new(-300, -300));

    let out = rc.handle_click(-250, -267, 10_500 + 995, 0, 0);
    match out {
        Outcome::Expired { final_score, vertices, triangle_count } => {
            assert_eq!(final_score, 1);
            assert_eq!(triangle_count, 2);
            assert_eq!(vertices.len(), 6);
            assert_eq!(&vertices[0..3], &Triangle::new(100, 100).vertices()[..]);
            assert_eq!(&vertices[3..], &generate_score_grid(1, 50, 800)[..]);
        }
        other => panic!("expected expiry, got {:?}", other),
    }
    assert_eq!(rc.phase(), Phase::Idle);
    assert_eq!(rc.score(), 0);
    assert_eq!(rc.time_budget_millis(), DEFAULT_LIMIT_MILLIS);
    assert_eq!(rc.vertices(), Triangle::new(100, 100).vertices());
}

#[test]
fn miss_while_armed_changes_nothing() {
    let mut rc = RoundController::new(100, 100, 800);
    assert!(matches!(rc.handle_click(0, 33, 0, 100, 200), Outcome::Started));
    let out = rc.handle_click(-800, -800, 50_000, 0, 0);
    assert!(matches!(out, Outcome::Ignored));
    assert_eq!(rc.phase(), Phase::Armed);
    assert_eq!(rc.score(), 0);
    assert_eq!(rc.vertices()[0], Point::new(100, 200));
    // the late miss did not end the round; the next hit finds it out
    assert!(matches!(rc.handle_click(150, 233, 50_001, 0, 0), Outcome::Expired { .. }));
}

#[test]
fn miss_while_idle_changes_nothing() {
    let mut rc = RoundController::new(100, 100, 800);
    assert!(matches!(rc.handle_click(500, 500, 0, 100, 200), Outcome::Ignored));
    assert_eq!(rc.phase(), Phase::Idle);
    assert_eq!(rc.vertices(), Triangle::new(100, 100).vertices());
}

#[test]
fn budget_falls_one_step_per_hit() {
    let mut rc = RoundController::new(100, 100, 800);
    assert!(matches!(rc.handle_click(0, 33, 0, 0, 0), Outcome::Started));
    for n in 1..=10u64 {
        assert!(matches!(rc.handle_click(50, 33, n * 100, 0, 0), Outcome::Scored));
        assert_eq!(rc.score() as u64, n);
        assert_eq!(rc.time_budget_millis(), DEFAULT_LIMIT_MILLIS - LIMIT_STEP_MILLIS * n);
    }
    assert_eq!(rc.time_budget_millis(), 950);
}

#[test]
fn budget_reaches_zero_and_then_every_hit_is_late() {
    let mut rc = RoundController::new(100, 100, 800);
    assert!(matches!(rc.handle_click(0, 33, 0, 0, 0), Outcome::Started));
    for n in 1..=200u64 {
        assert!(matches!(rc.handle_click(50, 33, 0, 0, 0), Outcome::Scored));
        assert_eq!(rc.time_budget_millis(), 1000 - 5 * n);
    }
    assert_eq!(rc.time_budget_millis(), 0);
    match rc.handle_click(50, 33, 0, 0, 0) {
        Outcome::Expired { final_score, vertices, triangle_count } => {
            assert_eq!(final_score, 200);
            assert_eq!(triangle_count, 201);
            assert_eq!(vertices.len(), 603);
        }
        other => panic!("expected expiry, got {:?}", other),
    }
}

#[test]
fn clock_going_back_counts_no_time() {
    let mut rc = RoundController::new(100, 100, 800);
    assert!(matches!(rc.handle_click(0, 33, 5_000, 0, 0), Outcome::Started));
    assert!(matches!(rc.handle_click(50, 33, 1_000, 0, 0), Outcome::Scored));
}

#[test]
fn random_click_starts_round_in_spawn_range() {
    let mut rc = RoundController::new(100, 100, 800);
    assert!(matches!(rc.click(0, 33, 0), Outcome::Started));
    let o = rc.vertices()[0];
    assert!(SPAWN_MIN <= o.x && o.x < SPAWN_MAX);
    assert!(SPAWN_MIN <= o.y && o.y < SPAWN_MAX);
    assert!(matches!(rc.click(5_000, 5_000, 10), Outcome::Ignored));
}

fn centroid_of(t: &Triangle) -> (i32, i32) {
    let v = t.vertices();
    (
        ((v[0].x + v[1].x + v[2].x).div_euclid(3)) as i32,
        ((v[0].y + v[1].y + v[2].y).div_euclid(3)) as i32,
    )
}

#[test]
fn centroid_hits_within_aspect_limits() {
    for (w, h) in [(300, 100), (100, 300), (1, 1), (1, 3), (3, 1), (4096, 4096), (1000, 250)] {
        let mut t = Triangle::new(w, h);
        let (cx, cy) = centroid_of(&t);
        assert!(t.in_triangle(cx, cy), "{} x {}", w, h);
        t.place(-777, 333);
        let (cx, cy) = centroid_of(&t);
        assert!(t.in_triangle(cx, cy), "{} x {} moved", w, h);
    }
}

#[test]
fn centroid_misses_on_very_flat_or_thin_targets() {
    for (w, h) in [(4000, 10), (10, 4000)] {
        let t = Triangle::new(w, h);
        let (cx, cy) = centroid_of(&t);
        assert!(!t.in_triangle(cx, cy), "{} x {}", w, h);
    }
}

#[test]
fn miss_just_beyond_far_margin() {
    // 21 heights beyond the bounding box on each side
    let t = Triangle::new(100, 100);
    assert!(!t.in_triangle(-50 - 2100, 33));
    assert!(!t.in_triangle(50 + 2100, 33));
    assert!(!t.in_triangle(0, -2100));
    assert!(!t.in_triangle(0, 100 + 2100));
}
