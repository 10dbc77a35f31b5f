use vstd::prelude::*;

use crate::geometry::{Point, UNITS};
use crate::score_grid::{column_count, concat_triangle_with_score_grid, is_score_grid};
use crate::triangle::{random_in, Triangle, MAX_EXTENT, SPAWN_MAX, SPAWN_MIN};

verus! {

/// Time allowed for the first hit of a round, in milliseconds.
pub const DEFAULT_LIMIT_MILLIS: u64 = 1000;

/// How much less time each hit leaves for the next one: half a percent of
/// the default.
pub const LIMIT_STEP_MILLIS: u64 = 5;

/// Size of one score glyph, in steps.
pub const GLYPH_SIZE: u16 = 50;

/// Where a round stands between two clicks. A round that runs out of time
/// ends within the click that finds it out, so no round rests expired.
#[derive(Clone, Copy, Debug, PartialEq, Eq, Structural)]
pub enum Phase {
    /// No round: the target rests at its default place.
    Idle,
    /// A round runs: the target is somewhere random and the clock ticks.
    Armed,
}

/// What a click did, for the host to draw.
#[derive(Debug)]
pub enum Outcome {
    /// The click missed the target: nothing changed.
    Ignored,
    /// A round started and the target moved: draw its one triangle.
    Started,
    /// A hit in time: the score rose and the target moved.
    Scored,
    /// The hit came too late: the round expired and the controller is idle
    /// again. Draw `triangle_count` triangles out of `vertices`: the target
    /// at rest, then one glyph per point scored.
    Expired { final_score: u32, vertices: Vec<Point>, triangle_count: u32 },
}

/// Drives rounds: owns the target, the score and the time budget.
pub struct RoundController {
    triangle: Triangle,
    phase: Phase,
    score: u32,
    time_budget_millis: u64,
    last_hit_millis: u64,
    window_height: u32,
}

/// Milliseconds from `since` to `now`; a clock that went back counts none.
pub open spec fn elapsed(since: int, now: int) -> int {
    if now >= since {
        now - since
    } else {
        0
    }
}

impl RoundController {
    pub closed spec fn spec_triangle(&self) -> Triangle {
        self.triangle
    }

    pub closed spec fn spec_phase(&self) -> Phase {
        self.phase
    }

    pub closed spec fn spec_score(&self) -> int {
        self.score as int
    }

    pub closed spec fn spec_time_budget(&self) -> int {
        self.time_budget_millis as int
    }

    pub closed spec fn spec_last_hit(&self) -> int {
        self.last_hit_millis as int
    }

    pub closed spec fn spec_window_height(&self) -> int {
        self.window_height as int
    }

    /// Well-formed: the target is; a column of the window holds a glyph;
    /// an idle controller has score 0, the default budget and the target
    /// at rest; a running round has lost one step of budget per point and
    /// has its target inside the spawn range.
    pub open spec fn wf(&self) -> bool {
        let t = self.spec_triangle();
        &&& t.wf()
        &&& self.spec_window_height() * GLYPH_SIZE >= 2 * UNITS
        &&& self.spec_phase() == Phase::Idle ==> {
            &&& self.spec_score() == 0
            &&& self.spec_time_budget() == DEFAULT_LIMIT_MILLIS
            &&& t.is_at_default()
        }
        &&& self.spec_phase() == Phase::Armed ==> {
            &&& self.spec_time_budget() + LIMIT_STEP_MILLIS * self.spec_score() == DEFAULT_LIMIT_MILLIS
            &&& SPAWN_MIN <= t.spec_vertices()[0].x < SPAWN_MAX
            &&& SPAWN_MIN <= t.spec_vertices()[0].y < SPAWN_MAX
        }
    }

    /// What a click at `(cx, cy)` at time `now` does, taking `self` to
    /// `next` and reporting `out`; where the target goes when it moves is
    /// left to the caller's contract.
    pub open spec fn transition(&self, next: &RoundController, out: &Outcome, cx: int, cy: int, now: int) -> bool {
        let t = self.spec_triangle();
        let same_shape = next.spec_triangle().spec_width() == t.spec_width()
            && next.spec_triangle().spec_height() == t.spec_height()
            && next.spec_window_height() == self.spec_window_height();
        if !t.hits(cx, cy) {
            &&& *out is Ignored
            &&& *next == *self
        } else if self.spec_phase() == Phase::Idle {
            &&& *out is Started
            &&& same_shape
            &&& next.spec_phase() == Phase::Armed
            &&& next.spec_score() == 0
            &&& next.spec_time_budget() == DEFAULT_LIMIT_MILLIS
            &&& next.spec_last_hit() == now
        } else if elapsed(self.spec_last_hit(), now) < self.spec_time_budget() {
            &&& *out is Scored
            &&& same_shape
            &&& next.spec_phase() == Phase::Armed
            &&& next.spec_score() == self.spec_score() + 1
            &&& next.spec_time_budget() == self.spec_time_budget() - LIMIT_STEP_MILLIS
            &&& next.spec_last_hit() == now
        } else {
            &&& same_shape
            &&& next.spec_phase() == Phase::Idle
            &&& next.spec_score() == 0
            &&& next.spec_time_budget() == DEFAULT_LIMIT_MILLIS
            &&& next.spec_last_hit() == self.spec_last_hit()
            &&& next.spec_triangle().is_at_default()
            &&& match *out {
                Outcome::Expired { final_score, vertices, triangle_count } => {
                    &&& final_score == self.spec_score()
                    &&& triangle_count == self.spec_score() + 1
                    &&& vertices@.len() == 3 * triangle_count
                    &&& vertices@.take(3) == next.spec_triangle().spec_vertices()
                    &&& is_score_grid(
                        vertices@.skip(3),
                        self.spec_score(),
                        GLYPH_SIZE as int,
                        column_count(GLYPH_SIZE as int, self.spec_window_height()),
                    )
                },
                _ => false,
            }
        }
    }

    /// An idle controller for a target of the given size, in a window
    /// `window_height` pixels high, which must be high enough for a column
    /// to hold a glyph.
    pub fn new(width: i64, height: i64, window_height: u32) -> (r: RoundController)
        requires
            0 < width <= MAX_EXTENT,
            0 < height <= MAX_EXTENT,
            window_height * GLYPH_SIZE >= 2 * UNITS,
        ensures
            r.wf(),
            r.spec_phase() == Phase::Idle,
            r.spec_triangle().spec_width() == width,
            r.spec_triangle().spec_height() == height,
            r.spec_window_height() == window_height,
    {
        RoundController {
            triangle: Triangle::new(width, height),
            phase: Phase::Idle,
            score: 0,
            time_budget_millis: DEFAULT_LIMIT_MILLIS,
            last_hit_millis: 0,
            window_height,
        }
    }

    /// Handles a click at `(click_x, click_y)` at time `now_millis`; where
    /// the target moves to, its base-left corner goes to
    /// `(spawn_x, spawn_y)`.
    pub fn handle_click(
        &mut self,
        click_x: i32,
        click_y: i32,
        now_millis: u64,
        spawn_x: i64,
        spawn_y: i64,
    ) -> (out: Outcome)
        requires
            old(self).wf(),
            SPAWN_MIN <= spawn_x < SPAWN_MAX,
            SPAWN_MIN <= spawn_y < SPAWN_MAX,
        ensures
            final(self).wf(),
            old(self).transition(final(self), &out, click_x as int, click_y as int, now_millis as int),
            (out is Started || out is Scored) ==> final(self).spec_triangle().is_at(spawn_x as int, spawn_y as int),
    {
        if !self.triangle.in_triangle(click_x, click_y) {
            return Outcome::Ignored;
        }
        match self.phase {
            Phase::Idle => {
                self.triangle.place(spawn_x, spawn_y);
                self.phase = Phase::Armed;
                self.score = 0;
                self.time_budget_millis = DEFAULT_LIMIT_MILLIS;
                self.last_hit_millis = now_millis;
                Outcome::Started
            },
            Phase::Armed => {
                let elapsed: u64 = if now_millis >= self.last_hit_millis {
                    now_millis - self.last_hit_millis
                } else {
                    0
                };
                if elapsed < self.time_budget_millis {
                    self.triangle.place(spawn_x, spawn_y);
                    self.score = self.score + 1;
                    self.time_budget_millis = self.time_budget_millis - LIMIT_STEP_MILLIS;
                    self.last_hit_millis = now_millis;
                    Outcome::Scored
                } else {
                    let final_score = self.score;
                    self.triangle.reset_to_default();
                    let vertices = concat_triangle_with_score_grid(
                        &self.triangle.vertices(),
                        final_score,
                        GLYPH_SIZE,
                        self.window_height,
                    );
                    self.phase = Phase::Idle;
                    self.score = 0;
                    self.time_budget_millis = DEFAULT_LIMIT_MILLIS;
                    Outcome::Expired { final_score, vertices, triangle_count: final_score + 1 }
                }
            },
        }
    }

    /// Handles a click at `(click_x, click_y)` at time `now_millis`,
    /// moving the target, where it moves, to a random place.
    pub fn click(&mut self, click_x: i32, click_y: i32, now_millis: u64) -> (out: Outcome)
        requires
            old(self).wf(),
        ensures
            final(self).wf(),
            old(self).transition(final(self), &out, click_x as int, click_y as int, now_millis as int),
    {
        let spawn_x: i64 = random_in(SPAWN_MIN, SPAWN_MAX);
        let spawn_y: i64 = random_in(SPAWN_MIN, SPAWN_MAX);
        self.handle_click(click_x, click_y, now_millis, spawn_x, spawn_y)
    }

    pub fn phase(&self) -> (r: Phase)
        ensures
            r == self.spec_phase(),
    {
        self.phase
    }

    pub fn score(&self) -> (r: u32)
        ensures
            r == self.spec_score(),
    {
        self.score
    }

    pub fn time_budget_millis(&self) -> (r: u64)
        ensures
            r == self.spec_time_budget(),
    {
        self.time_budget_millis
    }

    /// The target's vertices: base-left, base-right, apex.
    pub fn vertices(&self) -> (r: [Point; 3])
        ensures
            r@ == self.spec_triangle().spec_vertices(),
    {
        self.triangle.vertices()
    }
}

/// The difficulty ramp: while a round runs, each point scored has taken
/// `LIMIT_STEP_MILLIS` off the default budget, with no other floor than the
/// one this implies, for the budget never goes below zero: a hit needs time
/// left, and the budget falls in whole steps.
pub proof fn lemma_budget_ramp(rc: &RoundController)
    requires
        rc.wf(),
        rc.spec_phase() == Phase::Armed,
    ensures
        rc.spec_time_budget() == DEFAULT_LIMIT_MILLIS - LIMIT_STEP_MILLIS * rc.spec_score(),
        0 <= rc.spec_time_budget(),
        rc.spec_score() <= DEFAULT_LIMIT_MILLIS / LIMIT_STEP_MILLIS,
        rc.spec_time_budget() > 0 ==> rc.spec_time_budget() >= LIMIT_STEP_MILLIS,
{
}

} // verus!
