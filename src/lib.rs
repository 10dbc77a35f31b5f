//! Target geometry, score-grid layout and round progression for a
//! click-the-triangle reflex game.
//!
//! All positions are fixed-point integers: one screen unit (the distance from
//! the centre of the screen to its edge) is `geometry::UNITS` steps.

pub mod geometry;
pub mod score_grid;
pub mod triangle;
pub mod round;
