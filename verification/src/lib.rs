//! Deterministic fixed-point simulation core of an arcade shooter: a cannon
//! defends a row of buildings against descending enemies with shots whose
//! explosions chain into nearby hazards.
//!
//! All quantities are integers. Lengths are counted in thousandths of a world
//! unit, times in microseconds, speeds in length steps per second, and
//! directions in millionths.
pub mod units;
pub mod math;
pub mod movement;
pub mod score;
pub mod explosions;
pub mod random;
pub mod buildings;
pub mod enemies;
pub mod shot;
pub mod shooting;
pub mod reticle;
pub mod player;
pub mod floating_text;
pub mod entity;
pub mod passes;
pub mod level;
pub mod screens;
pub mod background;
