//! A flock of steering agents ("boids") advanced one frame at a time.
//!
//! Positions and velocities are integers in sub-pixel units
//! (`UNITS_PER_PIXEL` to a pixel; velocities per frame). Each frame applies,
//! in order, cohesion, separation, alignment, a speed limit with wall bounces
//! and wall pushes, and an optional goal, all read from one snapshot of the
//! flock and written into a second buffer.
pub mod geom;
pub mod rng;
pub mod boid;
pub mod rules;
pub mod flock;
pub mod laws;

pub use boid::{
    Boid, FPS, MAX_BOIDS, MAX_SPEED_FRAME, MAX_SPEED_SQ, MIN_SPEED_FRAME, POS_LIMIT, UNITS_PER_PIXEL,
    VEL_LIMIT, WALL_ACC,
};
pub use flock::BoidFlock;
pub use geom::Vec2;
