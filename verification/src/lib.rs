//! A fixed-point flocking simulation: boids steered by separation, cohesion and
//! alignment, capped in speed, softly contained in a rectangular world and
//! repelled by an optional point, advanced one frame at a time.
//!
//! Lengths are in thousandths of a pixel, velocities in thousandths of a pixel
//! per second, gains in thousandths and time in milliseconds, so that every
//! quantity of the simulation is an integer.

pub mod boid;
pub mod config;
pub mod fixed;
pub mod flock;
pub mod laws;
pub mod spawn;
pub mod state;

pub use boid::Boid;
pub use config::{Config, Point};
pub use flock::{replay, step, Frame};
pub use spawn::{get_boids, Samples};
pub use state::{Keys, PlayState, State};
