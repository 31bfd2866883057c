//! The tunables of a simulation run, fixed for its whole duration.

use vstd::prelude::*;

verus! {

/// A point of the world, in thousandths of a pixel.
#[derive(Clone, Copy, Debug, PartialEq, Eq, Structural)]
pub struct Point {
    pub x: i32,
    pub y: i32,
}

/// World parameters and rule gains.
///
/// Lengths are in thousandths of a pixel, speeds in thousandths of a pixel per
/// second and gains in thousandths.
#[derive(Clone, Copy, Debug, PartialEq, Eq, Structural)]
pub struct Config {
    /// Extent of the world along the horizontal axis.
    pub width: u32,
    /// Extent of the world along the vertical axis.
    pub height: u32,
    /// Number of boids in a population.
    pub population: usize,
    /// Largest speed a boid keeps at the end of a frame.
    pub speed_limit: u32,
    /// Radius within which cohesion and alignment see a neighbour.
    pub visual_range: u32,
    /// Radius within which separation pushes two boids apart.
    pub min_distance: u32,
    /// Gain of separation.
    pub avoid_factor: u16,
    /// Gain of cohesion.
    pub centering_factor: u16,
    /// Gain of alignment.
    pub matching_factor: u16,
    /// Margin that decides on which side the walls push.
    pub edge_buffer: u32,
    /// Velocity added by one push of a wall.
    pub turn_factor: u32,
    /// Gain applied to the velocity along an axis on which neither wall
    /// pushes, which happens only where the world is no wider than two
    /// margins. An axis that a wall pushes is never damped. The standard
    /// value, 1000, leaves the velocity as it is; a lower one models drag on
    /// an axis that is not steered.
    pub damping: u16,
    /// Radius within which the repulsion point acts.
    pub repulsion_radius: u32,
    /// Gain of the repulsion.
    pub repulsion_factor: u16,
    /// Whether cohesion and alignment count a boid at distance zero, which
    /// includes the boid itself, among the neighbours.
    pub include_self: bool,
}

impl Config {
    /// The standard configuration: a world of 1280 by 720
    /// pixels with 80 boids.
    pub open spec fn standard() -> Config {
        Config {
            width: 1_280_000,
            height: 720_000,
            population: 80,
            speed_limit: 400_000,
            visual_range: 32_000,
            min_distance: 16_000,
            avoid_factor: 500,
            centering_factor: 50,
            matching_factor: 100,
            edge_buffer: 40_000,
            turn_factor: 16_000,
            damping: 1000,
            repulsion_radius: 20_000,
            repulsion_factor: 1000,
            include_self: true,
        }
    }
}

impl Default for Config {
    fn default() -> (cfg: Config)
        ensures
            cfg == Config::standard(),
    {
        Config {
            width: 1_280_000,
            height: 720_000,
            population: 80,
            speed_limit: 400_000,
            visual_range: 32_000,
            min_distance: 16_000,
            avoid_factor: 500,
            centering_factor: 50,
            matching_factor: 100,
            edge_buffer: 40_000,
            turn_factor: 16_000,
            damping: 1000,
            repulsion_radius: 20_000,
            repulsion_factor: 1000,
            include_self: true,
        }
    }
}

} // verus!
