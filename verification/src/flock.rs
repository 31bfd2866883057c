//! One frame of the whole population.
//!
//! Every boid of the next frame is computed from the population as it stood
//! when the frame began: no boid sees a neighbour that has already moved.

use vstd::prelude::*;
use crate::boid::{
    after_advance, after_alignment, after_cohesion, after_containment, after_separation,
    after_speed_limit, speed_sq, Boid,
};
use crate::config::{Config, Point};

verus! {

/// The boid `me` one frame later, steered against `flock`: cohesion,
/// separation, alignment, containment with repulsion, the speed cap, then the
/// motion over `dt_ms` milliseconds.
pub open spec fn step_boid(
    me: Boid,
    flock: Seq<Boid>,
    dt_ms: u32,
    cursor: Option<Point>,
    cfg: Config,
) -> Boid {
    let cohered = after_cohesion(me, flock, cfg);
    let separated = after_separation(cohered, flock, cfg);
    let aligned = after_alignment(separated, flock, cfg);
    let contained = after_containment(aligned, cursor, cfg);
    let limited = after_speed_limit(contained, cfg);
    after_advance(limited, dt_ms)
}

/// The population one frame later: each boid stepped against the whole of
/// `flock`.
pub open spec fn step_flock(
    flock: Seq<Boid>,
    dt_ms: u32,
    cursor: Option<Point>,
    cfg: Config,
) -> Seq<Boid> {
    Seq::new(flock.len(), |i: int| step_boid(flock[i], flock, dt_ms, cursor, cfg))
}

/// What the host supplies for one frame: the elapsed time in milliseconds
/// and, where there is one, the repulsion point.
#[derive(Clone, Copy, Debug, PartialEq, Eq, Structural)]
pub struct Frame {
    pub dt_ms: u32,
    pub cursor: Option<Point>,
}

/// The population after the given frames, one step for each, in order.
pub open spec fn trajectory(flock: Seq<Boid>, frames: Seq<Frame>, cfg: Config) -> Seq<Boid>
    decreases frames.len(),
{
    if frames.len() == 0 {
        flock
    } else {
        step_flock(
            trajectory(flock, frames.drop_last(), cfg),
            frames.last().dt_ms,
            frames.last().cursor,
            cfg,
        )
    }
}

/// Steps one boid against the population of the frame's start.
pub fn step_one(
    me: Boid,
    population: &Vec<Boid>,
    dt_ms: u32,
    cursor: Option<Point>,
    cfg: &Config,
) -> (next: Boid)
    ensures
        next == step_boid(me, population@, dt_ms, cursor, *cfg),
        speed_sq(next) <= cfg.speed_limit * cfg.speed_limit,
{
    let mut b: Boid = me;
    b.fly_towards_center(population, cfg);
    b.avoid_others(population, cfg);
    b.match_velocity(population, cfg);
    b.keep_within_bounds(cursor, cfg);
    b.limit_speed(cfg);
    b.advance(dt_ms);
    b
}

/// Advances the population by one frame of `dt_ms` milliseconds, with an
/// optional repulsion point. The given population is left as it is; the
/// result has the same boids in the same order, one frame later, none faster
/// than the speed limit.
pub fn step(population: &Vec<Boid>, dt_ms: u32, cursor: Option<Point>, cfg: &Config) -> (next:
    Vec<Boid>)
    ensures
        next@ == step_flock(population@, dt_ms, cursor, *cfg),
        next@.len() == population@.len(),
        forall|i: int|
            0 <= i < next@.len() ==> speed_sq(#[trigger] next@[i]) <= cfg.speed_limit
                * cfg.speed_limit,
{
    let mut next: Vec<Boid> = Vec::with_capacity(population.len());
    let mut i: usize = 0;
    while i < population.len()
        invariant
            i <= population.len(),
            next@.len() == i,
            forall|k: int|
                0 <= k < i ==> #[trigger] next@[k] == step_boid(
                    population@[k],
                    population@,
                    dt_ms,
                    cursor,
                    *cfg,
                ),
            forall|k: int|
                0 <= k < i ==> speed_sq(#[trigger] next@[k]) <= cfg.speed_limit * cfg.speed_limit,
        decreases population.len() - i,
    {
        let b: Boid = step_one(population[i], population, dt_ms, cursor, cfg);
        next.push(b);
        i += 1;
    }
    assert(next@ =~= step_flock(population@, dt_ms, cursor, *cfg));
    next
}

/// Advances the population through the given frames, one step for each.
pub fn replay(population: &Vec<Boid>, frames: &Vec<Frame>, cfg: &Config) -> (last: Vec<Boid>)
    ensures
        last@ == trajectory(population@, frames@, *cfg),
        last@.len() == population@.len(),
{
    let mut current: Vec<Boid> = population.clone();
    assert(current@ =~= population@);
    let mut i: usize = 0;
    assert(frames@.take(0) =~= Seq::<Frame>::empty());
    while i < frames.len()
        invariant
            i <= frames.len(),
            current@ == trajectory(population@, frames@.take(i as int), *cfg),
            current@.len() == population@.len(),
        decreases frames.len() - i,
    {
        let frame: Frame = frames[i];
        assert(frames@.take(i + 1).drop_last() =~= frames@.take(i as int));
        current = step(&current, frame.dt_ms, frame.cursor, cfg);
        i += 1;
    }
    assert(frames@.take(i as int) =~= frames@);
    current
}

} // verus!
