//! Laws of the simulation, stated over the specifications of the rules and
//! of the step.

use vstd::prelude::*;
use crate::boid::{
    after_advance, after_alignment, after_cohesion, after_containment, after_separation,
    after_speed_limit, alignment_pull, cohesion_pull, contained, crowds, gap_sq,
    lemma_speed_limit_caps, neighbor_count, neighbor_pos_sum, neighbor_vel_sum, unpushed,
    sees, separation, speed_sq, wall_push, Axis, Boid,
};
use crate::config::Config;
use crate::fixed::{lemma_trunc_div_bounds, scale, trunc_div};
use crate::flock::{step_boid, step_flock, trajectory, Frame};

verus! {

/// Two boids hold the same position, velocity and colour.
pub open spec fn same_record(a: Boid, b: Boid) -> bool {
    &&& a.x == b.x
    &&& a.y == b.y
    &&& a.dx == b.dx
    &&& a.dy == b.dy
    &&& forall|k: int| 0 <= k < 4 ==> a.color[k] == b.color[k]
}

/// Boids that hold the same position, velocity and colour are the same
/// boid: there is nothing more to a boid.
pub proof fn lemma_record_is_whole(a: Boid, b: Boid)
    requires
        same_record(a, b),
    ensures
        a == b,
{
    assert(a.color =~= b.color);
}

/// Speed cap: after a step no boid of the population is faster than the
/// speed limit.
pub proof fn lemma_step_keeps_speed_limit(
    flock: Seq<Boid>,
    dt_ms: u32,
    cursor: Option<crate::config::Point>,
    cfg: Config,
)
    ensures
        step_flock(flock, dt_ms, cursor, cfg).len() == flock.len(),
        forall|i: int|
            0 <= i < flock.len() ==> speed_sq(#[trigger] step_flock(flock, dt_ms, cursor, cfg)[i])
                <= cfg.speed_limit * cfg.speed_limit,
{
    assert forall|i: int| 0 <= i < flock.len() implies speed_sq(
        #[trigger] step_flock(flock, dt_ms, cursor, cfg)[i],
    ) <= cfg.speed_limit * cfg.speed_limit by {
        let me = flock[i];
        let aligned = after_alignment(
            after_separation(after_cohesion(me, flock, cfg), flock, cfg),
            flock,
            cfg,
        );
        lemma_speed_limit_caps(after_containment(aligned, cursor, cfg), cfg);
    }
}

/// Speed cap along a run: a trajectory keeps the size of the population,
/// and after one frame or more none of its boids is faster than the speed
/// limit.
pub proof fn lemma_trajectory_keeps_speed_limit(flock: Seq<Boid>, frames: Seq<Frame>, cfg: Config)
    ensures
        trajectory(flock, frames, cfg).len() == flock.len(),
        frames.len() > 0 ==> forall|i: int|
            0 <= i < flock.len() ==> speed_sq(#[trigger] trajectory(flock, frames, cfg)[i])
                <= cfg.speed_limit * cfg.speed_limit,
    decreases frames.len(),
{
    if frames.len() > 0 {
        lemma_trajectory_keeps_speed_limit(flock, frames.drop_last(), cfg);
        lemma_step_keeps_speed_limit(
            trajectory(flock, frames.drop_last(), cfg),
            frames.last().dt_ms,
            frames.last().cursor,
            cfg,
        );
    }
}

/// No flock, no steering: a boid alone in its population is changed by none
/// of separation, cohesion and alignment, whatever the configuration.
pub proof fn lemma_lone_boid_is_not_steered(me: Boid, cfg: Config)
    ensures
        after_separation(me, seq![me], cfg) == me,
        after_cohesion(me, seq![me], cfg) == me,
        after_alignment(me, seq![me], cfg) == me,
{
    let flock = seq![me];
    assert(flock.drop_last() =~= Seq::<Boid>::empty());
    assert(flock.last() == me);
    reveal_with_fuel(separation, 2);
    reveal_with_fuel(neighbor_count, 2);
    reveal_with_fuel(neighbor_pos_sum, 2);
    reveal_with_fuel(neighbor_vel_sum, 2);
    assert(gap_sq(me, me) == 0);
    assert(!crowds(me, me, cfg));
    assert(separation(me, flock, cfg, Axis::X) == 0);
    assert(separation(me, flock, cfg, Axis::Y) == 0);
    assert(scale(0, cfg.avoid_factor as int) == 0);
    assert(scale(0, cfg.centering_factor as int) == 0);
    assert(scale(0, cfg.matching_factor as int) == 0);
    if sees(me, me, cfg) {
        assert(neighbor_count(me, flock, cfg) == 1);
        assert(neighbor_pos_sum(me, flock, cfg, Axis::X) == me.x);
        assert(neighbor_pos_sum(me, flock, cfg, Axis::Y) == me.y);
        assert(neighbor_vel_sum(me, flock, cfg, Axis::X) == me.dx);
        assert(neighbor_vel_sum(me, flock, cfg, Axis::Y) == me.dy);
        assert(trunc_div(me.x as int, 1) == me.x);
        assert(trunc_div(me.y as int, 1) == me.y);
        assert(trunc_div(me.dx as int, 1) == me.dx);
        assert(trunc_div(me.dy as int, 1) == me.dy);
    } else {
        assert(neighbor_count(me, flock, cfg) == 0);
    }
    assert(cohesion_pull(me, flock, cfg, Axis::X) == 0);
    assert(cohesion_pull(me, flock, cfg, Axis::Y) == 0);
    assert(alignment_pull(me, flock, cfg, Axis::X) == 0);
    assert(alignment_pull(me, flock, cfg, Axis::Y) == 0);
}

/// Isolation: a boid alone in its population, with no repulsion point and
/// between the two margins along both axes, is changed in a step by the speed
/// cap and by its own motion only.
pub proof fn lemma_lone_boid_step(me: Boid, dt_ms: u32, cfg: Config)
    requires
        cfg.edge_buffer < me.x < cfg.width - cfg.edge_buffer,
        cfg.edge_buffer < me.y < cfg.height - cfg.edge_buffer,
    ensures
        step_boid(me, seq![me], dt_ms, None, cfg) == after_advance(
            after_speed_limit(me, cfg),
            dt_ms,
        ),
        speed_sq(me) <= cfg.speed_limit * cfg.speed_limit ==> step_boid(
            me,
            seq![me],
            dt_ms,
            None,
            cfg,
        ) == after_advance(me, dt_ms),
{
    lemma_lone_boid_is_not_steered(me, cfg);
    assert(wall_push(me.x as int, cfg.width as int, cfg) == 0);
    assert(wall_push(me.y as int, cfg.height as int, cfg) == 0);
    assert(after_containment(me, None, cfg) == me);
    if speed_sq(me) <= cfg.speed_limit * cfg.speed_limit {
        assert(after_speed_limit(me, cfg) == me);
    }
}

/// Separation symmetry: in a population of two, what separation adds to the
/// one boid along an axis is the opposite of what it adds to the other.
pub proof fn lemma_separation_is_mutual(a: Boid, b: Boid, cfg: Config, axis: Axis)
    ensures
        separation(a, seq![a, b], cfg, axis) == -separation(b, seq![a, b], cfg, axis),
        separation(a, seq![a, b], cfg, axis) == if crowds(a, b, cfg) {
            a.pos(axis) - b.pos(axis)
        } else {
            0
        },
{
    let flock = seq![a, b];
    assert(flock.drop_last() =~= seq![a]);
    assert(seq![a].drop_last() =~= Seq::<Boid>::empty());
    assert(flock.last() == b);
    assert(seq![a].last() == a);
    reveal_with_fuel(separation, 3);
    assert(gap_sq(a, a) == 0);
    assert(gap_sq(b, b) == 0);
    assert(gap_sq(a, b) == gap_sq(b, a)) by (nonlinear_arith)
        requires
            gap_sq(a, b) == (a.x - b.x) * (a.x - b.x) + (a.y - b.y) * (a.y - b.y),
            gap_sq(b, a) == (b.x - a.x) * (b.x - a.x) + (b.y - a.y) * (b.y - a.y),
    ;
}

/// Velocity that separation adds to `me` along one axis, before the sum is
/// saturated to the coordinate range.
pub open spec fn separation_push(me: Boid, flock: Seq<Boid>, cfg: Config, axis: Axis) -> int {
    scale(separation(me, flock, cfg, axis), cfg.avoid_factor as int)
}

/// A gain applied to the opposite value gives the opposite result.
pub proof fn lemma_scale_is_odd(v: int, permille: int)
    ensures
        scale(-v, permille) == -scale(v, permille),
{
    assert((-v) * permille == -(v * permille)) by (nonlinear_arith);
    lemma_trunc_div_bounds(v * permille, 1000);
}

/// Separation symmetry in the velocities: in a population of two, what
/// separation adds to the velocity of the one boid is the opposite of what it
/// adds to the velocity of the other, along both axes, as long as no new
/// velocity component leaves the coordinate range.
pub proof fn lemma_separation_changes_are_opposite(a: Boid, b: Boid, cfg: Config)
    requires
        i32::MIN <= a.dx + separation_push(a, seq![a, b], cfg, Axis::X) <= i32::MAX,
        i32::MIN <= a.dy + separation_push(a, seq![a, b], cfg, Axis::Y) <= i32::MAX,
        i32::MIN <= b.dx + separation_push(b, seq![a, b], cfg, Axis::X) <= i32::MAX,
        i32::MIN <= b.dy + separation_push(b, seq![a, b], cfg, Axis::Y) <= i32::MAX,
    ensures
        after_separation(a, seq![a, b], cfg).dx - a.dx == -(after_separation(
            b,
            seq![a, b],
            cfg,
        ).dx - b.dx),
        after_separation(a, seq![a, b], cfg).dy - a.dy == -(after_separation(
            b,
            seq![a, b],
            cfg,
        ).dy - b.dy),
        after_separation(a, seq![a, b], cfg).dx - a.dx == separation_push(
            a,
            seq![a, b],
            cfg,
            Axis::X,
        ),
        after_separation(a, seq![a, b], cfg).dy - a.dy == separation_push(
            a,
            seq![a, b],
            cfg,
            Axis::Y,
        ),
{
    lemma_separation_is_mutual(a, b, cfg, Axis::X);
    lemma_separation_is_mutual(a, b, cfg, Axis::Y);
    lemma_scale_is_odd(separation(b, seq![a, b], cfg, Axis::X), cfg.avoid_factor as int);
    lemma_scale_is_odd(separation(b, seq![a, b], cfg, Axis::Y), cfg.avoid_factor as int);
}

/// `other` is within reach of a rule that steers `me`.
pub open spec fn in_reach(me: Boid, other: Boid, cfg: Config) -> bool {
    crowds(me, other, cfg) || sees(me, other, cfg)
}

/// The sums that the rules take over a flock are the sums over those of its
/// boids that a filter keeps, where the filter keeps every boid in reach.
proof fn lemma_sums_over_kept(
    me: Boid,
    flock: Seq<Boid>,
    keep: spec_fn(Boid) -> bool,
    cfg: Config,
    axis: Axis,
)
    requires
        forall|b: Boid| in_reach(me, b, cfg) ==> #[trigger] keep(b),
    ensures
        separation(me, flock.filter(keep), cfg, axis) == separation(me, flock, cfg, axis),
        neighbor_count(me, flock.filter(keep), cfg) == neighbor_count(me, flock, cfg),
        neighbor_pos_sum(me, flock.filter(keep), cfg, axis) == neighbor_pos_sum(
            me,
            flock,
            cfg,
            axis,
        ),
        neighbor_vel_sum(me, flock.filter(keep), cfg, axis) == neighbor_vel_sum(
            me,
            flock,
            cfg,
            axis,
        ),
    decreases flock.len(),
{
    reveal(Seq::filter);
    if flock.len() > 0 {
        lemma_sums_over_kept(me, flock.drop_last(), keep, cfg, axis);
        let kept = flock.drop_last().filter(keep);
        if keep(flock.last()) {
            assert(kept.push(flock.last()).drop_last() =~= kept);
            assert(kept.push(flock.last()).last() == flock.last());
        } else {
            assert(!in_reach(me, flock.last(), cfg));
        }
    }
}

/// Neighbours only: a step of a boid reads no boid of the flock but those in
/// its reach. Stepping it against any selection of the flock that keeps all
/// of these, as a spatial index would supply, gives the same boid.
pub proof fn lemma_step_reads_neighbours_only(
    me: Boid,
    flock: Seq<Boid>,
    keep: spec_fn(Boid) -> bool,
    dt_ms: u32,
    cursor: Option<crate::config::Point>,
    cfg: Config,
)
    requires
        forall|b: Boid| in_reach(me, b, cfg) ==> #[trigger] keep(b),
    ensures
        step_boid(me, flock.filter(keep), dt_ms, cursor, cfg) == step_boid(
            me,
            flock,
            dt_ms,
            cursor,
            cfg,
        ),
{
    let near = flock.filter(keep);
    lemma_sums_over_kept(me, flock, keep, cfg, Axis::X);
    lemma_sums_over_kept(me, flock, keep, cfg, Axis::Y);
    let cohered = after_cohesion(me, flock, cfg);
    assert(cohered == after_cohesion(me, near, cfg));
    assert forall|b: Boid| in_reach(cohered, b, cfg) implies #[trigger] keep(b) by {
        assert(in_reach(me, b, cfg));
    }
    lemma_sums_over_kept(cohered, flock, keep, cfg, Axis::X);
    lemma_sums_over_kept(cohered, flock, keep, cfg, Axis::Y);
    let separated = after_separation(cohered, flock, cfg);
    assert(separated == after_separation(cohered, near, cfg));
    assert forall|b: Boid| in_reach(separated, b, cfg) implies #[trigger] keep(b) by {
        assert(in_reach(me, b, cfg));
    }
    lemma_sums_over_kept(separated, flock, keep, cfg, Axis::X);
    lemma_sums_over_kept(separated, flock, keep, cfg, Axis::Y);
    assert(after_alignment(separated, flock, cfg) == after_alignment(separated, near, cfg));
}

/// Boundary impulse: a boid at or before the near margin of an axis, and
/// short of the far margin, gets exactly the turn factor added to its
/// velocity along that axis, and nothing damps it.
pub proof fn lemma_boundary_impulse(v: int, pos: int, extent: int, cfg: Config)
    requires
        pos <= cfg.edge_buffer,
        pos < extent - cfg.edge_buffer,
    ensures
        wall_push(pos, extent, cfg) == cfg.turn_factor,
        contained(v, pos, extent, cfg) == v + cfg.turn_factor,
{
}

/// The far wall mirrors the near one: a boid at or past the far margin of an
/// axis, and past the near margin, gets exactly the turn factor taken from
/// its velocity along that axis, and nothing damps it.
pub proof fn lemma_far_boundary_impulse(v: int, pos: int, extent: int, cfg: Config)
    requires
        pos >= extent - cfg.edge_buffer,
        pos > cfg.edge_buffer,
    ensures
        wall_push(pos, extent, cfg) == -cfg.turn_factor,
        contained(v, pos, extent, cfg) == v - cfg.turn_factor,
{
}

/// Containment in full: an axis that a wall pushes gets the net push and no
/// damping; between the margins the two pushes cancel; only an axis that no
/// wall pushes is damped.
pub proof fn lemma_containment_cases(v: int, pos: int, extent: int, cfg: Config)
    ensures
        !unpushed(pos, extent, cfg) ==> contained(v, pos, extent, cfg) == v + wall_push(
            pos,
            extent,
            cfg,
        ),
        cfg.edge_buffer < pos < extent - cfg.edge_buffer ==> contained(v, pos, extent, cfg) == v,
        unpushed(pos, extent, cfg) ==> contained(v, pos, extent, cfg) == scale(
            v,
            cfg.damping as int,
        ),
        extent > 2 * cfg.edge_buffer ==> !unpushed(pos, extent, cfg),
{
}

/// Determinism: the trajectory is decided by the initial population, the
/// frames and the configuration. Two runs that agree boid by boid and frame by
/// frame on these end in the same population.
pub proof fn lemma_trajectory_is_determined(
    flock_a: Seq<Boid>,
    flock_b: Seq<Boid>,
    frames_a: Seq<Frame>,
    frames_b: Seq<Frame>,
    cfg: Config,
)
    requires
        flock_a.len() == flock_b.len(),
        forall|i: int| 0 <= i < flock_a.len() ==> same_record(flock_a[i], flock_b[i]),
        frames_a.len() == frames_b.len(),
        forall|k: int| 0 <= k < frames_a.len() ==> frames_a[k] == frames_b[k],
    ensures
        trajectory(flock_a, frames_a, cfg) == trajectory(flock_b, frames_b, cfg),
{
    assert forall|i: int| 0 <= i < flock_a.len() implies flock_a[i] == flock_b[i] by {
        lemma_record_is_whole(flock_a[i], flock_b[i]);
    }
    assert(flock_a =~= flock_b);
    assert(frames_a =~= frames_b);
}

/// A run may be cut anywhere: running the first frames and then the rest
/// from where they ended is running them all.
pub proof fn lemma_trajectory_splits(
    flock: Seq<Boid>,
    done: Seq<Frame>,
    rest: Seq<Frame>,
    cfg: Config,
)
    ensures
        trajectory(trajectory(flock, done, cfg), rest, cfg) == trajectory(flock, done + rest, cfg),
    decreases rest.len(),
{
    if rest.len() == 0 {
        assert(done + rest =~= done);
    } else {
        lemma_trajectory_splits(flock, done, rest.drop_last(), cfg);
        assert((done + rest).drop_last() =~= done + rest.drop_last());
        assert((done + rest).last() == rest.last());
    }
}

/// Round trip: a population restored from the positions, velocities and
/// colours that a run had reached, and run through the remaining frames, ends
/// where the uninterrupted run ends.
pub proof fn lemma_restored_run_resumes(
    flock: Seq<Boid>,
    done: Seq<Frame>,
    rest: Seq<Frame>,
    restored: Seq<Boid>,
    cfg: Config,
)
    requires
        restored.len() == trajectory(flock, done, cfg).len(),
        forall|i: int|
            0 <= i < restored.len() ==> same_record(restored[i], trajectory(flock, done, cfg)[i]),
    ensures
        trajectory(restored, rest, cfg) == trajectory(flock, done + rest, cfg),
{
    lemma_trajectory_is_determined(restored, trajectory(flock, done, cfg), rest, rest, cfg);
    lemma_trajectory_splits(flock, done, rest, cfg);
}

} // verus!
