//! The run of a simulation as its host drives it: set up, playing or paused.

use vstd::prelude::*;
use crate::boid::{speed_sq, Boid};
use crate::config::{Config, Point};
use crate::flock::{step, step_flock};
use crate::spawn::{get_boids, is_spawn};

verus! {

/// Where a run stands.
#[derive(Clone, Copy, Debug, PartialEq, Eq, Structural)]
pub enum PlayState {
    /// No population yet: waiting for the start.
    Setup,
    /// The population moves every frame.
    Play,
    /// The population is kept as it is.
    Pause,
}

/// The keys that the host found pressed in a frame.
#[derive(Clone, Copy, Debug, PartialEq, Eq, Structural)]
pub struct Keys {
    /// Starts a run, and resumes a paused one.
    pub space: bool,
    /// Pauses a playing run.
    pub p: bool,
    /// Resets a playing or paused run.
    pub r: bool,
}

/// A run: its play state, the length of the last frame in milliseconds, its
/// population and its configuration.
pub struct State {
    pub state: PlayState,
    pub dt: u32,
    pub boids: Vec<Boid>,
    pub cfg: Config,
}

/// The play state that follows `state` in a frame with the given keys.
/// Setup starts on space. A paused run resumes on space, else resets on r. A
/// playing run pauses on p, else resets on r.
pub open spec fn next_play_state(state: PlayState, keys: Keys) -> PlayState {
    match state {
        PlayState::Setup => if keys.space {
            PlayState::Play
        } else {
            PlayState::Setup
        },
        PlayState::Pause => if keys.space {
            PlayState::Play
        } else if keys.r {
            PlayState::Setup
        } else {
            PlayState::Pause
        },
        PlayState::Play => if keys.p {
            PlayState::Pause
        } else if keys.r {
            PlayState::Setup
        } else {
            PlayState::Play
        },
    }
}

/// The population that a frame leaves: in setup the fresh one where the run
/// starts, else none; unchanged while paused; stepped once while playing,
/// also in the frame in which play ends.
pub open spec fn next_population(
    state: PlayState,
    boids: Seq<Boid>,
    dt_ms: u32,
    keys: Keys,
    cursor: Option<Point>,
    fresh: Seq<Boid>,
    cfg: Config,
) -> Seq<Boid> {
    match state {
        PlayState::Setup => if keys.space {
            fresh
        } else {
            Seq::empty()
        },
        PlayState::Pause => boids,
        PlayState::Play => step_flock(boids, dt_ms, cursor, cfg),
    }
}

impl State {
    /// A run in setup, with no population yet.
    pub fn new(cfg: Config) -> (s: State)
        ensures
            s.state == PlayState::Setup,
            s.dt == 0,
            s.boids@.len() == 0,
            s.cfg == cfg,
    {
        State {
            state: PlayState::Setup,
            dt: 0,
            boids: Vec::with_capacity(cfg.population),
            cfg,
        }
    }

    /// One frame of `dt_ms` milliseconds, where `fresh` is the population to
    /// start with should the run start in this frame.
    pub fn update_with(&mut self, dt_ms: u32, keys: Keys, cursor: Option<Point>, fresh: Vec<Boid>)
        ensures
            final(self).state == next_play_state(old(self).state, keys),
            final(self).dt == dt_ms,
            final(self).cfg == old(self).cfg,
            final(self).boids@ == next_population(
                old(self).state,
                old(self).boids@,
                dt_ms,
                keys,
                cursor,
                fresh@,
                old(self).cfg,
            ),
            old(self).state != PlayState::Setup ==> final(self).boids@.len() == old(
                self,
            ).boids@.len(),
            old(self).state == PlayState::Play ==> forall|i: int|
                0 <= i < final(self).boids@.len() ==> speed_sq(#[trigger] final(self).boids@[i])
                    <= old(self).cfg.speed_limit * old(self).cfg.speed_limit,
    {
        self.dt = dt_ms;
        match self.state {
            PlayState::Setup => {
                if keys.space {
                    self.boids = fresh;
                    self.state = PlayState::Play;
                } else {
                    self.boids.clear();
                }
            },
            PlayState::Pause => {
                if keys.space {
                    self.state = PlayState::Play;
                } else if keys.r {
                    self.state = PlayState::Setup;
                }
            },
            PlayState::Play => {
                if keys.p {
                    self.state = PlayState::Pause;
                } else if keys.r {
                    self.state = PlayState::Setup;
                }
                self.boids = step(&self.boids, dt_ms, cursor, &self.cfg);
            },
        }
    }

    /// One frame of `dt_ms` milliseconds. A run that starts in this frame
    /// gets a population of new boids at random places; everything else is
    /// decided by the state and the arguments.
    pub fn update(&mut self, dt_ms: u32, keys: Keys, cursor: Option<Point>)
        ensures
            final(self).state == next_play_state(old(self).state, keys),
            final(self).dt == dt_ms,
            final(self).cfg == old(self).cfg,
            old(self).state == PlayState::Setup && keys.space ==> {
                &&& final(self).boids@.len() == old(self).cfg.population
                &&& forall|i: int|
                    0 <= i < final(self).boids@.len() ==> is_spawn(
                        #[trigger] final(self).boids@[i],
                        old(self).cfg,
                    )
            },
            !(old(self).state == PlayState::Setup && keys.space) ==> final(self).boids@
                == next_population(
                old(self).state,
                old(self).boids@,
                dt_ms,
                keys,
                cursor,
                Seq::empty(),
                old(self).cfg,
            ),
            old(self).state != PlayState::Setup ==> final(self).boids@.len() == old(
                self,
            ).boids@.len(),
            old(self).state == PlayState::Play ==> forall|i: int|
                0 <= i < final(self).boids@.len() ==> speed_sq(#[trigger] final(self).boids@[i])
                    <= old(self).cfg.speed_limit * old(self).cfg.speed_limit,
    {
        let starting: bool = match self.state {
            PlayState::Setup => keys.space,
            _ => false,
        };
        let fresh: Vec<Boid> = if starting {
            get_boids(&self.cfg)
        } else {
            Vec::new()
        };
        self.update_with(dt_ms, keys, cursor, fresh);
    }
}

} // verus!
