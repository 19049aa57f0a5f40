//! Asteroids: their state, how one is planned and placed, and how it moves.

use vstd::prelude::*;
use crate::scalar::{
    Scalar,
    ONE_BITS,
    ONE_AND_HALF_BITS,
    FIFTY_BITS,
    HUNDRED_BITS,
    TWO_HUNDRED_BITS,
    SIX_HUNDRED_BITS,
    SIX_HUNDRED_FIFTY_BITS,
    EIGHT_HUNDRED_BITS,
    EIGHT_HUNDRED_FIFTY_BITS,
};
use crate::game_world::Bounds;
use crate::frame::AsteroidStep;

verus! {

/// How many fixed points an asteroid may be aimed at.
pub const SPAWN_TARGETS: u32 = 3;

/// A drifting rock.
#[derive(Clone, Copy, Debug, PartialEq, Eq, Structural)]
pub struct Asteroid {
    pub id: u32,
    pub x: Scalar,
    pub y: Scalar,
    pub vx: Scalar,
    pub vy: Scalar,
    pub radius: Scalar,
    pub asteroid_speed: Scalar,
    pub distance_traveled: Scalar,
}

/// The side of the playing field behind which an asteroid appears.
#[derive(Clone, Copy, Debug, PartialEq, Eq, Structural)]
pub enum Edge {
    Top,
    Bottom,
    Left,
    Right,
}

/// The discrete choices behind one asteroid: the edge it comes from and the
/// index of the fixed point it is aimed at.
#[derive(Clone, Copy, Debug, PartialEq, Eq, Structural)]
pub struct SpawnPlan {
    pub edge: Edge,
    pub target: u32,
}

/// Where a new asteroid starts and the unit vector along which it drifts. The
/// place follows from a [`SpawnPlan`] and a point along its edge; the
/// direction towards the plan's target is worked out by the caller.
#[derive(Clone, Copy, Debug, PartialEq, Eq, Structural)]
pub struct AsteroidSeed {
    pub x: Scalar,
    pub y: Scalar,
    pub vx: Scalar,
    pub vy: Scalar,
}

/// What the arithmetic on real numbers contributes to a new asteroid: the
/// point along the edge at which it appears, and the unit vector from there
/// towards its target.
#[derive(Clone, Copy, Debug, PartialEq, Eq, Structural)]
pub struct Launch {
    pub along: Scalar,
    pub vx: Scalar,
    pub vy: Scalar,
}

impl AsteroidSeed {
    /// The seed places its asteroid as some plan with one of the fixed
    /// targets does.
    pub open spec fn planned(self) -> bool {
        exists|plan: SpawnPlan, launch: Launch|
            plan.target < SPAWN_TARGETS && self == #[trigger] plan.launched(launch)
    }

    /// The seed to hand to a tick in which no asteroid is due, where none is
    /// looked at: everything at zero.
    pub fn idle() -> (s: AsteroidSeed)
        ensures
            s == (AsteroidSeed {
                x: Scalar::zero(),
                y: Scalar::zero(),
                vx: Scalar::zero(),
                vy: Scalar::zero(),
            }),
    {
        let zero = Scalar::new_zero();
        AsteroidSeed { x: zero, y: zero, vx: zero, vy: zero }
    }

    /// An asteroid that is placed as a plan says appears outside the playing
    /// field.
    pub proof fn lemma_planned_is_outside(self)
        requires
            self.planned(),
        ensures
            !Bounds::field().holds(self.x, self.y),
    {
    }
}

/// Calls `rand::Rng::random_range` on the thread-local generator `rand::rng()`
/// with the half-open range `0..n`. The outside function panics on an empty
/// range, which `requires` rules out, and returns a member of the range; which
/// one is left open.
#[verifier::external_body]
fn draw_below(n: u32) -> (r: u32)
    requires
        n > 0,
    ensures
        r < n,
{
    rand::Rng::random_range(&mut rand::rng(), 0..n)
}

impl Edge {
    /// The edge with the given number: 0 top, 1 bottom, 2 left, anything else
    /// right.
    pub open spec fn numbered(side: u32) -> Edge {
        if side == 0 {
            Edge::Top
        } else if side == 1 {
            Edge::Bottom
        } else if side == 2 {
            Edge::Left
        } else {
            Edge::Right
        }
    }

    /// The edge with the given number.
    pub fn from_side(side: u32) -> (e: Edge)
        ensures
            e == Edge::numbered(side),
    {
        if side == 0 {
            Edge::Top
        } else if side == 1 {
            Edge::Bottom
        } else if side == 2 {
            Edge::Left
        } else {
            Edge::Right
        }
    }
}

impl SpawnPlan {
    /// The coordinate that the edge fixes, 50 beyond the border of the
    /// playing field: the height 650 or -650 of an asteroid that comes over
    /// the top or the bottom, the offset -850 or 850 of one that comes from
    /// the left or the right.
    pub open spec fn fixed(self) -> Scalar {
        match self.edge {
            Edge::Top => Scalar { bits: SIX_HUNDRED_FIFTY_BITS },
            Edge::Bottom => Scalar { bits: SIX_HUNDRED_FIFTY_BITS }.negated(),
            Edge::Left => Scalar { bits: EIGHT_HUNDRED_FIFTY_BITS }.negated(),
            Edge::Right => Scalar { bits: EIGHT_HUNDRED_FIFTY_BITS },
        }
    }

    /// How far to either side of the origin the point along the edge may
    /// lie: 800 along the top and the bottom, 600 along the left and the
    /// right.
    pub open spec fn half_length(self) -> Scalar {
        match self.edge {
            Edge::Top => Scalar { bits: EIGHT_HUNDRED_BITS },
            Edge::Bottom => Scalar { bits: EIGHT_HUNDRED_BITS },
            Edge::Left => Scalar { bits: SIX_HUNDRED_BITS },
            Edge::Right => Scalar { bits: SIX_HUNDRED_BITS },
        }
    }

    /// The place of an asteroid that appears at `along` on the edge.
    pub open spec fn position(self, along: Scalar) -> (Scalar, Scalar) {
        match self.edge {
            Edge::Top => (along, self.fixed()),
            Edge::Bottom => (along, self.fixed()),
            Edge::Left => (self.fixed(), along),
            Edge::Right => (self.fixed(), along),
        }
    }

    /// The point that the asteroid is aimed at: the origin, (100, 50) or
    /// (-200, -100).
    pub open spec fn target_point(self) -> (Scalar, Scalar) {
        if self.target == 0 {
            (Scalar::zero(), Scalar::zero())
        } else if self.target == 1 {
            (Scalar { bits: HUNDRED_BITS }, Scalar { bits: FIFTY_BITS })
        } else {
            (Scalar { bits: TWO_HUNDRED_BITS }.negated(), Scalar { bits: HUNDRED_BITS }.negated())
        }
    }

    /// The seed of an asteroid that appears at `along` on the edge and
    /// drifts along `(vx, vy)`.
    pub open spec fn seeded(self, along: Scalar, vx: Scalar, vy: Scalar) -> AsteroidSeed {
        AsteroidSeed { x: self.position(along).0, y: self.position(along).1, vx, vy }
    }

    /// The seed of an asteroid that is launched as `launch` says.
    pub open spec fn launched(self, launch: Launch) -> AsteroidSeed {
        self.seeded(launch.along, launch.vx, launch.vy)
    }

    /// Wherever along its edge an asteroid appears, it appears outside the
    /// playing field.
    pub proof fn lemma_appears_outside(self, along: Scalar)
        ensures
            !Bounds::field().holds(self.position(along).0, self.position(along).1),
    {
    }

    /// How far to either side of the origin the point along the edge may
    /// lie.
    pub fn edge_half_length(&self) -> (r: Scalar)
        ensures
            r == self.half_length(),
    {
        match self.edge {
            Edge::Top => Scalar::from_bits(EIGHT_HUNDRED_BITS),
            Edge::Bottom => Scalar::from_bits(EIGHT_HUNDRED_BITS),
            Edge::Left => Scalar::from_bits(SIX_HUNDRED_BITS),
            Edge::Right => Scalar::from_bits(SIX_HUNDRED_BITS),
        }
    }

    /// The place of an asteroid that appears at `along` on the edge.
    pub fn place(&self, along: Scalar) -> (at: (Scalar, Scalar))
        ensures
            at == self.position(along),
    {
        match self.edge {
            Edge::Top => (along, Scalar::from_bits(SIX_HUNDRED_FIFTY_BITS)),
            Edge::Bottom => (along, Scalar::from_bits(SIX_HUNDRED_FIFTY_BITS).neg()),
            Edge::Left => (Scalar::from_bits(EIGHT_HUNDRED_FIFTY_BITS).neg(), along),
            Edge::Right => (Scalar::from_bits(EIGHT_HUNDRED_FIFTY_BITS), along),
        }
    }

    /// The point that the asteroid is aimed at.
    pub fn aim(&self) -> (at: (Scalar, Scalar))
        ensures
            at == self.target_point(),
    {
        if self.target == 0 {
            (Scalar::new_zero(), Scalar::new_zero())
        } else if self.target == 1 {
            (Scalar::from_bits(HUNDRED_BITS), Scalar::from_bits(FIFTY_BITS))
        } else {
            (Scalar::from_bits(TWO_HUNDRED_BITS).neg(), Scalar::from_bits(HUNDRED_BITS).neg())
        }
    }

    /// The seed of an asteroid that appears at `along` on the edge and
    /// drifts along `(vx, vy)`.
    pub fn seed(&self, along: Scalar, vx: Scalar, vy: Scalar) -> (s: AsteroidSeed)
        ensures
            s == self.seeded(along, vx, vy),
    {
        let at = self.place(along);
        AsteroidSeed { x: at.0, y: at.1, vx, vy }
    }

    /// The seed of an asteroid that is launched as `launch` says.
    pub fn launch(&self, launch: &Launch) -> (s: AsteroidSeed)
        ensures
            s == self.launched(*launch),
    {
        self.seed(launch.along, launch.vx, launch.vy)
    }

    /// The plan that two drawn numbers stand for: the edge with the number
    /// `side`, and the target `target`.
    pub open spec fn drawn(side: u32, target: u32) -> SpawnPlan {
        SpawnPlan { edge: Edge::numbered(side), target }
    }

    /// The plan that two drawn numbers stand for.
    pub fn from_draws(side: u32, target: u32) -> (plan: SpawnPlan)
        ensures
            plan == SpawnPlan::drawn(side, target),
    {
        SpawnPlan { edge: Edge::from_side(side), target }
    }

    /// Draws an edge and a target at random: a side among four and a target
    /// among the fixed ones. Whatever is drawn, the target index names one of
    /// the fixed targets; every edge may come up.
    pub fn draw() -> (plan: SpawnPlan)
        ensures
            plan.target < SPAWN_TARGETS,
    {
        let side: u32 = draw_below(4);
        let target: u32 = draw_below(SPAWN_TARGETS);
        SpawnPlan::from_draws(side, target)
    }
}

impl Asteroid {
    /// An asteroid as it enters the world: placed and aimed as `seed` says,
    /// radius one, speed factor one and a half, no distance covered yet.
    pub open spec fn spawned(id: u32, seed: AsteroidSeed) -> Asteroid {
        Asteroid {
            id,
            x: seed.x,
            y: seed.y,
            vx: seed.vx,
            vy: seed.vy,
            radius: Scalar { bits: ONE_BITS },
            asteroid_speed: Scalar { bits: ONE_AND_HALF_BITS },
            distance_traveled: Scalar::zero(),
        }
    }

    /// This asteroid after its move of one tick: position and distance covered
    /// are those measured in `step`, everything else stays.
    pub open spec fn moved(self, step: AsteroidStep) -> Asteroid {
        Asteroid { x: step.x, y: step.y, distance_traveled: step.distance_traveled, ..self }
    }

    /// An asteroid as it enters the world under `id`, placed and aimed as
    /// `seed` says.
    pub fn new(id: u32, seed: &AsteroidSeed) -> (a: Asteroid)
        ensures
            a == Asteroid::spawned(id, *seed),
    {
        Asteroid {
            id,
            x: seed.x,
            y: seed.y,
            vx: seed.vx,
            vy: seed.vy,
            radius: Scalar::from_bits(ONE_BITS),
            asteroid_speed: Scalar::from_bits(ONE_AND_HALF_BITS),
            distance_traveled: Scalar::new_zero(),
        }
    }

    /// Takes over the position and distance measured for this tick.
    pub fn update_position(&mut self, step: &AsteroidStep)
        ensures
            *final(self) == old(self).moved(*step),
    {
        self.x = step.x;
        self.y = step.y;
        self.distance_traveled = step.distance_traveled;
    }
}

} // verus!
