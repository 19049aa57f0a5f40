//! The geometry of one tick, as the caller measures it on the world, and the
//! steering of one player, as the caller works it out from that player's state.

use vstd::prelude::*;
use crate::scalar::{Scalar, ONE_BITS, TWENTY_BITS, THIRTY_BITS, THOUSAND_BITS};

verus! {

/// How far a bullet or an asteroid travels before it is taken out of the
/// world: it stays while the distance it has covered does not exceed this.
pub const MAX_RANGE_BITS: u32 = THOUSAND_BITS;

/// The angle by which one turn command changes the heading: 0.05.
pub const TURN_STEP_BITS: u32 = 0x3D4C_CCCD;

/// The impulse of one thrust command along the heading: 1.
pub const THRUST_BITS: u32 = ONE_BITS;

/// The speed at which a bullet leaves along the heading: 20.
pub const BULLET_SPEED_BITS: u32 = TWENTY_BITS;

/// The share of its velocity that a player keeps from one tick to the next:
/// 0.9.
pub const FRICTION_BITS: u32 = 0x3F66_6666;

/// A bullet and an asteroid overlap when their centres are less than this
/// apart: 30.
pub const BULLET_ASTEROID_REACH_BITS: u32 = THIRTY_BITS;

/// A bullet and a player overlap when their centres are less than this
/// apart: 20.
pub const BULLET_PLAYER_REACH_BITS: u32 = TWENTY_BITS;

/// An asteroid and a player overlap when their centres are less than this
/// apart: 30.
pub const ASTEROID_PLAYER_REACH_BITS: u32 = THIRTY_BITS;

/// What one tick does to a bullet, as measured by the caller: where it stands
/// after its move, how far it has flown by then, and which asteroids its
/// circle overlaps (one flag per asteroid of the world, in the world's order).
#[derive(Clone, Debug, PartialEq, Eq)]
pub struct BulletStep {
    pub x: Scalar,
    pub y: Scalar,
    pub distance_traveled: Scalar,
    pub asteroids: Vec<bool>,
}

/// What one tick does to an asteroid: where it stands after its move and how
/// far it has drifted by then.
#[derive(Clone, Copy, Debug, PartialEq, Eq, Structural)]
pub struct AsteroidStep {
    pub x: Scalar,
    pub y: Scalar,
    pub distance_traveled: Scalar,
}

/// What one tick does to the player `id`: where the move takes it, before it
/// is held within the playing field, its velocity after damping, and which
/// bullets and asteroids its circle overlaps where it comes to stand (one flag
/// per bullet and per asteroid of the world, in the world's order).
#[derive(Clone, Debug, PartialEq, Eq)]
pub struct PlayerStep {
    pub id: u32,
    pub x: Scalar,
    pub y: Scalar,
    pub vx: Scalar,
    pub vy: Scalar,
    pub bullets: Vec<bool>,
    pub asteroids: Vec<bool>,
}

/// The geometry of one tick: a step for every bullet and asteroid, in the
/// world's order, and for every player, in any order.
#[derive(Clone, Debug, PartialEq, Eq)]
pub struct Frame {
    pub bullets: Vec<BulletStep>,
    pub asteroids: Vec<AsteroidStep>,
    pub players: Vec<PlayerStep>,
}

/// What each action would do to one player's motion, as worked out by the
/// caller from that player's present state: the heading after a turn to
/// either side, the velocity after a thrust, and the velocity of a bullet
/// fired now.
#[derive(Clone, Copy, Debug, PartialEq, Eq, Structural)]
pub struct Steering {
    pub left: Scalar,
    pub right: Scalar,
    pub thrust_vx: Scalar,
    pub thrust_vy: Scalar,
    pub muzzle_vx: Scalar,
    pub muzzle_vy: Scalar,
}

impl Steering {
    /// A steering that every action leaves at zero, for a player that is not
    /// there.
    pub fn still() -> (s: Steering)
        ensures
            s == (Steering {
                left: Scalar::zero(),
                right: Scalar::zero(),
                thrust_vx: Scalar::zero(),
                thrust_vy: Scalar::zero(),
                muzzle_vx: Scalar::zero(),
                muzzle_vy: Scalar::zero(),
            }),
    {
        let zero = Scalar::new_zero();
        Steering {
            left: zero,
            right: zero,
            thrust_vx: zero,
            thrust_vy: zero,
            muzzle_vx: zero,
            muzzle_vy: zero,
        }
    }
}

/// The range of a bullet or an asteroid, as a scalar.
pub open spec fn max_range() -> Scalar {
    Scalar { bits: MAX_RANGE_BITS }
}

/// The distance `covered` is still within the range of a bullet or an
/// asteroid: it is a number and does not exceed the range. At exactly the
/// range the flight goes on.
pub open spec fn within_range(covered: Scalar) -> bool {
    !covered.is_nan() && !max_range().less(covered)
}

/// Whether the distance `covered` is still within the range of a bullet or an
/// asteroid.
pub fn is_within_range(covered: Scalar) -> (r: bool)
    ensures
        r == within_range(covered),
{
    !covered.is_not_a_number() && !Scalar::from_bits(MAX_RANGE_BITS).lt(covered)
}

/// The range ends beyond its limit, not at it: a distance below the limit or
/// equal to it is within the range; one that the limit is less than, or that
/// is no number, is not.
pub proof fn lemma_range_limit(covered: Scalar)
    ensures
        covered.less(max_range()) ==> within_range(covered),
        covered == max_range() ==> within_range(covered),
        max_range().less(covered) ==> !within_range(covered),
        covered.is_nan() ==> !within_range(covered),
{
}

impl Frame {
    /// The ids of the players that the frame has a step for, in its order.
    pub open spec fn player_ids(self) -> Seq<u32> {
        Seq::new(self.players@.len(), |k: int| self.players@[k].id)
    }

    /// The frame was measured on a world of `bullets` bullets and `asteroids`
    /// asteroids whose players are exactly `players`: every row of flags has
    /// the length of what it speaks of, and every player has one step.
    pub open spec fn fits(self, bullets: nat, asteroids: nat, players: Set<u32>) -> bool {
        &&& self.bullets@.len() == bullets
        &&& self.asteroids@.len() == asteroids
        &&& forall|i: int|
            0 <= i < self.bullets@.len() ==> (#[trigger] self.bullets@[i]).asteroids@.len()
                == asteroids
        &&& forall|k: int|
            0 <= k < self.players@.len() ==> (#[trigger] self.players@[k]).bullets@.len()
                == bullets
        &&& forall|k: int|
            0 <= k < self.players@.len() ==> (#[trigger] self.players@[k]).asteroids@.len()
                == asteroids
        &&& self.player_ids().no_duplicates()
        &&& self.player_ids().to_set() == players
    }

    /// Bullet `i` still flies after its move: it has not used up its range.
    pub open spec fn bullet_flies(self, i: int) -> bool {
        within_range(self.bullets@[i].distance_traveled)
    }

    /// Asteroid `j` still drifts after its move: it has not used up its
    /// range.
    pub open spec fn asteroid_flies(self, j: int) -> bool {
        within_range(self.asteroids@[j].distance_traveled)
    }

    /// Bullet `i` and asteroid `j` are both still under way and overlap.
    pub open spec fn bullet_breaks(self, i: int, j: int) -> bool {
        &&& self.bullet_flies(i)
        &&& self.asteroid_flies(j)
        &&& self.bullets@[i].asteroids@[j]
    }

    /// Bullet `i`, fired by `owner`, is still under way and overlaps the
    /// `k`-th player of the frame, who is not the one that fired it.
    pub open spec fn bullet_wounds(self, owner: u32, i: int, k: int) -> bool {
        &&& self.bullet_flies(i)
        &&& owner != self.players@[k].id
        &&& self.players@[k].bullets@[i]
    }

    /// Asteroid `j` is still under way and overlaps the `k`-th player of the
    /// frame.
    pub open spec fn asteroid_wounds(self, j: int, k: int) -> bool {
        &&& self.asteroid_flies(j)
        &&& self.players@[k].asteroids@[j]
    }
}

} // verus!
