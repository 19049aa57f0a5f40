//! Bullets: their state, how they are fired and how they move.

use vstd::prelude::*;
use crate::scalar::Scalar;
use crate::frame::BulletStep;

verus! {

/// A projectile in flight.
#[derive(Clone, Copy, Debug, PartialEq, Eq, Structural)]
pub struct Bullet {
    pub id: u32,
    pub owner_id: u32,
    pub x: Scalar,
    pub y: Scalar,
    pub vx: Scalar,
    pub vy: Scalar,
    pub distance_traveled: Scalar,
}

impl Bullet {
    /// A bullet as it leaves the muzzle: no distance covered yet.
    pub open spec fn fired(id: u32, owner_id: u32, x: Scalar, y: Scalar, vx: Scalar, vy: Scalar) -> Bullet {
        Bullet { id, owner_id, x, y, vx, vy, distance_traveled: Scalar::zero() }
    }

    /// This bullet after its move of one tick: position and distance covered
    /// are those measured in `step`, everything else stays.
    pub open spec fn moved(self, step: BulletStep) -> Bullet {
        Bullet { x: step.x, y: step.y, distance_traveled: step.distance_traveled, ..self }
    }

    /// A bullet as it leaves the muzzle of `owner_id` at `(x, y)` with the
    /// velocity `(vx, vy)`.
    pub fn new(id: u32, owner_id: u32, x: Scalar, y: Scalar, vx: Scalar, vy: Scalar) -> (b: Bullet)
        ensures
            b == Bullet::fired(id, owner_id, x, y, vx, vy),
    {
        Bullet { id, owner_id, x, y, vx, vy, distance_traveled: Scalar::new_zero() }
    }

    /// Takes over the position and distance measured for this tick.
    pub fn update_position(&mut self, step: &BulletStep)
        ensures
            *final(self) == old(self).moved(*step),
    {
        self.x = step.x;
        self.y = step.y;
        self.distance_traveled = step.distance_traveled;
    }
}

} // verus!
