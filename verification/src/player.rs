//! Players: their state, how they join, move and come back into play.

use vstd::prelude::*;
use crate::scalar::{Scalar, EIGHT_HUNDRED_BITS, SIX_HUNDRED_BITS};
use crate::frame::PlayerStep;
use crate::game_world::Bounds;

verus! {

/// Hit points of a player that has just joined or respawned.
pub const FULL_HP: u16 = 100;

/// Least time between two shots of one player, in milliseconds.
pub const FIRE_RATE_MS: u64 = 200;

/// The playing field reaches this far east of the origin, and as far west.
pub const HALF_WIDTH_BITS: u32 = EIGHT_HUNDRED_BITS;

/// The playing field reaches this far north of the origin, and as far south.
pub const HALF_HEIGHT_BITS: u32 = SIX_HUNDRED_BITS;

/// A ship under a client's control.
#[derive(Clone, Copy, Debug, PartialEq, Eq, Structural)]
pub struct Player {
    pub id: u32,
    pub x: Scalar,
    pub y: Scalar,
    pub rotation: Scalar,
    pub vx: Scalar,
    pub vy: Scalar,
    pub hp: u16,
    pub last_shot_ms: u64,
    pub fire_rate_ms: u64,
    pub last_processed_input_seq: u32,
}

impl Player {
    /// A player as it joins: at the origin, at rest, heading zero, full hit
    /// points, no shot fired and no input processed.
    pub open spec fn fresh(id: u32) -> Player {
        Player {
            id,
            x: Scalar::zero(),
            y: Scalar::zero(),
            rotation: Scalar::zero(),
            vx: Scalar::zero(),
            vy: Scalar::zero(),
            hp: FULL_HP,
            last_shot_ms: 0,
            fire_rate_ms: FIRE_RATE_MS,
            last_processed_input_seq: 0,
        }
    }

    /// This player after its move of one tick: it stands where `step` takes
    /// it, held within the playing field, and has the velocity of `step`;
    /// everything else stays.
    pub open spec fn moved(self, step: PlayerStep) -> Player {
        Player {
            x: Bounds::field().held_x(step.x),
            y: Bounds::field().held_y(step.y),
            vx: step.vx,
            vy: step.vy,
            ..self
        }
    }

    /// This player brought back into play: at the origin, at rest, with full
    /// hit points. Heading, identity and input bookkeeping stay.
    pub open spec fn respawned(self) -> Player {
        Player {
            x: Scalar::zero(),
            y: Scalar::zero(),
            vx: Scalar::zero(),
            vy: Scalar::zero(),
            hp: FULL_HP,
            ..self
        }
    }

    /// A player as it joins under `id`.
    pub fn new(id: u32) -> (p: Player)
        ensures
            p == Player::fresh(id),
    {
        Player {
            id,
            x: Scalar::new_zero(),
            y: Scalar::new_zero(),
            rotation: Scalar::new_zero(),
            vx: Scalar::new_zero(),
            vy: Scalar::new_zero(),
            hp: FULL_HP,
            last_shot_ms: 0,
            fire_rate_ms: FIRE_RATE_MS,
            last_processed_input_seq: 0,
        }
    }

    /// Comes back into play: to the origin, at rest, with full hit points.
    pub fn respawn(&mut self)
        ensures
            *final(self) == old(self).respawned(),
    {
        self.x = Scalar::new_zero();
        self.y = Scalar::new_zero();
        self.vx = Scalar::new_zero();
        self.vy = Scalar::new_zero();
        self.hp = FULL_HP;
    }

    /// Takes over the position, held within the playing field, and the
    /// velocity measured for this tick.
    pub fn update_player_position(&mut self, step: &PlayerStep)
        ensures
            *final(self) == old(self).moved(*step),
    {
        let field = Bounds::playing_field();
        self.x = field.hold_x(step.x);
        self.y = field.hold_y(step.y);
        self.vx = step.vx;
        self.vy = step.vy;
    }
}

} // verus!
