//! The rules of one tick, stated over a world and the frame measured on it.

use vstd::prelude::*;
use crate::player::Player;
use crate::bullet::Bullet;
use crate::asteroid::{Asteroid, AsteroidSeed};
use crate::frame::{Frame, PlayerStep};
use crate::game_world::{WorldState, DAMAGE, SPAWN_INTERVAL_MS, next_id};

verus! {

/// Hit points left of `hp` after `hits` hits: each takes `DAMAGE`, and the
/// count stops at zero.
pub open spec fn hp_after(hp: u16, hits: nat) -> u16 {
    if hits * DAMAGE >= hp {
        0
    } else {
        (hp - hits * DAMAGE) as u16
    }
}

impl Frame {
    /// The place in the frame of the step of player `id`.
    pub open spec fn slot_of(self, id: u32) -> int {
        choose|k: int| 0 <= k < self.players@.len() && self.players@[k].id == id
    }
}

impl WorldState {
    /// The frame was measured on this world.
    pub open spec fn measured_by(self, f: Frame) -> bool {
        f.fits(self.bullets.len(), self.asteroids.len(), self.players.dom())
    }

    /// Bullet `i` overlaps some asteroid while both are under way, or some
    /// player other than its owner.
    pub open spec fn bullet_spent(self, f: Frame, i: int) -> bool {
        ||| exists|j: int| 0 <= j < f.asteroids@.len() && #[trigger] f.bullet_breaks(i, j)
        ||| exists|k: int|
            0 <= k < f.players@.len() && #[trigger] f.bullet_wounds(self.bullets[i].owner_id, i, k)
    }

    /// Asteroid `j` overlaps some bullet while both are under way, or some
    /// player.
    pub open spec fn asteroid_spent(self, f: Frame, j: int) -> bool {
        ||| exists|i: int| 0 <= i < f.bullets@.len() && #[trigger] f.bullet_breaks(i, j)
        ||| exists|k: int| 0 <= k < f.players@.len() && #[trigger] f.asteroid_wounds(j, k)
    }

    /// Bullet `i` is still in the world after the tick.
    pub open spec fn bullet_stays(self, f: Frame, i: int) -> bool {
        f.bullet_flies(i) && !self.bullet_spent(f, i)
    }

    /// Asteroid `j` is still in the world after the tick.
    pub open spec fn asteroid_stays(self, f: Frame, j: int) -> bool {
        f.asteroid_flies(j) && !self.asteroid_spent(f, j)
    }

    /// How many of the first `n` bullets wound the `k`-th player of the frame.
    pub open spec fn bullet_hits(self, f: Frame, k: int, n: int) -> nat
        decreases n,
    {
        if n <= 0 {
            0
        } else {
            self.bullet_hits(f, k, n - 1) + if f.bullet_wounds(
                self.bullets[n - 1].owner_id,
                n - 1,
                k,
            ) {
                1nat
            } else {
                0nat
            }
        }
    }

    /// How many of the first `n` asteroids wound the `k`-th player of the
    /// frame.
    pub open spec fn asteroid_hits(self, f: Frame, k: int, n: int) -> nat
        decreases n,
    {
        if n <= 0 {
            0
        } else {
            self.asteroid_hits(f, k, n - 1) + if f.asteroid_wounds(n - 1, k) {
                1nat
            } else {
                0nat
            }
        }
    }

    /// How often the `k`-th player of the frame is hit in this tick: once by
    /// every bullet and every asteroid that wounds it.
    pub open spec fn hits(self, f: Frame, k: int) -> nat {
        self.bullet_hits(f, k, self.bullets.len() as int) + self.asteroid_hits(
            f,
            k,
            self.asteroids.len() as int,
        )
    }

    /// The indices among the first `n` bullets of those that stay, in rising
    /// order.
    pub open spec fn staying_bullets(self, f: Frame, n: int) -> Seq<int>
        decreases n,
    {
        if n <= 0 {
            Seq::empty()
        } else if self.bullet_stays(f, n - 1) {
            self.staying_bullets(f, n - 1).push(n - 1)
        } else {
            self.staying_bullets(f, n - 1)
        }
    }

    /// The indices among the first `n` asteroids of those that stay, in rising
    /// order.
    pub open spec fn staying_asteroids(self, f: Frame, n: int) -> Seq<int>
        decreases n,
    {
        if n <= 0 {
            Seq::empty()
        } else if self.asteroid_stays(f, n - 1) {
            self.staying_asteroids(f, n - 1).push(n - 1)
        } else {
            self.staying_asteroids(f, n - 1)
        }
    }

    /// The bullets after the tick: those that stay, each moved, in the order
    /// they had.
    pub open spec fn bullets_after(self, f: Frame) -> Seq<Bullet> {
        let stay = self.staying_bullets(f, self.bullets.len() as int);
        Seq::new(stay.len(), |r: int| self.bullets[stay[r]].moved(f.bullets@[stay[r]]))
    }

    /// The asteroids that the tick leaves of those that were there: those
    /// that stay, each moved, in the order they had.
    pub open spec fn asteroids_after(self, f: Frame) -> Seq<Asteroid> {
        let stay = self.staying_asteroids(f, self.asteroids.len() as int);
        Seq::new(stay.len(), |r: int| self.asteroids[stay[r]].moved(f.asteroids@[stay[r]]))
    }

    /// Player `id` after the tick.
    pub open spec fn player_after(self, f: Frame, id: u32) -> Player {
        let k = f.slot_of(id);
        self.players[id].ticked(f.players@[k], self.hits(f, k))
    }

    /// An asteroid is due at `now`: more than the spawn interval has passed
    /// since the last one. A clock that reads before the last spawn counts as
    /// no time passed.
    pub open spec fn spawn_due(self, now: u64) -> bool {
        now - self.last_spawn_asteroid > SPAWN_INTERVAL_MS
    }

    /// The world after one tick at time `now`, on the geometry `f`, with
    /// `seed` for the asteroid that is spawned if one is due.
    pub open spec fn advanced(self, f: Frame, now: u64, seed: AsteroidSeed) -> WorldState {
        let due = self.spawn_due(now);
        WorldState {
            players: Map::new(
                |id: u32| self.players.contains_key(id),
                |id: u32| self.player_after(f, id),
            ),
            bullets: self.bullets_after(f),
            asteroids: if due {
                self.asteroids_after(f).push(Asteroid::spawned(self.asteroid_id_counter, seed))
            } else {
                self.asteroids_after(f)
            },
            asteroid_id_counter: if due {
                next_id(self.asteroid_id_counter)
            } else {
                self.asteroid_id_counter
            },
            last_spawn_asteroid: if due {
                now
            } else {
                self.last_spawn_asteroid
            },
            ..self
        }
    }
}

impl Player {
    /// This player after a tick in which it moved as `step` says and was hit
    /// `hits` times. A player that was hit and has no hit points left is
    /// brought back into play at once.
    pub open spec fn ticked(self, step: PlayerStep, hits: nat) -> Player {
        let m = self.moved(step);
        if hits == 0 {
            m
        } else if hp_after(m.hp, hits) == 0 {
            m.respawned()
        } else {
            Player { hp: hp_after(m.hp, hits), ..m }
        }
    }
}

} // verus!
