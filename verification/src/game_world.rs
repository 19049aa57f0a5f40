//! The world and what joins and input commands do to it.

use vstd::prelude::*;
use std::collections::HashMap;
use crate::scalar::{Scalar, SIXTEEN_HUNDRED_BITS, TWELVE_HUNDRED_BITS};
use crate::packet::{InputAction, PlayerInput};
use crate::player::{Player, HALF_WIDTH_BITS, HALF_HEIGHT_BITS};
use crate::bullet::Bullet;
use crate::asteroid::{Asteroid, AsteroidSeed};
use crate::frame::{Frame, Steering};
use crate::utils::current_time_ms;

verus! {

/// Hit points that one bullet or asteroid takes from a player.
pub const DAMAGE: u16 = 20;

/// An asteroid is spawned once more than this many milliseconds have passed
/// since the last one.
pub const SPAWN_INTERVAL_MS: u64 = 1000;

/// The four borders of a playing field.
#[derive(Clone, Copy, Debug, PartialEq, Eq, Structural)]
pub struct Bounds {
    pub west: Scalar,
    pub east: Scalar,
    pub north: Scalar,
    pub south: Scalar,
}

impl Bounds {
    /// The field that players are held in: 800 to either side of the origin
    /// and 600 above and below it.
    pub open spec fn field() -> Bounds {
        Bounds {
            west: Scalar { bits: HALF_WIDTH_BITS }.negated(),
            east: Scalar { bits: HALF_WIDTH_BITS },
            north: Scalar { bits: HALF_HEIGHT_BITS },
            south: Scalar { bits: HALF_HEIGHT_BITS }.negated(),
        }
    }

    /// The point `(x, y)` lies within these borders or on them.
    pub open spec fn holds(self, x: Scalar, y: Scalar) -> bool {
        &&& !x.is_nan() && !y.is_nan()
        &&& !x.less(self.west) && !self.east.less(x)
        &&& !y.less(self.south) && !self.north.less(y)
    }

    /// The place within these borders nearest to `x` from west to east.
    pub open spec fn held_x(self, x: Scalar) -> Scalar {
        x.clamped(self.west, self.east)
    }

    /// The place within these borders nearest to `y` from south to north.
    pub open spec fn held_y(self, y: Scalar) -> Scalar {
        y.clamped(self.south, self.north)
    }

    /// The field that players are held in.
    pub fn playing_field() -> (b: Bounds)
        ensures
            b == Bounds::field(),
    {
        let east = Scalar::from_bits(HALF_WIDTH_BITS);
        let north = Scalar::from_bits(HALF_HEIGHT_BITS);
        Bounds { west: east.neg(), east, north, south: north.neg() }
    }

    /// Whether the point `(x, y)` lies within these borders or on them.
    pub fn contains(&self, x: Scalar, y: Scalar) -> (r: bool)
        ensures
            r == self.holds(x, y),
    {
        !x.is_not_a_number() && !y.is_not_a_number() && !x.lt(self.west) && !self.east.lt(x) && !y.lt(
            self.south,
        ) && !self.north.lt(y)
    }

    /// The place within these borders nearest to `x` from west to east.
    pub fn hold_x(&self, x: Scalar) -> (r: Scalar)
        ensures
            r == self.held_x(x),
    {
        x.clamp(self.west, self.east)
    }

    /// The place within these borders nearest to `y` from south to north.
    pub fn hold_y(&self, y: Scalar) -> (r: Scalar)
        ensures
            r == self.held_y(y),
    {
        y.clamp(self.south, self.north)
    }
}

/// The whole state of a game: every player, bullet and asteroid, the size of
/// the field, the id counters and the time of the last asteroid spawn.
#[derive(Clone, Debug, PartialEq)]
pub struct GameWorld {
    pub players: HashMap<u32, Player>,
    pub bullets: Vec<Bullet>,
    pub asteroids: Vec<Asteroid>,
    pub width: Scalar,
    pub height: Scalar,
    pub bullet_id_counter: u32,
    pub asteroid_id_counter: u32,
    pub last_spawn_asteroid: u64,
}

/// The mathematical content of a [`GameWorld`].
pub struct WorldState {
    pub players: Map<u32, Player>,
    pub bullets: Seq<Bullet>,
    pub asteroids: Seq<Asteroid>,
    pub width: Scalar,
    pub height: Scalar,
    pub bullet_id_counter: u32,
    pub asteroid_id_counter: u32,
    pub last_spawn_asteroid: u64,
}

impl View for GameWorld {
    type V = WorldState;

    open spec fn view(&self) -> WorldState {
        WorldState {
            players: self.players@,
            bullets: self.bullets@,
            asteroids: self.asteroids@,
            width: self.width,
            height: self.height,
            bullet_id_counter: self.bullet_id_counter,
            asteroid_id_counter: self.asteroid_id_counter,
            last_spawn_asteroid: self.last_spawn_asteroid,
        }
    }
}

/// One input command as it reaches the world: the player it is applied to,
/// the command, the time it is read at, or nothing where the clock could not
/// be read, and the steering worked out for it.
pub struct Command {
    pub player_id: u32,
    pub input: PlayerInput,
    pub now: Option<u64>,
    pub steer: Steering,
}

/// `order` lists every member of `keys` once and nothing else.
pub open spec fn lists(order: Seq<u32>, keys: Set<u32>) -> bool {
    order.no_duplicates() && order.to_set() == keys
}

/// The id counter after handing out `counter`: one more, and zero after the
/// largest value.
pub open spec fn next_id(counter: u32) -> u32 {
    if counter == u32::MAX {
        0
    } else {
        (counter + 1) as u32
    }
}

impl WorldState {
    /// The world before anything has happened: nobody and nothing in a field
    /// of 1600 by 1200.
    pub open spec fn empty() -> WorldState {
        WorldState {
            players: Map::empty(),
            bullets: Seq::empty(),
            asteroids: Seq::empty(),
            width: Scalar { bits: SIXTEEN_HUNDRED_BITS },
            height: Scalar { bits: TWELVE_HUNDRED_BITS },
            bullet_id_counter: 0,
            asteroid_id_counter: 0,
            last_spawn_asteroid: 0,
        }
    }

    /// The world after player `id` has joined: a fresh player under that id,
    /// in place of whoever held it.
    pub open spec fn joined(self, id: u32) -> WorldState {
        WorldState { players: self.players.insert(id, Player::fresh(id)), ..self }
    }

    /// The input is taken: the player is known and the sequence number is
    /// beyond the last one processed for it.
    pub open spec fn accepts(self, id: u32, input: PlayerInput) -> bool {
        &&& self.players.contains_key(id)
        &&& input.seq > self.players[id].last_processed_input_seq
    }

    /// The input is taken, asks for a shot, and the player's cooldown is over
    /// at `now`.
    pub open spec fn fires(self, id: u32, input: PlayerInput, now: u64) -> bool {
        &&& self.accepts(id, input)
        &&& input.action == InputAction::Shoot
        &&& self.players[id].cooled(now)
    }

    /// The world after one input command for player `id`, read at time `now`.
    /// A command that is not taken changes nothing. One that is taken turns
    /// the player, changes its velocity, or fires a bullet from where the
    /// player stands when the cooldown allows, and in every case records the
    /// sequence number.
    pub open spec fn after_input(self, id: u32, input: PlayerInput, now: u64, steer: Steering) -> WorldState {
        if !self.accepts(id, input) {
            self
        } else {
            let p = self.players[id];
            let fires = self.fires(id, input, now);
            WorldState {
                players: self.players.insert(id, p.commanded(input, now, steer)),
                bullets: if fires {
                    self.bullets.push(
                        Bullet::fired(self.bullet_id_counter, p.id, p.x, p.y, steer.muzzle_vx, steer.muzzle_vy),
                    )
                } else {
                    self.bullets
                },
                bullet_id_counter: if fires {
                    next_id(self.bullet_id_counter)
                } else {
                    self.bullet_id_counter
                },
                ..self
            }
        }
    }

    /// The world after one command. A command that comes while the clock
    /// cannot be read counts like a keepalive: where it is taken, its
    /// sequence number is recorded and nothing else changes. So a shot at a
    /// time that nobody knows fires no bullet and uses up no cooldown.
    pub open spec fn after_command(self, c: Command) -> WorldState {
        match c.now {
            Some(now) => self.after_input(c.player_id, c.input, now, c.steer),
            None => self.after_input(c.player_id, c.input.untimed(), 0, c.steer),
        }
    }

    /// The world after the commands of `run`, applied in order.
    pub open spec fn after_run(self, run: Seq<Command>) -> WorldState
        decreases run.len(),
    {
        if run.len() == 0 {
            self
        } else {
            self.after_run(run.drop_last()).after_command(run.last())
        }
    }
}

impl Player {
    /// The cooldown since the last shot is over at `now`.
    pub open spec fn cooled(self, now: u64) -> bool {
        now >= self.fire_rate_ms + self.last_shot_ms
    }

    /// This player after an input that was taken.
    pub open spec fn commanded(self, input: PlayerInput, now: u64, steer: Steering) -> Player {
        let acted = match input.action {
            InputAction::RotateLeft => Player { rotation: steer.left, ..self },
            InputAction::RotateRight => Player { rotation: steer.right, ..self },
            InputAction::Thrust => Player { vx: steer.thrust_vx, vy: steer.thrust_vy, ..self },
            InputAction::Shoot => if self.cooled(now) {
                Player { last_shot_ms: now, ..self }
            } else {
                self
            },
            InputAction::Hello => self,
        };
        Player { last_processed_input_seq: input.seq, ..acted }
    }

    /// Whether the cooldown since the last shot is over at `now`.
    pub fn is_cooled(&self, now: u64) -> (r: bool)
        ensures
            r == self.cooled(now),
    {
        match self.fire_rate_ms.checked_add(self.last_shot_ms) {
            Some(ready) => now >= ready,
            None => false,
        }
    }
}

impl GameWorld {
    /// The world before anything has happened.
    pub fn new() -> (w: GameWorld)
        ensures
            w@ == WorldState::empty(),
    {
        GameWorld {
            players: HashMap::new(),
            bullets: Vec::new(),
            asteroids: Vec::new(),
            width: Scalar::from_bits(SIXTEEN_HUNDRED_BITS),
            height: Scalar::from_bits(TWELVE_HUNDRED_BITS),
            bullet_id_counter: 0,
            asteroid_id_counter: 0,
            last_spawn_asteroid: 0,
        }
    }

    /// The ids under which players are filed, each once, in the order in
    /// which the map hands them out, which is left open.
    pub fn player_ids(&self) -> (ids: Vec<u32>)
        ensures
            lists(ids@, self@.players.dom()),
    {
        let mut ids: Vec<u32> = Vec::new();
        for k in it: self.players.keys()
            invariant
                it.seq().no_duplicates(),
                it.seq().unref().to_set() == self.players@.dom(),
                it.seq().len() == self.players@.dom().len(),
                ids@ == it.seq().unref().take(it.index() as int),
                ids@.no_duplicates(),
                forall|j: int| 0 <= j < ids@.len() ==> self.players@.contains_key(#[trigger] ids@[j]),
        {
            ids.push(*k);
        }
        proof {
            ids@.unique_seq_to_set();
            vstd::set_lib::lemma_subset_equality(ids@.to_set(), self.players@.dom());
        }
        ids
    }

    /// The ids of the bullets, in their order.
    pub fn bullet_ids(&self) -> (ids: Vec<u32>)
        ensures
            ids@ == Seq::new(self@.bullets.len(), |i: int| self@.bullets[i].id),
    {
        let mut ids: Vec<u32> = Vec::new();
        let mut i: usize = 0;
        while i < self.bullets.len()
            invariant
                i <= self.bullets.len(),
                ids@.len() == i,
                forall|j: int| 0 <= j < i ==> ids@[j] == self.bullets@[j].id,
            decreases self.bullets.len() - i,
        {
            ids.push(self.bullets[i].id);
            i += 1;
        }
        ids
    }

    /// The ids of the asteroids, in their order.
    pub fn asteroid_ids(&self) -> (ids: Vec<u32>)
        ensures
            ids@ == Seq::new(self@.asteroids.len(), |i: int| self@.asteroids[i].id),
    {
        let mut ids: Vec<u32> = Vec::new();
        let mut i: usize = 0;
        while i < self.asteroids.len()
            invariant
                i <= self.asteroids.len(),
                ids@.len() == i,
                forall|j: int| 0 <= j < i ==> ids@[j] == self.asteroids@[j].id,
            decreases self.asteroids.len() - i,
        {
            ids.push(self.asteroids[i].id);
            i += 1;
        }
        ids
    }

    /// Puts a fresh player under `player_id`. A player already there is
    /// replaced, and so loses its state.
    pub fn add_player(&mut self, player_id: u32)
        ensures
            final(self)@ == old(self)@.joined(player_id),
    {
        self.players.insert(player_id, Player::new(player_id));
    }

    /// Applies one input command for `player_id`, read at time `now`. `steer`
    /// says what each action does to that player's motion.
    pub fn apply_input_at(&mut self, player_id: u32, input: &PlayerInput, now: u64, steer: &Steering)
        ensures
            final(self)@ == old(self)@.after_input(player_id, *input, now, *steer),
    {
        let found: Option<Player> = match self.players.get(&player_id) {
            Some(p) => Some(*p),
            None => None,
        };
        if let Some(p) = found {
            if input.seq <= p.last_processed_input_seq {
                return ;
            }
            let mut q: Player = p;
            match input.action {
                InputAction::RotateLeft => {
                    q.rotation = steer.left;
                },
                InputAction::RotateRight => {
                    q.rotation = steer.right;
                },
                InputAction::Shoot => {
                    if p.is_cooled(now) {
                        q.last_shot_ms = now;
                        let id: u32 = self.bullet_id_counter;
                        self.bullet_id_counter = id.wrapping_add(1);
                        self.bullets.push(Bullet::new(id, p.id, p.x, p.y, steer.muzzle_vx, steer.muzzle_vy));
                    }
                },
                InputAction::Thrust => {
                    q.vx = steer.thrust_vx;
                    q.vy = steer.thrust_vy;
                },
                InputAction::Hello => {},
            }
            q.last_processed_input_seq = input.seq;
            self.players.insert(player_id, q);
        }
    }

    /// Applies one input command for `player_id`. The clock is read when the
    /// command is a shot; no other command depends on the time. A shot that
    /// comes while the clock cannot be read counts like a keepalive: where it
    /// is taken, its sequence number is recorded, and no bullet is fired.
    pub fn apply_input(&mut self, player_id: u32, input: &PlayerInput, steer: &Steering)
        ensures
            exists|reading: Option<u64>|
                final(self)@ == #[trigger] old(self)@.after_command(
                    (Command { player_id, input: *input, now: reading, steer: *steer }),
                ) && (!(input.action == InputAction::Shoot) ==> reading is Some),
            !(input.action == InputAction::Shoot) ==> final(self)@ == old(self)@.after_input(
                player_id,
                *input,
                0,
                *steer,
            ),
    {
        let reading: Option<u64> = match input.action {
            InputAction::Shoot => current_time_ms(),
            _ => Some(0),
        };
        match reading {
            Some(now) => self.apply_input_at(player_id, input, now, steer),
            None => self.apply_input_at(player_id, &input.without_time(), 0, steer),
        }
        assert(self@ == old(self)@.after_command(
            (Command { player_id, input: *input, now: reading, steer: *steer }),
        ));
    }
}

} // verus!
