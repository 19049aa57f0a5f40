//! The two messages of the protocol as bytes: the input command that a client
//! sends and the snapshot of the whole world that the server broadcasts.
//!
//! Both are rows and lists of rows. An input command is one row: player id,
//! sequence number and the number of the action. A snapshot is the list of
//! players, each under its key, the list of bullets, the list of asteroids,
//! and one row with the size of the field, the two counters and the time of
//! the last spawn.

use vstd::prelude::*;
use std::collections::HashMap;
use crate::scalar::Scalar;
use crate::packet::{InputAction, PlayerInput};
use crate::player::Player;
use crate::bullet::Bullet;
use crate::asteroid::Asteroid;
use crate::game_world::{GameWorld, WorldState, lists};
use crate::varint::{Kind, WireError};
use crate::record::{
    row_holds,
    row_wire,
    row_parse,
    rows_hold,
    list_wire,
    list_parse,
    rows_of,
    put_row,
    take_row,
    put_list,
    take_list,
    lemma_row_round_trip,
    lemma_list_round_trip,
    lemma_row_parse_holds,
};

verus! {

impl InputAction {
    /// The number that stands for the action on the wire: its place in the
    /// declaration of the type.
    pub open spec fn wire_index(self) -> u64 {
        match self {
            InputAction::RotateLeft => 0,
            InputAction::RotateRight => 1,
            InputAction::Shoot => 2,
            InputAction::Thrust => 3,
            InputAction::Hello => 4,
        }
    }

    /// The action that a number below five stands for on the wire.
    pub open spec fn from_wire_index(index: u64) -> InputAction {
        if index == 0 {
            InputAction::RotateLeft
        } else if index == 1 {
            InputAction::RotateRight
        } else if index == 2 {
            InputAction::Shoot
        } else if index == 3 {
            InputAction::Thrust
        } else {
            InputAction::Hello
        }
    }
}

impl PlayerInput {
    /// The fields of a command: player id, sequence number, action number.
    #[verifier::opaque]
    pub open spec fn schema() -> Seq<Kind> {
        seq![Kind::U32, Kind::U32, Kind::U32]
    }

    /// The row of this command.
    pub open spec fn fields(self) -> Seq<u64> {
        seq![self.id as u64, self.seq as u64, self.action.wire_index()]
    }

    /// The command that stands in the row `v`.
    pub open spec fn from_fields(v: Seq<u64>) -> PlayerInput {
        PlayerInput { id: v[0] as u32, seq: v[1] as u32, action: InputAction::from_wire_index(v[2]) }
    }

    /// The bytes of this command.
    pub open spec fn wire(self) -> Seq<u8> {
        row_wire(Self::schema(), self.fields())
    }

    /// Reads a command from the front of `s`: the command and how many bytes
    /// it took. An action number of five or more is refused.
    pub open spec fn parse(s: Seq<u8>) -> Result<(PlayerInput, nat), WireError> {
        match row_parse(Self::schema(), s) {
            Err(e) => Err(e),
            Ok((v, n)) => if v[2] < 5 {
                Ok((Self::from_fields(v), n))
            } else {
                Err(WireError::Malformed)
            },
        }
    }

    /// A command that is written and followed by anything is read back as
    /// itself.
    pub proof fn lemma_round_trip(self, rest: Seq<u8>)
        ensures
            Self::parse(self.wire() + rest) == Ok::<(PlayerInput, nat), WireError>(
                (self, self.wire().len()),
            ),
    {
        reveal(PlayerInput::schema);
        lemma_row_round_trip(Self::schema(), self.fields(), 0, rest);
    }

    fn schema_row() -> (s: Vec<Kind>)
        ensures
            s@ == Self::schema(),
    {
        proof {
            reveal(PlayerInput::schema);
        }
        vec![Kind::U32, Kind::U32, Kind::U32]
    }

    /// The bytes of this command. Reading them gives the command back.
    pub fn encode(&self) -> (bytes: Vec<u8>)
        ensures
            bytes@ == self.wire(),
            Self::parse(bytes@) == Ok::<(PlayerInput, nat), WireError>((*self, bytes@.len())),
    {
        proof {
            reveal(PlayerInput::schema);
        }
        let index: u64 = match self.action {
            InputAction::RotateLeft => 0,
            InputAction::RotateRight => 1,
            InputAction::Shoot => 2,
            InputAction::Thrust => 3,
            InputAction::Hello => 4,
        };
        let vals: Vec<u64> = vec![self.id as u64, self.seq as u64, index];
        let mut out: Vec<u8> = Vec::new();
        put_row(&mut out, &Self::schema_row(), &vals);
        proof {
            assert(Seq::<u8>::empty() + self.wire() =~= self.wire());
            self.lemma_round_trip(Seq::empty());
            assert(self.wire() + Seq::<u8>::empty() =~= self.wire());
        }
        out
    }

    /// Reads a command from the front of `bytes`. What follows the command is
    /// not looked at.
    pub fn decode(bytes: &[u8]) -> (r: Result<PlayerInput, WireError>)
        ensures
            match r {
                Ok(input) => Self::parse(bytes@) matches Ok((found, _)) && found == input,
                Err(e) => Self::parse(bytes@) == Err::<(PlayerInput, nat), WireError>(e),
            },
    {
        proof {
            reveal(PlayerInput::schema);
        }
        assert(bytes@.skip(0) =~= bytes@);
        match take_row(bytes, 0, &Self::schema_row()) {
            Err(e) => Err(e),
            Ok((v, _)) => {
                let action = if v[2] == 0 {
                    InputAction::RotateLeft
                } else if v[2] == 1 {
                    InputAction::RotateRight
                } else if v[2] == 2 {
                    InputAction::Shoot
                } else if v[2] == 3 {
                    InputAction::Thrust
                } else if v[2] == 4 {
                    InputAction::Hello
                } else {
                    return Err(WireError::Malformed);
                };
                Ok(PlayerInput { id: v[0] as u32, seq: v[1] as u32, action })
            },
        }
    }
}

impl Player {
    /// The fields of a player: id, position, heading and velocity as five
    /// scalars, hit points, time of the last shot, fire rate, and the last
    /// sequence number processed.
    #[verifier::opaque]
    pub open spec fn schema() -> Seq<Kind> {
        seq![
            Kind::U32,
            Kind::Real,
            Kind::Real,
            Kind::Real,
            Kind::Real,
            Kind::Real,
            Kind::U16,
            Kind::U64,
            Kind::U64,
            Kind::U32,
        ]
    }

    /// The row of this player.
    pub open spec fn fields(self) -> Seq<u64> {
        seq![
            self.id as u64,
            self.x.bits as u64,
            self.y.bits as u64,
            self.rotation.bits as u64,
            self.vx.bits as u64,
            self.vy.bits as u64,
            self.hp as u64,
            self.last_shot_ms,
            self.fire_rate_ms,
            self.last_processed_input_seq as u64,
        ]
    }

    /// The player whose fields stand in `v` from place `at` on.
    pub open spec fn from_fields(v: Seq<u64>, at: int) -> Player {
        Player {
            id: v[at] as u32,
            x: Scalar { bits: v[at + 1] as u32 },
            y: Scalar { bits: v[at + 2] as u32 },
            rotation: Scalar { bits: v[at + 3] as u32 },
            vx: Scalar { bits: v[at + 4] as u32 },
            vy: Scalar { bits: v[at + 5] as u32 },
            hp: v[at + 6] as u16,
            last_shot_ms: v[at + 7],
            fire_rate_ms: v[at + 8],
            last_processed_input_seq: v[at + 9] as u32,
        }
    }

    /// The schema of a player filed under its key: the key, then the player.
    #[verifier::opaque]
    pub open spec fn entry_schema() -> Seq<Kind> {
        seq![Kind::U32] + Self::schema()
    }

    /// The row of this player filed under `key`.
    pub open spec fn entry(self, key: u32) -> Seq<u64> {
        seq![key as u64] + self.fields()
    }

    fn entry_schema_row() -> (s: Vec<Kind>)
        ensures
            s@ == Self::entry_schema(),
    {
        proof {
            reveal(Player::schema);
            reveal(Player::entry_schema);
        }
        let s = vec![
            Kind::U32,
            Kind::U32,
            Kind::Real,
            Kind::Real,
            Kind::Real,
            Kind::Real,
            Kind::Real,
            Kind::U16,
            Kind::U64,
            Kind::U64,
            Kind::U32,
        ];
        s
    }

    fn entry_row(&self, key: u32) -> (v: Vec<u64>)
        ensures
            v@ == self.entry(key),
            row_holds(Self::entry_schema(), v@),
    {
        proof {
            reveal(Player::schema);
            reveal(Player::entry_schema);
        }
        let v = vec![
            key as u64,
            self.id as u64,
            self.x.bits as u64,
            self.y.bits as u64,
            self.rotation.bits as u64,
            self.vx.bits as u64,
            self.vy.bits as u64,
            self.hp as u64,
            self.last_shot_ms,
            self.fire_rate_ms,
            self.last_processed_input_seq as u64,
        ];
        v
    }

    fn from_entry_row(v: &Vec<u64>) -> (r: (u32, Player))
        requires
            row_holds(Self::entry_schema(), v@),
        ensures
            r.0 == v@[0] as u32,
            r.1 == Self::from_fields(v@, 1),
    {
        proof {
            reveal(Player::schema);
            reveal(Player::entry_schema);
        }
        assert(Self::entry_schema()[0].holds(v@[0]));
        assert(Self::entry_schema()[1].holds(v@[1]));
        assert(Self::entry_schema()[2].holds(v@[2]));
        assert(Self::entry_schema()[3].holds(v@[3]));
        assert(Self::entry_schema()[4].holds(v@[4]));
        assert(Self::entry_schema()[5].holds(v@[5]));
        assert(Self::entry_schema()[6].holds(v@[6]));
        assert(Self::entry_schema()[7].holds(v@[7]));
        assert(Self::entry_schema()[10].holds(v@[10]));
        (
            v[0] as u32,
            Player {
                id: v[1] as u32,
                x: Scalar { bits: v[2] as u32 },
                y: Scalar { bits: v[3] as u32 },
                rotation: Scalar { bits: v[4] as u32 },
                vx: Scalar { bits: v[5] as u32 },
                vy: Scalar { bits: v[6] as u32 },
                hp: v[7] as u16,
                last_shot_ms: v[8],
                fire_rate_ms: v[9],
                last_processed_input_seq: v[10] as u32,
            },
        )
    }
}

impl Bullet {
    /// The fields of a bullet: id, owner, position and velocity as four
    /// scalars, and the distance covered.
    #[verifier::opaque]
    pub open spec fn schema() -> Seq<Kind> {
        seq![Kind::U32, Kind::U32, Kind::Real, Kind::Real, Kind::Real, Kind::Real, Kind::Real]
    }

    /// The row of this bullet.
    pub open spec fn fields(self) -> Seq<u64> {
        seq![
            self.id as u64,
            self.owner_id as u64,
            self.x.bits as u64,
            self.y.bits as u64,
            self.vx.bits as u64,
            self.vy.bits as u64,
            self.distance_traveled.bits as u64,
        ]
    }

    /// The bullet that stands in the row `v`.
    pub open spec fn from_fields(v: Seq<u64>) -> Bullet {
        Bullet {
            id: v[0] as u32,
            owner_id: v[1] as u32,
            x: Scalar { bits: v[2] as u32 },
            y: Scalar { bits: v[3] as u32 },
            vx: Scalar { bits: v[4] as u32 },
            vy: Scalar { bits: v[5] as u32 },
            distance_traveled: Scalar { bits: v[6] as u32 },
        }
    }

    fn schema_row() -> (s: Vec<Kind>)
        ensures
            s@ == Self::schema(),
    {
        proof {
            reveal(Bullet::schema);
        }
        vec![Kind::U32, Kind::U32, Kind::Real, Kind::Real, Kind::Real, Kind::Real, Kind::Real]
    }

    fn row(&self) -> (v: Vec<u64>)
        ensures
            v@ == self.fields(),
            row_holds(Self::schema(), v@),
    {
        proof {
            reveal(Bullet::schema);
        }
        vec![
            self.id as u64,
            self.owner_id as u64,
            self.x.bits as u64,
            self.y.bits as u64,
            self.vx.bits as u64,
            self.vy.bits as u64,
            self.distance_traveled.bits as u64,
        ]
    }

    fn from_row(v: &Vec<u64>) -> (b: Bullet)
        requires
            row_holds(Self::schema(), v@),
        ensures
            b == Self::from_fields(v@),
    {
        proof {
            reveal(Bullet::schema);
        }
        assert(Self::schema()[0].holds(v@[0]));
        assert(Self::schema()[1].holds(v@[1]));
        assert(Self::schema()[2].holds(v@[2]));
        assert(Self::schema()[3].holds(v@[3]));
        assert(Self::schema()[4].holds(v@[4]));
        assert(Self::schema()[5].holds(v@[5]));
        assert(Self::schema()[6].holds(v@[6]));
        Bullet {
            id: v[0] as u32,
            owner_id: v[1] as u32,
            x: Scalar { bits: v[2] as u32 },
            y: Scalar { bits: v[3] as u32 },
            vx: Scalar { bits: v[4] as u32 },
            vy: Scalar { bits: v[5] as u32 },
            distance_traveled: Scalar { bits: v[6] as u32 },
        }
    }
}

impl Asteroid {
    /// The fields of an asteroid: id, then position, velocity, radius, speed
    /// factor and distance covered as seven scalars.
    #[verifier::opaque]
    pub open spec fn schema() -> Seq<Kind> {
        seq![
            Kind::U32,
            Kind::Real,
            Kind::Real,
            Kind::Real,
            Kind::Real,
            Kind::Real,
            Kind::Real,
            Kind::Real,
        ]
    }

    /// The row of this asteroid.
    pub open spec fn fields(self) -> Seq<u64> {
        seq![
            self.id as u64,
            self.x.bits as u64,
            self.y.bits as u64,
            self.vx.bits as u64,
            self.vy.bits as u64,
            self.radius.bits as u64,
            self.asteroid_speed.bits as u64,
            self.distance_traveled.bits as u64,
        ]
    }

    /// The asteroid that stands in the row `v`.
    pub open spec fn from_fields(v: Seq<u64>) -> Asteroid {
        Asteroid {
            id: v[0] as u32,
            x: Scalar { bits: v[1] as u32 },
            y: Scalar { bits: v[2] as u32 },
            vx: Scalar { bits: v[3] as u32 },
            vy: Scalar { bits: v[4] as u32 },
            radius: Scalar { bits: v[5] as u32 },
            asteroid_speed: Scalar { bits: v[6] as u32 },
            distance_traveled: Scalar { bits: v[7] as u32 },
        }
    }

    fn schema_row() -> (s: Vec<Kind>)
        ensures
            s@ == Self::schema(),
    {
        proof {
            reveal(Asteroid::schema);
        }
        vec![
            Kind::U32,
            Kind::Real,
            Kind::Real,
            Kind::Real,
            Kind::Real,
            Kind::Real,
            Kind::Real,
            Kind::Real,
        ]
    }

    fn row(&self) -> (v: Vec<u64>)
        ensures
            v@ == self.fields(),
            row_holds(Self::schema(), v@),
    {
        proof {
            reveal(Asteroid::schema);
        }
        vec![
            self.id as u64,
            self.x.bits as u64,
            self.y.bits as u64,
            self.vx.bits as u64,
            self.vy.bits as u64,
            self.radius.bits as u64,
            self.asteroid_speed.bits as u64,
            self.distance_traveled.bits as u64,
        ]
    }

    fn from_row(v: &Vec<u64>) -> (a: Asteroid)
        requires
            row_holds(Self::schema(), v@),
        ensures
            a == Self::from_fields(v@),
    {
        proof {
            reveal(Asteroid::schema);
        }
        assert(Self::schema()[0].holds(v@[0]));
        assert(Self::schema()[1].holds(v@[1]));
        assert(Self::schema()[2].holds(v@[2]));
        assert(Self::schema()[3].holds(v@[3]));
        assert(Self::schema()[4].holds(v@[4]));
        assert(Self::schema()[5].holds(v@[5]));
        assert(Self::schema()[6].holds(v@[6]));
        assert(Self::schema()[7].holds(v@[7]));
        Asteroid {
            id: v[0] as u32,
            x: Scalar { bits: v[1] as u32 },
            y: Scalar { bits: v[2] as u32 },
            vx: Scalar { bits: v[3] as u32 },
            vy: Scalar { bits: v[4] as u32 },
            radius: Scalar { bits: v[5] as u32 },
            asteroid_speed: Scalar { bits: v[6] as u32 },
            distance_traveled: Scalar { bits: v[7] as u32 },
        }
    }
}

/// The players that a list of entries amounts to: each entry files its
/// player under its key, a later entry taking the place of an earlier one
/// with the same key.
pub open spec fn players_of(entries: Seq<Seq<u64>>) -> Map<u32, Player>
    decreases entries.len(),
{
    if entries.len() == 0 {
        Map::empty()
    } else {
        players_of(entries.drop_last()).insert(
            entries.last()[0] as u32,
            Player::from_fields(entries.last(), 1),
        )
    }
}

impl WorldState {
    /// The schema of the row that ends a snapshot.
    #[verifier::opaque]
    pub open spec fn tail_schema() -> Seq<Kind> {
        seq![Kind::Real, Kind::Real, Kind::U32, Kind::U32, Kind::U64]
    }

    /// The row that ends a snapshot: width and height of the field, the
    /// bullet and asteroid counters and the time of the last spawn.
    pub open spec fn tail(self) -> Seq<u64> {
        seq![
            self.width.bits as u64,
            self.height.bits as u64,
            self.bullet_id_counter as u64,
            self.asteroid_id_counter as u64,
            self.last_spawn_asteroid,
        ]
    }

    /// The entries of the players, in the order in which `order` lists their
    /// keys.
    pub open spec fn entries(self, order: Seq<u32>) -> Seq<Seq<u64>> {
        Seq::new(order.len(), |k: int| self.players[order[k]].entry(order[k]))
    }

    /// The rows of the bullets, in their order.
    pub open spec fn bullet_rows(self) -> Seq<Seq<u64>> {
        Seq::new(self.bullets.len(), |i: int| self.bullets[i].fields())
    }

    /// The rows of the asteroids, in their order.
    pub open spec fn asteroid_rows(self) -> Seq<Seq<u64>> {
        Seq::new(self.asteroids.len(), |i: int| self.asteroids[i].fields())
    }

    /// The bytes of a snapshot of this world with the players in the order
    /// of `order`.
    pub open spec fn wire(self, order: Seq<u32>) -> Seq<u8> {
        list_wire(Player::entry_schema(), self.entries(order)) + (list_wire(
            Bullet::schema(),
            self.bullet_rows(),
        ) + (list_wire(Asteroid::schema(), self.asteroid_rows()) + row_wire(
            Self::tail_schema(),
            self.tail(),
        )))
    }

    /// The world that the four parts of a snapshot amount to.
    pub open spec fn assembled(
        entries: Seq<Seq<u64>>,
        bullets: Seq<Seq<u64>>,
        asteroids: Seq<Seq<u64>>,
        tail: Seq<u64>,
    ) -> WorldState {
        WorldState {
            players: players_of(entries),
            bullets: Seq::new(bullets.len(), |i: int| Bullet::from_fields(bullets[i])),
            asteroids: Seq::new(asteroids.len(), |i: int| Asteroid::from_fields(asteroids[i])),
            width: Scalar { bits: tail[0] as u32 },
            height: Scalar { bits: tail[1] as u32 },
            bullet_id_counter: tail[2] as u32,
            asteroid_id_counter: tail[3] as u32,
            last_spawn_asteroid: tail[4],
        }
    }

    /// Reads the row that ends a snapshot at `at`, after the three lists have
    /// been read.
    pub open spec fn parse_tail(
        s: Seq<u8>,
        entries: Seq<Seq<u64>>,
        bullets: Seq<Seq<u64>>,
        asteroids: Seq<Seq<u64>>,
        at: nat,
    ) -> Result<(WorldState, nat), WireError> {
        match row_parse(Self::tail_schema(), s.skip(at as int)) {
            Err(e) => Err(e),
            Ok((tail, n)) => Ok((Self::assembled(entries, bullets, asteroids, tail), at + n)),
        }
    }

    /// Reads the asteroids of a snapshot at `at`, and what follows them,
    /// after the players and bullets have been read.
    pub open spec fn parse_asteroids(
        s: Seq<u8>,
        entries: Seq<Seq<u64>>,
        bullets: Seq<Seq<u64>>,
        at: nat,
    ) -> Result<(WorldState, nat), WireError> {
        match list_parse(Asteroid::schema(), s.skip(at as int)) {
            Err(e) => Err(e),
            Ok((asteroids, n)) => Self::parse_tail(s, entries, bullets, asteroids, at + n),
        }
    }

    /// Reads the bullets of a snapshot at `at`, and what follows them, after
    /// the players have been read.
    pub open spec fn parse_bullets(s: Seq<u8>, entries: Seq<Seq<u64>>, at: nat) -> Result<
        (WorldState, nat),
        WireError,
    > {
        match list_parse(Bullet::schema(), s.skip(at as int)) {
            Err(e) => Err(e),
            Ok((bullets, n)) => Self::parse_asteroids(s, entries, bullets, at + n),
        }
    }

    /// Reads a snapshot from the front of `s`: the world and how many bytes
    /// it took. The players come first, each under its key, then the bullets,
    /// the asteroids and the closing row.
    pub open spec fn parse(s: Seq<u8>) -> Result<(WorldState, nat), WireError> {
        match list_parse(Player::entry_schema(), s) {
            Err(e) => Err(e),
            Ok((entries, n)) => Self::parse_bullets(s, entries, n),
        }
    }
}

/// The entries of players listed without repetition amount to those players.
pub proof fn lemma_players_of_entries(w: WorldState, order: Seq<u32>, n: int)
    requires
        order.no_duplicates(),
        forall|k: int| 0 <= k < order.len() ==> w.players.contains_key(#[trigger] order[k]),
        0 <= n <= order.len(),
    ensures
        players_of(w.entries(order).take(n)) == w.players.restrict(order.take(n).to_set()),
    decreases n,
{
    let e = w.entries(order).take(n);
    if n > 0 {
        lemma_players_of_entries(w, order, n - 1);
        assert(e.drop_last() =~= w.entries(order).take(n - 1));
        let key = order[n - 1];
        let p = w.players[key];
        assert(Player::from_fields(p.entry(key), 1) == p);
        assert(order.take(n).to_set() =~= order.take(n - 1).to_set().insert(key)) by {
            assert forall|id: u32| order.take(n).to_set().contains(id) implies order.take(
                n - 1,
            ).to_set().insert(key).contains(id) by {
                let full = order.take(n);
                let at = choose|at: int| 0 <= at < full.len() && full[at] == id;
                if at < n - 1 {
                    assert(order.take(n - 1)[at] == id);
                }
            }
            assert forall|id: u32| order.take(n - 1).to_set().insert(key).contains(
                id,
            ) implies order.take(n).to_set().contains(id) by {
                if id == key {
                    assert(order.take(n)[n - 1] == key);
                } else {
                    let part = order.take(n - 1);
                    let at = choose|at: int| 0 <= at < part.len() && part[at] == id;
                    assert(order.take(n)[at] == id);
                }
            }
        }
        assert(players_of(e) =~= w.players.restrict(order.take(n).to_set()));
    }
}

/// The rows of a world are rows of their schemas, and reading them gives the
/// players, bullets and asteroids back.
pub proof fn lemma_rows_of_world(w: WorldState, order: Seq<u32>)
    ensures
        rows_hold(Player::entry_schema(), w.entries(order)),
        rows_hold(Bullet::schema(), w.bullet_rows()),
        rows_hold(Asteroid::schema(), w.asteroid_rows()),
        row_holds(WorldState::tail_schema(), w.tail()),
        forall|k: int|
            0 <= k < order.len() ==> Player::from_fields(#[trigger] w.entries(order)[k], 1)
                == w.players[order[k]] && w.entries(order)[k][0] == order[k],
        forall|i: int|
            0 <= i < w.bullets.len() ==> Bullet::from_fields(#[trigger] w.bullet_rows()[i])
                == w.bullets[i],
        forall|i: int|
            0 <= i < w.asteroids.len() ==> Asteroid::from_fields(#[trigger] w.asteroid_rows()[i])
                == w.asteroids[i],
{
    reveal(Player::schema);
    reveal(Player::entry_schema);
    reveal(Bullet::schema);
    reveal(Asteroid::schema);
    reveal(WorldState::tail_schema);
    let e = w.entries(order);
    assert forall|k: int| 0 <= k < e.len() implies row_holds(Player::entry_schema(), #[trigger] e[k])
        && Player::from_fields(e[k], 1) == w.players[order[k]] && e[k][0] == order[k] by {
    }
}

/// The parts of a snapshot of a world amount to that world.
pub proof fn lemma_assembled_back(w: WorldState, order: Seq<u32>)
    requires
        lists(order, w.players.dom()),
    ensures
        WorldState::assembled(w.entries(order), w.bullet_rows(), w.asteroid_rows(), w.tail()) == w,
{
    let e = w.entries(order);
    let v = WorldState::assembled(e, w.bullet_rows(), w.asteroid_rows(), w.tail());
    lemma_rows_of_world(w, order);
    assert(v.players =~= w.players) by {
        assert forall|k: int| 0 <= k < order.len() implies w.players.contains_key(
            #[trigger] order[k],
        ) by {}
        lemma_players_of_entries(w, order, order.len() as int);
        assert(e.take(order.len() as int) =~= e);
        assert(order.take(order.len() as int) =~= order);
    }
    assert(v.bullets =~= w.bullets);
    assert(v.asteroids =~= w.asteroids);
}

/// Where the parts of four pieces written one after the other, and followed
/// by anything, begin.
proof fn lemma_four_pieces(s1: Seq<u8>, s2: Seq<u8>, s3: Seq<u8>, s4: Seq<u8>, rest: Seq<u8>)
    ensures
        ({
            let s = (s1 + (s2 + (s3 + s4))) + rest;
            &&& s == s1 + (s2 + (s3 + (s4 + rest)))
            &&& s.skip(s1.len() as int) == s2 + (s3 + (s4 + rest))
            &&& s.skip((s1.len() + s2.len()) as int) == s3 + (s4 + rest)
            &&& s.skip((s1.len() + s2.len() + s3.len()) as int) == s4 + rest
            &&& (s1 + (s2 + (s3 + s4))).len() == s1.len() + s2.len() + s3.len() + s4.len()
        }),
{
    let s = (s1 + (s2 + (s3 + s4))) + rest;
    assert(s.skip((s1.len() + s2.len() + s3.len()) as int) =~= s4 + rest);
}

/// The rows of a world are rows of their schemas.
proof fn lemma_world_rows_hold(w: WorldState, order: Seq<u32>)
    ensures
        rows_hold(Player::entry_schema(), w.entries(order)),
        rows_hold(Bullet::schema(), w.bullet_rows()),
        rows_hold(Asteroid::schema(), w.asteroid_rows()),
        row_holds(WorldState::tail_schema(), w.tail()),
{
    lemma_rows_of_world(w, order);
}

/// The closing row of a snapshot, written and followed by anything, is read
/// back, and with the three lists before it amounts to the world.
proof fn lemma_tail_round_trip(w: WorldState, order: Seq<u32>, s: Seq<u8>, at: nat, rest: Seq<u8>)
    requires
        lists(order, w.players.dom()),
        at <= s.len(),
        s.skip(at as int) == row_wire(WorldState::tail_schema(), w.tail()) + rest,
    ensures
        WorldState::parse_tail(s, w.entries(order), w.bullet_rows(), w.asteroid_rows(), at) == Ok::<
            (WorldState, nat),
            WireError,
        >((w, at + row_wire(WorldState::tail_schema(), w.tail()).len())),
{
    let t = w.tail();
    lemma_world_rows_hold(w, order);
    lemma_row_round_trip(WorldState::tail_schema(), t, 0, rest);
    lemma_assembled_back(w, order);
}

/// A snapshot that is written, with the players in any order, and followed
/// by anything is read back as the world it was taken of, equal in every
/// field, and the reading takes exactly the bytes that were written.
pub proof fn lemma_snapshot_round_trip(w: WorldState, order: Seq<u32>, rest: Seq<u8>)
    requires
        lists(order, w.players.dom()),
        order.len() <= u64::MAX,
        w.bullets.len() <= u64::MAX,
        w.asteroids.len() <= u64::MAX,
    ensures
        WorldState::parse(w.wire(order) + rest) == Ok::<(WorldState, nat), WireError>(
            (w, w.wire(order).len()),
        ),
{
    let e = w.entries(order);
    let b = w.bullet_rows();
    let a = w.asteroid_rows();
    let we = list_wire(Player::entry_schema(), e);
    let wb = list_wire(Bullet::schema(), b);
    let wa = list_wire(Asteroid::schema(), a);
    let wt = row_wire(WorldState::tail_schema(), w.tail());
    let s = w.wire(order) + rest;
    let n1 = we.len();
    let n2 = wb.len();
    let n3 = wa.len();
    lemma_world_rows_hold(w, order);
    lemma_four_pieces(we, wb, wa, wt, rest);
    assert(WorldState::parse(s) == WorldState::parse_bullets(s, e, n1)) by {
        lemma_list_round_trip(Player::entry_schema(), e, wb + (wa + (wt + rest)));
    }
    assert(WorldState::parse_bullets(s, e, n1) == WorldState::parse_asteroids(s, e, b, n1 + n2)) by {
        lemma_list_round_trip(Bullet::schema(), b, wa + (wt + rest));
    }
    assert(WorldState::parse_asteroids(s, e, b, n1 + n2) == WorldState::parse_tail(
        s,
        e,
        b,
        a,
        n1 + n2 + n3,
    )) by {
        lemma_list_round_trip(Asteroid::schema(), a, wt + rest);
    }
    lemma_tail_round_trip(w, order, s, n1 + n2 + n3, rest);
}

impl GameWorld {
    /// The entries of the players, in the order in which the map hands out
    /// its keys, and that order.
    fn player_rows(&self) -> (r: (Vec<Vec<u64>>, Ghost<Seq<u32>>))
        ensures
            lists(r.1@, self@.players.dom()),
            rows_of(r.0@) == self@.entries(r.1@),
            rows_hold(Player::entry_schema(), rows_of(r.0@)),
    {
        let ids = self.player_ids();
        let mut rows: Vec<Vec<u64>> = Vec::new();
        let mut k: usize = 0;
        while k < ids.len()
            invariant
                k <= ids.len(),
                lists(ids@, self@.players.dom()),
                rows@.len() == k,
                forall|j: int|
                    0 <= j < k ==> (#[trigger] rows@[j])@ == self.players@[ids@[j]].entry(ids@[j]),
                rows_hold(Player::entry_schema(), rows_of(rows@)),
            decreases ids.len() - k,
        {
            let key: u32 = ids[k];
            let row = self.player(key).entry_row(key);
            proof {
                assert forall|q: int| 0 <= q < rows@.push(row).len() implies row_holds(
                    Player::entry_schema(),
                    #[trigger] rows_of(rows@.push(row))[q],
                ) by {
                    if q < rows@.len() {
                        assert(rows_of(rows@.push(row))[q] == rows_of(rows@)[q]);
                    }
                }
            }
            rows.push(row);
            k += 1;
        }
        (rows, Ghost(ids@))
    }

    fn bullet_rows_vec(&self) -> (rows: Vec<Vec<u64>>)
        ensures
            rows_of(rows@) == self@.bullet_rows(),
            rows_hold(Bullet::schema(), rows_of(rows@)),
    {
        let mut rows: Vec<Vec<u64>> = Vec::new();
        let mut i: usize = 0;
        while i < self.bullets.len()
            invariant
                i <= self.bullets.len(),
                rows@.len() == i,
                forall|j: int| 0 <= j < i ==> (#[trigger] rows@[j])@ == self.bullets@[j].fields(),
                forall|j: int| 0 <= j < i ==> row_holds(Bullet::schema(), (#[trigger] rows@[j])@),
            decreases self.bullets.len() - i,
        {
            rows.push(self.bullets[i].row());
            i += 1;
        }
        rows
    }

    fn asteroid_rows_vec(&self) -> (rows: Vec<Vec<u64>>)
        ensures
            rows_of(rows@) == self@.asteroid_rows(),
            rows_hold(Asteroid::schema(), rows_of(rows@)),
    {
        let mut rows: Vec<Vec<u64>> = Vec::new();
        let mut i: usize = 0;
        while i < self.asteroids.len()
            invariant
                i <= self.asteroids.len(),
                rows@.len() == i,
                forall|j: int| 0 <= j < i ==> (#[trigger] rows@[j])@ == self.asteroids@[j].fields(),
                forall|j: int| 0 <= j < i ==> row_holds(Asteroid::schema(), (#[trigger] rows@[j])@),
            decreases self.asteroids.len() - i,
        {
            rows.push(self.asteroids[i].row());
            i += 1;
        }
        assert(rows_of(rows@) =~= self@.asteroid_rows());
        rows
    }

    fn tail_schema_row() -> (s: Vec<Kind>)
        ensures
            s@ == WorldState::tail_schema(),
    {
        proof {
            reveal(WorldState::tail_schema);
        }
        vec![Kind::Real, Kind::Real, Kind::U32, Kind::U32, Kind::U64]
    }

    fn tail_row(&self) -> (v: Vec<u64>)
        ensures
            v@ == self@.tail(),
            row_holds(WorldState::tail_schema(), v@),
    {
        proof {
            reveal(WorldState::tail_schema);
        }
        vec![
            self.width.bits as u64,
            self.height.bits as u64,
            self.bullet_id_counter as u64,
            self.asteroid_id_counter as u64,
            self.last_spawn_asteroid,
        ]
    }

    fn players_from_rows(rows: &Vec<Vec<u64>>) -> (players: HashMap<u32, Player>)
        requires
            rows_hold(Player::entry_schema(), rows_of(rows@)),
        ensures
            players@ == players_of(rows_of(rows@)),
    {
        let mut players: HashMap<u32, Player> = HashMap::new();
        let mut i: usize = 0;
        while i < rows.len()
            invariant
                i <= rows.len(),
                rows_hold(Player::entry_schema(), rows_of(rows@)),
                players@ == players_of(rows_of(rows@).take(i as int)),
            decreases rows.len() - i,
        {
            assert(rows_of(rows@)[i as int] == rows@[i as int]@);
            let (key, p) = Player::from_entry_row(&rows[i]);
            players.insert(key, p);
            proof {
                let upto = rows_of(rows@).take(i + 1);
                assert(upto.drop_last() =~= rows_of(rows@).take(i as int));
            }
            i += 1;
        }
        assert(rows_of(rows@).take(rows@.len() as int) =~= rows_of(rows@));
        players
    }

    fn bullets_from_rows(rows: &Vec<Vec<u64>>) -> (bullets: Vec<Bullet>)
        requires
            rows_hold(Bullet::schema(), rows_of(rows@)),
        ensures
            bullets@ == Seq::new(rows@.len(), |i: int| Bullet::from_fields(rows_of(rows@)[i])),
    {
        let mut bullets: Vec<Bullet> = Vec::new();
        let mut i: usize = 0;
        while i < rows.len()
            invariant
                i <= rows.len(),
                rows_hold(Bullet::schema(), rows_of(rows@)),
                bullets@.len() == i,
                forall|j: int| 0 <= j < i ==> #[trigger] bullets@[j] == Bullet::from_fields(rows@[j]@),
            decreases rows.len() - i,
        {
            assert(rows_of(rows@)[i as int] == rows@[i as int]@);
            bullets.push(Bullet::from_row(&rows[i]));
            i += 1;
        }
        bullets
    }

    fn asteroids_from_rows(rows: &Vec<Vec<u64>>) -> (asteroids: Vec<Asteroid>)
        requires
            rows_hold(Asteroid::schema(), rows_of(rows@)),
        ensures
            asteroids@ == Seq::new(rows@.len(), |i: int| Asteroid::from_fields(rows_of(rows@)[i])),
    {
        let mut asteroids: Vec<Asteroid> = Vec::new();
        let mut i: usize = 0;
        while i < rows.len()
            invariant
                i <= rows.len(),
                rows_hold(Asteroid::schema(), rows_of(rows@)),
                asteroids@.len() == i,
                forall|j: int|
                    0 <= j < i ==> #[trigger] asteroids@[j] == Asteroid::from_fields(rows@[j]@),
            decreases rows.len() - i,
        {
            assert(rows_of(rows@)[i as int] == rows@[i as int]@);
            asteroids.push(Asteroid::from_row(&rows[i]));
            i += 1;
        }
        assert(asteroids@ =~= Seq::new(
            rows@.len(),
            |i: int| Asteroid::from_fields(rows_of(rows@)[i]),
        ));
        asteroids
    }

    /// The bytes of a snapshot of this world. The players come in the order
    /// in which the map hands them out, which is left open; in whatever order
    /// they come, reading the bytes gives the world back, equal in every
    /// field.
    pub fn encode(&self) -> (bytes: Vec<u8>)
        ensures
            exists|order: Seq<u32>|
                lists(order, self@.players.dom()) && bytes@ == #[trigger] self@.wire(order),
            WorldState::parse(bytes@) == Ok::<(WorldState, nat), WireError>((self@, bytes@.len())),
    {
        let (entries, Ghost(order)) = self.player_rows();
        let bullets = self.bullet_rows_vec();
        let asteroids = self.asteroid_rows_vec();
        let tail = self.tail_row();
        let mut out: Vec<u8> = Vec::new();
        put_list(&mut out, &Player::entry_schema_row(), &entries);
        put_list(&mut out, &Bullet::schema_row(), &bullets);
        put_list(&mut out, &Asteroid::schema_row(), &asteroids);
        put_row(&mut out, &Self::tail_schema_row(), &tail);
        proof {
            let we = list_wire(Player::entry_schema(), self@.entries(order));
            let wb = list_wire(Bullet::schema(), self@.bullet_rows());
            let wa = list_wire(Asteroid::schema(), self@.asteroid_rows());
            let wt = row_wire(WorldState::tail_schema(), self@.tail());
            assert(out@ =~= we + (wb + (wa + wt)));
            assert(order.len() == entries.len()) by {
                assert(rows_of(entries@).len() == self@.entries(order).len());
            }
            assert(self@.bullets.len() == self.bullets.len());
            assert(self@.asteroids.len() == self.asteroids.len());
            lemma_snapshot_round_trip(self@, order, Seq::empty());
        }
        out
    }

    /// Reads the four parts of a snapshot from the front of `bytes`.
    fn take_parts(bytes: &[u8]) -> (r: Result<
        (Vec<Vec<u64>>, Vec<Vec<u64>>, Vec<Vec<u64>>, Vec<u64>),
        WireError,
    >)
        ensures
            match r {
                Ok((entries, bullets, asteroids, tail)) => {
                    &&& rows_hold(Player::entry_schema(), rows_of(entries@))
                    &&& rows_hold(Bullet::schema(), rows_of(bullets@))
                    &&& rows_hold(Asteroid::schema(), rows_of(asteroids@))
                    &&& row_holds(WorldState::tail_schema(), tail@)
                    &&& WorldState::parse(bytes@) matches Ok((found, _)) && found
                        == WorldState::assembled(
                        rows_of(entries@),
                        rows_of(bullets@),
                        rows_of(asteroids@),
                        tail@,
                    )
                },
                Err(e) => WorldState::parse(bytes@) == Err::<(WorldState, nat), WireError>(e),
            },
    {
        let ghost s = bytes@;
        assert(s.skip(0) =~= s);
        let (entries, after_players) = match take_list(bytes, 0, &Player::entry_schema_row()) {
            Err(e) => {
                return Err(e);
            },
            Ok(found) => found,
        };
        let (bullets, after_bullets) = match take_list(bytes, after_players, &Bullet::schema_row()) {
            Err(e) => {
                return Err(e);
            },
            Ok(found) => found,
        };
        assert(WorldState::parse(s) == WorldState::parse_asteroids(
            s,
            rows_of(entries@),
            rows_of(bullets@),
            after_bullets as nat,
        ));
        let (asteroids, after_asteroids) = match take_list(bytes, after_bullets, &Asteroid::schema_row()) {
            Err(e) => {
                return Err(e);
            },
            Ok(found) => found,
        };
        assert(WorldState::parse(s) == WorldState::parse_tail(
            s,
            rows_of(entries@),
            rows_of(bullets@),
            rows_of(asteroids@),
            after_asteroids as nat,
        ));
        let (tail, _) = match take_row(bytes, after_asteroids, &Self::tail_schema_row()) {
            Err(e) => {
                return Err(e);
            },
            Ok(found) => found,
        };
        Ok((entries, bullets, asteroids, tail))
    }

    /// The world that the four parts of a snapshot amount to.
    fn assemble(
        entries: &Vec<Vec<u64>>,
        bullets: &Vec<Vec<u64>>,
        asteroids: &Vec<Vec<u64>>,
        tail: &Vec<u64>,
    ) -> (w: GameWorld)
        requires
            rows_hold(Player::entry_schema(), rows_of(entries@)),
            rows_hold(Bullet::schema(), rows_of(bullets@)),
            rows_hold(Asteroid::schema(), rows_of(asteroids@)),
            row_holds(WorldState::tail_schema(), tail@),
        ensures
            w@ == WorldState::assembled(
                rows_of(entries@),
                rows_of(bullets@),
                rows_of(asteroids@),
                tail@,
            ),
    {
        proof {
            reveal(WorldState::tail_schema);
        }
        let w = GameWorld {
            players: Self::players_from_rows(entries),
            bullets: Self::bullets_from_rows(bullets),
            asteroids: Self::asteroids_from_rows(asteroids),
            width: Scalar { bits: tail[0] as u32 },
            height: Scalar { bits: tail[1] as u32 },
            bullet_id_counter: tail[2] as u32,
            asteroid_id_counter: tail[3] as u32,
            last_spawn_asteroid: tail[4],
        };
        w
    }

    /// Reads a snapshot from the front of `bytes`. What follows the snapshot
    /// is not looked at.
    pub fn decode(bytes: &[u8]) -> (r: Result<GameWorld, WireError>)
        ensures
            match r {
                Ok(w) => WorldState::parse(bytes@) matches Ok((found, _)) && found == w@,
                Err(e) => WorldState::parse(bytes@) == Err::<(WorldState, nat), WireError>(e),
            },
    {
        match Self::take_parts(bytes) {
            Err(e) => Err(e),
            Ok((entries, bullets, asteroids, tail)) => Ok(
                Self::assemble(&entries, &bullets, &asteroids, &tail),
            ),
        }
    }
}

} // verus!
