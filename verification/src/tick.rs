//! One tick of the simulation, carried out on a [`GameWorld`].

use vstd::prelude::*;
use crate::player::Player;
use crate::bullet::Bullet;
use crate::asteroid::{Asteroid, AsteroidSeed, Launch, SpawnPlan, SPAWN_TARGETS};
use crate::frame::{Frame, is_within_range};
use crate::game_world::{GameWorld, WorldState, DAMAGE, SPAWN_INTERVAL_MS};
use crate::rules::hp_after;
use crate::utils::current_time_ms;

verus! {

/// In a frame whose player ids are all different, the step of the player
/// listed at place `k` is found at place `k`.
pub proof fn lemma_slot_of_listed(f: Frame, k: int)
    requires
        f.player_ids().no_duplicates(),
        0 <= k < f.players@.len(),
    ensures
        f.slot_of(f.players@[k].id) == k,
{
    let id = f.players@[k].id;
    let s = f.slot_of(id);
    assert(f.player_ids()[s] == f.player_ids()[k]);
}

/// One more hit takes `DAMAGE` from what the hits before it left, and stops
/// at zero.
proof fn lemma_one_more_hit(hp: u16, hits: nat)
    ensures
        hp_after(hp, hits + 1) == (if hp_after(hp, hits) >= DAMAGE {
            (hp_after(hp, hits) - DAMAGE) as u16
        } else {
            0u16
        }),
        hp_after(hp, 0) == hp,
{
}

impl GameWorld {
    /// The player filed under `id`.
    pub(crate) fn player(&self, id: u32) -> (p: Player)
        requires
            self@.players.contains_key(id),
        ensures
            p == self@.players[id],
    {
        match self.players.get(&id) {
            Some(p) => *p,
            None => unreached(),
        }
    }

    fn bullet_is_spent(&self, frame: &Frame, i: usize) -> (r: bool)
        requires
            self@.measured_by(*frame),
            i < self.bullets.len(),
        ensures
            r == self@.bullet_spent(*frame, i as int),
    {
        let step = &frame.bullets[i];
        if !is_within_range(step.distance_traveled) {
            return false;
        }
        let owner: u32 = self.bullets[i].owner_id;
        let mut j: usize = 0;
        while j < frame.asteroids.len()
            invariant
                j <= frame.asteroids.len(),
                self@.measured_by(*frame),
                i < self.bullets.len(),
                step == frame.bullets@[i as int],
                frame.bullet_flies(i as int),
                forall|jj: int| 0 <= jj < j ==> !#[trigger] frame.bullet_breaks(i as int, jj),
            decreases frame.asteroids.len() - j,
        {
            if is_within_range(frame.asteroids[j].distance_traveled) && step.asteroids[j] {
                assert(frame.bullet_breaks(i as int, j as int));
                return true;
            }
            j += 1;
        }
        let mut k: usize = 0;
        while k < frame.players.len()
            invariant
                k <= frame.players.len(),
                self@.measured_by(*frame),
                i < self.bullets.len(),
                owner == self.bullets@[i as int].owner_id,
                step == frame.bullets@[i as int],
                frame.bullet_flies(i as int),
                forall|jj: int|
                    0 <= jj < frame.asteroids@.len() ==> !#[trigger] frame.bullet_breaks(i as int, jj),
                forall|kk: int| 0 <= kk < k ==> !#[trigger] frame.bullet_wounds(owner, i as int, kk),
            decreases frame.players.len() - k,
        {
            let p = &frame.players[k];
            if owner != p.id && p.bullets[i] {
                assert(frame.bullet_wounds(owner, i as int, k as int));
                return true;
            }
            k += 1;
        }
        false
    }

    fn asteroid_is_spent(&self, frame: &Frame, j: usize) -> (r: bool)
        requires
            self@.measured_by(*frame),
            j < self.asteroids.len(),
        ensures
            r == self@.asteroid_spent(*frame, j as int),
    {
        if !is_within_range(frame.asteroids[j].distance_traveled) {
            return false;
        }
        let mut i: usize = 0;
        while i < frame.bullets.len()
            invariant
                i <= frame.bullets.len(),
                self@.measured_by(*frame),
                j < self.asteroids.len(),
                frame.asteroid_flies(j as int),
                forall|ii: int| 0 <= ii < i ==> !#[trigger] frame.bullet_breaks(ii, j as int),
            decreases frame.bullets.len() - i,
        {
            let step = &frame.bullets[i];
            if is_within_range(step.distance_traveled) && step.asteroids[j] {
                assert(frame.bullet_breaks(i as int, j as int));
                return true;
            }
            i += 1;
        }
        let mut k: usize = 0;
        while k < frame.players.len()
            invariant
                k <= frame.players.len(),
                self@.measured_by(*frame),
                j < self.asteroids.len(),
                frame.asteroid_flies(j as int),
                forall|ii: int|
                    0 <= ii < frame.bullets@.len() ==> !#[trigger] frame.bullet_breaks(ii, j as int),
                forall|kk: int| 0 <= kk < k ==> !#[trigger] frame.asteroid_wounds(j as int, kk),
            decreases frame.players.len() - k,
        {
            if frame.players[k].asteroids[j] {
                assert(frame.asteroid_wounds(j as int, k as int));
                return true;
            }
            k += 1;
        }
        false
    }

    /// Whether the `k`-th player of the frame is hit at all in this tick, and
    /// what is left of `hp` hit points after all its hits.
    fn wounds_of(&self, frame: &Frame, k: usize, hp: u16) -> (r: (bool, u16))
        requires
            self@.measured_by(*frame),
            k < frame.players.len(),
        ensures
            r.0 == (self@.hits(*frame, k as int) > 0),
            r.1 == hp_after(hp, self@.hits(*frame, k as int)),
    {
        let step = &frame.players[k];
        let mut hit: bool = false;
        let mut left: u16 = hp;
        let mut i: usize = 0;
        while i < self.bullets.len()
            invariant
                i <= self.bullets.len(),
                self@.measured_by(*frame),
                k < frame.players.len(),
                step == frame.players@[k as int],
                hit == (self@.bullet_hits(*frame, k as int, i as int) > 0),
                left == hp_after(hp, self@.bullet_hits(*frame, k as int, i as int)),
            decreases self.bullets.len() - i,
        {
            if is_within_range(frame.bullets[i].distance_traveled) && self.bullets[i].owner_id != step.id
                && step.bullets[i] {
                hit = true;
                left = if left >= DAMAGE {
                    left - DAMAGE
                } else {
                    0
                };
            }
            i += 1;
        }
        let ghost from_bullets = self@.bullet_hits(*frame, k as int, self.bullets.len() as int);
        let mut j: usize = 0;
        while j < self.asteroids.len()
            invariant
                j <= self.asteroids.len(),
                self@.measured_by(*frame),
                k < frame.players.len(),
                step == frame.players@[k as int],
                from_bullets == self@.bullet_hits(*frame, k as int, self.bullets.len() as int),
                hit == (from_bullets + self@.asteroid_hits(*frame, k as int, j as int) > 0),
                left == hp_after(hp, from_bullets + self@.asteroid_hits(*frame, k as int, j as int)),
            decreases self.asteroids.len() - j,
        {
            if is_within_range(frame.asteroids[j].distance_traveled) && step.asteroids[j] {
                hit = true;
                left = if left >= DAMAGE {
                    left - DAMAGE
                } else {
                    0
                };
            }
            j += 1;
        }
        (hit, left)
    }

    fn sift_bullets(&self, frame: &Frame) -> (out: Vec<Bullet>)
        requires
            self@.measured_by(*frame),
        ensures
            out@ == self@.bullets_after(*frame),
    {
        let mut out: Vec<Bullet> = Vec::new();
        let mut i: usize = 0;
        while i < self.bullets.len()
            invariant
                i <= self.bullets.len(),
                self@.measured_by(*frame),
                out@.len() == self@.staying_bullets(*frame, i as int).len(),
                forall|r: int|
                    0 <= r < out@.len() ==> {
                        let at = #[trigger] self@.staying_bullets(*frame, i as int)[r];
                        0 <= at < i && out@[r] == self.bullets@[at].moved(frame.bullets@[at])
                    },
            decreases self.bullets.len() - i,
        {
            if is_within_range(frame.bullets[i].distance_traveled) && !self.bullet_is_spent(frame, i) {
                let mut b: Bullet = self.bullets[i];
                b.update_position(&frame.bullets[i]);
                out.push(b);
            }
            i += 1;
        }
        out
    }

    fn sift_asteroids(&self, frame: &Frame) -> (out: Vec<Asteroid>)
        requires
            self@.measured_by(*frame),
        ensures
            out@ == self@.asteroids_after(*frame),
    {
        let mut out: Vec<Asteroid> = Vec::new();
        let mut j: usize = 0;
        while j < self.asteroids.len()
            invariant
                j <= self.asteroids.len(),
                self@.measured_by(*frame),
                out@.len() == self@.staying_asteroids(*frame, j as int).len(),
                forall|r: int|
                    0 <= r < out@.len() ==> {
                        let at = #[trigger] self@.staying_asteroids(*frame, j as int)[r];
                        0 <= at < j && out@[r] == self.asteroids@[at].moved(frame.asteroids@[at])
                    },
            decreases self.asteroids.len() - j,
        {
            if is_within_range(frame.asteroids[j].distance_traveled) && !self.asteroid_is_spent(frame, j) {
                let mut a: Asteroid = self.asteroids[j];
                a.update_position(&frame.asteroids[j]);
                out.push(a);
            }
            j += 1;
        }
        out
    }

    /// The state after the tick of every player, in the order of the frame.
    fn tick_players(&self, frame: &Frame) -> (out: Vec<Player>)
        requires
            self@.measured_by(*frame),
        ensures
            out@.len() == frame.players@.len(),
            forall|k: int|
                0 <= k < out@.len() ==> #[trigger] out@[k] == self@.player_after(
                    *frame,
                    frame.players@[k].id,
                ),
    {
        let mut out: Vec<Player> = Vec::new();
        let mut k: usize = 0;
        while k < frame.players.len()
            invariant
                k <= frame.players.len(),
                self@.measured_by(*frame),
                out@.len() == k,
                forall|kk: int|
                    0 <= kk < k ==> #[trigger] out@[kk] == self@.player_after(
                        *frame,
                        frame.players@[kk].id,
                    ),
            decreases frame.players.len() - k,
        {
            let step = &frame.players[k];
            proof {
                lemma_slot_of_listed(*frame, k as int);
                assert(frame.player_ids()[k as int] == step.id);
            }
            let mut after: Player = self.player(step.id);
            after.update_player_position(step);
            let (hit, left) = self.wounds_of(frame, k, after.hp);
            if hit {
                if left == 0 {
                    after.respawn();
                } else {
                    after.hp = left;
                }
            }
            out.push(after);
            k += 1;
        }
        out
    }

    /// Whether an asteroid is due at `now`.
    pub fn is_spawn_due(&self, now: u64) -> (due: bool)
        ensures
            due == self@.spawn_due(now),
    {
        now > self.last_spawn_asteroid && now - self.last_spawn_asteroid > SPAWN_INTERVAL_MS
    }

    /// Whether `frame` was measured on this world.
    pub fn is_measured_by(&self, frame: &Frame) -> (ok: bool)
        ensures
            ok == self@.measured_by(*frame),
    {
        let nb: usize = self.bullets.len();
        let na: usize = self.asteroids.len();
        if frame.bullets.len() != nb || frame.asteroids.len() != na || frame.players.len()
            != self.players.len() {
            proof {
                if self@.measured_by(*frame) {
                    frame.player_ids().unique_seq_to_set();
                }
            }
            return false;
        }
        let mut i: usize = 0;
        while i < frame.bullets.len()
            invariant
                i <= frame.bullets.len(),
                na == self.asteroids@.len(),
                forall|ii: int| 0 <= ii < i ==> (#[trigger] frame.bullets@[ii]).asteroids@.len() == na,
            decreases frame.bullets.len() - i,
        {
            if frame.bullets[i].asteroids.len() != na {
                return false;
            }
            i += 1;
        }
        let mut k: usize = 0;
        while k < frame.players.len()
            invariant
                k <= frame.players.len(),
                na == self.asteroids@.len(),
                nb == self.bullets@.len(),
                frame.bullets@.len() == nb,
                frame.asteroids@.len() == na,
                frame.players@.len() == self.players@.dom().len(),
                forall|ii: int|
                    0 <= ii < frame.bullets@.len() ==> (#[trigger] frame.bullets@[ii]).asteroids@.len() == na,
                forall|kk: int| 0 <= kk < k ==> (#[trigger] frame.players@[kk]).bullets@.len() == nb,
                forall|kk: int| 0 <= kk < k ==> (#[trigger] frame.players@[kk]).asteroids@.len() == na,
                forall|kk: int|
                    0 <= kk < k ==> self.players@.contains_key(#[trigger] frame.player_ids()[kk]),
                forall|a: int, b: int|
                    0 <= a < b < k ==> frame.player_ids()[a] != frame.player_ids()[b],
            decreases frame.players.len() - k,
        {
            let step = &frame.players[k];
            assert(frame.player_ids()[k as int] == step.id);
            if step.bullets.len() != nb || step.asteroids.len() != na {
                return false;
            }
            if !self.players.contains_key(&step.id) {
                return false;
            }
            let mut a: usize = 0;
            while a < k
                invariant
                    a <= k,
                    k < frame.players.len(),
                    step == frame.players@[k as int],
                    forall|aa: int| 0 <= aa < a ==> frame.player_ids()[aa] != step.id,
                decreases k - a,
            {
                if frame.players[a].id == step.id {
                    assert(frame.player_ids()[a as int] == frame.player_ids()[k as int]);
                    return false;
                }
                a += 1;
            }
            k += 1;
        }
        proof {
            let ids = frame.player_ids();
            ids.unique_seq_to_set();
            vstd::set_lib::lemma_subset_equality(ids.to_set(), self.players@.dom());
        }
        true
    }

    /// Advances the world by one tick at time `now`. `frame` is the geometry
    /// measured on the world as it stands; `seed` places the asteroid that is
    /// spawned if one is due.
    pub fn update_at(&mut self, now: u64, frame: &Frame, seed: &AsteroidSeed)
        requires
            old(self)@.measured_by(*frame),
        ensures
            final(self)@ == old(self)@.advanced(*frame, now, *seed),
    {
        let ghost before = self@;
        let bullets = self.sift_bullets(frame);
        let mut asteroids = self.sift_asteroids(frame);
        let players = self.tick_players(frame);
        let mut k: usize = 0;
        while k < frame.players.len()
            invariant
                k <= frame.players.len(),
                before.measured_by(*frame),
                players@.len() == frame.players@.len(),
                forall|kk: int|
                    0 <= kk < players@.len() ==> #[trigger] players@[kk] == before.player_after(
                        *frame,
                        frame.players@[kk].id,
                    ),
                self@ == (WorldState { players: self.players@, ..before }),
                self.players@.dom() == before.players.dom(),
                forall|id: u32|
                    before.players.contains_key(id) ==> #[trigger] self.players@[id] == (if frame.slot_of(
                        id,
                    ) < k {
                        before.player_after(*frame, id)
                    } else {
                        before.players[id]
                    }),
            decreases frame.players.len() - k,
        {
            let id: u32 = frame.players[k].id;
            proof {
                lemma_slot_of_listed(*frame, k as int);
                assert(frame.player_ids()[k as int] == id);
            }
            self.players.insert(id, players[k]);
            k += 1;
        }
        if self.is_spawn_due(now) {
            let id: u32 = self.asteroid_id_counter;
            self.asteroid_id_counter = id.wrapping_add(1);
            asteroids.push(Asteroid::new(id, seed));
            self.last_spawn_asteroid = now;
        }
        self.bullets = bullets;
        self.asteroids = asteroids;
        proof {
            let goal = before.advanced(*frame, now, *seed);
            assert(self@.players =~= goal.players);
        }
    }

    /// Advances the world by one tick at the time the clock reads now.
    /// `measure` works out the geometry of the tick on the world as it
    /// stands; `aim` is asked, only when an asteroid is due, where along the
    /// edge of a freshly drawn plan it appears and which way it drifts. The
    /// advance is owed whenever the frame that `measure` hands back was
    /// measured on this world; a frame that was not is turned down: the
    /// answer is `false` and nothing changes. While the clock cannot be read
    /// the world is advanced all the same, as if no time had passed since the
    /// last spawn: nothing is spawned and the time of the last spawn stays.
    pub fn update(
        &mut self,
        measure: impl Fn(&GameWorld) -> Frame,
        aim: impl Fn(SpawnPlan) -> Launch,
    ) -> (done: bool)
        requires
            forall|w: &GameWorld| call_requires(measure, (w,)),
            forall|plan: SpawnPlan| call_requires(aim, (plan,)),
        ensures
            exists|reading: Option<u64>, frame: Frame, seed: AsteroidSeed| #[trigger]
                updates_to(measure, aim, *old(self), final(self)@, done, reading, frame, seed),
    {
        let frame = measure(&*self);
        if !self.is_measured_by(&frame) {
            assert(updates_to(measure, aim, *old(self), self@, false, None, frame, arbitrary()));
            return false;
        }
        let reading: Option<u64> = current_time_ms();
        let now: u64 = match reading {
            Some(now) => now,
            None => self.last_spawn_asteroid,
        };
        let seed: AsteroidSeed = if self.is_spawn_due(now) {
            let plan = SpawnPlan::draw();
            let launch = aim(plan);
            let seed = plan.launch(&launch);
            assert(seed == plan.launched(launch));
            seed
        } else {
            AsteroidSeed::idle()
        };
        self.update_at(now, &frame, &seed);
        assert(updates_to(measure, aim, *old(self), self@, true, reading, frame, seed));
        true
    }
}

impl WorldState {
    /// `next` is this world one tick later: the tick went by the frame
    /// `frame`, measured on this world, at the time `now`, and the asteroid
    /// that it spawned, if one was due, was placed as a plan says.
    pub open spec fn ticks_to(self, next: WorldState, frame: Frame, now: u64, seed: AsteroidSeed) -> bool {
        &&& self.measured_by(frame)
        &&& next == self.advanced(frame, now, seed)
        &&& self.spawn_due(now) ==> seed.planned()
    }
}

/// The seed is what `aim` made of a plan with one of the fixed targets: the
/// asteroid appears where the plan and the launch place it, and drifts as the
/// launch says.
pub open spec fn aimed_by<A: Fn(SpawnPlan) -> Launch>(aim: A, seed: AsteroidSeed) -> bool {
    exists|plan: SpawnPlan, launch: Launch|
        plan.target < SPAWN_TARGETS && call_ensures(aim, (plan,), launch) && seed
            == #[trigger] plan.launched(launch)
}

/// What `update` makes of the world `before`, given what came back from
/// `measure`, from the clock and from `aim`. `frame` is what `measure` made
/// of the world; the world is advanced exactly when that frame was measured
/// on it, and is left as it was when not. With a reading of the clock the
/// tick is made at that time, and the asteroid that is spawned, when one is
/// due, grows from a seed that `aim` made of a plan. Without a reading the
/// tick is made as if no time had passed since the last spawn.
pub open spec fn updates_to<M: Fn(&GameWorld) -> Frame, A: Fn(SpawnPlan) -> Launch>(
    measure: M,
    aim: A,
    before: GameWorld,
    after: WorldState,
    done: bool,
    reading: Option<u64>,
    frame: Frame,
    seed: AsteroidSeed,
) -> bool {
    &&& call_ensures(measure, (&before,), frame)
    &&& done == before@.measured_by(frame)
    &&& !done ==> after == before@
    &&& done ==> match reading {
        Some(now) => {
            &&& before@.ticks_to(after, frame, now, seed)
            &&& before@.spawn_due(now) ==> aimed_by(aim, seed)
        },
        None => before@.ticks_to(after, frame, before@.last_spawn_asteroid, seed),
    }
}

} // verus!
