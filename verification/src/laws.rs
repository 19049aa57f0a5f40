//! What holds of every world, input and tick: the laws that callers may rely
//! on, proved from the definitions of the rules.

use vstd::prelude::*;
use crate::scalar::Scalar;
use crate::packet::{InputAction, PlayerInput};
use crate::player::{Player, FULL_HP};
use crate::asteroid::AsteroidSeed;
use crate::frame::{Frame, PlayerStep, Steering};
use crate::game_world::{Command, WorldState, DAMAGE};
use crate::rules::hp_after;

verus! {

impl WorldState {
    /// The world is one that play can lead to: every player is filed under
    /// its own id and has between 1 and `FULL_HP` hit points, every bullet
    /// was fired by a player of the world, and the ids of the bullets, and
    /// those of the asteroids, are all different and all below the counter
    /// they were taken from.
    pub open spec fn sound(self) -> bool {
        &&& forall|id: u32| #[trigger]
            self.players.contains_key(id) ==> self.players[id].id == id && 1 <= self.players[id].hp
                <= FULL_HP
        &&& forall|i: int|
            0 <= i < self.bullets.len() ==> self.players.contains_key(
                (#[trigger] self.bullets[i]).owner_id,
            )
        &&& forall|i: int|
            0 <= i < self.bullets.len() ==> (#[trigger] self.bullets[i]).id < self.bullet_id_counter
        &&& forall|i: int, j: int|
            0 <= i < j < self.bullets.len() ==> (#[trigger] self.bullets[i]).id != (
            #[trigger] self.bullets[j]).id
        &&& forall|i: int|
            0 <= i < self.asteroids.len() ==> (#[trigger] self.asteroids[i]).id
                < self.asteroid_id_counter
        &&& forall|i: int, j: int|
            0 <= i < j < self.asteroids.len() ==> (#[trigger] self.asteroids[i]).id != (
            #[trigger] self.asteroids[j]).id
    }
}

/// An input never lowers the sequence number processed for any player. It
/// raises the number of the player it is for, to its own number, exactly when
/// it is taken; nobody else's number moves.
pub proof fn lemma_sequence_moves_only_on_acceptance(
    w: WorldState,
    id: u32,
    input: PlayerInput,
    now: u64,
    steer: Steering,
    who: u32,
)
    requires
        w.players.contains_key(who),
    ensures
        ({
            let v = w.after_input(id, input, now, steer);
            let before = w.players[who].last_processed_input_seq;
            let after = v.players[who].last_processed_input_seq;
            &&& v.players.contains_key(who)
            &&& before <= after
            &&& before < after <==> who == id && w.accepts(id, input)
            &&& who == id && w.accepts(id, input) ==> after == input.seq
        }),
{
}

/// Over any run of inputs the players stay who they are and no processed
/// sequence number ever falls.
pub proof fn lemma_sequence_never_falls_over_run(w: WorldState, run: Seq<Command>, who: u32)
    requires
        w.players.contains_key(who),
    ensures
        w.after_run(run).players.contains_key(who),
        w.players[who].last_processed_input_seq <= w.after_run(
            run,
        ).players[who].last_processed_input_seq,
    decreases run.len(),
{
    if run.len() > 0 {
        lemma_sequence_never_falls_over_run(w, run.drop_last(), who);
    }
}

/// A tick leaves every processed sequence number as it was.
pub proof fn lemma_tick_keeps_sequence(
    w: WorldState,
    f: Frame,
    now: u64,
    seed: AsteroidSeed,
    who: u32,
)
    requires
        w.players.contains_key(who),
    ensures
        w.advanced(f, now, seed).players.contains_key(who),
        w.advanced(f, now, seed).players[who].last_processed_input_seq
            == w.players[who].last_processed_input_seq,
{
}

/// An input whose sequence number is not beyond the last one processed for
/// its player changes nothing, whatever it asks for and whenever it comes.
pub proof fn lemma_stale_input_changes_nothing(
    w: WorldState,
    id: u32,
    input: PlayerInput,
    now: u64,
    steer: Steering,
)
    requires
        w.players.contains_key(id),
        input.seq <= w.players[id].last_processed_input_seq,
    ensures
        w.after_input(id, input, now, steer) == w,
{
}

/// An input for a player that the world does not know changes nothing.
pub proof fn lemma_unknown_player_changes_nothing(
    w: WorldState,
    id: u32,
    input: PlayerInput,
    now: u64,
    steer: Steering,
)
    requires
        !w.players.contains_key(id),
    ensures
        w.after_input(id, input, now, steer) == w,
{
}

/// Delivering an input a second time, at any later moment and with any
/// steering, leaves the world as the first delivery left it.
pub proof fn lemma_repeated_input_changes_nothing(
    w: WorldState,
    id: u32,
    input: PlayerInput,
    now: u64,
    steer: Steering,
    again_now: u64,
    again_steer: Steering,
)
    ensures
        w.after_input(id, input, now, steer).after_input(id, input, again_now, again_steer)
            == w.after_input(id, input, now, steer),
{
}

/// A shot that is taken while the player's cooldown still runs adds no
/// bullet, uses no bullet id and leaves the time of the last shot alone; the
/// input still counts as processed.
pub proof fn lemma_shot_before_cooldown_adds_no_bullet(
    w: WorldState,
    id: u32,
    input: PlayerInput,
    now: u64,
    steer: Steering,
)
    requires
        w.accepts(id, input),
        input.action == InputAction::Shoot,
        now < w.players[id].fire_rate_ms + w.players[id].last_shot_ms,
    ensures
        ({
            let v = w.after_input(id, input, now, steer);
            &&& v.bullets == w.bullets
            &&& v.bullet_id_counter == w.bullet_id_counter
            &&& v.players[id].last_shot_ms == w.players[id].last_shot_ms
            &&& v.players[id].last_processed_input_seq == input.seq
        }),
{
}

/// Of two shots by one player, the second coming before the fire-rate
/// interval has passed since the first was fired, only the first adds a
/// bullet.
pub proof fn lemma_second_shot_within_cooldown(
    w: WorldState,
    id: u32,
    first: PlayerInput,
    second: PlayerInput,
    t1: u64,
    t2: u64,
    s1: Steering,
    s2: Steering,
)
    requires
        w.fires(id, first, t1),
        second.action == InputAction::Shoot,
        t2 < t1 + w.players[id].fire_rate_ms,
    ensures
        ({
            let v = w.after_input(id, first, t1, s1);
            let u = v.after_input(id, second, t2, s2);
            &&& v.bullets.len() == w.bullets.len() + 1
            &&& u.bullets == v.bullets
        }),
{
}

/// The bullets that a tick leaves are named by a strictly rising list of
/// indices: no bullet is kept twice, every listed bullet stays, and every
/// bullet that stays is listed. A bullet that overlaps several asteroids or
/// players is therefore taken out once, like any other.
pub proof fn lemma_bullets_stay_or_leave_once(w: WorldState, f: Frame, n: int)
    ensures
        ({
            let s = w.staying_bullets(f, n);
            &&& forall|r: int| 0 <= r < s.len() ==> 0 <= #[trigger] s[r] < n && w.bullet_stays(f, s[r])
            &&& forall|a: int, b: int| 0 <= a < b < s.len() ==> s[a] < s[b]
            &&& forall|i: int| 0 <= i < n && w.bullet_stays(f, i) ==> s.contains(i)
        }),
    decreases n,
{
    if n > 0 {
        lemma_bullets_stay_or_leave_once(w, f, n - 1);
        let s0 = w.staying_bullets(f, n - 1);
        let s = w.staying_bullets(f, n);
        if w.bullet_stays(f, n - 1) {
            assert(s[s.len() - 1] == n - 1);
            assert forall|i: int| 0 <= i < n && w.bullet_stays(f, i) implies s.contains(i) by {
                if i < n - 1 {
                    assert(s0.contains(i));
                    let at = choose|at: int| 0 <= at < s0.len() && s0[at] == i;
                    assert(s[at] == i);
                }
            }
        }
    }
}

/// The asteroids that a tick leaves of those that were there are named by a
/// strictly rising list of indices: none is kept twice, every listed one
/// stays, and every one that stays is listed.
pub proof fn lemma_asteroids_stay_or_leave_once(w: WorldState, f: Frame, n: int)
    ensures
        ({
            let s = w.staying_asteroids(f, n);
            &&& forall|r: int|
                0 <= r < s.len() ==> 0 <= #[trigger] s[r] < n && w.asteroid_stays(f, s[r])
            &&& forall|a: int, b: int| 0 <= a < b < s.len() ==> s[a] < s[b]
            &&& forall|i: int| 0 <= i < n && w.asteroid_stays(f, i) ==> s.contains(i)
        }),
    decreases n,
{
    if n > 0 {
        lemma_asteroids_stay_or_leave_once(w, f, n - 1);
        let s0 = w.staying_asteroids(f, n - 1);
        let s = w.staying_asteroids(f, n);
        if w.asteroid_stays(f, n - 1) {
            assert(s[s.len() - 1] == n - 1);
            assert forall|i: int| 0 <= i < n && w.asteroid_stays(f, i) implies s.contains(i) by {
                if i < n - 1 {
                    assert(s0.contains(i));
                    let at = choose|at: int| 0 <= at < s0.len() && s0[at] == i;
                    assert(s[at] == i);
                }
            }
        }
    }
}

/// Hit points never wrap: hits take them down to zero at the lowest. A
/// player whose hits use up its hit points is, in that same tick, back at the
/// origin, at rest, with exactly `FULL_HP`; so a player that had hit points
/// before a tick has some after it, and never more than `FULL_HP` if it had
/// no more before.
pub proof fn lemma_hit_points(p: Player, step: PlayerStep, hits: nat)
    ensures
        ({
            let q = p.ticked(step, hits);
            &&& hp_after(p.hp, hits) <= p.hp
            &&& hits == 0 ==> q.hp == p.hp
            &&& hits > 0 && hits * DAMAGE < p.hp ==> q.hp == p.hp - hits * DAMAGE
            &&& hits > 0 && hits * DAMAGE >= p.hp ==> {
                &&& q.hp == FULL_HP
                &&& q.x == Scalar::zero()
                &&& q.y == Scalar::zero()
                &&& q.vx == Scalar::zero()
                &&& q.vy == Scalar::zero()
            }
            &&& p.hp > 0 ==> q.hp > 0
            &&& p.hp <= FULL_HP ==> q.hp <= FULL_HP
        }),
{
}

/// A sound world is sound after a player joins.
pub proof fn lemma_join_keeps_sound(w: WorldState, id: u32)
    requires
        w.sound(),
    ensures
        w.joined(id).sound(),
{
}

/// A sound world is sound after an input, as long as the bullet counter has
/// not reached its largest value.
pub proof fn lemma_input_keeps_sound(
    w: WorldState,
    id: u32,
    input: PlayerInput,
    now: u64,
    steer: Steering,
)
    requires
        w.sound(),
        w.bullet_id_counter < u32::MAX,
    ensures
        w.after_input(id, input, now, steer).sound(),
{
}

/// A sound world is sound after a tick, as long as the asteroid counter has
/// not reached its largest value.
pub proof fn lemma_tick_keeps_sound(w: WorldState, f: Frame, now: u64, seed: AsteroidSeed)
    requires
        w.sound(),
        w.measured_by(f),
        w.asteroid_id_counter < u32::MAX,
    ensures
        w.advanced(f, now, seed).sound(),
{
    lemma_bullets_stay_or_leave_once(w, f, w.bullets.len() as int);
    lemma_asteroids_stay_or_leave_once(w, f, w.asteroids.len() as int);
}

/// Once more than the spawn interval has passed since the last spawn, a tick
/// adds exactly one asteroid, after those that stay: the one grown from the
/// seed, under the id the counter stood at; the counter moves on and the time
/// of the last spawn becomes the time of the tick. Before that, a tick adds
/// none and leaves counter and time alone.
pub proof fn lemma_spawn_on_time(w: WorldState, f: Frame, now: u64, seed: AsteroidSeed)
    ensures
        ({
            let v = w.advanced(f, now, seed);
            let kept = w.asteroids_after(f);
            &&& now - w.last_spawn_asteroid > crate::game_world::SPAWN_INTERVAL_MS ==> {
                &&& v.asteroids.len() == kept.len() + 1
                &&& v.asteroids.drop_last() == kept
                &&& v.asteroids.last() == crate::asteroid::Asteroid::spawned(w.asteroid_id_counter, seed)
                &&& v.last_spawn_asteroid == now
                &&& v.asteroid_id_counter == crate::game_world::next_id(w.asteroid_id_counter)
            }
            &&& now - w.last_spawn_asteroid <= crate::game_world::SPAWN_INTERVAL_MS ==> {
                &&& v.asteroids == kept
                &&& v.last_spawn_asteroid == w.last_spawn_asteroid
                &&& v.asteroid_id_counter == w.asteroid_id_counter
            }
        }),
{
}

/// A command that comes while the clock cannot be read fires nothing: no
/// bullet is added, no bullet id is used and no cooldown begins. Where it is
/// taken, its sequence number is recorded all the same; and a command that is
/// no shot does what it does at any time.
pub proof fn lemma_untimed_command_fires_nothing(w: WorldState, c: Command)
    requires
        c.now is None,
    ensures
        ({
            let v = w.after_command(c);
            &&& v.bullets == w.bullets
            &&& v.bullet_id_counter == w.bullet_id_counter
            &&& w.accepts(c.player_id, c.input) ==> v.players[c.player_id].last_processed_input_seq
                == c.input.seq && v.players[c.player_id].last_shot_ms
                == w.players[c.player_id].last_shot_ms
            &&& !w.accepts(c.player_id, c.input) ==> v == w
        }),
{
}

/// A tick that is made while the clock cannot be read is a tick at the time
/// of the last spawn: everything moves, collides and comes back into play as
/// ever, and no asteroid is spawned.
pub proof fn lemma_untimed_tick_spawns_nothing(w: WorldState, f: Frame, seed: AsteroidSeed)
    ensures
        ({
            let v = w.advanced(f, w.last_spawn_asteroid, seed);
            &&& v.asteroids == w.asteroids_after(f)
            &&& v.bullets == w.bullets_after(f)
            &&& v.asteroid_id_counter == w.asteroid_id_counter
            &&& v.last_spawn_asteroid == w.last_spawn_asteroid
        }),
{
}

/// The asteroid that a tick spawns appears outside the playing field.
pub proof fn lemma_spawned_asteroid_is_outside(
    w: WorldState,
    next: WorldState,
    f: Frame,
    now: u64,
    seed: AsteroidSeed,
)
    requires
        w.ticks_to(next, f, now, seed),
        w.spawn_due(now),
    ensures
        next.asteroids.len() > 0,
        !crate::game_world::Bounds::field().holds(next.asteroids.last().x, next.asteroids.last().y),
{
}

/// Something that happens to the world.
pub enum Event {
    /// A player joins under `id`.
    Join { id: u32 },
    /// An input command is applied.
    Input { command: Command },
    /// The world is advanced by one tick.
    Tick { frame: Frame, now: u64, seed: AsteroidSeed },
}

impl WorldState {
    /// The world after one event.
    pub open spec fn after_event(self, event: Event) -> WorldState {
        match event {
            Event::Join { id } => self.joined(id),
            Event::Input { command } => self.after_command(command),
            Event::Tick { frame, now, seed } => self.advanced(frame, now, seed),
        }
    }

    /// The world after the events of `history`, in order.
    pub open spec fn after_history(self, history: Seq<Event>) -> WorldState
        decreases history.len(),
    {
        if history.len() == 0 {
            self
        } else {
            self.after_history(history.drop_last()).after_event(history.last())
        }
    }

    /// The history can be lived through from this world: every tick comes
    /// with a frame measured on the world as it stands by then, and neither
    /// id counter has reached its largest value when an event begins.
    pub open spec fn admits(self, history: Seq<Event>) -> bool
        decreases history.len(),
    {
        if history.len() == 0 {
            true
        } else {
            let before = self.after_history(history.drop_last());
            &&& self.admits(history.drop_last())
            &&& before.bullet_id_counter < u32::MAX
            &&& before.asteroid_id_counter < u32::MAX
            &&& history.last() matches Event::Tick { frame, .. } ==> before.measured_by(frame)
        }
    }
}

/// The empty world is sound.
pub proof fn lemma_empty_is_sound()
    ensures
        WorldState::empty().sound(),
{
}

/// Whatever happens to a sound world leaves it sound: from the first join on,
/// through every input and every tick, the ids stay different, the hit points
/// stay between 1 and `FULL_HP`, and every bullet has an owner in the world.
pub proof fn lemma_history_keeps_sound(w: WorldState, history: Seq<Event>)
    requires
        w.sound(),
        w.admits(history),
    ensures
        w.after_history(history).sound(),
    decreases history.len(),
{
    if history.len() > 0 {
        lemma_history_keeps_sound(w, history.drop_last());
        let before = w.after_history(history.drop_last());
        match history.last() {
            Event::Tick { frame, now, seed } => {
                lemma_tick_keeps_sound(before, frame, now, seed);
            },
            _ => {},
        }
    }
}

/// A player, once in the world, is never taken out of it; and as long as it
/// does not join anew, the sequence number processed for it never falls,
/// whatever inputs and ticks come.
pub proof fn lemma_players_stay(w: WorldState, history: Seq<Event>, who: u32)
    requires
        w.players.contains_key(who),
    ensures
        w.after_history(history).players.contains_key(who),
        (forall|i: int|
            0 <= i < history.len() ==> !(#[trigger] history[i] matches Event::Join { id } && id == who))
            ==> w.players[who].last_processed_input_seq <= w.after_history(
            history,
        ).players[who].last_processed_input_seq,
    decreases history.len(),
{
    if history.len() > 0 {
        let earlier = history.drop_last();
        lemma_players_stay(w, earlier, who);
    }
}

} // verus!
