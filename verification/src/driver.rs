//! One turn of the server's loop: the waiting connections become players,
//! the waiting inputs are applied in the order of their arrival, a snapshot is
//! taken, and the world is advanced; and how long the loop rests afterwards.

use vstd::prelude::*;
use crate::game_world::{Command, GameWorld, WorldState};
use crate::packet::{InputAction, PlayerInput};
use crate::player::Player;
use crate::frame::{Frame, Steering};
use crate::asteroid::{AsteroidSeed, Launch, SpawnPlan};
use crate::varint::WireError;
use crate::utils::current_time_ms;
use crate::tick::updates_to;

verus! {

/// The length of a tick, in milliseconds.
pub const TICK_DURATION: u64 = 16;

/// The length of a tick, in nanoseconds.
pub const TICK_NANOS: u64 = TICK_DURATION * 1_000_000;

/// How long to sleep after a tick whose work took `elapsed` nanoseconds, in
/// nanoseconds: what is left of the tick, and nothing after a tick that used
/// up its time or ran over.
pub open spec fn rest_after(elapsed: u128) -> Option<u64> {
    if elapsed < TICK_NANOS {
        Some((TICK_NANOS - elapsed) as u64)
    } else {
        None
    }
}

/// How long to sleep after a tick whose work took `elapsed` nanoseconds, in
/// nanoseconds.
pub fn rest_for(elapsed: u128) -> (rest: Option<u64>)
    ensures
        rest == rest_after(elapsed),
{
    if elapsed < TICK_NANOS as u128 {
        Some(TICK_NANOS - elapsed as u64)
    } else {
        None
    }
}

/// The commands of `run` are the inputs of `inputs`, one for one and in their
/// order, each applied to the player it names. Only a shot may have come
/// while the clock could not be read: no other command asks for the time.
pub open spec fn follows(run: Seq<Command>, inputs: Seq<PlayerInput>) -> bool {
    &&& run.len() == inputs.len()
    &&& forall|j: int|
        0 <= j < run.len() ==> {
            &&& (#[trigger] run[j]).input == inputs[j]
            &&& run[j].player_id == inputs[j].id
            &&& !(inputs[j].action == InputAction::Shoot) ==> run[j].now is Some
        }
}

/// Every steering of `run` is what `steer` made of the player of its command
/// as that player stood when the command came, after the commands before it.
pub open spec fn steered_by<F: Fn(Player) -> Steering>(
    steer: F,
    start: WorldState,
    run: Seq<Command>,
) -> bool {
    forall|j: int|
        0 <= j < run.len() ==> {
            let before = #[trigger] start.after_run(run.take(j));
            before.players.contains_key(run[j].player_id) ==> call_ensures(
                steer,
                (before.players[run[j].player_id],),
                run[j].steer,
            )
        }
}

/// What one tick of the server hands back: the bytes of the snapshot to
/// broadcast, and whether the world was advanced.
#[derive(Clone, Debug, PartialEq, Eq)]
pub struct Tick {
    pub snapshot: Vec<u8>,
    pub advanced: bool,
}

/// What one turn of the loop makes of the world `start`, given what came
/// back from the clock and from `steer`, `measure` and `aim`. All joins come
/// before all inputs, and all inputs before the advance. `shown` is the world
/// after the joins and the inputs of this very turn; the snapshot shows it,
/// and `measure` is asked about it. The advance is owed, once, whenever
/// `measure` hands back a frame that was measured on `shown`; where it is
/// not made, the world is left as `shown`.
pub open spec fn turns_to<
    S: Fn(Player) -> Steering,
    M: Fn(&GameWorld) -> Frame,
    A: Fn(SpawnPlan) -> Launch,
>(
    steer: S,
    measure: M,
    aim: A,
    start: WorldState,
    joins: Seq<u32>,
    inputs: Seq<PlayerInput>,
    run: Seq<Command>,
    shown: GameWorld,
    after: WorldState,
    t: Tick,
    reading: Option<u64>,
    frame: Frame,
    seed: AsteroidSeed,
) -> bool {
    &&& follows(run, inputs)
    &&& steered_by(steer, start.joined_all(joins), run)
    &&& shown@ == start.joined_all(joins).after_run(run)
    &&& WorldState::parse(t.snapshot@) == Ok::<(WorldState, nat), WireError>(
        (shown@, t.snapshot@.len()),
    )
    &&& updates_to(measure, aim, shown, after, t.advanced, reading, frame, seed)
}

impl WorldState {
    /// The world after the players of `ids` have joined, in order.
    pub open spec fn joined_all(self, ids: Seq<u32>) -> WorldState
        decreases ids.len(),
    {
        if ids.len() == 0 {
            self
        } else {
            self.joined_all(ids.drop_last()).joined(ids.last())
        }
    }
}

impl GameWorld {
    /// Puts a fresh player into the world for every id of `ids`, in order.
    pub fn add_players(&mut self, ids: &Vec<u32>)
        ensures
            final(self)@ == old(self)@.joined_all(ids@),
    {
        let mut i: usize = 0;
        while i < ids.len()
            invariant
                i <= ids.len(),
                self@ == old(self)@.joined_all(ids@.take(i as int)),
            decreases ids.len() - i,
        {
            self.add_player(ids[i]);
            proof {
                let upto = ids@.take(i + 1);
                assert(upto.drop_last() =~= ids@.take(i as int));
            }
            i += 1;
        }
        assert(ids@.take(ids@.len() as int) =~= ids@);
    }
}


impl GameWorld {
    /// Applies the input commands of `inputs` in the order in which they
    /// arrived, each for the player it names. `steer` works out the steering
    /// of a player from its present state; it is asked once for every
    /// command whose player is known, just before the command is applied.
    /// The clock is read for every shot; a shot that comes while the clock
    /// cannot be read counts like a keepalive.
    pub fn apply_inputs(&mut self, inputs: &Vec<PlayerInput>, steer: impl Fn(Player) -> Steering)
        requires
            forall|p: Player| call_requires(steer, (p,)),
        ensures
            exists|run: Seq<Command>|
                follows(run, inputs@) && steered_by(steer, old(self)@, run) && final(self)@
                    == #[trigger] old(self)@.after_run(run),
    {
        let ghost mut run: Seq<Command> = Seq::empty();
        let mut i: usize = 0;
        while i < inputs.len()
            invariant
                i <= inputs.len(),
                forall|p: Player| call_requires(steer, (p,)),
                follows(run, inputs@.take(i as int)),
                steered_by(steer, old(self)@, run),
                self@ == old(self)@.after_run(run),
            decreases inputs.len() - i,
        {
            let input: PlayerInput = inputs[i];
            let steering: Steering = match self.players.get(&input.id) {
                Some(p) => steer(*p),
                None => Steering::still(),
            };
            let reading: Option<u64> = match input.action {
                InputAction::Shoot => current_time_ms(),
                _ => Some(0),
            };
            match reading {
                Some(now) => self.apply_input_at(input.id, &input, now, &steering),
                None => self.apply_input_at(input.id, &input.without_time(), 0, &steering),
            }
            proof {
                let c = Command { player_id: input.id, input, now: reading, steer: steering };
                let longer = run.push(c);
                assert(longer.drop_last() =~= run);
                assert forall|j: int| 0 <= j < longer.len() implies ({
                    let earlier = #[trigger] old(self)@.after_run(longer.take(j));
                    earlier.players.contains_key(longer[j].player_id) ==> call_ensures(
                        steer,
                        (earlier.players[longer[j].player_id],),
                        longer[j].steer,
                    )
                }) by {
                    if j < run.len() {
                        assert(longer.take(j) =~= run.take(j));
                    }
                }
                run = longer;
            }
            i += 1;
        }
    }

    /// One tick of the server. The players of `joins` join, in order; the
    /// commands of `inputs` are applied, in order; a snapshot of the world as
    /// it then stands is taken; and the world is advanced once. `steer`,
    /// `measure` and `aim` do the arithmetic on real numbers. The world is
    /// advanced whenever `measure` hands back a frame that was measured on
    /// the world; where it is not, the answer says so.
    pub fn tick(
        &mut self,
        joins: &Vec<u32>,
        inputs: &Vec<PlayerInput>,
        steer: impl Fn(Player) -> Steering,
        measure: impl Fn(&GameWorld) -> Frame,
        aim: impl Fn(SpawnPlan) -> Launch,
    ) -> (t: Tick)
        requires
            forall|p: Player| call_requires(steer, (p,)),
            forall|w: &GameWorld| call_requires(measure, (w,)),
            forall|plan: SpawnPlan| call_requires(aim, (plan,)),
        ensures
            exists|
                run: Seq<Command>,
                shown: GameWorld,
                reading: Option<u64>,
                frame: Frame,
                seed: AsteroidSeed,
            | #[trigger]
                turns_to(
                    steer,
                    measure,
                    aim,
                    old(self)@,
                    joins@,
                    inputs@,
                    run,
                    shown,
                    final(self)@,
                    t,
                    reading,
                    frame,
                    seed,
                ),
    {
        self.add_players(joins);
        let ghost joined = self@;
        self.apply_inputs(inputs, steer);
        let ghost run = choose|run: Seq<Command>|
            follows(run, inputs@) && steered_by(steer, joined, run) && self@
                == #[trigger] joined.after_run(run);
        let ghost shown = *self;
        let snapshot = self.encode();
        let advanced = self.update(measure, aim);
        let t = Tick { snapshot, advanced };
        proof {
            let (reading, frame, seed) = choose|
                reading: Option<u64>,
                frame: Frame,
                seed: AsteroidSeed,
            | #[trigger]
                updates_to(measure, aim, shown, self@, advanced, reading, frame, seed);
            assert(turns_to(
                steer,
                measure,
                aim,
                old(self)@,
                joins@,
                inputs@,
                run,
                shown,
                self@,
                t,
                reading,
                frame,
                seed,
            ));
        }
        t
    }
}

} // verus!
