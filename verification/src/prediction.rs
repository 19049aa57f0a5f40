//! The client's side of the protocol: inputs are numbered, sent, and kept
//! until the server has acknowledged them; every snapshot overwrites the
//! predicted state, drops what it acknowledges and names what has to be
//! replayed on top.

use vstd::prelude::*;
use crate::scalar::Scalar;
use crate::packet::{InputAction, PlayerInput};
use crate::player::{Player, FULL_HP};
use crate::frame::{PlayerStep, Steering};

verus! {

/// An input that was sent and may not have reached the server yet.
#[derive(Clone, Copy, Debug, PartialEq, Eq, Structural)]
pub struct LocalInput {
    pub seq: u32,
    pub action: InputAction,
}

/// The predicted state of the local player and the inputs that wait for the
/// server's acknowledgement, oldest first.
#[derive(Clone, Debug, PartialEq, Eq)]
pub struct Prediction {
    pub controller_id: Option<u32>,
    pub data: Player,
    pub input_seq: u32,
    pub pending_inputs: Vec<LocalInput>,
}

/// The mathematical content of a [`Prediction`].
pub struct PredictionState {
    pub controller_id: Option<u32>,
    pub data: Player,
    pub input_seq: u32,
    pub pending_inputs: Seq<LocalInput>,
}

impl View for Prediction {
    type V = PredictionState;

    open spec fn view(&self) -> PredictionState {
        PredictionState {
            controller_id: self.controller_id,
            data: self.data,
            input_seq: self.input_seq,
            pending_inputs: self.pending_inputs@,
        }
    }
}

/// What the arithmetic on real numbers contributes to showing one input: the
/// steering of the player as it stood, and its move once the action has been
/// applied.
pub struct Shown {
    pub steer: Steering,
    pub step: PlayerStep,
}

/// Every entry of `how` is what `steer` and `step` made of the player as it
/// stood when its input was shown: `steer` was asked about the player after
/// the inputs before, `step` about the player after the action.
pub open spec fn shown_by<S: Fn(Player) -> Steering, M: Fn(Player) -> PlayerStep>(
    steer: S,
    step: M,
    start: Player,
    actions: Seq<InputAction>,
    how: Seq<Shown>,
) -> bool {
    forall|j: int|
        0 <= j < actions.len() ==> {
            let before = #[trigger] start.replayed(actions.take(j), how.take(j));
            &&& call_ensures(steer, (before,), how[j].steer)
            &&& call_ensures(step, (before.steered(actions[j], how[j].steer),), how[j].step)
        }
}

/// The actions of the inputs of `pending`, in their order.
pub open spec fn actions_of(pending: Seq<LocalInput>) -> Seq<InputAction> {
    Seq::new(pending.len(), |i: int| pending[i].action)
}

/// The inputs that stand for `actions`, numbered from `first` on.
pub open spec fn numbered(actions: Seq<InputAction>, first: u32) -> Seq<LocalInput> {
    Seq::new(actions.len(), |i: int| LocalInput { seq: (first + i) as u32, action: actions[i] })
}

/// The commands that carry `actions` for the player `id`, numbered from
/// `first` on.
pub open spec fn commands(actions: Seq<InputAction>, id: u32, first: u32) -> Seq<PlayerInput> {
    Seq::new(actions.len(), |i: int| PlayerInput { id, seq: (first + i) as u32, action: actions[i] })
}

/// The inputs among the first `n` of `pending` that the acknowledgement
/// `last_ack` does not cover, in their order.
pub open spec fn unacknowledged(pending: Seq<LocalInput>, last_ack: u32, n: int) -> Seq<LocalInput>
    decreases n,
{
    if n <= 0 {
        Seq::empty()
    } else if pending[n - 1].seq > last_ack {
        unacknowledged(pending, last_ack, n - 1).push(pending[n - 1])
    } else {
        unacknowledged(pending, last_ack, n - 1)
    }
}

/// The actions that the pressed keys stand for, in the order in which they
/// are sent: left, right, thrust, shoot.
pub open spec fn pressed(left: bool, right: bool, up: bool, select: bool) -> Seq<InputAction> {
    (if left {
        seq![InputAction::RotateLeft]
    } else {
        Seq::empty()
    }) + (if right {
        seq![InputAction::RotateRight]
    } else {
        Seq::empty()
    }) + (if up {
        seq![InputAction::Thrust]
    } else {
        Seq::empty()
    }) + (if select {
        seq![InputAction::Shoot]
    } else {
        Seq::empty()
    })
}

impl Player {
    /// A player before the server has said anything of it: at the origin, at
    /// rest, with full hit points, and nothing else known.
    pub open spec fn unknown() -> Player {
        Player { fire_rate_ms: 0, ..Player::fresh(0) }
    }

    /// This player with what a snapshot says of `server`: position, heading,
    /// velocity and hit points. Identity and bookkeeping stay.
    pub open spec fn corrected(self, server: Player) -> Player {
        Player {
            x: server.x,
            y: server.y,
            rotation: server.rotation,
            vx: server.vx,
            vy: server.vy,
            hp: server.hp,
            ..self
        }
    }

    /// This player after a local input has been shown: first the action,
    /// then the move of one tick.
    pub open spec fn shown(self, action: InputAction, how: Shown) -> Player {
        self.steered(action, how.steer).moved(how.step)
    }

    /// This player after the inputs `actions` have been shown one after the
    /// other.
    pub open spec fn replayed(self, actions: Seq<InputAction>, how: Seq<Shown>) -> Player
        decreases actions.len(),
    {
        if actions.len() == 0 {
            self
        } else {
            self.replayed(actions.drop_last(), how.drop_last()).shown(actions.last(), how.last())
        }
    }

    /// This player after a local input: a turn takes the heading and a thrust
    /// the velocity from `steer`; no other action shows in the prediction.
    pub open spec fn steered(self, action: InputAction, steer: Steering) -> Player {
        match action {
            InputAction::RotateLeft => Player { rotation: steer.left, ..self },
            InputAction::RotateRight => Player { rotation: steer.right, ..self },
            InputAction::Thrust => Player { vx: steer.thrust_vx, vy: steer.thrust_vy, ..self },
            _ => self,
        }
    }
}

impl PredictionState {
    /// A prediction that has sent nothing: the first input will bear the
    /// sequence number one.
    pub open spec fn initial() -> PredictionState {
        PredictionState {
            controller_id: None,
            data: Player::unknown(),
            input_seq: 1,
            pending_inputs: Seq::empty(),
        }
    }

    /// The prediction after the input `action` has been given the next
    /// sequence number and put at the end of the pending inputs.
    pub open spec fn recorded(self, action: InputAction) -> PredictionState {
        PredictionState {
            input_seq: (self.input_seq + 1) as u32,
            pending_inputs: self.pending_inputs.push(LocalInput { seq: self.input_seq, action }),
            ..self
        }
    }

    /// The prediction after the pressed keys `actions` have been recorded
    /// and shown, in order.
    pub open spec fn captured(self, actions: Seq<InputAction>, how: Seq<Shown>) -> PredictionState {
        PredictionState {
            data: self.data.replayed(actions, how),
            input_seq: (self.input_seq + actions.len()) as u32,
            pending_inputs: self.pending_inputs + numbered(actions, self.input_seq),
            ..self
        }
    }

    /// The prediction after its pending inputs have been shown again on top
    /// of its state.
    pub open spec fn replayed(self, how: Seq<Shown>) -> PredictionState {
        PredictionState { data: self.data.replayed(actions_of(self.pending_inputs), how), ..self }
    }

    /// The prediction after a snapshot with `server` for the local player:
    /// the state is the server's, and the inputs that the server has
    /// processed are gone.
    pub open spec fn reconciled(self, server: Player) -> PredictionState {
        PredictionState {
            data: self.data.corrected(server),
            pending_inputs: unacknowledged(
                self.pending_inputs,
                server.last_processed_input_seq,
                self.pending_inputs.len() as int,
            ),
            ..self
        }
    }
}

/// After a snapshot the pending inputs are those that it does not
/// acknowledge, each once and in the order they were sent: every one left has
/// a sequence number beyond the acknowledged one, and every such input is
/// still there.
pub proof fn lemma_unacknowledged(pending: Seq<LocalInput>, last_ack: u32, n: int)
    requires
        0 <= n <= pending.len(),
    ensures
        ({
            let left = unacknowledged(pending, last_ack, n);
            &&& left.len() <= n
            &&& forall|r: int| 0 <= r < left.len() ==> (#[trigger] left[r]).seq > last_ack
            &&& forall|r: int| 0 <= r < left.len() ==> pending.take(n).contains(#[trigger] left[r])
            &&& forall|i: int|
                0 <= i < n && (#[trigger] pending[i]).seq > last_ack ==> left.contains(pending[i])
        }),
    decreases n,
{
    if n > 0 {
        lemma_unacknowledged(pending, last_ack, n - 1);
        let before = unacknowledged(pending, last_ack, n - 1);
        let left = unacknowledged(pending, last_ack, n);
        assert forall|r: int| 0 <= r < left.len() implies pending.take(n).contains(
            #[trigger] left[r],
        ) by {
            if r >= before.len() {
                assert(pending.take(n)[n - 1] == left[r]);
            }
        }
        assert forall|i: int| 0 <= i < n && (#[trigger] pending[i]).seq > last_ack implies left.contains(
            pending[i],
        ) by {
            if i < n - 1 {
                let at = choose|at: int| 0 <= at < before.len() && before[at] == pending[i];
                assert(left[at] == pending[i]);
            } else {
                assert(left[left.len() - 1] == pending[i]);
            }
        }
    }
}

/// The actions that the pressed keys stand for, in the order in which they
/// are sent.
pub fn pressed_actions(left: bool, right: bool, up: bool, select: bool) -> (actions: Vec<InputAction>)
    ensures
        actions@ == pressed(left, right, up, select),
{
    let mut actions: Vec<InputAction> = Vec::new();
    if left {
        actions.push(InputAction::RotateLeft);
    }
    if right {
        actions.push(InputAction::RotateRight);
    }
    if up {
        actions.push(InputAction::Thrust);
    }
    if select {
        actions.push(InputAction::Shoot);
    }
    actions
}

impl Player {
    /// This player after a local input, before its move: a turn takes the
    /// heading and a thrust the velocity from `steer`; no other action shows.
    pub fn after_action(self, action: InputAction, steer: &Steering) -> (p: Player)
        ensures
            p == self.steered(action, *steer),
    {
        let mut p: Player = self;
        match action {
            InputAction::RotateLeft => {
                p.rotation = steer.left;
            },
            InputAction::RotateRight => {
                p.rotation = steer.right;
            },
            InputAction::Thrust => {
                p.vx = steer.thrust_vx;
                p.vy = steer.thrust_vy;
            },
            _ => {},
        }
        p
    }
}

impl Prediction {
    /// A prediction that has sent nothing.
    pub fn new() -> (p: Prediction)
        ensures
            p@ == PredictionState::initial(),
    {
        Prediction {
            controller_id: None,
            data: Player {
                id: 0,
                x: Scalar::new_zero(),
                y: Scalar::new_zero(),
                rotation: Scalar::new_zero(),
                vx: Scalar::new_zero(),
                vy: Scalar::new_zero(),
                hp: FULL_HP,
                last_shot_ms: 0,
                fire_rate_ms: 0,
                last_processed_input_seq: 0,
            },
            input_seq: 1,
            pending_inputs: Vec::new(),
        }
    }

    /// Sets the id of the predicted player.
    pub fn set_id(&mut self, id: u32)
        ensures
            final(self)@ == (PredictionState { data: Player { id, ..old(self)@.data }, ..old(self)@ }),
    {
        self.data.id = id;
    }

    /// Puts the predicted player under local control, sending its inputs
    /// as player `id`.
    pub fn set_controller_id(&mut self, id: u32)
        ensures
            final(self)@ == (PredictionState { controller_id: Some(id), ..old(self)@ }),
    {
        self.controller_id = Some(id);
    }

    /// Sets the hit points of the predicted player.
    pub fn update_health(&mut self, hp: u16)
        ensures
            final(self)@ == (PredictionState { data: Player { hp, ..old(self)@.data }, ..old(self)@ }),
    {
        self.data.hp = hp;
    }

    /// Sets position and heading of the predicted player.
    pub fn update_position(&mut self, x: Scalar, y: Scalar, rotation: Scalar)
        ensures
            final(self)@ == (PredictionState {
                data: Player { x, y, rotation, ..old(self)@.data },
                ..old(self)@
            }),
    {
        self.data.x = x;
        self.data.y = y;
        self.data.rotation = rotation;
    }

    /// Numbers a new input, keeps it as pending, and hands back the command
    /// to send for the player `id`. The counter must not have run out.
    pub fn record(&mut self, id: u32, action: InputAction) -> (sent: PlayerInput)
        requires
            old(self).input_seq < u32::MAX,
        ensures
            final(self)@ == old(self)@.recorded(action),
            sent == (PlayerInput { id, seq: old(self).input_seq, action }),
    {
        let seq: u32 = self.input_seq;
        self.input_seq = seq + 1;
        self.pending_inputs.push(LocalInput { seq, action });
        PlayerInput { id, seq, action }
    }

    /// Shows a local input in the predicted state at once: first the action,
    /// by `steer`, then one move of the player, by `step`, whatever the
    /// action was. `step` is the move of the player as it stands after the
    /// action. Only the predicted player changes: nothing is numbered, kept
    /// or sent.
    pub fn apply_local_input(&mut self, action: InputAction, steer: &Steering, step: &PlayerStep)
        ensures
            final(self)@ == (PredictionState {
                data: old(self)@.data.shown(action, (Shown { steer: *steer, step: *step })),
                ..old(self)@
            }),
    {
        self.data = self.data.after_action(action, steer);
        self.data.update_player_position(step);
    }

    /// Takes over the server's state of the local player, drops the inputs
    /// that the server has processed, and hands back the actions of those
    /// that remain, oldest first, to be shown again on top.
    pub fn acknowledge(&mut self, server_player: &Player) -> (replay: Vec<InputAction>)
        ensures
            final(self)@ == old(self)@.reconciled(*server_player),
            replay@.len() == final(self)@.pending_inputs.len(),
            forall|r: int|
                0 <= r < replay@.len() ==> #[trigger] replay@[r] == final(self)@.pending_inputs[r].action,
    {
        self.update_position(server_player.x, server_player.y, server_player.rotation);
        self.update_health(server_player.hp);
        self.data.vx = server_player.vx;
        self.data.vy = server_player.vy;
        let last_ack: u32 = server_player.last_processed_input_seq;
        let mut kept: Vec<LocalInput> = Vec::new();
        let mut replay: Vec<InputAction> = Vec::new();
        let mut i: usize = 0;
        while i < self.pending_inputs.len()
            invariant
                i <= self.pending_inputs.len(),
                self.pending_inputs@ == old(self).pending_inputs@,
                self.data == old(self).data.corrected(*server_player),
                self.controller_id == old(self).controller_id,
                self.input_seq == old(self).input_seq,
                kept@ == unacknowledged(self.pending_inputs@, last_ack, i as int),
                replay@.len() == kept@.len(),
                forall|r: int| 0 <= r < replay@.len() ==> #[trigger] replay@[r] == kept@[r].action,
            decreases self.pending_inputs.len() - i,
        {
            let input: LocalInput = self.pending_inputs[i];
            if input.seq > last_ack {
                kept.push(input);
                replay.push(input.action);
            }
            i += 1;
        }
        self.pending_inputs = kept;
        replay
    }

    /// Shows every pending input again on top of the predicted state, oldest
    /// first: for each, `steer` is asked for the steering of the player as it
    /// stands, the action is applied, and `step` is asked for the move.
    pub fn replay(
        &mut self,
        steer: impl Fn(Player) -> Steering,
        step: impl Fn(Player) -> PlayerStep,
    )
        requires
            forall|p: Player| call_requires(steer, (p,)),
            forall|p: Player| call_requires(step, (p,)),
        ensures
            exists|how: Seq<Shown>|
                how.len() == old(self)@.pending_inputs.len() && shown_by(
                    steer,
                    step,
                    old(self)@.data,
                    actions_of(old(self)@.pending_inputs),
                    how,
                ) && final(self)@ == #[trigger] old(self)@.replayed(how),
    {
        let ghost actions = actions_of(self.pending_inputs@);
        let ghost mut how: Seq<Shown> = Seq::empty();
        let mut i: usize = 0;
        while i < self.pending_inputs.len()
            invariant
                i <= self.pending_inputs.len(),
                forall|p: Player| call_requires(steer, (p,)),
                forall|p: Player| call_requires(step, (p,)),
                self.pending_inputs@ == old(self).pending_inputs@,
                self.controller_id == old(self).controller_id,
                self.input_seq == old(self).input_seq,
                actions == actions_of(self.pending_inputs@),
                how.len() == i,
                shown_by(steer, step, old(self).data, actions.take(i as int), how),
                self.data == old(self).data.replayed(actions.take(i as int), how),
            decreases self.pending_inputs.len() - i,
        {
            let action: InputAction = self.pending_inputs[i].action;
            let steering = steer(self.data);
            let moved = step(self.data.after_action(action, &steering));
            self.apply_local_input(action, &steering, &moved);
            proof {
                let one = Shown { steer: steering, step: moved };
                let upto = actions.take(i + 1);
                let longer = how.push(one);
                assert(upto.drop_last() =~= actions.take(i as int));
                assert(longer.drop_last() =~= how);
                assert forall|j: int| 0 <= j < upto.len() implies ({
                    let earlier = #[trigger] old(self).data.replayed(upto.take(j), longer.take(j));
                    &&& call_ensures(steer, (earlier,), longer[j].steer)
                    &&& call_ensures(step, (earlier.steered(upto[j], longer[j].steer),), longer[j].step)
                }) by {
                    if j < i {
                        assert(upto.take(j) =~= actions.take(i as int).take(j));
                        assert(longer.take(j) =~= how.take(j));
                    }
                }
                how = longer;
            }
            i += 1;
        }
        assert(actions.take(actions.len() as int) =~= actions);
        assert(self@ == old(self)@.replayed(how));
    }

    /// A snapshot has come: takes over the server's state of the local
    /// player, drops the inputs that the server has processed, and shows
    /// those that remain again on top.
    pub fn reconcile_with_server(
        &mut self,
        server_player: &Player,
        steer: impl Fn(Player) -> Steering,
        step: impl Fn(Player) -> PlayerStep,
    )
        requires
            forall|p: Player| call_requires(steer, (p,)),
            forall|p: Player| call_requires(step, (p,)),
        ensures
            exists|how: Seq<Shown>|
                how.len() == final(self)@.pending_inputs.len() && shown_by(
                    steer,
                    step,
                    old(self)@.data.corrected(*server_player),
                    actions_of(final(self)@.pending_inputs),
                    how,
                ) && final(self)@ == #[trigger] old(self)@.reconciled(*server_player).replayed(how),
    {
        let _ = self.acknowledge(server_player);
        self.replay(steer, step);
    }

    /// One frame of a player under local control: every pressed key becomes
    /// a numbered input that is kept as pending and shown at once. The
    /// commands to send come back, in their order. Without local control
    /// nothing happens.
    pub fn capture(
        &mut self,
        left: bool,
        right: bool,
        up: bool,
        select: bool,
        steer: impl Fn(Player) -> Steering,
        step: impl Fn(Player) -> PlayerStep,
    ) -> (sent: Vec<PlayerInput>)
        requires
            old(self).input_seq + pressed(left, right, up, select).len() <= u32::MAX,
            forall|p: Player| call_requires(steer, (p,)),
            forall|p: Player| call_requires(step, (p,)),
        ensures
            match old(self).controller_id {
                None => sent@.len() == 0 && final(self)@ == old(self)@,
                Some(id) => {
                    let actions = pressed(left, right, up, select);
                    &&& sent@ == commands(actions, id, old(self).input_seq)
                    &&& exists|how: Seq<Shown>|
                        how.len() == actions.len() && shown_by(
                            steer,
                            step,
                            old(self)@.data,
                            actions,
                            how,
                        ) && final(self)@ == #[trigger] old(self)@.captured(actions, how)
                },
            },
    {
        let mut sent: Vec<PlayerInput> = Vec::new();
        let id: u32 = match self.controller_id {
            Some(id) => id,
            None => {
                return sent;
            },
        };
        let actions = pressed_actions(left, right, up, select);
        let ghost mut how: Seq<Shown> = Seq::empty();
        let mut i: usize = 0;
        while i < actions.len()
            invariant
                i <= actions.len(),
                old(self).input_seq + actions@.len() <= u32::MAX,
                forall|p: Player| call_requires(steer, (p,)),
                forall|p: Player| call_requires(step, (p,)),
                self.controller_id == old(self).controller_id,
                self.input_seq == old(self).input_seq + i,
                how.len() == i,
                sent@ == commands(actions@.take(i as int), id, old(self).input_seq),
                self.pending_inputs@ == old(self).pending_inputs@ + numbered(
                    actions@.take(i as int),
                    old(self).input_seq,
                ),
                shown_by(steer, step, old(self).data, actions@.take(i as int), how),
                self.data == old(self).data.replayed(actions@.take(i as int), how),
            decreases actions.len() - i,
        {
            let action: InputAction = actions[i];
            let command = self.record(id, action);
            sent.push(command);
            let steering = steer(self.data);
            let moved = step(self.data.after_action(action, &steering));
            self.apply_local_input(action, &steering, &moved);
            proof {
                let one = Shown { steer: steering, step: moved };
                let upto = actions@.take(i + 1);
                let longer = how.push(one);
                assert(upto.drop_last() =~= actions@.take(i as int));
                assert(longer.drop_last() =~= how);
                assert forall|j: int| 0 <= j < upto.len() implies ({
                    let earlier = #[trigger] old(self).data.replayed(upto.take(j), longer.take(j));
                    &&& call_ensures(steer, (earlier,), longer[j].steer)
                    &&& call_ensures(step, (earlier.steered(upto[j], longer[j].steer),), longer[j].step)
                }) by {
                    if j < i {
                        assert(upto.take(j) =~= actions@.take(i as int).take(j));
                        assert(longer.take(j) =~= how.take(j));
                    }
                }
                how = longer;
            }
            i += 1;
        }
        assert(actions@.take(actions@.len() as int) =~= actions@);
        assert(self@ == old(self)@.captured(actions@, how));
        sent
    }
}

} // verus!
