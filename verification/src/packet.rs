//! Input commands: what a client can ask for, and under which numbers.

use vstd::prelude::*;

verus! {

/// What a player asks the simulation to do.
#[derive(Clone, Copy, Debug, PartialEq, Eq, Structural)]
pub enum InputAction {
    RotateLeft,
    RotateRight,
    Shoot,
    Thrust,
    Hello,
}

/// One input command: who sent it, its place in that player's stream, and the
/// action asked for.
#[derive(Clone, Copy, Debug, PartialEq, Eq, Structural)]
pub struct PlayerInput {
    pub id: u32,
    pub seq: u32,
    pub action: InputAction,
}

impl PlayerInput {
    /// This command as it counts when the time cannot be told: a keepalive
    /// from the same player with the same sequence number.
    pub open spec fn untimed(self) -> PlayerInput {
        PlayerInput { action: InputAction::Hello, ..self }
    }

    /// This command as it counts when the time cannot be told.
    pub fn without_time(&self) -> (input: PlayerInput)
        ensures
            input == self.untimed(),
    {
        PlayerInput { id: self.id, seq: self.seq, action: InputAction::Hello }
    }
}

impl InputAction {
    /// The numeric code under which the presentation layer names an action.
    pub open spec fn code(self) -> u32 {
        match self {
            InputAction::RotateLeft => 1,
            InputAction::RotateRight => 2,
            InputAction::Thrust => 3,
            InputAction::Shoot => 4,
            InputAction::Hello => 5,
        }
    }

    /// The action that a numeric code names. Every code outside 1..=5 names
    /// the keepalive `Hello`.
    pub open spec fn from_code(code: u32) -> InputAction {
        if code == 1 {
            InputAction::RotateLeft
        } else if code == 2 {
            InputAction::RotateRight
        } else if code == 3 {
            InputAction::Thrust
        } else if code == 4 {
            InputAction::Shoot
        } else {
            InputAction::Hello
        }
    }

    /// The numeric code of this action.
    pub fn get_input_code_from_action(&self) -> (code: u32)
        ensures
            code == self.code(),
            1 <= code <= 5,
    {
        match self {
            InputAction::RotateLeft => 1,
            InputAction::RotateRight => 2,
            InputAction::Thrust => 3,
            InputAction::Shoot => 4,
            InputAction::Hello => 5,
        }
    }

    /// The action that `code` names.
    pub fn get_action_from_code(code: u32) -> (action: InputAction)
        ensures
            action == InputAction::from_code(code),
    {
        match code {
            1 => InputAction::RotateLeft,
            2 => InputAction::RotateRight,
            3 => InputAction::Thrust,
            4 => InputAction::Shoot,
            _ => InputAction::Hello,
        }
    }

    /// Naming an action by its code and reading the code back gives the
    /// action again.
    pub proof fn lemma_code_round_trip(action: InputAction)
        ensures
            InputAction::from_code(action.code()) == action,
    {
    }

    /// Reading a code and naming the action again gives the code back exactly
    /// when the code is one of the five in use; any other code comes back as
    /// the code of `Hello`.
    pub proof fn lemma_code_normal_form(code: u32)
        ensures
            InputAction::from_code(code).code() == (if 1 <= code <= 5 { code } else { 5 }),
    {
    }
}

} // verus!
