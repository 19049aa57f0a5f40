//! The state of a server.

use vstd::prelude::*;
use crate::game_world::GameWorld;

verus! {

/// The state that a server holds: the world it simulates.
pub struct GameState {
    pub world_state: GameWorld,
}

impl GameState {
    /// The state of a server that simulates `game_world`.
    pub fn new(game_world: GameWorld) -> (state: GameState)
        ensures
            state.world_state == game_world,
    {
        GameState { world_state: game_world }
    }
}

} // verus!
