use crate::game_state::GameState;
use vstd::prelude::*;

verus! {

/// What a client remembers of its connection.
#[derive(Debug, PartialEq, Eq, Clone)]
pub struct ClientState {
    pub game_state: GameState,
    pub compression_threshold: i32,
}

impl ClientState {
    /// A fresh connection: handshaking, compression off.
    pub fn new() -> (s: Self)
        ensures
            s.game_state == GameState::Handshaking,
            s.compression_threshold == -1,
    {
        ClientState { game_state: GameState::Handshaking, compression_threshold: -1 }
    }
}

} // verus!
