use vstd::prelude::*;

verus! {

/// The protocol state a connection is in.
#[derive(Debug, PartialEq, Eq, Clone, Copy, Structural)]
pub enum GameState {
    Handshaking,
    Status,
    Login,
    Play,
}

/// The state a number names: 0 to 3 in protocol order, anything else
/// handshaking.
pub open spec fn game_state_of(value: i32) -> GameState {
    if value == 1 {
        GameState::Status
    } else if value == 2 {
        GameState::Login
    } else if value == 3 {
        GameState::Play
    } else {
        GameState::Handshaking
    }
}

/// The number of a state.
pub open spec fn game_state_number(state: GameState) -> i32 {
    match state {
        GameState::Handshaking => 0,
        GameState::Status => 1,
        GameState::Login => 2,
        GameState::Play => 3,
    }
}

impl From<i32> for GameState {
    /// The state numbered `value`; unknown numbers fall back to handshaking.
    fn from(value: i32) -> (s: Self)
        ensures
            s == game_state_of(value),
    {
        match value {
            0 => GameState::Handshaking,
            1 => GameState::Status,
            2 => GameState::Login,
            3 => GameState::Play,
            _ => GameState::Handshaking,
        }
    }
}

impl vstd::std_specs::convert::FromSpecImpl<i32> for GameState {
    open spec fn obeys_from_spec() -> bool {
        true
    }

    open spec fn from_spec(v: i32) -> Self {
        game_state_of(v)
    }
}

impl GameState {
    /// The number of this state.
    pub fn as_i32(&self) -> (n: i32)
        ensures
            n == game_state_number(*self),
    {
        match self {
            GameState::Handshaking => 0,
            GameState::Status => 1,
            GameState::Login => 2,
            GameState::Play => 3,
        }
    }
}

/// Numbering a state and turning the number back into a state gives the
/// state again.
pub proof fn lemma_game_state_roundtrip(state: GameState)
    ensures
        game_state_of(game_state_number(state)) == state,
{
}

/// The numbers 0 to 3 are the numbers of states; every other number is read
/// as handshaking.
pub proof fn lemma_game_state_numbers(value: i32)
    ensures
        0 <= value <= 3 ==> game_state_number(game_state_of(value)) == value,
        !(0 <= value <= 3) ==> game_state_of(value) == GameState::Handshaking,
{
}

} // verus!
