use crate::game_state::GameState;
use vstd::prelude::*;

verus! {

/// Which packets a client listener wants: any packet, or one id.
#[derive(Debug, PartialEq, Eq, Clone, Copy, Hash, Structural)]
pub enum PacketId {
    Any,
    Id(i32),
}

/// What a client listener is registered for: every packet, or the packets of
/// one protocol state (all of them, or one id).
#[derive(Debug, PartialEq, Eq, Clone, Copy, Hash, Structural)]
pub enum ClientEvent {
    Any,
    Handshaking(PacketId),
    Status(PacketId),
    Login(PacketId),
    Play(PacketId),
}

/// What a server listener is registered for.
#[derive(Debug, PartialEq, Eq, Clone, Copy, Hash, Structural)]
pub enum ServerEvent {
    Connect,
    Disconnect,
}

/// The event with its packet id replaced (`Any` stays `Any`).
pub open spec fn with_packet_id(event: ClientEvent, id: PacketId) -> ClientEvent {
    match event {
        ClientEvent::Any => ClientEvent::Any,
        ClientEvent::Handshaking(_) => ClientEvent::Handshaking(id),
        ClientEvent::Status(_) => ClientEvent::Status(id),
        ClientEvent::Login(_) => ClientEvent::Login(id),
        ClientEvent::Play(_) => ClientEvent::Play(id),
    }
}

/// The event for every packet of a state.
pub open spec fn state_event(state: GameState) -> ClientEvent {
    match state {
        GameState::Handshaking => ClientEvent::Handshaking(PacketId::Any),
        GameState::Status => ClientEvent::Status(PacketId::Any),
        GameState::Login => ClientEvent::Login(PacketId::Any),
        GameState::Play => ClientEvent::Play(PacketId::Any),
    }
}

/// The events whose listeners a received packet is handed to, in order:
/// every packet, every packet of the state, this id in this state.
pub open spec fn packet_events(state: GameState, id: i32) -> Seq<ClientEvent> {
    seq![ClientEvent::Any, state_event(state), with_packet_id(state_event(state), PacketId::Id(id))]
}

impl ClientEvent {
    /// This event with its packet id replaced.
    pub fn set_packet_id(self, id: PacketId) -> (e: Self)
        ensures
            e == with_packet_id(self, id),
    {
        match self {
            ClientEvent::Any => ClientEvent::Any,
            ClientEvent::Handshaking(_) => ClientEvent::Handshaking(id),
            ClientEvent::Status(_) => ClientEvent::Status(id),
            ClientEvent::Login(_) => ClientEvent::Login(id),
            ClientEvent::Play(_) => ClientEvent::Play(id),
        }
    }

    /// The events a packet with id `id` received in `state` is dispatched
    /// to, in the order their listeners run.
    pub fn for_packet(state: GameState, id: i32) -> (events: Vec<ClientEvent>)
        ensures
            events@ == packet_events(state, id),
    {
        let any_state = ClientEvent::from(state);
        let event = any_state.set_packet_id(PacketId::Id(id));
        let mut events: Vec<ClientEvent> = Vec::new();
        events.push(ClientEvent::Any);
        events.push(any_state);
        events.push(event);
        assert(events@ =~= packet_events(state, id));
        events
    }
}

impl From<GameState> for ClientEvent {
    #[inline]
    fn from(state: GameState) -> (e: Self)
        ensures
            e == state_event(state),
    {
        match state {
            GameState::Handshaking => ClientEvent::Handshaking(PacketId::Any),
            GameState::Status => ClientEvent::Status(PacketId::Any),
            GameState::Login => ClientEvent::Login(PacketId::Any),
            GameState::Play => ClientEvent::Play(PacketId::Any),
        }
    }
}

impl vstd::std_specs::convert::FromSpecImpl<GameState> for ClientEvent {
    open spec fn obeys_from_spec() -> bool {
        true
    }

    open spec fn from_spec(state: GameState) -> Self {
        state_event(state)
    }
}

impl From<i32> for PacketId {
    fn from(id: i32) -> (p: Self)
        ensures
            p == PacketId::Id(id),
    {
        PacketId::Id(id)
    }
}

impl vstd::std_specs::convert::FromSpecImpl<i32> for PacketId {
    open spec fn obeys_from_spec() -> bool {
        true
    }

    open spec fn from_spec(id: i32) -> Self {
        PacketId::Id(id)
    }
}

/// Setting a packet id twice keeps only the second.
pub proof fn lemma_set_packet_id_twice(event: ClientEvent, a: PacketId, b: PacketId)
    ensures
        with_packet_id(with_packet_id(event, a), b) == with_packet_id(event, b),
{
}

/// The event of a state, with any packet id set, still belongs to that
/// state and carries that id; `Any` is never narrowed.
pub proof fn lemma_state_event_id(state: GameState, id: PacketId)
    ensures
        with_packet_id(state_event(state), id) != ClientEvent::Any,
        with_packet_id(state_event(state), PacketId::Any) == state_event(state),
        with_packet_id(ClientEvent::Any, id) == ClientEvent::Any,
{
}

/// The protocol state an event is registered for; `None` for `Any`.
pub open spec fn event_state(event: ClientEvent) -> Option<GameState> {
    match event {
        ClientEvent::Any => None,
        ClientEvent::Handshaking(_) => Some(GameState::Handshaking),
        ClientEvent::Status(_) => Some(GameState::Status),
        ClientEvent::Login(_) => Some(GameState::Login),
        ClientEvent::Play(_) => Some(GameState::Play),
    }
}

/// The packets an event is registered for; `None` for `Any`.
pub open spec fn event_packet_id(event: ClientEvent) -> Option<PacketId> {
    match event {
        ClientEvent::Any => None,
        ClientEvent::Handshaking(id) => Some(id),
        ClientEvent::Status(id) => Some(id),
        ClientEvent::Login(id) => Some(id),
        ClientEvent::Play(id) => Some(id),
    }
}

/// A packet received in `state` with id `id` goes, in this order, to the
/// listeners of every packet, to those of every packet of that same state,
/// and to those of that id in that same state. The event of a state is the
/// one of that state for any packet: handshaking to handshaking, status to
/// status, login to login, play to play.
pub proof fn lemma_events_follow_state(state: GameState, id: i32)
    ensures
        event_state(state_event(state)) == Some(state),
        event_packet_id(state_event(state)) == Some(PacketId::Any),
        packet_events(state, id).len() == 3,
        packet_events(state, id)[0] == ClientEvent::Any,
        event_state(packet_events(state, id)[1]) == Some(state),
        event_packet_id(packet_events(state, id)[1]) == Some(PacketId::Any),
        event_state(packet_events(state, id)[2]) == Some(state),
        event_packet_id(packet_events(state, id)[2]) == Some(PacketId::Id(id)),
        state_event(GameState::Handshaking) == ClientEvent::Handshaking(PacketId::Any),
        state_event(GameState::Status) == ClientEvent::Status(PacketId::Any),
        state_event(GameState::Login) == ClientEvent::Login(PacketId::Any),
        state_event(GameState::Play) == ClientEvent::Play(PacketId::Any),
{
}

} // verus!
