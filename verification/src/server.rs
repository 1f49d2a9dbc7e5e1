use crate::codec::string_field;
use crate::error::{Error, IoErrorKind, Result};
use crate::game_state::GameState;
use crate::legacy::legacy_ping::{legacy_pong_bytes, LegacyPong, LegacyPongView};
use crate::packets::handshake::{handshake_bytes, lemma_handshake_roundtrip, parse_handshake, HandshakeData, HandshakeView};
use crate::packets::login::login_start::{lemma_login_start_roundtrip, login_start_bytes, parse_login_start, LoginStartData};
use crate::packets::login::login_success::{login_success_bytes, LoginSuccessData, LoginSuccessView};
use crate::packets::login::set_compression::SetCompressionData;
use crate::packets::packet::{frame_length, new_packet, packet_frame, Packet, PacketView};
use crate::packets::status::ping::{lemma_ping_roundtrip, parse_ping, ping_bytes, PingData};
use crate::reader::{ByteReader, Parsed};
use crate::var_int::{encode_var_i32, WriteVarInt};
use vstd::prelude::*;

verus! {

/// The status this server reports, as serde_json prints it.
pub const STATUS_JSON: &'static str =
    "{\"description\":{\"text\":\"Hello\"},\"players\":{\"max\":420,\"online\":69},\"version\":{\"name\":\"1.18.2\",\"protocol\":758}}";

/// Something the connection loop has to do for a packet.
#[derive(Debug, PartialEq, Eq, Clone)]
pub enum ServerAction {
    /// Write these bytes to the client.
    Send(Vec<u8>),
    /// Close the connection in both directions.
    Shutdown,
    /// Send the packets that start the game (join game, spawn position,
    /// player position).
    SendJoinGame,
}

/// A server action as the specifications see it.
pub ghost enum ActionView {
    Send(Seq<u8>),
    Shutdown,
    SendJoinGame,
}

impl View for ServerAction {
    type V = ActionView;

    open spec fn view(&self) -> ActionView {
        match self {
            ServerAction::Send(b) => ActionView::Send(b@),
            ServerAction::Shutdown => ActionView::Shutdown,
            ServerAction::SendJoinGame => ActionView::SendJoinGame,
        }
    }
}

/// The views of a list of actions.
pub open spec fn actions_view(v: Seq<ServerAction>) -> Seq<ActionView> {
    v.map_values(|a: ServerAction| a@)
}

/// What the server keeps per connection.
#[derive(Debug, PartialEq, Eq, Clone, Copy)]
pub struct ClientData {
    pub state: GameState,
    pub compression_threshold: i32,
}

/// The outcome of handling one packet: the connection's new state and
/// threshold, and the actions (or how handling fails).
pub ghost struct StepView {
    pub state: GameState,
    pub compression_threshold: i32,
    pub outcome: Parsed<Seq<ActionView>>,
}

/// Sending one frame, or failing the way the frame writer fails.
pub open spec fn send_frame(p: PacketView) -> Parsed<Seq<ActionView>> {
    match packet_frame(p) {
        Ok(f) => Parsed::Done(seq![ActionView::Send(f)], 0),
        Err(kind) => Parsed::Corrupt(kind, 0),
    }
}

/// How the server handles packet `p` on a connection in `state` with
/// threshold `t`.
///
/// * Handshaking, id 0: the handshake's requested state becomes the
///   connection's state.
/// * Status, id 0: answer with the status JSON (packet 0).
/// * Status, id 1: echo the ping's payload (packet 1), then close.
/// * Login, id 0: move to play, turn compression off, announce that
///   (packet 3, framed under the old threshold),
///   confirm the login with UUID 0 and the player's name (packet 2), then
///   start the game.
/// * Anything else: nothing.
pub open spec fn handle_step(state: GameState, t: i32, p: PacketView) -> StepView {
    let nothing = Parsed::Done(Seq::<ActionView>::empty(), 0);
    match state {
        GameState::Handshaking => {
            if p.id == 0 {
                match parse_handshake(p.data) {
                    Parsed::Done(h, _) => StepView { state: h.state, compression_threshold: t, outcome: nothing },
                    Parsed::Aborts => StepView { state, compression_threshold: t, outcome: Parsed::Aborts },
                    _ => StepView { state, compression_threshold: t, outcome: Parsed::Eof },
                }
            } else {
                StepView { state, compression_threshold: t, outcome: nothing }
            }
        },
        GameState::Status => {
            if p.id == 0 {
                StepView {
                    state,
                    compression_threshold: t,
                    outcome: send_frame(new_packet(0, string_field(STATUS_JSON@), t)),
                }
            } else if p.id == 1 {
                match parse_ping(p.data) {
                    Parsed::Done(payload, _) => StepView {
                        state,
                        compression_threshold: t,
                        outcome: match packet_frame(new_packet(1, ping_bytes(payload), t)) {
                            Ok(f) => Parsed::Done(seq![ActionView::Send(f), ActionView::Shutdown], 0),
                            Err(kind) => Parsed::Corrupt(kind, 0),
                        },
                    },
                    _ => StepView { state, compression_threshold: t, outcome: Parsed::Eof },
                }
            } else {
                StepView { state, compression_threshold: t, outcome: nothing }
            }
        },
        GameState::Login => {
            if p.id == 0 {
                match parse_login_start(p.data) {
                    Parsed::Done(name, _) => match packet_frame(new_packet(3, encode_var_i32(-1i32), t)) {
                        Err(kind) => StepView {
                            state: GameState::Play,
                            compression_threshold: -1i32,
                            outcome: Parsed::Corrupt(kind, 0),
                        },
                        Ok(a) => match packet_frame(
                            new_packet(2, login_success_bytes(LoginSuccessView { uuid: 0, username: name }), -1i32),
                        ) {
                            Err(kind) => StepView {
                                state: GameState::Play,
                                compression_threshold: -1i32,
                                outcome: Parsed::Corrupt(kind, 0),
                            },
                            Ok(b) => StepView {
                                state: GameState::Play,
                                compression_threshold: -1i32,
                                outcome: Parsed::Done(
                                    seq![ActionView::Send(a), ActionView::Send(b), ActionView::SendJoinGame],
                                    0,
                                ),
                            },
                        },
                    },
                    Parsed::Aborts => StepView { state, compression_threshold: t, outcome: Parsed::Aborts },
                    _ => StepView { state, compression_threshold: t, outcome: Parsed::Eof },
                }
            } else {
                StepView { state, compression_threshold: t, outcome: nothing }
            }
        },
        GameState::Play => StepView { state, compression_threshold: t, outcome: nothing },
    }
}

/// `r` is what handling returns for the outcome `o`: the actions, the
/// matching error, or `None` where a payload cannot be decoded (`Aborts`).
pub open spec fn step_result(r: Option<Result<Vec<ServerAction>>>, o: Parsed<Seq<ActionView>>) -> bool {
    match o {
        Parsed::Done(acts, _) => r matches Some(Ok(v)) && actions_view(v@) == acts,
        Parsed::Eof => r matches Some(Err(e)) && crate::error::eof_error(e),
        Parsed::Corrupt(kind, _) => r matches Some(Err(Error::IoError(k))) && k == kind,
        Parsed::Aborts => r is None,
        _ => false,
    }
}

/// The bytes of the legacy pong this server answers a legacy ping with.
pub open spec fn server_legacy_pong() -> LegacyPongView {
    LegacyPongView {
        protocol: 758,
        version_name: "minecraft-rs"@,
        motd: "Hello"@,
        current_players: 69,
        max_players: 420,
    }
}

fn no_actions() -> (v: Vec<ServerAction>)
    ensures
        actions_view(v@) == Seq::<ActionView>::empty(),
{
    let v: Vec<ServerAction> = Vec::new();
    assert(actions_view(v@) =~= Seq::<ActionView>::empty());
    v
}

fn frame(p: Packet) -> (r: Result<Vec<u8>>)
    ensures
        match packet_frame(p@) {
            Ok(b) => r matches Ok(v) && v@ == b,
            Err(kind) => r matches Err(Error::IoError(k)) && k == kind,
        },
{
    p.bytes()
}

impl ClientData {
    /// A fresh connection: handshaking, compression off.
    pub fn new() -> (c: Self)
        ensures
            c.state == GameState::Handshaking,
            c.compression_threshold == -1,
    {
        ClientData { state: GameState::Handshaking, compression_threshold: -1 }
    }

    /// Whether a connection whose next byte is `first_byte` is sending a
    /// legacy ping: 0xfe while still handshaking.
    pub fn is_legacy_ping(&self, first_byte: u8) -> (b: bool)
        ensures
            b == (first_byte == 0xfe && self.state == GameState::Handshaking),
    {
        first_byte == 0xfe && self.state == GameState::Handshaking
    }

    /// Handles one packet: updates the connection's state and threshold as
    /// `handle_step` says and returns the actions to perform; `None` where
    /// a payload carries a negative length.
    pub fn handle_packet(&mut self, packet: &Packet) -> (r: Option<Result<Vec<ServerAction>>>)
        ensures
            final(self).state == handle_step(old(self).state, old(self).compression_threshold, packet@).state,
            final(self).compression_threshold == handle_step(
                old(self).state,
                old(self).compression_threshold,
                packet@,
            ).compression_threshold,
            step_result(r, handle_step(old(self).state, old(self).compression_threshold, packet@).outcome),
    {
        let t = self.compression_threshold;
        match self.state {
            GameState::Handshaking => {
                if packet.id != 0 {
                    return Some(Ok(no_actions()));
                }
                let mut reader = ByteReader::from_slice(packet.data.as_slice());
                match HandshakeData::parse(&mut reader) {
                    None => None,
                    Some(Err(e)) => Some(Err(e)),
                    Some(Ok(handshake)) => {
                        self.state = handshake.state();
                        Some(Ok(no_actions()))
                    },
                }
            },
            GameState::Status => {
                if packet.id == 0 {
                    let mut data: Vec<u8> = Vec::new();
                    crate::codec::write_string(&mut data, &STATUS_JSON.to_owned());
                    let bytes = match frame(Packet::new(0, data, t)) {
                        Ok(b) => b,
                        Err(e) => return Some(Err(e)),
                    };
                    let mut actions: Vec<ServerAction> = Vec::new();
                    actions.push(ServerAction::Send(bytes));
                    assert(actions_view(actions@) =~= seq![ActionView::Send(bytes@)]);
                    Some(Ok(actions))
                } else if packet.id == 1 {
                    let ping = match PingData::try_from(packet.data()) {
                        Ok(p) => p,
                        Err(e) => return Some(Err(e)),
                    };
                    let data = match ping.bytes() {
                        Ok(b) => b,
                        Err(e) => return Some(Err(e)),
                    };
                    let bytes = match frame(Packet::new(1, data, t)) {
                        Ok(b) => b,
                        Err(e) => return Some(Err(e)),
                    };
                    let mut actions: Vec<ServerAction> = Vec::new();
                    actions.push(ServerAction::Send(bytes));
                    actions.push(ServerAction::Shutdown);
                    assert(actions_view(actions@) =~= seq![ActionView::Send(bytes@), ActionView::Shutdown]);
                    Some(Ok(actions))
                } else {
                    Some(Ok(no_actions()))
                }
            },
            GameState::Login => {
                if packet.id != 0 {
                    return Some(Ok(no_actions()));
                }
                let mut reader = ByteReader::from_slice(packet.data.as_slice());
                let login = match LoginStartData::parse(&mut reader) {
                    None => return None,
                    Some(Err(e)) => return Some(Err(e)),
                    Some(Ok(l)) => l,
                };
                self.state = GameState::Play;
                let data = match SetCompressionData::new(-1).bytes() {
                    Ok(b) => b,
                    Err(e) => return Some(Err(e)),
                };
                let announcement = Packet::new(0x03, data, t);
                self.compression_threshold = -1;
                let first = match frame(announcement) {
                    Ok(b) => b,
                    Err(e) => return Some(Err(e)),
                };
                let data = match LoginSuccessData::new(0, login.username().as_str()).bytes() {
                    Ok(b) => b,
                    Err(e) => return Some(Err(e)),
                };
                let second = match frame(Packet::new(2, data, -1)) {
                    Ok(b) => b,
                    Err(e) => return Some(Err(e)),
                };
                let mut actions: Vec<ServerAction> = Vec::new();
                actions.push(ServerAction::Send(first));
                actions.push(ServerAction::Send(second));
                actions.push(ServerAction::SendJoinGame);
                assert(actions_view(actions@) =~= seq![
                    ActionView::Send(first@),
                    ActionView::Send(second@),
                    ActionView::SendJoinGame,
                ]);
                Some(Ok(actions))
            },
            GameState::Play => Some(Ok(no_actions())),
        }
    }
}

/// The bytes this server answers a legacy ping with.
pub fn legacy_ping_response() -> (r: Result<Vec<u8>>)
    ensures
        r matches Ok(b) && b@ == legacy_pong_bytes(server_legacy_pong()),
{
    LegacyPong::new(758, "minecraft-rs".to_owned(), "Hello".to_owned(), 69, 420).bytes()
}

} // verus!

verus! {

proof fn lemma_no_rest(s: Seq<u8>)
    ensures
        s + Seq::<u8>::empty() == s,
{
    assert(s + Seq::<u8>::empty() =~= s);
}

/// A handshaking connection that receives a handshake packet moves to the
/// state the handshake asks for, and answers nothing.
pub proof fn lemma_handshake_sets_state(h: HandshakeView, t: i32, packet_threshold: i32)
    requires
        vstd::utf8::encode_utf8(h.server_address).len() <= i32::MAX,
    ensures
        handle_step(GameState::Handshaking, t, new_packet(0, handshake_bytes(h), packet_threshold))
            == (StepView {
            state: h.state,
            compression_threshold: t,
            outcome: Parsed::Done(Seq::<ActionView>::empty(), 0),
        }),
{
    lemma_handshake_roundtrip(h, Seq::empty());
    lemma_no_rest(handshake_bytes(h));
}

/// A status connection answers a ping with a pong carrying the same payload
/// (packet 1) and then closes; with compression off the pong is
/// `Packet::new(1, payload bytes, t)` framed as such.
pub proof fn lemma_ping_is_echoed(payload: i64, t: i32, packet_threshold: i32)
    requires
        t < 0,
    ensures
        handle_step(GameState::Status, t, new_packet(1, ping_bytes(payload), packet_threshold)) == (StepView {
            state: GameState::Status,
            compression_threshold: t,
            outcome: Parsed::Done(
                seq![
                    ActionView::Send(packet_frame(new_packet(1, ping_bytes(payload), t))->Ok_0),
                    ActionView::Shutdown,
                ],
                0,
            ),
        }),
{
    lemma_ping_roundtrip(payload, Seq::empty());
    lemma_no_rest(ping_bytes(payload));
}

/// A logging-in connection that receives a login start moves to play with
/// compression off, and answers (compression off) with the set-compression
/// packet, the login success for UUID 0 and the player's name, then the
/// start of the game.
pub proof fn lemma_login_enters_play(name: Seq<char>, t: i32, packet_threshold: i32)
    requires
        t < 0,
        vstd::utf8::encode_utf8(name).len() <= i32::MAX,
    ensures
        handle_step(GameState::Login, t, new_packet(0, login_start_bytes(name), packet_threshold)) == (StepView {
            state: GameState::Play,
            compression_threshold: -1i32,
            outcome: Parsed::Done(
                seq![
                    ActionView::Send(packet_frame(new_packet(3, encode_var_i32(-1i32), t))->Ok_0),
                    ActionView::Send(
                        packet_frame(
                            new_packet(2, login_success_bytes(LoginSuccessView { uuid: 0, username: name }), -1i32),
                        )->Ok_0,
                    ),
                    ActionView::SendJoinGame,
                ],
                0,
            ),
        }),
{
    lemma_login_start_roundtrip(name, Seq::empty());
    lemma_no_rest(login_start_bytes(name));
}

/// Once in play, every packet is ignored: nothing changes and nothing is
/// answered.
pub proof fn lemma_play_ignores(t: i32, p: PacketView)
    ensures
        handle_step(GameState::Play, t, p) == (StepView {
            state: GameState::Play,
            compression_threshold: t,
            outcome: Parsed::Done(Seq::<ActionView>::empty(), 0),
        }),
{
}

/// This server never turns compression on: a connection whose threshold is
/// -1 keeps it at -1 whatever packet it handles, in any state.
pub proof fn lemma_compression_stays_off(state: GameState, p: PacketView)
    ensures
        handle_step(state, -1i32, p).compression_threshold == -1i32,
{
}

} // verus!

verus! {

/// `n` zero bytes.
pub open spec fn zeros(n: nat) -> Seq<u8> {
    Seq::new(n, |i: int| 0u8)
}

/// The name of the only world.
pub const OVERWORLD: &'static str = "minecraft:overworld";

/// The payload of the join game packet, around the two NBT blobs (dimension
/// codec, dimension): entity id 0, not hardcore, game mode and previous game
/// mode 0, one world named `minecraft:overworld`, the blobs, hashed seed 0,
/// 420 players at most, view and simulation distance 2, and four false
/// flags (reduced debug info, respawn screen, debug world, flat world).
pub open spec fn join_game_data(dimension_codec: Seq<u8>, dimension: Seq<u8>) -> Seq<u8> {
    zeros(4) + zeros(3) + encode_var_i32(1) + string_field(OVERWORLD@) + dimension_codec + dimension + zeros(8)
        + encode_var_i32(420) + encode_var_i32(2) + encode_var_i32(2) + zeros(4)
}

/// The payload of the spawn position packet: position 0 (eight bytes) and
/// angle 0.0 (four zero bytes, the big-endian form of that float).
pub open spec fn spawn_position_data() -> Seq<u8> {
    zeros(8) + zeros(4)
}

/// The payload of the player position packet as this server writes it: a
/// VarInt 0, then three zero `i64`s and a zero byte.
pub open spec fn player_position_data() -> Seq<u8> {
    encode_var_i32(0) + zeros(24) + zeros(1)
}

/// The three frames that start the game: join game (0x26), spawn position
/// (0x4b), player position (0x37), under threshold `t`; the kind of the
/// first error when a frame cannot be written.
pub open spec fn join_game_frames_spec(t: i32, dimension_codec: Seq<u8>, dimension: Seq<u8>) -> std::result::Result<
    Seq<Seq<u8>>,
    IoErrorKind,
> {
    match (
        packet_frame(new_packet(0x26, join_game_data(dimension_codec, dimension), t)),
        packet_frame(new_packet(0x4b, spawn_position_data(), t)),
        packet_frame(new_packet(0x37, player_position_data(), t)),
    ) {
        (Ok(a), Ok(b), Ok(c)) => Ok(seq![a, b, c]),
        (Err(kind), _, _) => Err(kind),
        (Ok(_), Err(kind), _) => Err(kind),
        (Ok(_), Ok(_), Err(kind)) => Err(kind),
    }
}

fn push_zeros(out: &mut Vec<u8>, n: usize)
    ensures
        final(out)@ == old(out)@ + zeros(n as nat),
{
    let ghost start = out@;
    let mut i: usize = 0;
    while i < n
        invariant
            0 <= i <= n,
            out@ == start + zeros(i as nat),
        decreases n - i,
    {
        out.push(0);
        i = i + 1;
        assert(out@ =~= start + zeros(i as nat));
    }
}

/// The frames that start the game for a connection with threshold
/// `compression_threshold`, given the serialized dimension codec and
/// dimension NBT blobs.
pub fn join_game_frames(compression_threshold: i32, dimension_codec: &[u8], dimension: &[u8]) -> (r: Result<Vec<Vec<u8>>>)
    ensures
        match join_game_frames_spec(compression_threshold, dimension_codec@, dimension@) {
            Ok(frames) => r matches Ok(v) && v@.len() == 3 && v@[0]@ == frames[0] && v@[1]@ == frames[1]
                && v@[2]@ == frames[2],
            Err(kind) => r matches Err(Error::IoError(k)) && k == kind,
        },
{
    let mut join: Vec<u8> = Vec::new();
    push_zeros(&mut join, 4);
    push_zeros(&mut join, 3);
    let _ = join.write_var_i32(1);
    crate::codec::write_string(&mut join, &OVERWORLD.to_owned());
    crate::text::append_bytes(&mut join, dimension_codec);
    crate::text::append_bytes(&mut join, dimension);
    push_zeros(&mut join, 8);
    let _ = join.write_var_i32(420);
    let _ = join.write_var_i32(2);
    let _ = join.write_var_i32(2);
    push_zeros(&mut join, 4);
    assert(join@ =~= join_game_data(dimension_codec@, dimension@));
    let mut spawn: Vec<u8> = Vec::new();
    push_zeros(&mut spawn, 8);
    push_zeros(&mut spawn, 4);
    assert(spawn@ =~= spawn_position_data());
    let mut position: Vec<u8> = Vec::new();
    let _ = position.write_var_i32(0);
    push_zeros(&mut position, 24);
    push_zeros(&mut position, 1);
    assert(position@ =~= player_position_data());
    let a = match frame(Packet::new(0x26, join, compression_threshold)) {
        Ok(b) => b,
        Err(e) => return Err(e),
    };
    let b = match frame(Packet::new(0x4b, spawn, compression_threshold)) {
        Ok(b) => b,
        Err(e) => return Err(e),
    };
    let c = match frame(Packet::new(0x37, position, compression_threshold)) {
        Ok(b) => b,
        Err(e) => return Err(e),
    };
    let mut frames: Vec<Vec<u8>> = Vec::new();
    frames.push(a);
    frames.push(b);
    frames.push(c);
    Ok(frames)
}

} // verus!

verus! {

/// With compression off, the frames that start the game are laid out as the
/// protocol has them. The join game frame is its length, id 0x26, entity id
/// 0 (four bytes), not hardcore, game mode and previous game mode 0, one
/// world named `minecraft:overworld`, then the dimension codec blob followed
/// by the dimension blob exactly as given, hashed seed 0 (eight bytes), 420
/// players at most, view and simulation distance 2, and four false flags.
/// The spawn position frame (id 0x4b) carries twelve zero bytes, and the
/// player position frame (id 0x37) a VarInt 0 and twenty-five zero bytes.
pub proof fn lemma_join_game_layout(t: i32, dimension_codec: Seq<u8>, dimension: Seq<u8>)
    requires
        t < 0,
        dimension_codec.len() + dimension.len() + string_field(OVERWORLD@).len() + 40 <= i32::MAX,
    ensures
        ({
            let payload = zeros(4) + seq![0u8] + seq![0u8] + seq![0u8] + encode_var_i32(1) + string_field(OVERWORLD@)
                + dimension_codec + dimension + zeros(8) + encode_var_i32(420) + encode_var_i32(2)
                + encode_var_i32(2) + seq![0u8, 0u8, 0u8, 0u8];
            join_game_frames_spec(t, dimension_codec, dimension) == Ok::<Seq<Seq<u8>>, IoErrorKind>(
                seq![
                    encode_var_i32((payload.len() + 1) as i32) + encode_var_i32(0x26) + payload,
                    encode_var_i32(13) + encode_var_i32(0x4b) + zeros(12),
                    encode_var_i32(27) + encode_var_i32(0x37) + encode_var_i32(0) + zeros(25),
                ],
            )
        }),
{
    let payload = zeros(4) + seq![0u8] + seq![0u8] + seq![0u8] + encode_var_i32(1) + string_field(OVERWORLD@)
        + dimension_codec + dimension + zeros(8) + encode_var_i32(420) + encode_var_i32(2) + encode_var_i32(2)
        + seq![0u8, 0u8, 0u8, 0u8];
    let join = join_game_data(dimension_codec, dimension);
    assert(zeros(4) + zeros(3) =~= zeros(4) + seq![0u8] + seq![0u8] + seq![0u8]);
    assert(zeros(4) =~= seq![0u8, 0u8, 0u8, 0u8]);
    assert(join =~= payload);
    assert(zeros(8) + zeros(4) =~= zeros(12));
    assert(spawn_position_data() =~= zeros(12));
    assert(encode_var_i32(0) + zeros(24) + zeros(1) =~= encode_var_i32(0) + zeros(25));
    assert(player_position_data() =~= encode_var_i32(0) + zeros(25));
    assert(encode_var_i32(0).len() == 1);
    assert(crate::var_int::var_len32(0x26i32 as u32) == 1);
    assert(crate::var_int::var_len32(0x4bi32 as u32) == 1);
    assert(crate::var_int::var_len32(0x37i32 as u32) == 1);
    assert(frame_length(join.len(), 0x26) == (payload.len() + 1) as i32);
    assert(frame_length(spawn_position_data().len(), 0x4b) == 13);
    assert(frame_length(player_position_data().len(), 0x37) == 27);
    assert(packet_frame(new_packet(0x26, join, t)) == Ok::<Seq<u8>, IoErrorKind>(
        encode_var_i32((payload.len() + 1) as i32) + encode_var_i32(0x26) + payload,
    ));
    assert(packet_frame(new_packet(0x4b, spawn_position_data(), t)) == Ok::<Seq<u8>, IoErrorKind>(
        encode_var_i32(13) + encode_var_i32(0x4b) + zeros(12),
    ));
    assert(encode_var_i32(27) + encode_var_i32(0x37) + player_position_data() =~= encode_var_i32(27)
        + encode_var_i32(0x37) + encode_var_i32(0) + zeros(25));
    assert(packet_frame(new_packet(0x37, player_position_data(), t)) == Ok::<Seq<u8>, IoErrorKind>(
        encode_var_i32(27) + encode_var_i32(0x37) + encode_var_i32(0) + zeros(25),
    ));
}

} // verus!
