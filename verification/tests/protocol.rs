use mcrs_protocol::codec::write_string;
use mcrs_protocol::error::{Error, IoErrorKind};
use mcrs_protocol::events::{ClientEvent, PacketId};
use mcrs_protocol::game_state::GameState;
use mcrs_protocol::legacy::legacy_ping::{LegacyPing, LegacyPingData, LegacyPong, ToU16, ToU8};
use mcrs_protocol::packets::handshake::HandshakeData;
use mcrs_protocol::packets::login::login_start::LoginStartData;
use mcrs_protocol::packets::packet::Packet;
use mcrs_protocol::packets::play::chat::ChatData;
use mcrs_protocol::packets::play::disconnect::DisconnectData;
use mcrs_protocol::packets::status::ping::PingData;
use mcrs_protocol::packets::status::status::StatusResponse;
use mcrs_protocol::reader::ByteReader;
use mcrs_protocol::server::{join_game_frames, legacy_ping_response, ClientData, ServerAction, STATUS_JSON};

fn utf16_bytes(text: &str) -> Vec<u8> {
    let mut out = Vec::new();
    for unit in text.encode_utf16() {
        out.push((unit >> 8) as u8);
        out.push((unit & 0xff) as u8);
    }
    out
}

#[test]
fn packet_with_negative_payload_size_is_refused() {
    let mut reader = ByteReader::new(vec![0, 5]);
    assert!(Packet::read_checked(&mut reader, -1).is_none());
    assert_eq!(reader.remaining(), 2);
}

#[test]
fn packet_under_threshold_is_framed_uncompressed() {
    let bytes = Packet::new(0, vec![1, 2], 5).bytes().unwrap();
    assert_eq!(bytes, vec![4, 0, 0, 1, 2]);
    let mut reader = ByteReader::new(bytes);
    let packet = Packet::read_checked(&mut reader, 5).unwrap().unwrap();
    assert_eq!(packet.id(), 0);
    assert_eq!(packet.data(), &vec![1, 2]);
    assert_eq!(packet.compression_threshold(), 5);
    assert_eq!(reader.remaining(), 0);
}

#[test]
fn packet_over_threshold_round_trips_through_zlib() {
    let data = vec![7u8; 50];
    let bytes = Packet::new(3, data.clone(), 1).bytes().unwrap();
    assert_ne!(bytes[1], 0);
    assert!(bytes.len() < 50);
    let mut reader = ByteReader::new(bytes);
    let packet = Packet::read_checked(&mut reader, 1).unwrap().unwrap();
    assert_eq!(packet.id(), 3);
    assert_eq!(packet.data(), &data);
    assert_eq!(reader.remaining(), 0);
}

#[test]
fn packet_with_corrupt_zlib_payload_is_invalid_input() {
    let mut reader = ByteReader::new(vec![3, 5, 1, 2]);
    let result = Packet::read_checked(&mut reader, 0).unwrap();
    assert!(matches!(result, Err(Error::IoError(IoErrorKind::InvalidInput))));
    assert_eq!(reader.remaining(), 0);
    let mut reader = ByteReader::new(vec![3, 5, 1, 2, 9, 9]);
    let result = Packet::read_checked(&mut reader, 0).unwrap();
    assert!(matches!(result, Err(Error::IoError(IoErrorKind::InvalidInput))));
    assert_eq!(reader.remaining(), 2);
}

#[test]
fn packet_with_truncated_zlib_payload_is_eof() {
    let mut reader = ByteReader::new(vec![3, 5, 0x78, 0x9c, 7]);
    let result = Packet::read_checked(&mut reader, 0).unwrap();
    assert!(matches!(result, Err(Error::IoError(IoErrorKind::UnexpectedEof))));
    assert_eq!(reader.remaining(), 1);
}

#[test]
fn packet_short_frame_takes_the_rest() {
    let mut reader = ByteReader::new(vec![5, 0, 1]);
    assert!(Packet::read_checked(&mut reader, -1).unwrap().is_err());
    assert_eq!(reader.remaining(), 0);
}

#[test]
fn bad_json_takes_its_field() {
    let mut bytes = Vec::new();
    write_string(&mut bytes, &"{not json".to_string());
    bytes.push(42);
    let mut reader = ByteReader::new(bytes);
    assert!(matches!(StatusResponse::read(&mut reader), Err(Error::InvalidJson(_))));
    assert_eq!(reader.remaining(), 1);
}

#[test]
fn packet_short_frame_is_eof() {
    let mut reader = ByteReader::new(vec![5, 0, 1]);
    let result = Packet::read_checked(&mut reader, -1).unwrap();
    assert!(matches!(result, Err(Error::IoError(IoErrorKind::UnexpectedEof))));
}

#[test]
fn game_state_numbers() {
    assert_eq!(GameState::from(0), GameState::Handshaking);
    assert_eq!(GameState::from(1), GameState::Status);
    assert_eq!(GameState::from(2), GameState::Login);
    assert_eq!(GameState::from(3), GameState::Play);
    assert_eq!(GameState::from(7), GameState::Handshaking);
    assert_eq!(GameState::Login.as_i32(), 2);
    for state in [GameState::Handshaking, GameState::Status, GameState::Login, GameState::Play] {
        assert_eq!(GameState::from(state.as_i32()), state);
    }
}

#[test]
fn handshake_round_trip() {
    let bytes = HandshakeData::new(758, "localhost", 25565, GameState::Login).bytes().unwrap();
    let handshake = HandshakeData::try_from(&bytes).unwrap();
    assert_eq!(handshake.protocol_version(), 758);
    assert_eq!(handshake.server_address(), "localhost");
    assert_eq!(handshake.server_port(), 25565);
    assert_eq!(handshake.state(), GameState::Login);
}

#[test]
fn chat_round_trip_with_negative_position() {
    let bytes = ChatData::new("{\"text\":\"hi\"}", -1, 7).bytes().unwrap();
    let chat = ChatData::try_from(&bytes).unwrap();
    assert_eq!(chat.message(), "{\"text\":\"hi\"}");
    assert_eq!(chat.position(), -1);
    assert_eq!(chat.uuid(), 7);
}

#[test]
fn status_json_is_normalised() {
    let bytes = StatusResponse::new("{\"b\": 1, \"a\": 2}").bytes().unwrap();
    let mut expected = vec![13];
    expected.extend(b"{\"a\":2,\"b\":1}");
    assert_eq!(bytes, expected);
    let status = StatusResponse::try_from(&bytes).unwrap();
    assert_eq!(status.response(), "{\"a\":2,\"b\":1}");
}

#[test]
fn json_payloads_are_written_in_compact_form() {
    let bytes = ChatData::new("{ \"text\" : \"hi\" }", 0, 0).bytes().unwrap();
    assert_eq!(&bytes[..14], b"\x0d{\"text\":\"hi\"}");
    let bytes = DisconnectData::new("[1, 2]").to_bytes().unwrap();
    assert_eq!(bytes, b"\x05[1,2]".to_vec());
}

#[test]
fn status_canonical_json_round_trips() {
    let json = "{\"a\":[1,2],\"b\":\"x\"}";
    let bytes = StatusResponse::new(json).bytes().unwrap();
    let mut reader = ByteReader::new(bytes);
    let status = StatusResponse::read(&mut reader).unwrap();
    assert_eq!(status.response(), json);
    assert_eq!(reader.remaining(), 0);
}

#[test]
fn status_invalid_json_is_refused() {
    let mut bytes = Vec::new();
    write_string(&mut bytes, &"{not json".to_string());
    assert!(matches!(StatusResponse::try_from(&bytes), Err(Error::InvalidJson(_))));
    assert!(matches!(StatusResponse::new("{not json").bytes(), Err(Error::InvalidJson(_))));
    assert!(matches!(DisconnectData::new("{").to_bytes(), Err(Error::InvalidJson(_))));
    assert!(matches!(ChatData::new("}", 0, 0).bytes(), Err(Error::InvalidJson(_))));
}

#[test]
fn events_for_a_packet() {
    let events = ClientEvent::for_packet(GameState::Status, 1);
    assert_eq!(
        events,
        vec![
            ClientEvent::Any,
            ClientEvent::Status(PacketId::Any),
            ClientEvent::Status(PacketId::Id(1)),
        ]
    );
    assert_eq!(ClientEvent::Any.set_packet_id(PacketId::Id(3)), ClientEvent::Any);
    assert_eq!(ClientEvent::from(GameState::Play), ClientEvent::Play(PacketId::Any));
    assert_eq!(PacketId::from(9), PacketId::Id(9));
    assert_eq!(
        ClientEvent::Login(PacketId::Any).set_packet_id(PacketId::Id(1)).set_packet_id(PacketId::Id(2)),
        ClientEvent::Login(PacketId::Id(2))
    );
}

#[test]
fn legacy_ping_payload_only() {
    let mut reader = ByteReader::new(vec![0xfe, 1]);
    let ping = LegacyPing::read_checked(&mut reader).unwrap().unwrap();
    assert_eq!(ping.payload(), 1);
    assert_eq!(ping.packet_identifier(), &None);
    assert_eq!(ping.host(), &None);
    assert_eq!(ping.data(), &None);
}

#[test]
fn legacy_ping_full() {
    let mut bytes = vec![0xfe, 1, 0xfa, 0, 2];
    bytes.extend(utf16_bytes("AB"));
    bytes.extend([0, 1, 7]);
    let mut reader = ByteReader::new(bytes);
    let ping = LegacyPing::read_checked(&mut reader).unwrap().unwrap();
    assert_eq!(ping.payload(), 1);
    assert_eq!(ping.packet_identifier(), &Some(0xfa));
    assert_eq!(ping.host(), &Some("AB".to_string()));
    assert_eq!(ping.data(), &Some(vec![7]));
    assert_eq!(reader.remaining(), 0);
    let data = LegacyPingData::try_from(&ping).unwrap();
    assert_eq!(data.protocol(), 0);
    assert_eq!(data.hostname(), "");
    assert_eq!(data.port(), 0);
}

#[test]
fn legacy_ping_errors() {
    let mut reader = ByteReader::new(vec![0]);
    match LegacyPing::read_checked(&mut reader).unwrap() {
        Err(Error::LegacyError(message)) => assert_eq!(message, "Only legacy ping (0xfe) is allowed."),
        other => panic!("unexpected {:?}", other),
    }
    assert_eq!(reader.remaining(), 0);
    let mut reader = ByteReader::new(vec![0, 0xfe]);
    assert!(matches!(LegacyPing::read_checked(&mut reader).unwrap(), Err(Error::LegacyError(_))));
    assert_eq!(reader.remaining(), 1);
    let mut reader = ByteReader::new(vec![0xfe]);
    assert!(matches!(
        LegacyPing::read_checked(&mut reader).unwrap(),
        Err(Error::IoError(IoErrorKind::UnexpectedEof))
    ));
    let mut reader = ByteReader::new(vec![0xfe, 1, 0xfa, 0xff, 0xff]);
    assert!(LegacyPing::read_checked(&mut reader).is_none());
    assert_eq!(reader.remaining(), 5);
}

#[test]
fn legacy_units_conversions() {
    assert_eq!(vec![0u8, 0x41, 1, 2, 9].to_u16().unwrap(), vec![0x41u16, 0x0102]);
    assert_eq!(vec![0x41u16, 0x0102].to_u8().unwrap(), vec![0, 0x41, 1, 2]);
}

#[test]
fn legacy_pong_bytes() {
    let pong = LegacyPong::new(1, "a".to_string(), "b".to_string(), 2, 3);
    assert_eq!(
        pong.bytes().unwrap(),
        vec![255, 0, 12, 0, 167, 0, 49, 0, 0, 0, 49, 0, 0, 0, 97, 0, 0, 0, 98, 0, 0, 0, 50, 0, 0, 0, 51]
    );
}

#[test]
fn server_legacy_ping_response() {
    let mut expected = vec![255, 0, 32];
    expected.extend(utf16_bytes("§1\u{0}758\u{0}minecraft-rs\u{0}Hello\u{0}69\u{0}420"));
    assert_eq!(legacy_ping_response().unwrap(), expected);
}

#[test]
fn server_detects_legacy_ping() {
    let client = ClientData::new();
    assert!(client.is_legacy_ping(0xfe));
    assert!(!client.is_legacy_ping(0x10));
    let playing = ClientData { state: GameState::Play, compression_threshold: -1 };
    assert!(!playing.is_legacy_ping(0xfe));
}

#[test]
fn server_status_flow() {
    let mut client = ClientData::new();
    let handshake = HandshakeData::new(758, "localhost", 25565, GameState::Status).bytes().unwrap();
    let actions = client.handle_packet(&Packet::new(0, handshake, -1)).unwrap().unwrap();
    assert!(actions.is_empty());
    assert_eq!(client.state, GameState::Status);

    let actions = client.handle_packet(&Packet::new(0, vec![], -1)).unwrap().unwrap();
    let mut expected = vec![111, 0, 109];
    expected.extend(STATUS_JSON.as_bytes());
    assert_eq!(actions, vec![ServerAction::Send(expected)]);

    let ping = PingData::new(42).bytes().unwrap();
    let actions = client.handle_packet(&Packet::new(1, ping, -1)).unwrap().unwrap();
    assert_eq!(
        actions,
        vec![ServerAction::Send(vec![9, 1, 0, 0, 0, 0, 0, 0, 0, 42]), ServerAction::Shutdown]
    );
}

#[test]
fn server_login_flow() {
    let mut client = ClientData { state: GameState::Login, compression_threshold: -1 };
    let login = LoginStartData::new("ab").bytes().unwrap();
    let actions = client.handle_packet(&Packet::new(0, login, -1)).unwrap().unwrap();
    let mut success = vec![20, 2];
    success.extend([0u8; 16]);
    success.extend([2, 97, 98]);
    assert_eq!(
        actions,
        vec![
            ServerAction::Send(vec![6, 3, 255, 255, 255, 255, 15]),
            ServerAction::Send(success),
            ServerAction::SendJoinGame,
        ]
    );
    assert_eq!(client.state, GameState::Play);
    assert_eq!(client.compression_threshold, -1);
    let actions = client.handle_packet(&Packet::new(5, vec![1, 2, 3], -1)).unwrap().unwrap();
    assert!(actions.is_empty());
}

#[test]
fn server_join_game_frames() {
    let frames = join_game_frames(-1, &[], &[]).unwrap();
    let mut join = vec![45, 38, 0, 0, 0, 0, 0, 0, 0, 1, 19];
    join.extend(b"minecraft:overworld");
    join.extend([0u8; 8]);
    join.extend([164, 3, 2, 2, 0, 0, 0, 0]);
    let mut spawn = vec![13, 75];
    spawn.extend([0u8; 12]);
    let mut position = vec![27, 55];
    position.extend([0u8; 26]);
    assert_eq!(frames, vec![join, spawn, position]);
}
