use mcrs_protocol::error::Error;
use mcrs_protocol::game_state::GameState;
use mcrs_protocol::packets::handshake::HandshakeData;
use mcrs_protocol::packets::login::login_start::LoginStartData;
use mcrs_protocol::packets::login::login_success::LoginSuccessData;
use mcrs_protocol::packets::login::set_compression::SetCompressionData;
use mcrs_protocol::packets::packet::Packet;
use mcrs_protocol::packets::play::disconnect::DisconnectData;
use mcrs_protocol::packets::status::ping::PingData;
use mcrs_protocol::packets::status::status::StatusResponse;
use mcrs_protocol::reader::ByteReader;

type Result<T> = std::result::Result<T, Error>;

#[test]
fn test_runs() {
    assert!(true)
}

#[test]
fn packet_gets_constructed() {
    let packet = Packet::new(0, vec![], -1);

    assert_eq!(
        packet,
        Packet {
            length: 1,
            id: 0,
            data: vec![],
            compression_threshold: -1
        }
    );
}

#[test]
fn packet_gets_parsed() -> Result<()> {
    let mut stream = ByteReader::new(vec![1u8, 0u8]);

    let packet = Packet::read(&mut stream, -1)?;

    assert_eq!(
        packet,
        Packet {
            length: 1,
            id: 0,
            data: vec![],
            compression_threshold: -1
        }
    );

    Ok(())
}

#[test]
fn compressed_packet_gets_parsed() -> Result<()> {
    let data: [u8; 14] = [13, 4, 120, 156, 99, 96, 96, 96, 0, 0, 0, 4, 0, 1];
    let mut stream = ByteReader::new(data.to_vec());

    let packet = Packet::read(&mut stream, 1)?;

    assert_eq!(
        packet,
        Packet {
            length: 4,
            id: 0,
            data: vec![0, 0, 0],
            compression_threshold: 1
        }
    );

    Ok(())
}

#[test]
fn packet_gets_serialized() -> Result<()> {
    let packet = Packet::new(0, vec![], -1).bytes()?;

    assert_eq!(packet, vec![1u8, 0u8]);

    Ok(())
}

#[test]
fn compressed_packet_gets_serialized() -> Result<()> {
    let packet = Packet::new(0, vec![0, 0, 0], 1).bytes()?;

    assert_eq!(packet, [13, 4, 120, 156, 99, 96, 96, 96, 0, 0, 0, 4, 0, 1]);

    Ok(())
}

#[test]
fn handshake_gets_deserialized() -> Result<()> {
    let data = vec![
        246u8, 5, 9, 108, 111, 99, 97, 108, 104, 111, 115, 116, 99, 221, 1,
    ];

    let handshake = HandshakeData::try_from(&data)?;

    assert_eq!(
        handshake,
        HandshakeData::new(758, "localhost", 25565, GameState::Status)
    );

    Ok(())
}

#[test]
fn handshake_gets_serialized() -> Result<()> {
    let handshake = HandshakeData::new(758, "localhost", 25565, GameState::Status).bytes()?;

    assert_eq!(
        handshake,
        vec![246u8, 5, 9, 108, 111, 99, 97, 108, 104, 111, 115, 116, 99, 221, 1]
    );

    Ok(())
}

#[test]
fn login_start_login_start_gets_serialized() -> Result<()> {
    let data = vec![11u8, 109, 97, 114, 101, 107, 118, 111, 115, 112, 101, 108];

    let login = LoginStartData::try_from(&data)?;

    assert_eq!(login, LoginStartData::new("marekvospel"));

    Ok(())
}

#[test]
fn login_start_login_start_gets_deserialized() -> Result<()> {
    let login = LoginStartData::new("marekvospel");

    assert_eq!(
        login.bytes()?,
        vec![11u8, 109, 97, 114, 101, 107, 118, 111, 115, 112, 101, 108]
    );

    Ok(())
}

#[test]
fn login_success_login_start_gets_serialized() -> Result<()> {
    let data = vec![
        0u8, 0, 0, 0, 0, 0, 0, 0, 0, 0, 0, 0, 0, 0, 0, 0, 11, 109, 97, 114, 101, 107, 118, 111, 115,
        112, 101, 108,
    ];

    let login = LoginSuccessData::try_from(&data)?;

    assert_eq!(login, LoginSuccessData::new(0, "marekvospel"));

    Ok(())
}

#[test]
fn login_success_login_start_gets_deserialized() -> Result<()> {
    let login = LoginSuccessData::new(0, "marekvospel");

    assert_eq!(
        login.bytes()?,
        vec![
            0u8, 0, 0, 0, 0, 0, 0, 0, 0, 0, 0, 0, 0, 0, 0, 0, 11, 109, 97, 114, 101, 107, 118, 111,
            115, 112, 101, 108
        ]
    );

    Ok(())
}

#[test]
fn set_compression_deserialize() -> Result<()> {
    let data = vec![128u8, 1];

    let compression = SetCompressionData::try_from(&data)?;

    assert_eq!(compression, SetCompressionData::new(128));

    Ok(())
}

#[test]
fn set_compression_serialize() -> Result<()> {
    let compression = SetCompressionData::new(128);

    assert_eq!(compression.bytes()?, vec![128u8, 1]);

    Ok(())
}

#[test]
fn disconnect_gets_deserialized() -> Result<()> {
    let data = vec![
        13u8, 123, 34, 116, 101, 120, 116, 34, 58, 34, 72, 105, 34, 125,
    ];

    let disconnect = DisconnectData::try_from(&data)?;

    assert_eq!(disconnect, DisconnectData::new("{\"text\":\"Hi\"}"));

    Ok(())
}

#[test]
fn disconnect_gets_serialized() -> Result<()> {
    let disconnect = DisconnectData::new("{\"text\":\"Hi\"}");

    assert_eq!(
        disconnect.bytes()?,
        vec![13u8, 123, 34, 116, 101, 120, 116, 34, 58, 34, 72, 105, 34, 125]
    );

    Ok(())
}

#[test]
fn ping_gets_deserialized() -> Result<()> {
    let data = vec![0u8, 0, 0, 0, 0, 0, 5, 57];

    let ping = PingData::try_from(&data)?;

    assert_eq!(ping, PingData::new(1337));

    Ok(())
}

#[test]
fn ping_gets_serialized() -> Result<()> {
    let status = PingData::new(1337);

    assert_eq!(status.bytes()?, vec![0u8, 0, 0, 0, 0, 0, 5, 57]);

    Ok(())
}

#[test]
fn status_gets_deserialized() -> Result<()> {
    let data = vec![
        28u8, 123, 34, 118, 101, 114, 115, 105, 111, 110, 34, 58, 123, 34, 112, 114, 111, 116, 111,
        99, 111, 108, 34, 58, 55, 53, 56, 125, 125,
    ];

    let status = StatusResponse::try_from(&data)?;

    assert_eq!(
        status,
        StatusResponse::new("{\"version\":{\"protocol\":758}}")
    );

    Ok(())
}

#[test]
fn status_gets_serialized() -> Result<()> {
    let status = StatusResponse::new("{\"version\":{\"protocol\":758}}");

    assert_eq!(
        status.bytes()?,
        vec![
            28u8, 123, 34, 118, 101, 114, 115, 105, 111, 110, 34, 58, 123, 34, 112, 114, 111, 116,
            111, 99, 111, 108, 34, 58, 55, 53, 56, 125, 125,
        ]
    );

    Ok(())
}
