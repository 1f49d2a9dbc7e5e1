use crate::big_endian::{be_bytes, push_be};
use crate::codec::{lemma_be_field_roundtrip, lemma_string_roundtrip, parse_be, parse_string, read_be, read_string, string_field, write_string};
use crate::error::Result;
use crate::game_state::{game_state_number, game_state_of, GameState};
use crate::packets::packet::Packet;
use crate::reader::{decode_result, read_result, ByteReader, Parsed};
use crate::var_int::{encode_var_i32, lemma_read_var32_bound, lemma_var_i32_roundtrip, read_var32, VarIntRead, WriteVarInt};
use vstd::prelude::*;
use vstd::utf8::encode_utf8;

verus! {

/// A handshake as the specifications see it.
pub ghost struct HandshakeView {
    pub protocol_version: i32,
    pub server_address: Seq<char>,
    pub server_port: u16,
    pub state: GameState,
}

/// The first packet of a connection: protocol version, the address and
/// port the client dialled, and the state it asks for next.
#[derive(Debug, PartialEq, Eq, Clone)]
pub struct HandshakeData {
    protocol_version: i32,
    server_address: String,
    server_port: u16,
    state: GameState,
}

impl View for HandshakeData {
    type V = HandshakeView;

    closed spec fn view(&self) -> HandshakeView {
        HandshakeView {
            protocol_version: self.protocol_version,
            server_address: self.server_address@,
            server_port: self.server_port,
            state: self.state,
        }
    }
}

/// Reading a handshake: protocol version (VarInt), address (string field),
/// port (two bytes, big-endian), next state (VarInt).
pub open spec fn parse_handshake(s: Seq<u8>) -> Parsed<HandshakeView> {
    match read_var32(s) {
        None => Parsed::Eof,
        Some((protocol_version, n1)) => {
            let s1 = s.skip(n1 as int);
            match parse_string(s1) {
                Parsed::Done(address, n2) => {
                    let s2 = s1.skip(n2 as int);
                    match parse_be(s2, 2) {
                        Parsed::Done(port, n3) => {
                            let s3 = s2.skip(n3 as int);
                            match read_var32(s3) {
                                None => Parsed::Eof,
                                Some((next, n4)) => Parsed::Done(
                                    HandshakeView {
                                        protocol_version,
                                        server_address: address,
                                        server_port: port as u16,
                                        state: game_state_of(next),
                                    },
                                    n1 + n2 + n3 + n4,
                                ),
                            }
                        },
                        _ => Parsed::Eof,
                    }
                },
                Parsed::Aborts => Parsed::Aborts,
                _ => Parsed::Eof,
            }
        },
    }
}

/// The bytes of a handshake.
pub open spec fn handshake_bytes(h: HandshakeView) -> Seq<u8> {
    encode_var_i32(h.protocol_version) + string_field(h.server_address) + be_bytes(h.server_port as nat, 2)
        + encode_var_i32(game_state_number(h.state))
}

impl HandshakeData {
    #[inline]
    pub fn new(protocol_version: i32, server_address: &str, server_port: u16, state: GameState) -> (h: Self)
        ensures
            h@ == (HandshakeView { protocol_version, server_address: server_address@, server_port, state }),
    {
        HandshakeData { protocol_version, server_address: server_address.to_owned(), server_port, state }
    }

    #[inline]
    pub fn protocol_version(&self) -> (r: i32)
        ensures
            r == self@.protocol_version,
    {
        self.protocol_version
    }

    #[inline]
    pub fn server_address(&self) -> (r: &String)
        ensures
            r@ == self@.server_address,
    {
        &self.server_address
    }

    #[inline]
    pub fn server_port(&self) -> (r: u16)
        ensures
            r == self@.server_port,
    {
        self.server_port
    }

    #[inline]
    pub fn state(&self) -> (r: GameState)
        ensures
            r == self@.state,
    {
        self.state
    }

    /// Reads a handshake, or gives `None` (leaving the reader as it was)
    /// where the address length is negative.
    pub(crate) fn parse(reader: &mut ByteReader) -> (r: Option<Result<Self>>)
        ensures
            match r {
                None => parse_handshake(old(reader)@) is Aborts && final(reader)@ == old(reader)@,
                Some(res) => read_result(res, parse_handshake(old(reader)@), old(reader)@, final(reader)@),
            },
    {
        let ghost s = reader@;
        let mut r = reader.fork();
        let protocol_version = match r.read_var_i32() {
            Ok(v) => v,
            Err(e) => {
                *reader = r;
                return Some(Err(e));
            },
        };
        proof {
            lemma_read_var32_bound(s);
        }
        let ghost s1 = r@;
        let server_address = match read_string(&mut r) {
            None => return None,
            Some(Err(e)) => {
                *reader = r;
                return Some(Err(e));
            },
            Some(Ok(a)) => a,
        };
        let ghost s2 = r@;
        let server_port = match read_be(&mut r, 2) {
            Ok(p) => p as u16,
            Err(e) => {
                *reader = r;
                return Some(Err(e));
            },
        };
        let ghost s3 = r@;
        let next = match r.read_var_i32() {
            Ok(v) => v,
            Err(e) => {
                *reader = r;
                return Some(Err(e));
            },
        };
        proof {
            lemma_read_var32_bound(s3);
            let n1 = (s.len() - s1.len()) as nat;
            let n2 = (s1.len() - s2.len()) as nat;
            let n3 = (s2.len() - s3.len()) as nat;
            let n4 = (s3.len() - r@.len()) as nat;
            assert(r@ =~= s.skip((n1 + n2 + n3 + n4) as int));
        }
        *reader = r;
        Some(Ok(HandshakeData { protocol_version, server_address, server_port, state: GameState::from(next) }))
    }

    /// Reads a handshake. The input must not give a negative address length.
    pub fn read(reader: &mut ByteReader) -> (r: Result<Self>)
        requires
            !(parse_handshake(old(reader)@) is Aborts),
        ensures
            read_result(r, parse_handshake(old(reader)@), old(reader)@, final(reader)@),
    {
        match Self::parse(reader) {
            Some(res) => res,
            None => Err(crate::error::Error::VarIntTooBig()),
        }
    }

    /// Reads a handshake from the front of `bytes`.
    pub fn try_from(bytes: &Vec<u8>) -> (r: Result<Self>)
        requires
            !(parse_handshake(bytes@) is Aborts),
        ensures
            decode_result(r, parse_handshake(bytes@)),
    {
        let mut reader = ByteReader::from_slice(bytes.as_slice());
        Self::read(&mut reader)
    }

    /// Reads a handshake from a packet's payload.
    pub fn try_from_packet(packet: &Packet) -> (r: Result<Self>)
        requires
            !(parse_handshake(packet.data@) is Aborts),
        ensures
            decode_result(r, parse_handshake(packet.data@)),
    {
        Self::try_from(packet.data())
    }

    /// The bytes of this handshake.
    pub fn bytes(&self) -> (r: Result<Vec<u8>>)
        ensures
            r matches Ok(b) && b@ == handshake_bytes(self@),
    {
        let mut bytes: Vec<u8> = Vec::new();
        let _ = bytes.write_var_i32(self.protocol_version);
        write_string(&mut bytes, &self.server_address);
        push_be(&mut bytes, self.server_port as u128, 2);
        let _ = bytes.write_var_i32(self.state.as_i32());
        assert(bytes@ =~= handshake_bytes(self@));
        Ok(bytes)
    }
}

/// A handshake's bytes are read back as the same handshake and take exactly
/// those bytes, whatever follows, when the address's UTF-8 encoding fits an
/// `i32` count.
pub proof fn lemma_handshake_roundtrip(h: HandshakeView, rest: Seq<u8>)
    requires
        encode_utf8(h.server_address).len() <= i32::MAX,
    ensures
        parse_handshake(handshake_bytes(h) + rest) == Parsed::Done(h, handshake_bytes(h).len()),
{
    let a = encode_var_i32(h.protocol_version);
    let b = string_field(h.server_address);
    let c = be_bytes(h.server_port as nat, 2);
    let d = encode_var_i32(game_state_number(h.state));
    let t = handshake_bytes(h) + rest;
    assert(t =~= a + (b + (c + (d + rest))));
    lemma_var_i32_roundtrip(h.protocol_version, b + (c + (d + rest)));
    assert(t.skip(a.len() as int) =~= b + (c + (d + rest)));
    lemma_string_roundtrip(h.server_address, c + (d + rest));
    assert((b + (c + (d + rest))).skip(b.len() as int) =~= c + (d + rest));
    reveal_with_fuel(vstd::arithmetic::power::pow, 3);
    crate::big_endian::lemma_be_roundtrip(h.server_port as nat, 2);
    lemma_be_field_roundtrip(h.server_port as nat, 2, d + rest);
    assert((c + (d + rest)).skip(2) =~= d + rest);
    lemma_var_i32_roundtrip(game_state_number(h.state), rest);
}

} // verus!
