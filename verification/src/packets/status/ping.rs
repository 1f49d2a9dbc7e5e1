use crate::big_endian::{be_bytes, lemma_be_roundtrip, push_be};
use crate::codec::{lemma_be_field_roundtrip, parse_be, read_be};
use crate::error::Result;
use crate::packets::packet::Packet;
use crate::reader::{decode_result, read_result, ByteReader, Parsed};
use vstd::prelude::*;

verus! {

/// A ping or pong of the status exchange: eight bytes the server echoes.
#[derive(Debug, PartialEq, Eq, Clone, Copy)]
pub struct PingData {
    payload: i64,
}

impl View for PingData {
    type V = i64;

    /// The payload.
    closed spec fn view(&self) -> i64 {
        self.payload
    }
}

/// Reading a ping: eight big-endian bytes as an `i64`.
pub open spec fn parse_ping(s: Seq<u8>) -> Parsed<i64> {
    match parse_be(s, 8) {
        Parsed::Done(v, n) => Parsed::Done(((v as u64) as i64), n),
        _ => Parsed::Eof,
    }
}

/// The bytes of a ping: the payload, big-endian.
pub open spec fn ping_bytes(payload: i64) -> Seq<u8> {
    be_bytes((payload as u64) as nat, 8)
}

impl PingData {
    #[inline]
    pub fn new(payload: i64) -> (p: Self)
        ensures
            p@ == payload,
    {
        PingData { payload }
    }

    #[inline]
    pub fn payload(&self) -> (r: i64)
        ensures
            r == self@,
    {
        self.payload
    }

    /// Reads a ping.
    pub fn read(reader: &mut ByteReader) -> (r: Result<Self>)
        ensures
            read_result(r, parse_ping(old(reader)@), old(reader)@, final(reader)@),
    {
        match read_be(reader, 8) {
            Ok(v) => Ok(PingData { payload: (v as u64) as i64 }),
            Err(e) => Err(e),
        }
    }

    /// Reads a ping from the front of `bytes`.
    pub fn try_from(bytes: &Vec<u8>) -> (r: Result<Self>)
        ensures
            decode_result(r, parse_ping(bytes@)),
    {
        let mut reader = ByteReader::from_slice(bytes.as_slice());
        Self::read(&mut reader)
    }

    /// Reads a ping from a packet's payload.
    pub fn try_from_packet(packet: &Packet) -> (r: Result<Self>)
        ensures
            decode_result(r, parse_ping(packet.data@)),
    {
        Self::try_from(packet.data())
    }

    /// The bytes of this ping.
    pub fn bytes(&self) -> (r: Result<Vec<u8>>)
        ensures
            r matches Ok(b) && b@ == ping_bytes(self@),
    {
        let mut bytes: Vec<u8> = Vec::new();
        push_be(&mut bytes, (self.payload as u64) as u128, 8);
        assert(bytes@ =~= ping_bytes(self@));
        Ok(bytes)
    }
}

/// A ping's bytes are read back as the same payload, whatever follows.
pub proof fn lemma_ping_roundtrip(payload: i64, rest: Seq<u8>)
    ensures
        parse_ping(ping_bytes(payload) + rest) == Parsed::Done(payload, 8),
{
    reveal_with_fuel(vstd::arithmetic::power::pow, 9);
    lemma_be_field_roundtrip((payload as u64) as nat, 8, rest);
    assert(((payload as u64) as i64) == payload) by (bit_vector);
}

} // verus!
