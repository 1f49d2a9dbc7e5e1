use crate::error::Result;
use crate::packets::packet::Packet;
use crate::reader::{decode_result, read_result, ByteReader, Parsed};
use crate::var_int::{encode_var_i32, lemma_var_i32_roundtrip, read_var32, var_len32, VarIntRead, WriteVarInt};
use vstd::prelude::*;

verus! {

/// The server's announcement of the compression threshold from now on.
#[derive(Debug, PartialEq, Eq, Clone, Copy)]
pub struct SetCompressionData {
    compression_threshold: i32,
}

impl View for SetCompressionData {
    type V = i32;

    /// The announced threshold.
    closed spec fn view(&self) -> i32 {
        self.compression_threshold
    }
}

/// Reading a set-compression payload: one VarInt.
pub open spec fn parse_set_compression(s: Seq<u8>) -> Parsed<i32> {
    match read_var32(s) {
        None => Parsed::Eof,
        Some((v, n)) => Parsed::Done(v, n),
    }
}

impl SetCompressionData {
    #[inline]
    pub fn new(compression_threshold: i32) -> (c: Self)
        ensures
            c@ == compression_threshold,
    {
        SetCompressionData { compression_threshold }
    }

    #[inline]
    pub fn compression_threshold(&self) -> (r: i32)
        ensures
            r == self@,
    {
        self.compression_threshold
    }

    /// Reads the threshold.
    pub fn read(reader: &mut ByteReader) -> (r: Result<Self>)
        ensures
            read_result(r, parse_set_compression(old(reader)@), old(reader)@, final(reader)@),
    {
        proof {
            crate::var_int::lemma_read_var32_bound(reader@);
        }
        match reader.read_var_i32() {
            Ok(threshold) => Ok(SetCompressionData { compression_threshold: threshold }),
            Err(e) => Err(e),
        }
    }

    /// Reads the threshold from the front of `bytes`.
    pub fn try_from(bytes: &Vec<u8>) -> (r: Result<Self>)
        ensures
            decode_result(r, parse_set_compression(bytes@)),
    {
        let mut reader = ByteReader::from_slice(bytes.as_slice());
        Self::read(&mut reader)
    }

    /// Reads the threshold from a packet's payload.
    pub fn try_from_packet(packet: &Packet) -> (r: Result<Self>)
        ensures
            decode_result(r, parse_set_compression(packet.data@)),
    {
        Self::try_from(packet.data())
    }

    /// The bytes of this payload: the threshold as a VarInt.
    pub fn bytes(self) -> (r: Result<Vec<u8>>)
        ensures
            r matches Ok(b) && b@ == encode_var_i32(self@),
    {
        let mut bytes: Vec<u8> = Vec::new();
        let _ = bytes.write_var_i32(self.compression_threshold);
        assert(bytes@ =~= encode_var_i32(self@));
        Ok(bytes)
    }
}

/// A threshold's bytes are read back as the same threshold, whatever follows.
pub proof fn lemma_set_compression_roundtrip(threshold: i32, rest: Seq<u8>)
    ensures
        parse_set_compression(encode_var_i32(threshold) + rest) == Parsed::Done(threshold, var_len32(threshold as u32)),
{
    lemma_var_i32_roundtrip(threshold, rest);
}

} // verus!
