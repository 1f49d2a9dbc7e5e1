use crate::codec::string_field;
use crate::error::{Error, Result};
use crate::json::json_reformat;
use crate::packets::status::status::{parse_json, read_json, write_json};
use crate::reader::{decode_result, read_result, ByteReader, Parsed};
use vstd::prelude::*;

verus! {

/// The reason the server gives when it disconnects a player, as a JSON text
/// (as serde_json prints it).
#[derive(Debug, PartialEq, Eq, Clone)]
pub struct DisconnectData {
    pub reason: String,
}

impl DisconnectData {
    pub fn new(reason: &str) -> (d: Self)
        ensures
            d.reason@ == reason@,
    {
        DisconnectData { reason: reason.to_owned() }
    }

    /// Reads a disconnect payload (a JSON field). The input must not give a
    /// negative byte count.
    pub fn read(reader: &mut ByteReader) -> (r: Result<Self>)
        requires
            !(parse_json(old(reader)@) is Aborts),
        ensures
            match parse_json(old(reader)@) {
                Parsed::Done(reason, n) => r matches Ok(d) && d.reason@ == reason && final(reader)@ == old(reader)@.skip(n as int),
                Parsed::Eof => r matches Err(e) && crate::error::eof_error(e) && final(reader)@.len() == 0,
                Parsed::BadJson(n) => r matches Err(Error::InvalidJson(_)) && final(reader)@ == old(reader)@.skip(n as int),
                _ => r is Err,
            },
    {
        match read_json(reader) {
            Some(Ok(reason)) => Ok(DisconnectData { reason }),
            Some(Err(e)) => Err(e),
            None => Err(Error::VarIntTooBig()),
        }
    }

    /// Reads a disconnect payload from the front of `bytes`.
    pub fn try_from(bytes: &Vec<u8>) -> (r: Result<Self>)
        requires
            !(parse_json(bytes@) is Aborts),
        ensures
            match parse_json(bytes@) {
                Parsed::Done(reason, _) => r matches Ok(d) && d.reason@ == reason,
                Parsed::Eof => r matches Err(e) && crate::error::eof_error(e),
                Parsed::BadJson(_) => r matches Err(Error::InvalidJson(_)),
                _ => r is Err,
            },
    {
        let mut reader = ByteReader::from_slice(bytes.as_slice());
        Self::read(&mut reader)
    }

    /// The bytes of this payload: the compact form of the reason's JSON
    /// value as a string field.
    pub fn bytes(self) -> (r: Result<Vec<u8>>)
        ensures
            match json_reformat(self.reason@) {
                Some(json) => r matches Ok(b) && b@ == string_field(json),
                None => r matches Err(Error::InvalidJson(_)),
            },
    {
        let mut bytes: Vec<u8> = Vec::new();
        match write_json(&mut bytes, &self.reason) {
            Ok(()) => {
                assert(bytes@ =~= string_field(json_reformat(self.reason@)->Some_0));
                Ok(bytes)
            },
            Err(e) => Err(e),
        }
    }

    /// The bytes of this payload (same as `bytes`).
    pub fn to_bytes(self) -> (r: Result<Vec<u8>>)
        ensures
            match json_reformat(self.reason@) {
                Some(json) => r matches Ok(b) && b@ == string_field(json),
                None => r matches Err(Error::InvalidJson(_)),
            },
    {
        self.bytes()
    }
}

} // verus!
