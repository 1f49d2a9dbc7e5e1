use crate::codec::{lemma_string_roundtrip, parse_string, read_string, string_field, write_string};
use crate::error::{Error, Result};
use crate::json::{json_reformat, reformat_json};
use crate::packets::packet::Packet;
use crate::reader::{decode_result, read_result, ByteReader, Parsed};
use vstd::prelude::*;
use vstd::utf8::encode_utf8;

verus! {

/// Reading a JSON field: a string field whose text must parse as JSON; the
/// value is the text serde_json prints for it.
pub open spec fn parse_json(s: Seq<u8>) -> Parsed<Seq<char>> {
    match parse_string(s) {
        Parsed::Done(text, n) => match json_reformat(text) {
            Some(json) => Parsed::Done(json, n),
            None => Parsed::BadJson(n),
        },
        Parsed::Aborts => Parsed::Aborts,
        _ => Parsed::Eof,
    }
}

/// Reads a JSON field, or gives `None` (leaving the reader as it was) where
/// the byte count is negative.
pub fn read_json(reader: &mut ByteReader) -> (r: Option<Result<String>>)
    ensures
        match r {
            None => parse_json(old(reader)@) is Aborts && final(reader)@ == old(reader)@,
            Some(res) => read_result(res, parse_json(old(reader)@), old(reader)@, final(reader)@),
        },
{
    let mut r = reader.fork();
    let text = match read_string(&mut r) {
        None => return None,
        Some(Err(e)) => {
            *reader = r;
            return Some(Err(e));
        },
        Some(Ok(t)) => t,
    };
    *reader = r;
    match reformat_json(text.as_str()) {
        Ok(json) => Some(Ok(json)),
        Err(e) => Some(Err(Error::InvalidJson(e))),
    }
}

/// Appends a JSON field for `text`: the text serde_json prints for the value
/// `text` holds (its compact form), as a string field; an `InvalidJson`
/// error, with nothing appended, when `text` is not JSON.
pub fn write_json(out: &mut Vec<u8>, text: &String) -> (r: Result<()>)
    ensures
        match json_reformat(text@) {
            Some(json) => r is Ok && final(out)@ == old(out)@ + string_field(json),
            None => r matches Err(Error::InvalidJson(_)) && final(out)@ == old(out)@,
        },
{
    match reformat_json(text.as_str()) {
        Ok(json) => {
            write_string(out, &json);
            Ok(())
        },
        Err(e) => Err(Error::InvalidJson(e)),
    }
}

/// A JSON text is read back as itself from its string field, whatever
/// follows, when serde_json prints it as it is and its UTF-8 encoding fits
/// an `i32` count.
pub proof fn lemma_json_roundtrip(json: Seq<char>, rest: Seq<u8>)
    requires
        json_reformat(json) == Some(json),
        encode_utf8(json).len() <= i32::MAX,
    ensures
        parse_json(string_field(json) + rest) == Parsed::Done(json, string_field(json).len()),
{
    lemma_string_roundtrip(json, rest);
}

/// The server's status, as a JSON text (as serde_json prints it).
#[derive(Debug, PartialEq, Eq, Clone)]
pub struct StatusResponse {
    response: String,
}

impl View for StatusResponse {
    type V = Seq<char>;

    /// The JSON text.
    closed spec fn view(&self) -> Seq<char> {
        self.response@
    }
}

impl StatusResponse {
    #[inline]
    pub fn new(response: &str) -> (r: Self)
        ensures
            r@ == response@,
    {
        StatusResponse { response: response.to_owned() }
    }

    #[inline]
    pub fn response(&self) -> (r: &String)
        ensures
            r@ == self@,
    {
        &self.response
    }

    #[inline]
    pub fn into_response(self) -> (r: String)
        ensures
            r@ == self@,
    {
        self.response
    }

    /// Reads a status, or gives `None` (leaving the reader as it was) where
    /// the byte count is negative.
    pub(crate) fn parse(reader: &mut ByteReader) -> (r: Option<Result<Self>>)
        ensures
            match r {
                None => parse_json(old(reader)@) is Aborts && final(reader)@ == old(reader)@,
                Some(res) => read_result(res, parse_json(old(reader)@), old(reader)@, final(reader)@),
            },
    {
        match read_json(reader) {
            None => None,
            Some(Err(e)) => Some(Err(e)),
            Some(Ok(response)) => Some(Ok(StatusResponse { response })),
        }
    }

    /// Reads a status. The input must not give a negative byte count.
    pub fn read(reader: &mut ByteReader) -> (r: Result<Self>)
        requires
            !(parse_json(old(reader)@) is Aborts),
        ensures
            read_result(r, parse_json(old(reader)@), old(reader)@, final(reader)@),
    {
        match Self::parse(reader) {
            Some(res) => res,
            None => Err(Error::VarIntTooBig()),
        }
    }

    /// Reads a status from the front of `bytes`.
    pub fn try_from(bytes: &Vec<u8>) -> (r: Result<Self>)
        requires
            !(parse_json(bytes@) is Aborts),
        ensures
            decode_result(r, parse_json(bytes@)),
    {
        let mut reader = ByteReader::from_slice(bytes.as_slice());
        Self::read(&mut reader)
    }

    /// Reads a status from a packet's payload.
    pub fn try_from_packet(packet: &Packet) -> (r: Result<Self>)
        requires
            !(parse_json(packet.data@) is Aborts),
        ensures
            decode_result(r, parse_json(packet.data@)),
    {
        Self::try_from(packet.data())
    }

    /// The bytes of this status: the compact form of its JSON value as a
    /// string field.
    pub fn bytes(&self) -> (r: Result<Vec<u8>>)
        ensures
            match json_reformat(self@) {
                Some(json) => r matches Ok(b) && b@ == string_field(json),
                None => r matches Err(Error::InvalidJson(_)),
            },
    {
        let mut bytes: Vec<u8> = Vec::new();
        match write_json(&mut bytes, &self.response) {
            Ok(()) => {
                assert(bytes@ =~= string_field(json_reformat(self@)->Some_0));
                Ok(bytes)
            },
            Err(e) => Err(e),
        }
    }
}

} // verus!
