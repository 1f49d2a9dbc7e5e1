use crate::codec::{lemma_string_roundtrip, parse_string, read_string, string_field, write_string};
use crate::error::{Error, Result};
use crate::packets::packet::Packet;
use crate::reader::{decode_result, read_result, ByteReader, Parsed};
use vstd::prelude::*;
use vstd::utf8::encode_utf8;

verus! {

/// The client's login request: the player's name.
#[derive(Debug, PartialEq, Eq, Clone)]
pub struct LoginStartData {
    username: String,
}

impl View for LoginStartData {
    type V = Seq<char>;

    /// The player's name.
    closed spec fn view(&self) -> Seq<char> {
        self.username@
    }
}

/// Reading a login start: one string field.
pub open spec fn parse_login_start(s: Seq<u8>) -> Parsed<Seq<char>> {
    parse_string(s)
}

/// The bytes of a login start for `username`.
pub open spec fn login_start_bytes(username: Seq<char>) -> Seq<u8> {
    string_field(username)
}

impl LoginStartData {
    #[inline]
    pub fn new(username: &str) -> (l: Self)
        ensures
            l@ == username@,
    {
        LoginStartData { username: username.to_owned() }
    }

    #[inline]
    pub fn username(&self) -> (r: &String)
        ensures
            r@ == self@,
    {
        &self.username
    }

    /// Reads a login start, or gives `None` (leaving the reader as it was)
    /// where the name length is negative.
    pub(crate) fn parse(reader: &mut ByteReader) -> (r: Option<Result<Self>>)
        ensures
            match r {
                None => parse_login_start(old(reader)@) is Aborts && final(reader)@ == old(reader)@,
                Some(res) => read_result(res, parse_login_start(old(reader)@), old(reader)@, final(reader)@),
            },
    {
        match read_string(reader) {
            None => None,
            Some(Err(e)) => Some(Err(e)),
            Some(Ok(username)) => Some(Ok(LoginStartData { username })),
        }
    }

    /// Reads a login start. The input must not give a negative name length.
    pub fn read(reader: &mut ByteReader) -> (r: Result<Self>)
        requires
            !(parse_login_start(old(reader)@) is Aborts),
        ensures
            read_result(r, parse_login_start(old(reader)@), old(reader)@, final(reader)@),
    {
        match Self::parse(reader) {
            Some(res) => res,
            None => Err(Error::VarIntTooBig()),
        }
    }

    /// Reads a login start from the front of `bytes`.
    pub fn try_from(bytes: &Vec<u8>) -> (r: Result<Self>)
        requires
            !(parse_login_start(bytes@) is Aborts),
        ensures
            decode_result(r, parse_login_start(bytes@)),
    {
        let mut reader = ByteReader::from_slice(bytes.as_slice());
        Self::read(&mut reader)
    }

    /// Reads a login start from a packet's payload.
    pub fn try_from_packet(packet: &Packet) -> (r: Result<Self>)
        requires
            !(parse_login_start(packet.data@) is Aborts),
        ensures
            decode_result(r, parse_login_start(packet.data@)),
    {
        Self::try_from(packet.data())
    }

    /// The bytes of this login start.
    pub fn bytes(&self) -> (r: Result<Vec<u8>>)
        ensures
            r matches Ok(b) && b@ == login_start_bytes(self@),
    {
        let mut bytes: Vec<u8> = Vec::new();
        write_string(&mut bytes, &self.username);
        assert(bytes@ =~= login_start_bytes(self@));
        Ok(bytes)
    }
}

/// A login start's bytes are read back as the same name and take exactly
/// those bytes, whatever follows, when the name's UTF-8 encoding fits an
/// `i32` count.
pub proof fn lemma_login_start_roundtrip(username: Seq<char>, rest: Seq<u8>)
    requires
        encode_utf8(username).len() <= i32::MAX,
    ensures
        parse_login_start(login_start_bytes(username) + rest) == Parsed::Done(username, login_start_bytes(username).len()),
{
    lemma_string_roundtrip(username, rest);
}

} // verus!
