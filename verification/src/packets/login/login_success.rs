use crate::big_endian::{be_bytes, lemma_be_roundtrip, push_be};
use crate::codec::{lemma_be_field_roundtrip, lemma_string_roundtrip, parse_be, parse_string, read_be, read_string, string_field, write_string};
use crate::error::{Error, Result};
use crate::packets::packet::Packet;
use crate::reader::{decode_result, read_result, ByteReader, Parsed};
use vstd::prelude::*;
use vstd::utf8::encode_utf8;

verus! {

/// A login success as the specifications see it.
pub ghost struct LoginSuccessView {
    pub uuid: u128,
    pub username: Seq<char>,
}

/// The server's answer to a login: the player's UUID and name.
#[derive(Debug, PartialEq, Eq, Clone)]
pub struct LoginSuccessData {
    uuid: u128,
    username: String,
}

impl View for LoginSuccessData {
    type V = LoginSuccessView;

    closed spec fn view(&self) -> LoginSuccessView {
        LoginSuccessView { uuid: self.uuid, username: self.username@ }
    }
}

/// Reading a login success: sixteen big-endian bytes of UUID, then the name
/// as a string field.
pub open spec fn parse_login_success(s: Seq<u8>) -> Parsed<LoginSuccessView> {
    match parse_be(s, 16) {
        Parsed::Done(uuid, n1) => match parse_string(s.skip(n1 as int)) {
            Parsed::Done(username, n2) => Parsed::Done(LoginSuccessView { uuid, username }, n1 + n2),
            Parsed::Aborts => Parsed::Aborts,
            _ => Parsed::Eof,
        },
        _ => Parsed::Eof,
    }
}

/// The bytes of a login success.
pub open spec fn login_success_bytes(l: LoginSuccessView) -> Seq<u8> {
    be_bytes(l.uuid as nat, 16) + string_field(l.username)
}

impl LoginSuccessData {
    #[inline]
    pub fn new(uuid: u128, username: &str) -> (l: Self)
        ensures
            l@ == (LoginSuccessView { uuid, username: username@ }),
    {
        LoginSuccessData { uuid, username: username.to_owned() }
    }

    #[inline]
    pub fn uuid(&self) -> (r: u128)
        ensures
            r == self@.uuid,
    {
        self.uuid
    }

    #[inline]
    pub fn username(&self) -> (r: &String)
        ensures
            r@ == self@.username,
    {
        &self.username
    }

    /// Reads a login success, or gives `None` (leaving the reader as it was)
    /// where the name length is negative.
    pub(crate) fn parse(reader: &mut ByteReader) -> (r: Option<Result<Self>>)
        ensures
            match r {
                None => parse_login_success(old(reader)@) is Aborts && final(reader)@ == old(reader)@,
                Some(res) => read_result(res, parse_login_success(old(reader)@), old(reader)@, final(reader)@),
            },
    {
        let ghost s = reader@;
        let mut r = reader.fork();
        let uuid = match read_be(&mut r, 16) {
            Ok(v) => v,
            Err(e) => {
                *reader = r;
                return Some(Err(e));
            },
        };
        let ghost s1 = r@;
        let username = match read_string(&mut r) {
            None => return None,
            Some(Err(e)) => {
                *reader = r;
                return Some(Err(e));
            },
            Some(Ok(u)) => u,
        };
        proof {
            assert(r@ =~= s.skip((16 + (s1.len() - r@.len())) as int));
        }
        *reader = r;
        Some(Ok(LoginSuccessData { uuid, username }))
    }

    /// Reads a login success. The input must not give a negative name length.
    pub fn read(reader: &mut ByteReader) -> (r: Result<Self>)
        requires
            !(parse_login_success(old(reader)@) is Aborts),
        ensures
            read_result(r, parse_login_success(old(reader)@), old(reader)@, final(reader)@),
    {
        match Self::parse(reader) {
            Some(res) => res,
            None => Err(Error::VarIntTooBig()),
        }
    }

    /// Reads a login success from the front of `bytes`.
    pub fn try_from(bytes: &Vec<u8>) -> (r: Result<Self>)
        requires
            !(parse_login_success(bytes@) is Aborts),
        ensures
            decode_result(r, parse_login_success(bytes@)),
    {
        let mut reader = ByteReader::from_slice(bytes.as_slice());
        Self::read(&mut reader)
    }

    /// Reads a login success from a packet's payload.
    pub fn try_from_packet(packet: &Packet) -> (r: Result<Self>)
        requires
            !(parse_login_success(packet.data@) is Aborts),
        ensures
            decode_result(r, parse_login_success(packet.data@)),
    {
        Self::try_from(packet.data())
    }

    /// The bytes of this login success.
    pub fn bytes(self) -> (r: Result<Vec<u8>>)
        ensures
            r matches Ok(b) && b@ == login_success_bytes(self@),
    {
        let mut bytes: Vec<u8> = Vec::new();
        push_be(&mut bytes, self.uuid, 16);
        write_string(&mut bytes, &self.username);
        assert(bytes@ =~= login_success_bytes(self@));
        Ok(bytes)
    }
}

/// A login success's bytes are read back as the same UUID and name and take
/// exactly those bytes, whatever follows, when the name's UTF-8 encoding
/// fits an `i32` count.
pub proof fn lemma_login_success_roundtrip(l: LoginSuccessView, rest: Seq<u8>)
    requires
        encode_utf8(l.username).len() <= i32::MAX,
    ensures
        parse_login_success(login_success_bytes(l) + rest) == Parsed::Done(l, login_success_bytes(l).len()),
{
    let a = be_bytes(l.uuid as nat, 16);
    let b = string_field(l.username);
    lemma_be_roundtrip(l.uuid as nat, 16);
    assert(login_success_bytes(l) + rest =~= a + (b + rest));
    reveal_with_fuel(vstd::arithmetic::power::pow, 17);
    lemma_be_field_roundtrip(l.uuid as nat, 16, b + rest);
    assert((a + (b + rest)).skip(16) =~= b + rest);
    lemma_string_roundtrip(l.username, rest);
}

} // verus!
