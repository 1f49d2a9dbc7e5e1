use crate::big_endian::{be_bytes, be_value, lemma_be_roundtrip, lemma_be_value_bound, push_be};
use crate::codec::{lemma_be_field_roundtrip, parse_be, read_be, string_field};
use crate::error::{Error, Result};
use crate::packets::packet::Packet;
use crate::packets::status::status::{lemma_json_roundtrip, parse_json, read_json, write_json};
use crate::json::json_reformat;
use crate::reader::{decode_result, read_result, ByteReader, Parsed};
use vstd::prelude::*;
use vstd::utf8::encode_utf8;

verus! {

/// A chat message as the specifications see it.
pub ghost struct ChatView {
    pub message: Seq<char>,
    pub position: i8,
    pub uuid: u128,
}

/// A chat message: its JSON text, where it is shown, and who sent it.
#[derive(Debug, PartialEq, Eq, Clone)]
pub struct ChatData {
    message: String,
    position: i8,
    uuid: u128,
}

impl View for ChatData {
    type V = ChatView;

    closed spec fn view(&self) -> ChatView {
        ChatView { message: self.message@, position: self.position, uuid: self.uuid }
    }
}

/// Reading a chat message: a JSON field, one byte of position, sixteen
/// big-endian bytes of UUID.
pub open spec fn parse_chat(s: Seq<u8>) -> Parsed<ChatView> {
    match parse_json(s) {
        Parsed::Done(message, n1) => {
            let s1 = s.skip(n1 as int);
            match parse_be(s1, 1) {
                Parsed::Done(position, n2) => match parse_be(s1.skip(n2 as int), 16) {
                    Parsed::Done(uuid, n3) => Parsed::Done(
                        ChatView { message, position: (position as u8) as i8, uuid },
                        n1 + n2 + n3,
                    ),
                    _ => Parsed::Eof,
                },
                _ => Parsed::Eof,
            }
        },
        Parsed::Eof => Parsed::Eof,
        Parsed::Truncated(n) => Parsed::Truncated(n),
        Parsed::Corrupt(k, n) => Parsed::Corrupt(k, n),
        Parsed::BadJson(n) => Parsed::BadJson(n),
        Parsed::Rejected(message, n) => Parsed::Rejected(message, n),
        Parsed::Aborts => Parsed::Aborts,
    }
}

/// The bytes of a chat message.
pub open spec fn chat_bytes(c: ChatView) -> Seq<u8> {
    string_field(c.message) + be_bytes((c.position as u8) as nat, 1) + be_bytes(c.uuid as nat, 16)
}

impl ChatData {
    #[inline]
    pub fn new(message: &str, position: i8, uuid: u128) -> (c: Self)
        ensures
            c@ == (ChatView { message: message@, position, uuid }),
    {
        ChatData { message: message.to_owned(), position, uuid }
    }

    #[inline]
    pub fn message(&self) -> (r: &String)
        ensures
            r@ == self@.message,
    {
        &self.message
    }

    #[inline]
    pub fn into_message(self) -> (r: String)
        ensures
            r@ == self@.message,
    {
        self.message
    }

    #[inline]
    pub fn position(&self) -> (r: i8)
        ensures
            r == self@.position,
    {
        self.position
    }

    #[inline]
    pub fn uuid(&self) -> (r: u128)
        ensures
            r == self@.uuid,
    {
        self.uuid
    }

    /// Reads a chat message, or gives `None` (leaving the reader as it was)
    /// where the message's byte count is negative.
    pub(crate) fn parse(reader: &mut ByteReader) -> (r: Option<Result<Self>>)
        ensures
            match r {
                None => parse_chat(old(reader)@) is Aborts && final(reader)@ == old(reader)@,
                Some(res) => read_result(res, parse_chat(old(reader)@), old(reader)@, final(reader)@),
            },
    {
        let ghost s = reader@;
        let mut r = reader.fork();
        let message = match read_json(&mut r) {
            None => return None,
            Some(Err(e)) => {
                *reader = r;
                return Some(Err(e));
            },
            Some(Ok(m)) => m,
        };
        let ghost s1 = r@;
        let position = match read_be(&mut r, 1) {
            Ok(v) => (v as u8) as i8,
            Err(e) => {
                *reader = r;
                return Some(Err(e));
            },
        };
        let ghost s2 = r@;
        let uuid = match read_be(&mut r, 16) {
            Ok(v) => v,
            Err(e) => {
                *reader = r;
                return Some(Err(e));
            },
        };
        proof {
            assert(r@ =~= s.skip(((s.len() - s1.len()) + 1 + 16) as int));
        }
        *reader = r;
        Some(Ok(ChatData { message, position, uuid }))
    }

    /// Reads a chat message. The input must not give a negative byte count.
    pub fn read(reader: &mut ByteReader) -> (r: Result<Self>)
        requires
            !(parse_chat(old(reader)@) is Aborts),
        ensures
            read_result(r, parse_chat(old(reader)@), old(reader)@, final(reader)@),
    {
        match Self::parse(reader) {
            Some(res) => res,
            None => Err(Error::VarIntTooBig()),
        }
    }

    /// Reads a chat message from the front of `bytes`.
    pub fn try_from(bytes: &Vec<u8>) -> (r: Result<Self>)
        requires
            !(parse_chat(bytes@) is Aborts),
        ensures
            decode_result(r, parse_chat(bytes@)),
    {
        let mut reader = ByteReader::from_slice(bytes.as_slice());
        Self::read(&mut reader)
    }

    /// Reads a chat message from a packet's payload.
    pub fn try_from_packet(packet: &Packet) -> (r: Result<Self>)
        requires
            !(parse_chat(packet.data@) is Aborts),
        ensures
            decode_result(r, parse_chat(packet.data@)),
    {
        Self::try_from(packet.data())
    }

    /// The bytes of this chat message, its JSON value in compact form.
    pub fn bytes(self) -> (r: Result<Vec<u8>>)
        ensures
            match json_reformat(self@.message) {
                Some(json) => r matches Ok(b) && b@ == chat_bytes(ChatView { message: json, ..self@ }),
                None => r matches Err(Error::InvalidJson(_)),
            },
    {
        let mut bytes: Vec<u8> = Vec::new();
        match write_json(&mut bytes, &self.message) {
            Ok(()) => {},
            Err(e) => return Err(e),
        }
        push_be(&mut bytes, (self.position as u8) as u128, 1);
        push_be(&mut bytes, self.uuid, 16);
        assert(bytes@ =~= chat_bytes(ChatView { message: json_reformat(self@.message)->Some_0, ..self@ }));
        Ok(bytes)
    }
}

/// A chat message's bytes are read back as the same message and take
/// exactly those bytes, whatever follows, when serde_json prints the
/// message's text as it is and its UTF-8 encoding fits an `i32` count.
pub proof fn lemma_chat_roundtrip(c: ChatView, rest: Seq<u8>)
    requires
        json_reformat(c.message) == Some(c.message),
        encode_utf8(c.message).len() <= i32::MAX,
    ensures
        parse_chat(chat_bytes(c) + rest) == Parsed::Done(c, chat_bytes(c).len()),
{
    let a = string_field(c.message);
    let b = be_bytes((c.position as u8) as nat, 1);
    let d = be_bytes(c.uuid as nat, 16);
    lemma_be_roundtrip((c.position as u8) as nat, 1);
    lemma_be_roundtrip(c.uuid as nat, 16);
    assert(chat_bytes(c) + rest =~= a + (b + (d + rest)));
    lemma_json_roundtrip(c.message, b + (d + rest));
    assert((a + (b + (d + rest))).skip(a.len() as int) =~= b + (d + rest));
    reveal_with_fuel(vstd::arithmetic::power::pow, 17);
    lemma_be_field_roundtrip((c.position as u8) as nat, 1, d + rest);
    assert((b + (d + rest)).skip(1) =~= d + rest);
    lemma_be_field_roundtrip(c.uuid as nat, 16, rest);
    assert((((c.position as u8) as nat) as u128 as u8) as i8 == c.position) by {
        let p = c.position;
        assert(((p as u8) as i8) == p) by (bit_vector);
    }
}

} // verus!

verus! {

/// A chat payload is the message's string field, then one byte holding the
/// position, then the sixteen bytes of the UUID, most significant first.
pub proof fn lemma_chat_layout(c: ChatView)
    ensures
        ({
            let field = string_field(c.message);
            let b = chat_bytes(c);
            &&& b.len() == field.len() + 17
            &&& b.take(field.len() as int) == field
            &&& b[field.len() as int] == c.position as u8
            &&& b.skip(field.len() + 1int).len() == 16
            &&& be_value(b.skip(field.len() + 1int)) == c.uuid
        }),
{
    let field = string_field(c.message);
    let b = chat_bytes(c);
    let p = be_bytes((c.position as u8) as nat, 1);
    let u = be_bytes(c.uuid as nat, 16);
    lemma_be_roundtrip((c.position as u8) as nat, 1);
    lemma_be_roundtrip(c.uuid as nat, 16);
    assert(p =~= be_bytes(((c.position as u8) as nat) / 256, 0).push((((c.position as u8) as nat) % 256) as u8));
    vstd::arithmetic::div_mod::lemma_small_mod((c.position as u8) as nat, 256);
    assert(p[0] == c.position as u8);
    assert(b.take(field.len() as int) =~= field);
    assert(b.skip(field.len() + 1int) =~= u);
    reveal_with_fuel(vstd::arithmetic::power::pow, 17);
    vstd::arithmetic::div_mod::lemma_small_mod(c.uuid as nat, vstd::arithmetic::power::pow(256, 16) as nat);
}

/// Reading a chat payload takes the JSON message from its string field, the
/// position from the single byte after it (as a signed byte) and the UUID
/// from the next sixteen bytes, most significant first, whatever follows.
pub proof fn lemma_chat_fields(message: Seq<char>, position: u8, uuid: Seq<u8>, rest: Seq<u8>)
    requires
        json_reformat(message) == Some(message),
        encode_utf8(message).len() <= i32::MAX,
        uuid.len() == 16,
    ensures
        parse_chat(string_field(message) + seq![position] + uuid + rest) == Parsed::Done(
            ChatView { message, position: position as i8, uuid: be_value(uuid) as u128 },
            string_field(message).len() + 17,
        ),
        be_value(uuid) < 0x1_0000_0000_0000_0000_0000_0000_0000_0000,
{
    let a = string_field(message);
    let s = a + seq![position] + uuid + rest;
    assert(s =~= a + (seq![position] + (uuid + rest)));
    lemma_json_roundtrip(message, seq![position] + (uuid + rest));
    assert((a + (seq![position] + (uuid + rest))).skip(a.len() as int) =~= seq![position] + (uuid + rest));
    let s1 = seq![position] + (uuid + rest);
    assert(s1.take(1) =~= seq![position]);
    assert(seq![position].drop_last() =~= Seq::<u8>::empty());
    assert(be_value(seq![position]) == position as nat) by {
        reveal_with_fuel(be_value, 2);
    }
    assert(s1.skip(1) =~= uuid + rest);
    assert((uuid + rest).take(16) =~= uuid);
    lemma_be_value_bound(uuid);
    reveal_with_fuel(vstd::arithmetic::power::pow, 17);
    assert(((position as u128) as u8) as i8 == position as i8) by (bit_vector);
}

} // verus!
