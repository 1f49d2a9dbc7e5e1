use crate::big_endian::{be_bytes, be_read, be_value, lemma_be_roundtrip, lemma_be_value_bound, push_be};
use crate::error::{Error, IoErrorKind, Result};
use crate::reader::{read_result, ByteReader, Parsed};
use crate::text::{append_bytes, from_utf8_lossy, lemma_lossy_text_of_utf8, lossy_text, string_bytes};
use crate::var_int::{encode_var_i32, lemma_read_var32_bound, lemma_var_i32_roundtrip, read_var32, VarIntRead, WriteVarInt};
use vstd::arithmetic::power::pow;
use vstd::prelude::*;
use vstd::utf8::encode_utf8;

verus! {

/// Reading a string field: a VarInt byte count, then that many bytes, read
/// as text. A negative count cannot be decoded.
pub open spec fn parse_string(s: Seq<u8>) -> Parsed<Seq<char>> {
    match read_var32(s) {
        None => Parsed::Eof,
        Some((len, n)) => {
            if len < 0 {
                Parsed::Aborts
            } else {
                let s1 = s.skip(n as int);
                if len > s1.len() {
                    Parsed::Eof
                } else {
                    Parsed::Done(lossy_text(s1.take(len as int)), n + len as nat)
                }
            }
        },
    }
}

/// A string field: the byte count of the text's UTF-8 encoding as a VarInt
/// (wrapped to `i32`), then the encoding.
pub open spec fn string_field(text: Seq<char>) -> Seq<u8> {
    encode_var_i32(encode_utf8(text).len() as i32) + encode_utf8(text)
}

/// Reading `n` bytes as a big-endian unsigned number.
pub open spec fn parse_be(s: Seq<u8>, n: nat) -> Parsed<u128> {
    if n > s.len() {
        Parsed::Eof
    } else {
        Parsed::Done(be_value(s.take(n as int)) as u128, n)
    }
}

/// The outcome of reading a string field, or `None` where the byte count is
/// negative (the reader is then left as it was).
pub fn read_string(reader: &mut ByteReader) -> (r: Option<Result<String>>)
    ensures
        match r {
            None => parse_string(old(reader)@) is Aborts && final(reader)@ == old(reader)@,
            Some(res) => read_result(res, parse_string(old(reader)@), old(reader)@, final(reader)@),
        },
{
    let ghost s = reader@;
    let mut r = reader.fork();
    let len = match r.read_var_i32() {
        Ok(v) => v,
        Err(e) => {
            *reader = r;
            return Some(Err(e));
        },
    };
    if len < 0 {
        return None;
    }
    let bytes = match r.read_exact(len as usize) {
        Some(b) => b,
        None => {
            *reader = r;
            return Some(Err(Error::IoError(IoErrorKind::UnexpectedEof)));
        },
    };
    let text = from_utf8_lossy(bytes.as_slice());
    proof {
        lemma_read_var32_bound(s);
        let n = read_var32(s)->Some_0.1;
        assert(s.skip(n as int).skip(len as int) =~= s.skip(n + len));
    }
    *reader = r;
    Some(Ok(text))
}

/// Appends a string field for `text`.
pub fn write_string(out: &mut Vec<u8>, text: &String)
    ensures
        final(out)@ == old(out)@ + string_field(text@),
{
    let bytes = string_bytes(text);
    let _ = out.write_var_i32(bytes.len() as i32);
    append_bytes(out, bytes.as_slice());
    assert(final(out)@ =~= old(out)@ + string_field(text@));
}

/// Reads `n` bytes as a big-endian unsigned number.
pub fn read_be(reader: &mut ByteReader, n: usize) -> (r: Result<u128>)
    requires
        n <= 16,
    ensures
        read_result(r, parse_be(old(reader)@, n as nat), old(reader)@, final(reader)@),
{
    match reader.read_exact(n) {
        Some(bytes) => Ok(be_read(&bytes)),
        None => Err(Error::IoError(IoErrorKind::UnexpectedEof)),
    }
}

/// A string field is read back as its text and takes exactly its bytes,
/// whatever follows, when the text's UTF-8 encoding fits an `i32` count.
pub proof fn lemma_string_roundtrip(text: Seq<char>, rest: Seq<u8>)
    requires
        encode_utf8(text).len() <= i32::MAX,
    ensures
        parse_string(string_field(text) + rest) == Parsed::Done(text, string_field(text).len()),
{
    let b = encode_utf8(text);
    let len = b.len() as i32;
    let a = encode_var_i32(len);
    lemma_var_i32_roundtrip(len, b + rest);
    assert(string_field(text) + rest =~= a + (b + rest));
    assert((a + (b + rest)).skip(a.len() as int) =~= b + rest);
    assert((b + rest).take(b.len() as int) =~= b);
    lemma_lossy_text_of_utf8(text);
}

/// `n` big-endian bytes of `v` are read back as `v` when `v` fits them.
pub proof fn lemma_be_field_roundtrip(v: nat, n: nat, rest: Seq<u8>)
    requires
        n <= 16,
        v < pow(256, n),
    ensures
        parse_be(be_bytes(v, n) + rest, n) == Parsed::Done(v as u128, n),
{
    lemma_be_roundtrip(v, n);
    vstd::arithmetic::div_mod::lemma_small_mod(v, pow(256, n) as nat);
    assert((be_bytes(v, n) + rest).take(n as int) =~= be_bytes(v, n));
    lemma_be_value_bound(be_bytes(v, n));
    vstd::arithmetic::power::lemma_pow_increases(256, n, 16);
    reveal_with_fuel(pow, 17);
}

} // verus!
