use crate::error::{eof_error, Error, IoErrorKind, Result};
use crate::var_int::{lemma_var_read_len_bound, var_acc32, var_acc64, var_read_len, read_var32, read_var64, VarIntRead};
use vstd::prelude::*;

verus! {

/// How reading a value from the front of some bytes turns out. The counts
/// of the failures are the bytes the read has taken off its input by then.
pub ghost enum Parsed<T> {
    /// The value, and how many bytes it took.
    Done(T, nat),
    /// The bytes end before the value does; the read takes all of them.
    Eof,
    /// A frame's body ends before the value inside it does; the frame's
    /// bytes are taken.
    Truncated(nat),
    /// A compressed body does not decompress, or a body cannot be
    /// compressed: the kind of the coder's error.
    Corrupt(IoErrorKind, nat),
    /// A JSON payload does not parse.
    BadJson(nat),
    /// The bytes are not a packet of the expected kind: the message the
    /// error carries.
    Rejected(Seq<char>, nat),
    /// Input the decoders give up on: a negative length (no buffer can be
    /// made for it) or a legacy host that is not UTF-16. The checked readers
    /// answer `None`; the plain ones require that it does not occur.
    Aborts,
}

/// `r` is what a read whose outcome is `p` returns, and `new` is what is left
/// of the input `old` afterwards: on success the rest after the value; on
/// failure the rest after the bytes taken (none left when the input ran out).
pub open spec fn read_result<T: View>(r: Result<T>, p: Parsed<T::V>, old: Seq<u8>, new: Seq<u8>) -> bool {
    match p {
        Parsed::Done(v, n) => r matches Ok(x) && x@ == v && n <= old.len() && new == old.skip(n as int),
        Parsed::Eof => r matches Err(e) && eof_error(e) && new.len() == 0,
        Parsed::Truncated(n) => r matches Err(e) && eof_error(e) && n <= old.len() && new == old.skip(n as int),
        Parsed::Corrupt(k, n) => r matches Err(Error::IoError(kind)) && kind == k && n <= old.len() && new
            == old.skip(n as int),
        Parsed::BadJson(n) => r matches Err(Error::InvalidJson(_)) && n <= old.len() && new == old.skip(n as int),
        Parsed::Rejected(message, n) => r matches Err(Error::LegacyError(m)) && m@ == message && n <= old.len()
            && new == old.skip(n as int),
        Parsed::Aborts => false,
    }
}

/// An in-memory byte source: the bytes that are left to read.
pub struct ByteReader {
    data: Vec<u8>,
    pos: usize,
}

/// `r` is what decoding a whole value whose outcome is `p` returns.
pub open spec fn decode_result<T: View>(r: Result<T>, p: Parsed<T::V>) -> bool {
    match p {
        Parsed::Done(v, _) => r matches Ok(x) && x@ == v,
        Parsed::Eof => r matches Err(e) && eof_error(e),
        Parsed::Truncated(_) => r matches Err(e) && eof_error(e),
        Parsed::Corrupt(k, _) => r matches Err(Error::IoError(kind)) && kind == k,
        Parsed::BadJson(_) => r matches Err(Error::InvalidJson(_)),
        Parsed::Rejected(message, _) => r matches Err(Error::LegacyError(m)) && m@ == message,
        Parsed::Aborts => false,
    }
}

impl View for ByteReader {
    type V = Seq<u8>;

    /// The bytes not read yet.
    closed spec fn view(&self) -> Seq<u8> {
        self.data@.subrange(self.pos as int, self.data@.len() as int)
    }
}

impl ByteReader {
    #[verifier::type_invariant]
    spec fn inv(self) -> bool {
        self.pos <= self.data.len()
    }

    /// A reader over all of `data`.
    pub fn new(data: Vec<u8>) -> (r: ByteReader)
        ensures
            r@ == data@,
    {
        let r = ByteReader { data, pos: 0 };
        assert(r@ =~= r.data@);
        r
    }

    /// A reader over a copy of `data`.
    pub fn from_slice(data: &[u8]) -> (r: ByteReader)
        ensures
            r@ == data@,
    {
        let mut copy: Vec<u8> = Vec::new();
        crate::text::append_bytes(&mut copy, data);
        ByteReader::new(copy)
    }

    /// A second reader over the bytes this one has left.
    pub fn fork(&self) -> (r: ByteReader)
        ensures
            r@ == self@,
    {
        proof {
            use_type_invariant(self);
        }
        let mut data: Vec<u8> = Vec::new();
        let mut i: usize = self.pos;
        while i < self.data.len()
            invariant
                self.pos <= i <= self.data.len(),
                data@ == self.data@.subrange(self.pos as int, i as int),
            decreases self.data.len() - i,
        {
            data.push(self.data[i]);
            i = i + 1;
            assert(data@ =~= self.data@.subrange(self.pos as int, i as int));
        }
        ByteReader::new(data)
    }

    /// Number of bytes left.
    pub fn remaining(&self) -> (n: usize)
        ensures
            n == self@.len(),
    {
        proof {
            use_type_invariant(self);
        }
        self.data.len() - self.pos
    }

    /// Takes the next `n` bytes; when fewer than `n` are left, gives nothing
    /// and takes what is left (as reading from a byte slice does).
    pub fn read_exact(&mut self, n: usize) -> (r: Option<Vec<u8>>)
        ensures
            match r {
                Some(bytes) => n <= old(self)@.len() && bytes@ == old(self)@.take(n as int)
                    && final(self)@ == old(self)@.skip(n as int),
                None => n > old(self)@.len() && final(self)@.len() == 0,
            },
    {
        proof {
            use_type_invariant(&*self);
        }
        if n > self.data.len() - self.pos {
            self.pos = self.data.len();
            return None;
        }
        let mut out: Vec<u8> = Vec::new();
        let mut i: usize = 0;
        let ghost s = self@;
        while i < n
            invariant
                self.pos + n <= self.data.len(),
                s == self.data@.subrange(self.pos as int, self.data@.len() as int),
                0 <= i <= n,
                out@ == s.take(i as int),
            decreases n - i,
        {
            out.push(self.data[self.pos + i]);
            i = i + 1;
            assert(out@ =~= s.take(i as int));
        }
        self.pos = self.pos + n;
        assert(self@ =~= s.skip(n as int));
        Some(out)
    }

    /// The byte `i` places ahead, without consuming anything.
    fn peek_at(&self, i: usize) -> (b: Option<u8>)
        ensures
            match b {
                Some(x) => i < self@.len() && x == self@[i as int],
                None => i >= self@.len(),
            },
    {
        proof {
            use_type_invariant(self);
        }
        if i >= self.data.len() - self.pos {
            None
        } else {
            Some(self.data[self.pos + i])
        }
    }

    /// Drops the next `n` bytes.
    fn advance(&mut self, n: usize)
        requires
            n <= old(self)@.len(),
        ensures
            final(self)@ == old(self)@.skip(n as int),
    {
        proof {
            use_type_invariant(&*self);
        }
        let ghost s = self@;
        self.pos = self.pos + n;
        assert(self@ =~= s.skip(n as int));
    }
}

proof fn lemma_var_read_len_step(s: Seq<u8>, i: nat, max: nat)
    requires
        i < max,
        i < s.len(),
        s[i as int] >= 0x80,
    ensures
        var_read_len(s, i, max) == var_read_len(s, i + 1, max),
{
}

impl VarIntRead for ByteReader {
    /// Reads a VarInt of at most five bytes: the reader advances by the
    /// bytes it took; when the input ends first, all of it is taken.
    fn read_var_i32(&mut self) -> (r: Result<i32>)
        ensures
            match read_var32(old(self)@) {
                Some((v, n)) => r matches Ok(x) && x == v && final(self)@ == old(self)@.skip(n as int),
                None => r matches Err(e) && eof_error(e) && final(self)@.len() == 0,
            },
    {
        let ghost s = self@;
        let mut value: u32 = 0;
        let mut i: usize = 0;
        let mut n: usize = 5;
        while i < 5
            invariant_except_break
                0 <= i <= 5,
                old(self)@ == s,
                self@ == s,
                value == var_acc32(s, i as nat),
                var_read_len(s, 0, 5) == var_read_len(s, i as nat, 5),
                n == 5,
            ensures
                self@ == s,
                1 <= n <= 5,
                value == var_acc32(s, n as nat),
                var_read_len(s, 0, 5) == Some(n as nat),
            decreases 5 - i,
        {
            match self.peek_at(i) {
                None => {
                    let left = self.remaining();
                    self.advance(left);
                    return Err(Error::IoError(IoErrorKind::UnexpectedEof));
                },
                Some(b) => {
                    value = value | (((b & 0x7f) as u32) << ((7 * i) as u32));
                    if b < 0x80 {
                        n = i + 1;
                        break;
                    }
                    proof {
                        lemma_var_read_len_step(s, i as nat, 5);
                    }
                    i = i + 1;
                },
            }
        }
        proof {
            lemma_var_read_len_bound(s, 0, 5);
        }
        self.advance(n);
        Ok(#[verifier::truncate] (value as i32))
    }

    /// Reads a VarInt of at most ten bytes.
    fn read_var_i64(&mut self) -> (r: Result<i64>)
        ensures
            match read_var64(old(self)@) {
                Some((v, n)) => r matches Ok(x) && x == v && final(self)@ == old(self)@.skip(n as int),
                None => r matches Err(e) && eof_error(e) && final(self)@.len() == 0,
            },
    {
        let ghost s = self@;
        let mut value: u64 = 0;
        let mut i: usize = 0;
        let mut n: usize = 10;
        while i < 10
            invariant_except_break
                0 <= i <= 10,
                old(self)@ == s,
                self@ == s,
                value == var_acc64(s, i as nat),
                var_read_len(s, 0, 10) == var_read_len(s, i as nat, 10),
                n == 10,
            ensures
                self@ == s,
                1 <= n <= 10,
                value == var_acc64(s, n as nat),
                var_read_len(s, 0, 10) == Some(n as nat),
            decreases 10 - i,
        {
            match self.peek_at(i) {
                None => {
                    let left = self.remaining();
                    self.advance(left);
                    return Err(Error::IoError(IoErrorKind::UnexpectedEof));
                },
                Some(b) => {
                    value = value | (((b & 0x7f) as u64) << ((7 * i) as u64));
                    if b < 0x80 {
                        n = i + 1;
                        break;
                    }
                    proof {
                        lemma_var_read_len_step(s, i as nat, 10);
                    }
                    i = i + 1;
                },
            }
        }
        proof {
            lemma_var_read_len_bound(s, 0, 10);
        }
        self.advance(n);
        Ok(#[verifier::truncate] (value as i64))
    }
}

} // verus!
