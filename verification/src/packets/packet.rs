use crate::compression::{zlib_compress, zlib_decompress, zlib_deflate, zlib_inflate};
use crate::error::{Error, IoErrorKind, Result};
use crate::reader::{read_result, ByteReader, Parsed};
use crate::text::append_bytes;
use crate::var_int::{lemma_read_var32_bound, lemma_var_i32_roundtrip, encode_var_i32, read_var32, var_len32, VarIntRead, VarIntSize, WriteVarInt};
use vstd::prelude::*;
use vstd::wrapping::i32_specs;

verus! {

/// A packet as the specifications see it.
pub ghost struct PacketView {
    pub length: i32,
    pub id: i32,
    pub data: Seq<u8>,
    pub compression_threshold: i32,
}

/// A protocol packet: its id, its payload, the length its frame declares,
/// and the compression threshold of the connection it belongs to (negative:
/// compression off).
#[derive(Debug, PartialEq, Eq, Clone)]
pub struct Packet {
    pub length: i32,
    pub id: i32,
    pub data: Vec<u8>,
    pub compression_threshold: i32,
}

impl View for Packet {
    type V = PacketView;

    open spec fn view(&self) -> PacketView {
        PacketView {
            length: self.length,
            id: self.id,
            data: self.data@,
            compression_threshold: self.compression_threshold,
        }
    }
}

/// The length a new packet declares: payload plus the id's VarInt, wrapped
/// to `i32`.
pub open spec fn frame_length(data_len: nat, id: i32) -> i32 {
    i32_specs::wrapping_add(data_len as i32, var_len32(id as u32) as i32)
}

/// Reading a frame without compression: length, id, then `length` minus the
/// id's size of payload bytes.
pub open spec fn parse_uncompressed(s: Seq<u8>, t: i32) -> Parsed<PacketView> {
    match read_var32(s) {
        None => Parsed::Eof,
        Some((length, n1)) => {
            let s1 = s.skip(n1 as int);
            match read_var32(s1) {
                None => Parsed::Eof,
                Some((id, n2)) => {
                    let s2 = s1.skip(n2 as int);
                    if (length as int) < var_len32(id as u32) {
                        Parsed::Aborts
                    } else {
                        let k = (length - var_len32(id as u32)) as nat;
                        if k > s2.len() {
                            Parsed::Eof
                        } else {
                            Parsed::Done(
                                PacketView { length, id, data: s2.take(k as int), compression_threshold: t },
                                n1 + n2 + k,
                            )
                        }
                    }
                },
            }
        },
    }
}

/// Reading a frame with compression on: length, data length, then a body of
/// `length` minus the data length's size; a non-zero data length means the
/// body is zlib-compressed. Inside the (decompressed) body come the id and
/// the payload; when the body fails, the frame's bytes are taken all the
/// same.
pub open spec fn parse_compressed(s: Seq<u8>, t: i32) -> Parsed<PacketView> {
    match read_var32(s) {
        None => Parsed::Eof,
        Some((length, n1)) => {
            let s1 = s.skip(n1 as int);
            match read_var32(s1) {
                None => Parsed::Eof,
                Some((data_length, n2)) => {
                    let s2 = s1.skip(n2 as int);
                    if (length as int) < var_len32(data_length as u32) {
                        Parsed::Aborts
                    } else {
                        let k = (length - var_len32(data_length as u32)) as nat;
                        if k > s2.len() {
                            Parsed::Eof
                        } else {
                            let body = s2.take(k as int);
                            let inner = if data_length != 0 {
                                zlib_inflate(body)
                            } else {
                                Ok(body)
                            };
                            let inner_length: i32 = if data_length != 0 {
                                data_length
                            } else {
                                (length - 1) as i32
                            };
                            match inner {
                                Err(kind) => Parsed::Corrupt(kind, n1 + n2 + k),
                                Ok(u) => match read_var32(u) {
                                    None => Parsed::Truncated(n1 + n2 + k),
                                    Some((id, n3)) => {
                                        if (inner_length as int) < var_len32(id as u32) {
                                            Parsed::Aborts
                                        } else {
                                            let k2 = (inner_length - var_len32(id as u32)) as nat;
                                            if k2 > u.len() - n3 {
                                                Parsed::Truncated(n1 + n2 + k)
                                            } else {
                                                Parsed::Done(
                                                    PacketView {
                                                        length: inner_length,
                                                        id,
                                                        data: u.skip(n3 as int).take(k2 as int),
                                                        compression_threshold: t,
                                                    },
                                                    n1 + n2 + k,
                                                )
                                            }
                                        }
                                    },
                                },
                            }
                        }
                    }
                },
            }
        },
    }
}

/// Reading a packet frame under compression threshold `t`.
pub open spec fn parse_packet(s: Seq<u8>, t: i32) -> Parsed<PacketView> {
    if t < 0 {
        parse_uncompressed(s, t)
    } else {
        parse_compressed(s, t)
    }
}

/// The frame written for a packet: without compression the length, id and
/// payload; with compression on, the id and payload (zlib-compressed when
/// the threshold is below the length and not zero), preceded by their size
/// and by the uncompressed length (0 when not compressed). An error (its
/// kind) when the compressor fails.
pub open spec fn packet_frame(p: PacketView) -> std::result::Result<Seq<u8>, IoErrorKind> {
    if p.compression_threshold < 0 {
        Ok(encode_var_i32(p.length) + encode_var_i32(p.id) + p.data)
    } else {
        let uncompressed = encode_var_i32(p.id) + p.data;
        let compress = p.compression_threshold < p.length && p.compression_threshold != 0;
        let body = if compress {
            zlib_deflate(uncompressed)
        } else {
            Ok(uncompressed)
        };
        match body {
            Err(kind) => Err(kind),
            Ok(c) => {
                let len = c.len() as i32;
                Ok(
                    encode_var_i32(i32_specs::wrapping_add(var_len32(len as u32) as i32, len))
                        + encode_var_i32(if compress { p.length } else { 0 }) + c,
                )
            },
        }
    }
}

/// How many bytes the VarInt at the front of `s` takes (0 when it is cut short).
pub open spec fn var32_consumed(s: Seq<u8>) -> nat {
    match read_var32(s) {
        Some(p) => p.1,
        None => 0,
    }
}

proof fn lemma_skip_skip(s: Seq<u8>, a: nat, b: nat)
    requires
        a + b <= s.len(),
    ensures
        s.skip(a as int).skip(b as int) == s.skip((a + b) as int),
{
    assert(s.skip(a as int).skip(b as int) =~= s.skip((a + b) as int));
}

/// Reads a frame without compression under threshold `t`; `None` where the
/// payload length would be negative.
fn read_packet_uncompressed(reader: &mut ByteReader, compression_threshold: i32) -> (r: Option<Result<Packet>>)
    requires
        compression_threshold < 0,
    ensures
        match r {
            None => parse_packet(old(reader)@, compression_threshold) is Aborts && final(reader)@ == old(reader)@,
            Some(res) => read_result(res, parse_packet(old(reader)@, compression_threshold), old(reader)@, final(reader)@),
        },
{
    let ghost s = reader@;
    let mut r = reader.fork();
    let length = match r.read_var_i32() {
        Ok(v) => v,
        Err(e) => {
            *reader = r;
            return Some(Err(e));
        },
    };
    let ghost n1 = var32_consumed(s);
    let ghost s1 = s.skip(n1 as int);
    let id = match r.read_var_i32() {
        Ok(v) => v,
        Err(e) => {
            *reader = r;
            return Some(Err(e));
        },
    };
    let ghost n2 = var32_consumed(s1);
    let ghost s2 = s1.skip(n2 as int);
    let size = id.var_int_size();
    if (length as i64) < (size as i64) {
        return None;
    }
    let k = (length as usize) - size;
    let data = match r.read_exact(k) {
        Some(d) => d,
        None => {
            *reader = r;
            return Some(Err(Error::IoError(IoErrorKind::UnexpectedEof)));
        },
    };
    proof {
        lemma_read_var32_bound(s);
        lemma_read_var32_bound(s1);
        lemma_skip_skip(s, n1, n2);
        lemma_skip_skip(s, n1 + n2, k as nat);
    }
    *reader = r;
    Some(Ok(Packet { length, id, data, compression_threshold }))
}

/// Reads a frame with compression on under threshold `t`.
fn read_packet_compressed(reader: &mut ByteReader, compression_threshold: i32) -> (r: Option<Result<Packet>>)
    requires
        compression_threshold >= 0,
    ensures
        match r {
            None => parse_packet(old(reader)@, compression_threshold) is Aborts && final(reader)@ == old(reader)@,
            Some(res) => read_result(res, parse_packet(old(reader)@, compression_threshold), old(reader)@, final(reader)@),
        },
{
    let ghost s = reader@;
    let mut r = reader.fork();
    let length = match r.read_var_i32() {
        Ok(v) => v,
        Err(e) => {
            *reader = r;
            return Some(Err(e));
        },
    };
    let ghost n1 = var32_consumed(s);
    let ghost s1 = s.skip(n1 as int);
    let data_length = match r.read_var_i32() {
        Ok(v) => v,
        Err(e) => {
            *reader = r;
            return Some(Err(e));
        },
    };
    let ghost n2 = var32_consumed(s1);
    let dsize = data_length.var_int_size();
    if (length as i64) < (dsize as i64) {
        return None;
    }
    let k = (length as usize) - dsize;
    let body = match r.read_exact(k) {
        Some(d) => d,
        None => {
            *reader = r;
            return Some(Err(Error::IoError(IoErrorKind::UnexpectedEof)));
        },
    };
    proof {
        lemma_read_var32_bound(s);
        lemma_read_var32_bound(s1);
        lemma_skip_skip(s, n1, n2);
        lemma_skip_skip(s, n1 + n2, k as nat);
    }
    let uncompressed: Vec<u8>;
    let inner_length: i32;
    if data_length != 0 {
        match zlib_decompress(body) {
            Ok(u) => {
                uncompressed = u;
            },
            Err(kind) => {
                *reader = r;
                return Some(Err(Error::IoError(kind)));
            },
        }
        inner_length = data_length;
    } else {
        uncompressed = body;
        inner_length = length - 1;
    }
    let ghost u = uncompressed@;
    let mut inner = ByteReader::new(uncompressed);
    proof {
        lemma_read_var32_bound(u);
    }
    let id = match inner.read_var_i32() {
        Ok(v) => v,
        Err(e) => {
            *reader = r;
            return Some(Err(e));
        },
    };
    let size = id.var_int_size();
    if (inner_length as i64) < (size as i64) {
        assert(parse_packet(s, compression_threshold) is Aborts);
        return None;
    }
    let k2 = (inner_length as usize) - size;
    let data = match inner.read_exact(k2) {
        Some(d) => d,
        None => {
            *reader = r;
            return Some(Err(Error::IoError(IoErrorKind::UnexpectedEof)));
        },
    };
    *reader = r;
    Some(Ok(Packet { length: inner_length, id, data, compression_threshold }))
}

fn read_packet(reader: &mut ByteReader, compression_threshold: i32) -> (r: Option<Result<Packet>>)
    ensures
        match r {
            None => parse_packet(old(reader)@, compression_threshold) is Aborts && final(reader)@ == old(reader)@,
            Some(res) => read_result(res, parse_packet(old(reader)@, compression_threshold), old(reader)@, final(reader)@),
        },
{
    if compression_threshold < 0 {
        read_packet_uncompressed(reader, compression_threshold)
    } else {
        read_packet_compressed(reader, compression_threshold)
    }
}

impl Packet {
    /// A packet with the given id and payload; its length is the payload's
    /// plus the id's VarInt size.
    #[inline]
    pub fn new(id: i32, data: Vec<u8>, compression_threshold: i32) -> (p: Packet)
        ensures
            p@ == (PacketView { length: frame_length(data@.len(), id), id, data: data@, compression_threshold }),
    {
        let length = (data.len() as i32).wrapping_add(id.var_int_size() as i32);
        Packet { length, id, data, compression_threshold }
    }

    #[inline]
    pub fn id(&self) -> (r: i32)
        ensures
            r == self.id,
    {
        self.id
    }

    #[inline]
    pub fn length(&self) -> (r: i32)
        ensures
            r == self.length,
    {
        self.length
    }

    #[inline]
    pub fn data(&self) -> (r: &Vec<u8>)
        ensures
            r@ == self.data@,
    {
        &self.data
    }

    #[inline]
    pub fn compression_threshold(&self) -> (r: i32)
        ensures
            r == self.compression_threshold,
    {
        self.compression_threshold
    }

    /// Reads one packet frame. The input must not be one on which the
    /// frame's lengths leave a negative payload size.
    pub fn read(reader: &mut ByteReader, compression_threshold: i32) -> (r: Result<Packet>)
        requires
            !(parse_packet(old(reader)@, compression_threshold) is Aborts),
        ensures
            read_result(r, parse_packet(old(reader)@, compression_threshold), old(reader)@, final(reader)@),
    {
        match read_packet(reader, compression_threshold) {
            Some(res) => res,
            None => Err(Error::IoError(IoErrorKind::UnexpectedEof)),
        }
    }

    /// Reads one packet frame from any input: `None`, with the reader left as
    /// it was, exactly where `read` would have to give up on a negative
    /// payload size.
    pub fn read_checked(reader: &mut ByteReader, compression_threshold: i32) -> (r: Option<Result<Packet>>)
        ensures
            match r {
                None => parse_packet(old(reader)@, compression_threshold) is Aborts && final(reader)@ == old(reader)@,
                Some(res) => read_result(res, parse_packet(old(reader)@, compression_threshold), old(reader)@, final(reader)@),
            },
    {
        let mut probe = reader.fork();
        match read_packet(&mut probe, compression_threshold) {
            None => None,
            Some(_) => Some(Packet::read(reader, compression_threshold)),
        }
    }

    /// The frame of this packet.
    pub fn bytes(self) -> (r: Result<Vec<u8>>)
        ensures
            match packet_frame(self@) {
                Ok(b) => r matches Ok(v) && v@ == b,
                Err(kind) => r matches Err(Error::IoError(k)) && k == kind,
            },
    {
        let mut bytes: Vec<u8> = Vec::new();
        if self.compression_threshold < 0 {
            let _ = bytes.write_var_i32(self.length);
            let _ = bytes.write_var_i32(self.id);
            append_bytes(&mut bytes, self.data.as_slice());
        } else {
            let mut uncompressed: Vec<u8> = Vec::new();
            let _ = uncompressed.write_var_i32(self.id);
            append_bytes(&mut uncompressed, self.data.as_slice());
            let compress = self.compression_threshold < self.length && self.compression_threshold != 0;
            let compressed: Vec<u8>;
            if compress {
                match zlib_compress(uncompressed.as_slice()) {
                    Ok(c) => {
                        compressed = c;
                    },
                    Err(kind) => return Err(Error::IoError(kind)),
                }
            } else {
                compressed = uncompressed;
            }
            let len = compressed.len() as i32;
            let _ = bytes.write_var_i32((len.var_int_size() as i32).wrapping_add(len));
            if compress {
                let _ = bytes.write_var_i32(self.length);
            } else {
                let _ = bytes.write_var_i32(0);
            }
            append_bytes(&mut bytes, compressed.as_slice());
        }
        Ok(bytes)
    }
}

} // verus!

verus! {

/// The packet `Packet::new(id, data, t)` builds.
pub open spec fn new_packet(id: i32, data: Seq<u8>, t: i32) -> PacketView {
    PacketView { length: frame_length(data.len(), id), id, data, compression_threshold: t }
}

proof fn lemma_frame_parts(a: Seq<u8>, b: Seq<u8>, c: Seq<u8>, rest: Seq<u8>)
    ensures
        (a + b + c + rest).skip(a.len() as int) == b + (c + rest),
        (b + (c + rest)).skip(b.len() as int) == c + rest,
        (c + rest).take(c.len() as int) == c,
        a + b + c + rest == a + (b + (c + rest)),
{
    assert((a + b + c + rest).skip(a.len() as int) =~= b + (c + rest));
    assert((b + (c + rest)).skip(b.len() as int) =~= c + rest);
    assert((c + rest).take(c.len() as int) =~= c);
    assert(a + b + c + rest =~= a + (b + (c + rest)));
}

/// Without compression, reading back the frame of a new packet gives the
/// packet again and consumes exactly the frame, whatever follows it.
pub proof fn lemma_packet_roundtrip_uncompressed(id: i32, data: Seq<u8>, t: i32, rest: Seq<u8>)
    requires
        t < 0,
        data.len() + var_len32(id as u32) <= i32::MAX,
    ensures
        packet_frame(new_packet(id, data, t)) matches Ok(f) && parse_packet(f + rest, t)
            == Parsed::Done(new_packet(id, data, t), f.len()),
{
    let p = new_packet(id, data, t);
    let l = p.length;
    assert(l as int == data.len() + var_len32(id as u32));
    let a = encode_var_i32(l);
    let b = encode_var_i32(id);
    lemma_frame_parts(a, b, data, rest);
    lemma_var_i32_roundtrip(l, b + (data + rest));
    lemma_var_i32_roundtrip(id, data + rest);
    let f = a + b + data;
    assert(f + rest == a + b + data + rest);
}

/// With compression on, reading back the frame of a new packet gives the
/// packet again and consumes exactly the frame, provided the compressor's
/// output inflates back to its input and the frame's size field is read
/// back as written. The frame writer sizes the body by the size of the
/// compressed length's VarInt where the reader uses the size of the data
/// length's VarInt, so the law needs both to take the same number of bytes;
/// an uncompressed body (data length 0) must stay under 128 bytes.
pub proof fn lemma_packet_roundtrip_compressed(id: i32, data: Seq<u8>, t: i32, rest: Seq<u8>)
    requires
        t >= 0,
        data.len() + var_len32(id as u32) <= i32::MAX,
        ({
            let p = new_packet(id, data, t);
            let u = encode_var_i32(id) + data;
            if t < p.length && t != 0 {
                zlib_deflate(u) matches Ok(c) && zlib_inflate(c) == Ok::<Seq<u8>, IoErrorKind>(u)
                    && c.len() + 5 <= i32::MAX && var_len32(c.len() as u32) == var_len32(p.length as u32)
            } else {
                var_len32(u.len() as u32) == 1
            }
        }),
    ensures
        packet_frame(new_packet(id, data, t)) matches Ok(f) && parse_packet(f + rest, t)
            == Parsed::Done(new_packet(id, data, t), f.len()),
{
    let p = new_packet(id, data, t);
    let l = p.length;
    assert(l as int == data.len() + var_len32(id as u32));
    let u = encode_var_i32(id) + data;
    let compress = t < l && t != 0;
    let c = if compress { zlib_deflate(u)->Ok_0 } else { u };
    let len = c.len() as i32;
    assert(len as int == c.len());
    let total = i32_specs::wrapping_add(var_len32(len as u32) as i32, len);
    assert(total as int == var_len32(len as u32) + c.len());
    let a = encode_var_i32(total);
    let b = encode_var_i32(if compress { l } else { 0 });
    lemma_frame_parts(a, b, c, rest);
    lemma_var_i32_roundtrip(total, b + (c + rest));
    lemma_var_i32_roundtrip(if compress { l } else { 0 }, c + rest);
    let f = a + b + c;
    assert(f + rest == a + b + c + rest);
    lemma_var_i32_roundtrip(id, data);
    assert(u.skip(var_len32(id as u32) as int) =~= data);
    assert(data.take(data.len() as int) =~= data);
    assert(u.skip(var_len32(id as u32) as int).take(data.len() as int) =~= data);
}

} // verus!
