use crate::big_endian::{be_bytes, be_read, be_value, lemma_be_roundtrip, push_be};
use crate::codec::{parse_be, read_be};
use crate::error::{Error, IoErrorKind, Result};
use crate::reader::{read_result, ByteReader, Parsed};
use crate::text::{
    decimal, encode_utf16, decode_utf16, lemma_encode_utf16_concat, push_decimal_utf16, push_utf16_char,
    push_utf16_str, string_from_utf16, utf16_units,
};
use vstd::prelude::*;
use vstd::wrapping::i16_specs;

verus! {

// ---------------------------------------------------------------------------
// Byte and UTF-16 unit conversions
// ---------------------------------------------------------------------------

/// The big-endian code units held by consecutive byte pairs; a trailing odd
/// byte is dropped.
pub open spec fn bytes_to_units(s: Seq<u8>) -> Seq<u16> {
    Seq::new(s.len() / 2, |i: int| (((s[2 * i] as u16) << 8) | (s[2 * i + 1] as u16)) as u16)
}

/// The big-endian bytes of code units, two per unit.
pub open spec fn units_to_bytes(u: Seq<u16>) -> Seq<u8> {
    Seq::new(u.len() * 2, |i: int| if i % 2 == 0 { (u[i / 2] >> 8) as u8 } else { (u[i / 2] & 0xff) as u8 })
}

/// Reading byte pairs as big-endian code units.
pub trait ToU16 {
    fn to_u16(self) -> Result<Vec<u16>>;
}

/// Writing code units as big-endian byte pairs.
pub trait ToU8 {
    fn to_u8(self) -> Result<Vec<u8>>;
}

impl ToU16 for Vec<u8> {
    /// The code units of the byte pairs; a trailing odd byte is dropped.
    fn to_u16(self) -> (r: Result<Vec<u16>>)
        ensures
            r matches Ok(u) && u@ == bytes_to_units(self@),
    {
        let mut output: Vec<u16> = Vec::new();
        let mut i: usize = 0;
        let len = self.len();
        let n = len / 2;
        while i < n
            invariant
                len == self@.len(),
                n == self@.len() / 2,
                n * 2 <= len,
                0 <= i <= n,
                output@ == bytes_to_units(self@).take(i as int),
            decreases n - i,
        {
            let j: usize = 2 * i;
            let unit = ((self[j] as u16) << 8) | (self[j + 1] as u16);
            output.push(unit);
            i = i + 1;
            assert(output@ =~= bytes_to_units(self@).take(i as int));
        }
        assert(output@ =~= bytes_to_units(self@));
        Ok(output)
    }
}

impl ToU8 for Vec<u16> {
    /// The big-endian bytes of the code units.
    fn to_u8(self) -> (r: Result<Vec<u8>>)
        ensures
            r matches Ok(b) && b@ == units_to_bytes(self@),
    {
        let mut output: Vec<u8> = Vec::new();
        let mut i: usize = 0;
        while i < self.len()
            invariant
                0 <= i <= self@.len(),
                output@ == units_to_bytes(self@).take(2 * i),
            decreases self.len() - i,
        {
            let unit = self[i];
            output.push((unit >> 8) as u8);
            output.push((unit & 0xff) as u8);
            i = i + 1;
            assert(output@ =~= units_to_bytes(self@).take(2 * i));
        }
        assert(output@ =~= units_to_bytes(self@));
        Ok(output)
    }
}

/// Writing code units as bytes and reading them back gives the units again.
pub proof fn lemma_units_roundtrip(u: Seq<u16>)
    ensures
        bytes_to_units(units_to_bytes(u)) == u,
{
    let b = units_to_bytes(u);
    assert forall|i: int| 0 <= i < u.len() implies #[trigger] bytes_to_units(b)[i] == u[i] by {
        let x = u[i];
        assert(b[2 * i] == (x >> 8) as u8);
        assert(b[2 * i + 1] == (x & 0xff) as u8);
        assert(((((x >> 8) as u8) as u16) << 8) | (((x & 0xff) as u8) as u16) == x) by (bit_vector);
    }
    assert(bytes_to_units(b) =~= u);
}

// ---------------------------------------------------------------------------
// Legacy ping
// ---------------------------------------------------------------------------

/// A legacy ping as the specifications see it.
pub ghost struct LegacyPingView {
    pub payload: u8,
    pub packet_identifier: Option<u8>,
    pub host: Option<Seq<char>>,
    pub data: Option<Seq<u8>>,
}

/// A pre-Netty server list ping (first byte 0xfe).
#[derive(Debug, PartialEq, Eq, Clone)]
pub struct LegacyPing {
    /// Should always be 0x01
    payload: u8,
    /// 0xfa = plugin message identifier
    packet_identifier: Option<u8>,
    /// MC|PingHost (encoded as UTF-16 on the wire)
    host: Option<String>,
    /// The rest of the data in the ping
    data: Option<Vec<u8>>,
}

pub open spec fn opt_string_view(o: Option<String>) -> Option<Seq<char>> {
    match o {
        Some(s) => Some(s@),
        None => None,
    }
}

pub open spec fn opt_bytes_view(o: Option<Vec<u8>>) -> Option<Seq<u8>> {
    match o {
        Some(v) => Some(v@),
        None => None,
    }
}

impl View for LegacyPing {
    type V = LegacyPingView;

    closed spec fn view(&self) -> LegacyPingView {
        LegacyPingView {
            payload: self.payload,
            packet_identifier: self.packet_identifier,
            host: opt_string_view(self.host),
            data: opt_bytes_view(self.data),
        }
    }
}

/// A big-endian `i16` length field at the front of `s`.
pub open spec fn i16_field(s: Seq<u8>) -> i16 {
    ((be_value(s.take(2)) as u16) as i16)
}

/// The message of the error a legacy read gives when the first byte is not
/// 0xfe.
pub open spec fn legacy_only_message() -> Seq<char> {
    "Only legacy ping (0xfe) is allowed."@
}

/// Reading a legacy ping from the bytes a client has sent: 0xfe, the
/// payload byte, and, when more bytes are there, the identifier byte, a
/// host of `2 * n` bytes (`n` a big-endian `i16`, doubled with wrapping)
/// holding UTF-16 units, and a block of `m` bytes (`m` a big-endian `i16`).
/// Negative sizes and a host that is not valid UTF-16 cannot be decoded.
pub open spec fn parse_legacy_ping(s: Seq<u8>) -> Parsed<LegacyPingView> {
    if s.len() == 0 {
        Parsed::Eof
    } else if s[0] != 0xfe {
        Parsed::Rejected(legacy_only_message(), 1)
    } else if s.len() < 2 {
        Parsed::Eof
    } else if s.len() == 2 {
        Parsed::Done(LegacyPingView { payload: s[1], packet_identifier: None, host: None, data: None }, 2)
    } else {
        let s3 = s.skip(3);
        if s3.len() < 2 {
            Parsed::Eof
        } else {
            let host_len = i16_specs::wrapping_mul(i16_field(s3), 2);
            let s5 = s3.skip(2);
            if host_len < 0 {
                Parsed::Aborts
            } else if host_len > s5.len() {
                Parsed::Eof
            } else {
                match decode_utf16(bytes_to_units(s5.take(host_len as int))) {
                    None => Parsed::Aborts,
                    Some(host) => {
                        let s6 = s5.skip(host_len as int);
                        if s6.len() < 2 {
                            Parsed::Eof
                        } else {
                            let data_len = i16_field(s6);
                            let s8 = s6.skip(2);
                            if data_len < 0 {
                                Parsed::Aborts
                            } else if data_len > s8.len() {
                                Parsed::Eof
                            } else {
                                Parsed::Done(
                                    LegacyPingView {
                                        payload: s[1],
                                        packet_identifier: Some(s[2]),
                                        host: Some(host),
                                        data: Some(s8.take(data_len as int)),
                                    },
                                    (3 + 2 + host_len + 2 + data_len) as nat,
                                )
                            }
                        }
                    },
                }
            }
        }
    }
}

impl LegacyPing {
    #[inline]
    pub fn new(payload: u8, packet_identifier: Option<u8>, host: Option<String>, data: Option<Vec<u8>>) -> (p: Self)
        ensures
            p@ == (LegacyPingView {
                payload,
                packet_identifier,
                host: opt_string_view(host),
                data: opt_bytes_view(data),
            }),
    {
        LegacyPing { payload, packet_identifier, host, data }
    }

    #[inline]
    pub fn payload(&self) -> (r: u8)
        ensures
            r == self@.payload,
    {
        self.payload
    }

    #[inline]
    pub fn packet_identifier(&self) -> (r: &Option<u8>)
        ensures
            *r == self@.packet_identifier,
    {
        &self.packet_identifier
    }

    #[inline]
    pub fn host(&self) -> (r: &Option<String>)
        ensures
            opt_string_view(*r) == self@.host,
    {
        &self.host
    }

    #[inline]
    pub fn data(&self) -> (r: &Option<Vec<u8>>)
        ensures
            opt_bytes_view(*r) == self@.data,
    {
        &self.data
    }

    fn read_i16(reader: &mut ByteReader) -> (r: Result<i16>)
        ensures
            match r {
                Ok(v) => 2 <= old(reader)@.len() && v == i16_field(old(reader)@)
                    && final(reader)@ == old(reader)@.skip(2),
                Err(e) => 2 > old(reader)@.len() && crate::error::eof_error(e) && final(reader)@.len() == 0,
            },
    {
        proof {
            if 2 <= reader@.len() {
                crate::big_endian::lemma_be_value_bound(reader@.take(2));
                reveal_with_fuel(vstd::arithmetic::power::pow, 3);
            }
        }
        match read_be(reader, 2) {
            Ok(v) => Ok((v as u16) as i16),
            Err(e) => Err(e),
        }
    }

    /// Reads a legacy ping, or gives `None` (leaving the reader as it was)
    /// where the ping cannot be decoded (a negative size, a host that is not
    /// UTF-16).
    pub(crate) fn parse(reader: &mut ByteReader) -> (r: Option<Result<Self>>)
        ensures
            match r {
                None => parse_legacy_ping(old(reader)@) is Aborts && final(reader)@ == old(reader)@,
                Some(res) => read_result(res, parse_legacy_ping(old(reader)@), old(reader)@, final(reader)@),
            },
    {
        let ghost s = reader@;
        let mut r = reader.fork();
        let first = match r.read_exact(1) {
            Some(b) => b[0],
            None => {
                *reader = r;
                return Some(Err(Error::IoError(IoErrorKind::UnexpectedEof)));
            },
        };
        if first != 0xfe {
            let message = "Only legacy ping (0xfe) is allowed.".to_owned();
            *reader = r;
            return Some(Err(Error::LegacyError(message)));
        }
        let payload = match r.read_exact(1) {
            Some(b) => b[0],
            None => {
                *reader = r;
                return Some(Err(Error::IoError(IoErrorKind::UnexpectedEof)));
            },
        };
        assert(s.skip(1).skip(1) =~= s.skip(2));
        let identifier = match r.read_exact(1) {
            Some(b) => b[0],
            None => {
                assert(r@ =~= s.skip(2));
                *reader = r;
                return Some(Ok(LegacyPing { payload, packet_identifier: None, host: None, data: None }));
            },
        };
        assert(s.skip(2).skip(1) =~= s.skip(3));
        let len = match Self::read_i16(&mut r) {
            Ok(v) => v,
            Err(e) => {
                *reader = r;
                return Some(Err(e));
            },
        };
        let host_len = len.wrapping_mul(2);
        if host_len < 0 {
            return None;
        }
        let host_bytes = match r.read_exact(host_len as usize) {
            Some(b) => b,
            None => {
                *reader = r;
                return Some(Err(Error::IoError(IoErrorKind::UnexpectedEof)));
            },
        };
        let units = match host_bytes.to_u16() {
            Ok(u) => u,
            Err(e) => {
                *reader = r;
                return Some(Err(e));
            },
        };
        let host = match string_from_utf16(units.as_slice()) {
            Some(h) => h,
            None => return None,
        };
        let len = match Self::read_i16(&mut r) {
            Ok(v) => v,
            Err(e) => {
                *reader = r;
                return Some(Err(e));
            },
        };
        if len < 0 {
            return None;
        }
        let data = match r.read_exact(len as usize) {
            Some(d) => d,
            None => {
                *reader = r;
                return Some(Err(Error::IoError(IoErrorKind::UnexpectedEof)));
            },
        };
        proof {
            assert(r@ =~= s.skip((3 + 2 + host_len + 2 + len) as int));
        }
        *reader = r;
        Some(Ok(LegacyPing { payload, packet_identifier: Some(identifier), host: Some(host), data: Some(data) }))
    }

    /// Reads a legacy ping from the bytes a client has sent. The input must
    /// not be one that cannot be decoded.
    pub fn read(reader: &mut ByteReader) -> (r: Result<Self>)
        requires
            !(parse_legacy_ping(old(reader)@) is Aborts),
        ensures
            read_result(r, parse_legacy_ping(old(reader)@), old(reader)@, final(reader)@),
    {
        match Self::parse(reader) {
            Some(res) => res,
            None => Err(Error::VarIntTooBig()),
        }
    }

    /// Reads a legacy ping from any input: `None`, with the reader left as it
    /// was, exactly where `read` would have to give up.
    pub fn read_checked(reader: &mut ByteReader) -> (r: Option<Result<Self>>)
        ensures
            match r {
                None => parse_legacy_ping(old(reader)@) is Aborts && final(reader)@ == old(reader)@,
                Some(res) => read_result(res, parse_legacy_ping(old(reader)@), old(reader)@, final(reader)@),
            },
    {
        let mut probe = reader.fork();
        match Self::parse(&mut probe) {
            None => None,
            Some(_) => Some(Self::read(reader)),
        }
    }
}

} // verus!

verus! {

// ---------------------------------------------------------------------------
// Legacy pong
// ---------------------------------------------------------------------------

/// A legacy pong as the specifications see it.
pub ghost struct LegacyPongView {
    pub protocol: i32,
    pub version_name: Seq<char>,
    pub motd: Seq<char>,
    pub current_players: i128,
    pub max_players: i128,
}

/// The server's answer to a legacy ping.
#[derive(Debug, PartialEq, Eq, Clone)]
pub struct LegacyPong {
    protocol: i32,
    version_name: String,
    motd: String,
    current_players: i128,
    max_players: i128,
}

impl View for LegacyPong {
    type V = LegacyPongView;

    closed spec fn view(&self) -> LegacyPongView {
        LegacyPongView {
            protocol: self.protocol,
            version_name: self.version_name@,
            motd: self.motd@,
            current_players: self.current_players,
            max_players: self.max_players,
        }
    }
}

/// The text of a legacy pong: `§1`, then protocol, version name, message of
/// the day, current and maximum players, each preceded by a NUL.
pub open spec fn legacy_pong_text(p: LegacyPongView) -> Seq<char> {
    seq!['§', '1', '\0'] + decimal(p.protocol as int) + seq!['\0'] + p.version_name + seq!['\0'] + p.motd
        + seq!['\0'] + decimal(p.current_players as int) + seq!['\0'] + decimal(p.max_players as int)
}

/// The bytes of a legacy pong: 0xff, the number of UTF-16 units of its text
/// as a big-endian `i16` (wrapped), then the units, big-endian.
pub open spec fn legacy_pong_bytes(p: LegacyPongView) -> Seq<u8> {
    let units = encode_utf16(legacy_pong_text(p));
    seq![0xffu8] + be_bytes(((units.len() as i16) as u16) as nat, 2) + units_to_bytes(units)
}

proof fn lemma_utf16_char(c: char)
    ensures
        encode_utf16(seq![c]) == utf16_units(c),
{
    reveal_with_fuel(encode_utf16, 2);
    assert(encode_utf16(seq![c]) =~= utf16_units(c));
}

impl LegacyPong {
    #[inline]
    pub fn new(protocol: i32, version_name: String, motd: String, current_players: i128, max_players: i128) -> (p: Self)
        ensures
            p@ == (LegacyPongView {
                protocol,
                version_name: version_name@,
                motd: motd@,
                current_players,
                max_players,
            }),
    {
        LegacyPong { protocol, version_name, motd, current_players, max_players }
    }

    #[inline]
    pub fn protocol(&self) -> (r: i32)
        ensures
            r == self@.protocol,
    {
        self.protocol
    }

    #[inline]
    pub fn version_name(&self) -> (r: &String)
        ensures
            r@ == self@.version_name,
    {
        &self.version_name
    }

    #[inline]
    pub fn motd(&self) -> (r: &String)
        ensures
            r@ == self@.motd,
    {
        &self.motd
    }

    #[inline]
    pub fn current_players(&self) -> (r: i128)
        ensures
            r == self@.current_players,
    {
        self.current_players
    }

    #[inline]
    pub fn max_players(&self) -> (r: i128)
        ensures
            r == self@.max_players,
    {
        self.max_players
    }

    /// Appends NUL and the UTF-16 units of the decimal form of `x`.
    fn push_number(units: &mut Vec<u16>, x: i128, Ghost(text): Ghost<Seq<char>>)
        requires
            old(units)@ == encode_utf16(text),
        ensures
            final(units)@ == encode_utf16(text + seq!['\0'] + decimal(x as int)),
    {
        push_utf16_char(units, '\0');
        push_decimal_utf16(units, x);
        proof {
            lemma_utf16_char('\0');
            lemma_encode_utf16_concat(text, seq!['\0']);
            lemma_encode_utf16_concat(text + seq!['\0'], decimal(x as int));
        }
    }

    /// Appends NUL and the UTF-16 units of `s`.
    fn push_field(units: &mut Vec<u16>, s: &String, Ghost(text): Ghost<Seq<char>>)
        requires
            old(units)@ == encode_utf16(text),
        ensures
            final(units)@ == encode_utf16(text + seq!['\0'] + s@),
    {
        push_utf16_char(units, '\0');
        push_utf16_str(units, s.as_str());
        proof {
            lemma_utf16_char('\0');
            lemma_encode_utf16_concat(text, seq!['\0']);
            lemma_encode_utf16_concat(text + seq!['\0'], s@);
        }
    }

    /// The bytes of this pong.
    pub fn bytes(self) -> (r: Result<Vec<u8>>)
        ensures
            r matches Ok(b) && b@ == legacy_pong_bytes(self@),
    {
        let mut units: Vec<u16> = Vec::new();
        push_utf16_char(&mut units, '§');
        push_utf16_char(&mut units, '1');
        let ghost head = seq!['§', '1'];
        proof {
            lemma_utf16_char('§');
            lemma_utf16_char('1');
            lemma_encode_utf16_concat(seq!['§'], seq!['1']);
            assert(seq!['§'] + seq!['1'] =~= head);
        }
        Self::push_number(&mut units, self.protocol as i128, Ghost(head));
        let ghost t1 = head + seq!['\0'] + decimal(self.protocol as int);
        Self::push_field(&mut units, &self.version_name, Ghost(t1));
        let ghost t2 = t1 + seq!['\0'] + self.version_name@;
        Self::push_field(&mut units, &self.motd, Ghost(t2));
        let ghost t3 = t2 + seq!['\0'] + self.motd@;
        Self::push_number(&mut units, self.current_players, Ghost(t3));
        let ghost t4 = t3 + seq!['\0'] + decimal(self.current_players as int);
        Self::push_number(&mut units, self.max_players, Ghost(t4));
        let ghost t5 = t4 + seq!['\0'] + decimal(self.max_players as int);
        assert(t5 =~= legacy_pong_text(self@));
        let len = units.len() as i16;
        let mut bytes: Vec<u8> = Vec::new();
        bytes.push(0xff);
        push_be(&mut bytes, (len as u16) as u128, 2);
        let unit_bytes = match units.to_u8() {
            Ok(b) => b,
            Err(e) => return Err(e),
        };
        crate::text::append_bytes(&mut bytes, unit_bytes.as_slice());
        assert(bytes@ =~= legacy_pong_bytes(self@));
        Ok(bytes)
    }
}

// ---------------------------------------------------------------------------
// Legacy ping data
// ---------------------------------------------------------------------------

/// What a legacy ping's data block carries: protocol, host name and port.
#[derive(Debug, PartialEq, Eq, Clone)]
pub struct LegacyPingData {
    protocol: i8,
    hostname: String,
    port: i32,
}

impl View for LegacyPingData {
    type V = (i8, Seq<char>, i32);

    closed spec fn view(&self) -> (i8, Seq<char>, i32) {
        (self.protocol, self.hostname@, self.port)
    }
}

impl LegacyPingData {
    #[inline]
    pub fn new(protocol: i8, hostname: &str, port: i32) -> (d: Self)
        ensures
            d@ == (protocol, hostname@, port),
    {
        LegacyPingData { protocol, hostname: hostname.to_owned(), port }
    }

    #[inline]
    pub fn protocol(&self) -> (r: i8)
        ensures
            r == self@.0,
    {
        self.protocol
    }

    #[inline]
    pub fn hostname(&self) -> (r: &String)
        ensures
            r@ == self@.1,
    {
        &self.hostname
    }

    #[inline]
    pub fn port(&self) -> (r: i32)
        ensures
            r == self@.2,
    {
        self.port
    }

    /// The data of a legacy ping. The data block is not decoded: every ping
    /// gives protocol 0, an empty host name and port 0.
    pub fn try_from(_ping: &LegacyPing) -> (r: Result<Self>)
        ensures
            r matches Ok(d) && d@ == (0i8, Seq::<char>::empty(), 0i32),
    {
        Ok(LegacyPingData { protocol: 0, hostname: String::new(), port: 0 })
    }
}

} // verus!
