use crate::error::Result;
use vstd::arithmetic::power::pow;
use vstd::prelude::*;

verus! {

// ---------------------------------------------------------------------------
// 32-bit VarInts
// ---------------------------------------------------------------------------

/// Number of bytes of the VarInt encoding of a 32-bit value (read as unsigned).
pub open spec fn var_len32(v: u32) -> nat {
    if v < 0x80 {
        1
    } else if v < 0x4000 {
        2
    } else if v < 0x20_0000 {
        3
    } else if v < 0x1000_0000 {
        4
    } else {
        5
    }
}

/// Byte `j` of the VarInt encoding of `v`: seven bits of `v`, with the
/// continuation bit set on every byte but the last.
pub open spec fn var_byte32(v: u32, j: nat) -> u8 {
    let group = ((v >> ((7 * j) as u32)) & 0x7f) as u8;
    if j + 1 < var_len32(v) {
        group | 0x80
    } else {
        group
    }
}

/// The VarInt encoding of a 32-bit value, least significant group first.
pub open spec fn encode_var32(v: u32) -> Seq<u8> {
    Seq::new(var_len32(v), |j: int| var_byte32(v, j as nat))
}

/// The VarInt encoding of an `i32`: negative values take five bytes.
pub open spec fn encode_var_i32(v: i32) -> Seq<u8> {
    encode_var32(v as u32)
}

/// How many bytes a VarInt reader consumes from `s`, looking at byte `i`
/// onwards: it stops after the first byte without the continuation bit, or
/// after `max` bytes; `None` when `s` ends first.
pub open spec fn var_read_len(s: Seq<u8>, i: nat, max: nat) -> Option<nat>
    decreases max - i,
{
    if i >= max {
        Some(max)
    } else if i >= s.len() {
        None
    } else if s[i as int] < 0x80 {
        Some(i + 1)
    } else {
        var_read_len(s, i + 1, max)
    }
}

/// The value gathered from the first `n` bytes of `s`: the low seven bits of
/// byte `j` land at bit `7 * j`; bits beyond the width are dropped.
pub open spec fn var_acc32(s: Seq<u8>, n: nat) -> u32
    decreases n,
{
    if n == 0 {
        0
    } else {
        var_acc32(s, (n - 1) as nat) | (((s[n - 1] & 0x7f) as u32) << ((7 * (n - 1)) as u32))
    }
}

/// Reading an `i32` VarInt from the front of `s`: the value and the number
/// of bytes consumed, or `None` when `s` ends before the VarInt does.
pub open spec fn read_var32(s: Seq<u8>) -> Option<(i32, nat)> {
    match var_read_len(s, 0, 5) {
        Some(n) => Some((var_acc32(s, n) as i32, n)),
        None => None,
    }
}

// ---------------------------------------------------------------------------
// 64-bit VarLongs
// ---------------------------------------------------------------------------

/// Number of bytes of the VarInt encoding of a 64-bit value (read as unsigned).
pub open spec fn var_len64(v: u64) -> nat {
    if v < 0x80 {
        1
    } else if v < 0x4000 {
        2
    } else if v < 0x20_0000 {
        3
    } else if v < 0x1000_0000 {
        4
    } else if v < 0x8_0000_0000 {
        5
    } else if v < 0x400_0000_0000 {
        6
    } else if v < 0x2_0000_0000_0000 {
        7
    } else if v < 0x100_0000_0000_0000 {
        8
    } else if v < 0x8000_0000_0000_0000 {
        9
    } else {
        10
    }
}

/// Byte `j` of the VarInt encoding of the 64-bit value `v`.
pub open spec fn var_byte64(v: u64, j: nat) -> u8 {
    let group = ((v >> ((7 * j) as u64)) & 0x7f) as u8;
    if j + 1 < var_len64(v) {
        group | 0x80
    } else {
        group
    }
}

/// The VarInt encoding of a 64-bit value, least significant group first.
pub open spec fn encode_var64(v: u64) -> Seq<u8> {
    Seq::new(var_len64(v), |j: int| var_byte64(v, j as nat))
}

/// The VarInt encoding of an `i64`: negative values take ten bytes.
pub open spec fn encode_var_i64(v: i64) -> Seq<u8> {
    encode_var64(v as u64)
}

/// The 64-bit value gathered from the first `n` bytes of `s`.
pub open spec fn var_acc64(s: Seq<u8>, n: nat) -> u64
    decreases n,
{
    if n == 0 {
        0
    } else {
        var_acc64(s, (n - 1) as nat) | (((s[n - 1] & 0x7f) as u64) << ((7 * (n - 1)) as u64))
    }
}

/// Reading an `i64` VarInt from the front of `s`.
pub open spec fn read_var64(s: Seq<u8>) -> Option<(i64, nat)> {
    match var_read_len(s, 0, 10) {
        Some(n) => Some((var_acc64(s, n) as i64, n)),
        None => None,
    }
}

pub proof fn lemma_var_read_len_bound(s: Seq<u8>, i: nat, max: nat)
    requires
        i < max,
    ensures
        var_read_len(s, i, max) matches Some(n) ==> i < n <= max && n <= s.len(),
    decreases max - i,
{
    reveal_with_fuel(var_read_len, 2);
    if i + 1 < max && i < s.len() && s[i as int] >= 0x80 {
        lemma_var_read_len_bound(s, i + 1, max);
    }
}

/// A VarInt read takes at least one byte, at most five, and no more than
/// there are.
pub proof fn lemma_read_var32_bound(s: Seq<u8>)
    ensures
        read_var32(s) matches Some((v, n)) ==> 1 <= n <= 5 && n <= s.len(),
{
    lemma_var_read_len_bound(s, 0, 5);
}

/// A VarLong read takes at least one byte, at most ten, and no more than
/// there are.
pub proof fn lemma_read_var64_bound(s: Seq<u8>)
    ensures
        read_var64(s) matches Some((v, n)) ==> 1 <= n <= 10 && n <= s.len(),
{
    lemma_var_read_len_bound(s, 0, 10);
}

/// The VarInt encoding of a 32-bit value is as short as it can be: `n`
/// bytes hold the values below `128^n`, and a value takes `n` bytes only when
/// it does not fit in `n - 1` (five bytes hold everything left). For example
/// `2^21` takes four bytes and `2^21 - 1` three.
pub proof fn lemma_var32_minimal(v: u32)
    ensures
        1 <= var_len32(v) <= 5,
        encode_var32(v).len() == var_len32(v),
        var_len32(v) > 1 ==> v >= pow(128, (var_len32(v) - 1) as nat),
        var_len32(v) < 5 ==> v < pow(128, var_len32(v)),
{
    reveal_with_fuel(pow, 6);
}

/// The VarInt encoding of a 64-bit value is as short as it can be: `n`
/// bytes hold the values below `128^n`, and a value takes `n` bytes only when
/// it does not fit in `n - 1` (ten bytes hold everything left).
pub proof fn lemma_var64_minimal(v: u64)
    ensures
        1 <= var_len64(v) <= 10,
        encode_var64(v).len() == var_len64(v),
        var_len64(v) > 1 ==> v >= pow(128, (var_len64(v) - 1) as nat),
        var_len64(v) < 10 ==> v < pow(128, var_len64(v)),
{
    reveal_with_fuel(pow, 11);
}

// ---------------------------------------------------------------------------
// Sizes
// ---------------------------------------------------------------------------

/// Sizes of VarInt encodings.
pub trait VarIntSize {
    fn var_int_size(self) -> usize;
}

impl VarIntSize for i32 {
    /// Number of bytes `write_var_i32` produces for this value.
    fn var_int_size(self) -> (size: usize)
        ensures
            size == var_len32(self as u32),
    {
        let v = self as u32;
        if v < 0x80 {
            1
        } else if v < 0x4000 {
            2
        } else if v < 0x20_0000 {
            3
        } else if v < 0x1000_0000 {
            4
        } else {
            5
        }
    }
}

impl VarIntSize for i64 {
    /// Number of bytes `write_var_i64` produces for this value.
    fn var_int_size(self) -> (size: usize)
        ensures
            size == var_len64(self as u64),
    {
        let v = self as u64;
        if v < 0x80 {
            1
        } else if v < 0x4000 {
            2
        } else if v < 0x20_0000 {
            3
        } else if v < 0x1000_0000 {
            4
        } else if v < 0x8_0000_0000 {
            5
        } else if v < 0x400_0000_0000 {
            6
        } else if v < 0x2_0000_0000_0000 {
            7
        } else if v < 0x100_0000_0000_0000 {
            8
        } else if v < 0x8000_0000_0000_0000 {
            9
        } else {
            10
        }
    }
}

// ---------------------------------------------------------------------------
// Reading and writing
// ---------------------------------------------------------------------------

/// Reading VarInts from a byte source.
pub trait VarIntRead {
    fn read_var_i32(&mut self) -> Result<i32>;

    fn read_var_i64(&mut self) -> Result<i64>;
}

/// Writing VarInts to a byte sink.
pub trait WriteVarInt {
    fn write_var_i32(&mut self, value: i32) -> Result<usize>;

    fn write_var_i64(&mut self, value: i64) -> Result<usize>;
}

impl WriteVarInt for Vec<u8> {
    /// Appends the VarInt encoding of `value` and returns its length.
    fn write_var_i32(&mut self, value: i32) -> (r: Result<usize>)
        ensures
            final(self)@ == old(self)@ + encode_var_i32(value),
            r matches Ok(n) && n == var_len32(value as u32),
    {
        let v = value as u32;
        let len = value.var_int_size();
        let ghost start = self@;
        let mut j: usize = 0;
        while j < len
            invariant
                len == var_len32(v),
                v == value as u32,
                0 <= j <= len,
                self@ == start + encode_var32(v).take(j as int),
            decreases len - j,
        {
            let group = ((v >> ((7 * j) as u32)) & 0x7f) as u8;
            let byte = if j + 1 < len {
                group | 0x80
            } else {
                group
            };
            self.push(byte);
            j = j + 1;
            assert(encode_var32(v).take(j as int) =~= encode_var32(v).take(j - 1).push(byte));
        }
        assert(encode_var32(v).take(len as int) =~= encode_var32(v));
        Ok(len)
    }

    /// Appends the VarInt encoding of `value` and returns its length.
    fn write_var_i64(&mut self, value: i64) -> (r: Result<usize>)
        ensures
            final(self)@ == old(self)@ + encode_var_i64(value),
            r matches Ok(n) && n == var_len64(value as u64),
    {
        let v = value as u64;
        let len = value.var_int_size();
        let ghost start = self@;
        let mut j: usize = 0;
        while j < len
            invariant
                len == var_len64(v),
                v == value as u64,
                0 <= j <= len,
                self@ == start + encode_var64(v).take(j as int),
            decreases len - j,
        {
            let group = ((v >> ((7 * j) as u64)) & 0x7f) as u8;
            let byte = if j + 1 < len {
                group | 0x80
            } else {
                group
            };
            self.push(byte);
            j = j + 1;
            assert(encode_var64(v).take(j as int) =~= encode_var64(v).take(j - 1).push(byte));
        }
        assert(encode_var64(v).take(len as int) =~= encode_var64(v));
        Ok(len)
    }
}

} // verus!

verus! {

// ---------------------------------------------------------------------------
// Laws
// ---------------------------------------------------------------------------

proof fn lemma_byte32(v: u32, j: nat)
    requires
        j < 5,
    ensures
        ((var_byte32(v, j) & 0x7f) as u32) == (v >> ((7 * j) as u32)) & 0x7f,
        (var_byte32(v, j) >= 0x80) == (j + 1 < var_len32(v)),
{
    let s = (7 * j) as u32;
    let g = ((v >> s) & 0x7f) as u8;
    assert(((g | 0x80) & 0x7f) as u32 == (v >> s) & 0x7f && (g | 0x80) >= 0x80) by (bit_vector)
        requires
            g == ((v >> s) & 0x7f) as u8,
    ;
    assert((g & 0x7f) as u32 == (v >> s) & 0x7f && g < 0x80) by (bit_vector)
        requires
            g == ((v >> s) & 0x7f) as u8,
    ;
}

/// Reading back the VarInt encoding of `v` yields `v` and consumes exactly
/// the encoding, whatever follows it.
pub proof fn lemma_var32_roundtrip(v: u32, rest: Seq<u8>)
    ensures
        read_var32(encode_var32(v) + rest) == Some(((v as i32), var_len32(v))),
{
    let e = encode_var32(v);
    let t = e + rest;
    let n = var_len32(v);
    assert forall|j: nat| j < n implies t[j as int] == var_byte32(v, j) by {}
    lemma_byte32(v, 0);
    lemma_byte32(v, 1);
    lemma_byte32(v, 2);
    lemma_byte32(v, 3);
    lemma_byte32(v, 4);
    reveal_with_fuel(var_read_len, 6);
    reveal_with_fuel(var_acc32, 6);
    let b0 = (v & 0x7f);
    let b1 = ((v >> 7) & 0x7f);
    let b2 = ((v >> 14) & 0x7f);
    let b3 = ((v >> 21) & 0x7f);
    let b4 = ((v >> 28) & 0x7f);
    assert(v >> 0 == v) by (bit_vector);
    if n == 1 {
        assert(v < 0x80 ==> (0u32 | (b0 << 0)) == v) by (bit_vector)
            requires b0 == (v & 0x7f);
    } else if n == 2 {
        assert(v < 0x4000 ==> (0u32 | (b0 << 0)) | (b1 << 7) == v) by (bit_vector)
            requires b0 == (v & 0x7f), b1 == ((v >> 7) & 0x7f);
    } else if n == 3 {
        assert(v < 0x20_0000 ==> ((0u32 | (b0 << 0)) | (b1 << 7)) | (b2 << 14) == v) by (bit_vector)
            requires b0 == (v & 0x7f), b1 == ((v >> 7) & 0x7f), b2 == ((v >> 14) & 0x7f);
    } else if n == 4 {
        assert(v < 0x1000_0000 ==> (((0u32 | (b0 << 0)) | (b1 << 7)) | (b2 << 14)) | (b3 << 21) == v) by (bit_vector)
            requires b0 == (v & 0x7f), b1 == ((v >> 7) & 0x7f), b2 == ((v >> 14) & 0x7f), b3 == ((v >> 21) & 0x7f);
    } else {
        assert(((((0u32 | (b0 << 0)) | (b1 << 7)) | (b2 << 14)) | (b3 << 21)) | (b4 << 28) == v) by (bit_vector)
            requires b0 == (v & 0x7f), b1 == ((v >> 7) & 0x7f), b2 == ((v >> 14) & 0x7f), b3 == ((v >> 21) & 0x7f), b4 == ((v >> 28) & 0x7f);
    }
    assert((v as i32) as u32 == v) by (bit_vector);
}

} // verus!

verus! {

proof fn lemma_byte64(v: u64, j: nat)
    requires
        j < 10,
    ensures
        ((var_byte64(v, j) & 0x7f) as u64) == (v >> ((7 * j) as u64)) & 0x7f,
        (var_byte64(v, j) >= 0x80) == (j + 1 < var_len64(v)),
{
    let s = (7 * j) as u64;
    let g = ((v >> s) & 0x7f) as u8;
    assert(((g | 0x80) & 0x7f) as u64 == (v >> s) & 0x7f && (g | 0x80) >= 0x80) by (bit_vector)
        requires
            g == ((v >> s) & 0x7f) as u8,
    ;
    assert((g & 0x7f) as u64 == (v >> s) & 0x7f && g < 0x80) by (bit_vector)
        requires
            g == ((v >> s) & 0x7f) as u8,
    ;
}

/// Reading back the 64-bit VarInt encoding of `v` yields `v` and consumes
/// exactly the encoding, whatever follows it.
pub proof fn lemma_var64_roundtrip(v: u64, rest: Seq<u8>)
    ensures
        read_var64(encode_var64(v) + rest) == Some(((v as i64), var_len64(v))),
{
    let e = encode_var64(v);
    let t = e + rest;
    let n = var_len64(v);
    assert forall|j: nat| j < n implies t[j as int] == var_byte64(v, j) by {}
    lemma_byte64(v, 0);
    lemma_byte64(v, 1);
    lemma_byte64(v, 2);
    lemma_byte64(v, 3);
    lemma_byte64(v, 4);
    lemma_byte64(v, 5);
    lemma_byte64(v, 6);
    lemma_byte64(v, 7);
    lemma_byte64(v, 8);
    lemma_byte64(v, 9);
    reveal_with_fuel(var_read_len, 11);
    reveal_with_fuel(var_acc64, 11);
    let b0 = ((v >> 0) & 0x7f);
    let b1 = ((v >> 7) & 0x7f);
    let b2 = ((v >> 14) & 0x7f);
    let b3 = ((v >> 21) & 0x7f);
    let b4 = ((v >> 28) & 0x7f);
    let b5 = ((v >> 35) & 0x7f);
    let b6 = ((v >> 42) & 0x7f);
    let b7 = ((v >> 49) & 0x7f);
    let b8 = ((v >> 56) & 0x7f);
    let b9 = ((v >> 63) & 0x7f);
    assert(v >> 0 == v) by (bit_vector);
    if n == 1 {
        assert(v < 0x80 ==> (0u64 | (b0 << 0)) == v) by (bit_vector)
            requires b0 == ((v >> 0) & 0x7f);
    } else if n == 2 {
        assert(v < 0x4000 ==> ((0u64 | (b0 << 0)) | (b1 << 7)) == v) by (bit_vector)
            requires b0 == ((v >> 0) & 0x7f), b1 == ((v >> 7) & 0x7f);
    } else if n == 3 {
        assert(v < 0x20_0000 ==> (((0u64 | (b0 << 0)) | (b1 << 7)) | (b2 << 14)) == v) by (bit_vector)
            requires b0 == ((v >> 0) & 0x7f), b1 == ((v >> 7) & 0x7f), b2 == ((v >> 14) & 0x7f);
    } else if n == 4 {
        assert(v < 0x1000_0000 ==> ((((0u64 | (b0 << 0)) | (b1 << 7)) | (b2 << 14)) | (b3 << 21)) == v) by (bit_vector)
            requires b0 == ((v >> 0) & 0x7f), b1 == ((v >> 7) & 0x7f), b2 == ((v >> 14) & 0x7f), b3 == ((v >> 21) & 0x7f);
    } else if n == 5 {
        assert(v < 0x8_0000_0000 ==> (((((0u64 | (b0 << 0)) | (b1 << 7)) | (b2 << 14)) | (b3 << 21)) | (b4 << 28)) == v) by (bit_vector)
            requires b0 == ((v >> 0) & 0x7f), b1 == ((v >> 7) & 0x7f), b2 == ((v >> 14) & 0x7f), b3 == ((v >> 21) & 0x7f), b4 == ((v >> 28) & 0x7f);
    } else if n == 6 {
        assert(v < 0x400_0000_0000 ==> ((((((0u64 | (b0 << 0)) | (b1 << 7)) | (b2 << 14)) | (b3 << 21)) | (b4 << 28)) | (b5 << 35)) == v) by (bit_vector)
            requires b0 == ((v >> 0) & 0x7f), b1 == ((v >> 7) & 0x7f), b2 == ((v >> 14) & 0x7f), b3 == ((v >> 21) & 0x7f), b4 == ((v >> 28) & 0x7f), b5 == ((v >> 35) & 0x7f);
    } else if n == 7 {
        assert(v < 0x2_0000_0000_0000 ==> (((((((0u64 | (b0 << 0)) | (b1 << 7)) | (b2 << 14)) | (b3 << 21)) | (b4 << 28)) | (b5 << 35)) | (b6 << 42)) == v) by (bit_vector)
            requires b0 == ((v >> 0) & 0x7f), b1 == ((v >> 7) & 0x7f), b2 == ((v >> 14) & 0x7f), b3 == ((v >> 21) & 0x7f), b4 == ((v >> 28) & 0x7f), b5 == ((v >> 35) & 0x7f), b6 == ((v >> 42) & 0x7f);
    } else if n == 8 {
        assert(v < 0x100_0000_0000_0000 ==> ((((((((0u64 | (b0 << 0)) | (b1 << 7)) | (b2 << 14)) | (b3 << 21)) | (b4 << 28)) | (b5 << 35)) | (b6 << 42)) | (b7 << 49)) == v) by (bit_vector)
            requires b0 == ((v >> 0) & 0x7f), b1 == ((v >> 7) & 0x7f), b2 == ((v >> 14) & 0x7f), b3 == ((v >> 21) & 0x7f), b4 == ((v >> 28) & 0x7f), b5 == ((v >> 35) & 0x7f), b6 == ((v >> 42) & 0x7f), b7 == ((v >> 49) & 0x7f);
    } else if n == 9 {
        assert(v < 0x8000_0000_0000_0000 ==> (((((((((0u64 | (b0 << 0)) | (b1 << 7)) | (b2 << 14)) | (b3 << 21)) | (b4 << 28)) | (b5 << 35)) | (b6 << 42)) | (b7 << 49)) | (b8 << 56)) == v) by (bit_vector)
            requires b0 == ((v >> 0) & 0x7f), b1 == ((v >> 7) & 0x7f), b2 == ((v >> 14) & 0x7f), b3 == ((v >> 21) & 0x7f), b4 == ((v >> 28) & 0x7f), b5 == ((v >> 35) & 0x7f), b6 == ((v >> 42) & 0x7f), b7 == ((v >> 49) & 0x7f), b8 == ((v >> 56) & 0x7f);
    } else {
        assert(((((((((((0u64 | (b0 << 0)) | (b1 << 7)) | (b2 << 14)) | (b3 << 21)) | (b4 << 28)) | (b5 << 35)) | (b6 << 42)) | (b7 << 49)) | (b8 << 56)) | (b9 << 63)) == v) by (bit_vector)
            requires b0 == ((v >> 0) & 0x7f), b1 == ((v >> 7) & 0x7f), b2 == ((v >> 14) & 0x7f), b3 == ((v >> 21) & 0x7f), b4 == ((v >> 28) & 0x7f), b5 == ((v >> 35) & 0x7f), b6 == ((v >> 42) & 0x7f), b7 == ((v >> 49) & 0x7f), b8 == ((v >> 56) & 0x7f), b9 == ((v >> 63) & 0x7f);
    }
}

/// The 32-bit roundtrip on `i32` values: every `i32` is read back as itself.
pub proof fn lemma_var_i32_roundtrip(x: i32, rest: Seq<u8>)
    ensures
        read_var32(encode_var_i32(x) + rest) == Some((x, var_len32(x as u32))),
{
    lemma_var32_roundtrip(x as u32, rest);
    assert(((x as u32) as i32) == x) by (bit_vector);
}

/// The 64-bit roundtrip on `i64` values: every `i64` is read back as itself.
pub proof fn lemma_var_i64_roundtrip(x: i64, rest: Seq<u8>)
    ensures
        read_var64(encode_var_i64(x) + rest) == Some((x, var_len64(x as u64))),
{
    lemma_var64_roundtrip(x as u64, rest);
    assert(((x as u64) as i64) == x) by (bit_vector);
}

} // verus!
