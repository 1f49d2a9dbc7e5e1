use vstd::prelude::*;
use vstd::std_specs::iter::IteratorSpec;
use vstd::utf8::*;

verus! {

broadcast use {vstd::string::axiom_spec_iter, vstd::string::next_postcondition};

// ---------------------------------------------------------------------------
// UTF-8
// ---------------------------------------------------------------------------

/// The characters `String::from_utf8_lossy` decodes from `bytes`.
pub uninterp spec fn utf8_lossy(bytes: Seq<u8>) -> Seq<char>;

/// Decodes `bytes` with `String::from_utf8_lossy`. Trusted: the result is
/// `utf8_lossy` of the bytes, and (as std documents) it is the plain UTF-8
/// decoding when the bytes are valid UTF-8. What it holds for invalid bytes
/// (replacement characters) is left to the name.
#[verifier::external_body]
pub(crate) fn from_utf8_lossy(bytes: &[u8]) -> (s: String)
    ensures
        s@ == utf8_lossy(bytes@),
        valid_utf8(bytes@) ==> s@ == decode_utf8(bytes@),
{
    String::from_utf8_lossy(bytes).into_owned()
}

/// The text a byte string is read as: its UTF-8 decoding when it is valid
/// UTF-8, otherwise what `String::from_utf8_lossy` makes of it.
pub open spec fn lossy_text(bytes: Seq<u8>) -> Seq<char> {
    if valid_utf8(bytes) {
        decode_utf8(bytes)
    } else {
        utf8_lossy(bytes)
    }
}

/// The UTF-8 bytes of a text are read back as that text.
pub proof fn lemma_lossy_text_of_utf8(s: Seq<char>)
    ensures
        lossy_text(encode_utf8(s)) == s,
{
    encode_utf8_valid_utf8(s);
    encode_utf8_decode_utf8(s);
}

/// Appends `bytes` to `out`.
pub fn append_bytes(out: &mut Vec<u8>, bytes: &[u8])
    ensures
        final(out)@ == old(out)@ + bytes@,
{
    let ghost start = out@;
    let mut i: usize = 0;
    while i < bytes.len()
        invariant
            0 <= i <= bytes.len(),
            out@ == start + bytes@.take(i as int),
        decreases bytes.len() - i,
    {
        out.push(bytes[i]);
        i = i + 1;
        assert(out@ =~= start + bytes@.take(i as int));
    }
    assert(bytes@.take(bytes.len() as int) =~= bytes@);
}

/// The UTF-8 bytes of a string, copied into a vector.
pub fn string_bytes(s: &String) -> (bytes: Vec<u8>)
    ensures
        bytes@ == encode_utf8(s@),
{
    let mut out: Vec<u8> = Vec::new();
    append_bytes(&mut out, s.as_str().as_bytes());
    assert(out@ =~= encode_utf8(s@));
    out
}

// ---------------------------------------------------------------------------
// UTF-16
// ---------------------------------------------------------------------------

/// The UTF-16 code units of one character: one unit below U+10000, a
/// surrogate pair above.
pub open spec fn utf16_units(c: char) -> Seq<u16> {
    let v = c as u32;
    if v < 0x10000 {
        seq![v as u16]
    } else {
        let u = (v - 0x10000) as u32;
        seq![(0xD800 + (u >> 10)) as u16, (0xDC00 + (u & 0x3ff)) as u16]
    }
}

/// The UTF-16 encoding of a character sequence.
pub open spec fn encode_utf16(s: Seq<char>) -> Seq<u16>
    decreases s.len(),
{
    if s.len() == 0 {
        Seq::empty()
    } else {
        utf16_units(s[0]) + encode_utf16(s.drop_first())
    }
}

/// Decoding UTF-16 code units: `None` when an unpaired surrogate occurs.
pub open spec fn decode_utf16(units: Seq<u16>) -> Option<Seq<char>>
    decreases units.len(),
{
    if units.len() == 0 {
        Some(Seq::empty())
    } else {
        let u = units[0];
        if u < 0xD800 || u > 0xDFFF {
            match decode_utf16(units.drop_first()) {
                Some(rest) => Some(seq![(u as u32) as char] + rest),
                None => None,
            }
        } else if u <= 0xDBFF && units.len() >= 2 && 0xDC00 <= units[1] <= 0xDFFF {
            let c = (0x10000 + ((u - 0xD800) as u32) * 0x400 + ((units[1] - 0xDC00) as u32)) as u32;
            match decode_utf16(units.subrange(2, units.len() as int)) {
                Some(rest) => Some(seq![c as char] + rest),
                None => None,
            }
        } else {
            None
        }
    }
}

/// Builds a string with `String::from_utf16`. Trusted: as std documents, it
/// succeeds exactly when the units are valid UTF-16 and then holds the
/// decoded characters.
#[verifier::external_body]
pub(crate) fn string_from_utf16(units: &[u16]) -> (r: Option<String>)
    ensures
        match r {
            Some(s) => decode_utf16(units@) == Some(s@),
            None => decode_utf16(units@) is None,
        },
{
    match String::from_utf16(units) {
        Ok(s) => Some(s),
        Err(_) => None,
    }
}

pub proof fn lemma_encode_utf16_concat(a: Seq<char>, b: Seq<char>)
    ensures
        encode_utf16(a + b) == encode_utf16(a) + encode_utf16(b),
    decreases a.len(),
{
    if a.len() == 0 {
        assert(a + b =~= b);
    } else {
        assert((a + b).drop_first() =~= a.drop_first() + b);
        lemma_encode_utf16_concat(a.drop_first(), b);
        assert(encode_utf16(a + b) =~= encode_utf16(a) + encode_utf16(b));
    }
}

/// Appends the UTF-16 units of `c`.
pub fn push_utf16_char(out: &mut Vec<u16>, c: char)
    ensures
        final(out)@ == old(out)@ + utf16_units(c),
{
    let v = c as u32;
    if v < 0x10000 {
        out.push(v as u16);
    } else {
        proof {
            char_is_scalar(c);
        }
        let u = v - 0x10000;
        assert(u >> 10 <= 0x3ff && u & 0x3ff <= 0x3ff) by (bit_vector)
            requires
                u <= 0xFFFFF,
        ;
        out.push((0xD800 + (u >> 10)) as u16);
        out.push((0xDC00 + (u & 0x3ff)) as u16);
    }
    assert(out@ =~= old(out)@ + utf16_units(c));
}

/// Appends the UTF-16 units of every character of `s`.
pub fn push_utf16_str(out: &mut Vec<u16>, s: &str)
    ensures
        final(out)@ == old(out)@ + encode_utf16(s@),
{
    let ghost start = out@;
    let mut it = s.chars();
    assert(it.remaining() == s@);
    loop
        invariant_except_break
            it.obeys_prophetic_iter_laws(),
            it.decrease() is Some,
            start + encode_utf16(s@) == out@ + encode_utf16(it.remaining()),
        ensures
            out@ == start + encode_utf16(s@),
        decreases it.decrease()->0,
    {
        match it.next() {
            Some(c) => {
                push_utf16_char(out, c);
                assert(start + encode_utf16(s@) == out@ + encode_utf16(it.remaining()));
            },
            None => {
                assert(out@ =~= start + encode_utf16(s@));
                break;
            },
        }
    }
}

// ---------------------------------------------------------------------------
// Decimal numbers
// ---------------------------------------------------------------------------

/// The decimal digit `d` as a character.
pub open spec fn digit_char(d: nat) -> char {
    if d == 0 { '0' } else if d == 1 { '1' } else if d == 2 { '2' } else if d == 3 { '3' }
    else if d == 4 { '4' } else if d == 5 { '5' } else if d == 6 { '6' } else if d == 7 { '7' }
    else if d == 8 { '8' } else { '9' }
}

/// The decimal digits of `n`, most significant first.
pub open spec fn decimal_digits(n: nat) -> Seq<char>
    decreases n,
{
    if n < 10 {
        seq![digit_char(n)]
    } else {
        decimal_digits(n / 10).push(digit_char(n % 10))
    }
}

/// How `Display` prints an integer: a minus sign for negative values, then
/// the decimal digits of the magnitude.
pub open spec fn decimal(x: int) -> Seq<char> {
    if x < 0 {
        seq!['-'] + decimal_digits((-x) as nat)
    } else {
        decimal_digits(x as nat)
    }
}

fn digit(d: u128) -> (c: char)
    requires
        d < 10,
    ensures
        c == digit_char(d as nat),
{
    if d == 0 { '0' } else if d == 1 { '1' } else if d == 2 { '2' } else if d == 3 { '3' }
    else if d == 4 { '4' } else if d == 5 { '5' } else if d == 6 { '6' } else if d == 7 { '7' }
    else if d == 8 { '8' } else { '9' }
}

fn push_decimal_digits(out: &mut Vec<u16>, n: u128)
    ensures
        final(out)@ == old(out)@ + encode_utf16(decimal_digits(n as nat)),
    decreases n,
{
    if n >= 10 {
        push_decimal_digits(out, n / 10);
    }
    let c = digit(n % 10);
    push_utf16_char(out, c);
    proof {
        if n >= 10 {
            lemma_encode_utf16_concat(decimal_digits((n / 10) as nat), seq![c]);
            assert(decimal_digits((n / 10) as nat).push(c) =~= decimal_digits((n / 10) as nat) + seq![c]);
        }
        assert(encode_utf16(seq![c]) =~= utf16_units(c)) by {
            reveal_with_fuel(encode_utf16, 2);
        }
    }
}

/// Appends the UTF-16 units of the decimal form of `x`.
pub fn push_decimal_utf16(out: &mut Vec<u16>, x: i128)
    ensures
        final(out)@ == old(out)@ + encode_utf16(decimal(x as int)),
{
    if x < 0 {
        let magnitude = ((-(x + 1)) as u128) + 1;
        push_utf16_char(out, '-');
        push_decimal_digits(out, magnitude);
        proof {
            lemma_encode_utf16_concat(seq!['-'], decimal_digits(magnitude as nat));
            assert(encode_utf16(seq!['-']) =~= utf16_units('-')) by {
                reveal_with_fuel(encode_utf16, 2);
            }
        }
    } else {
        push_decimal_digits(out, x as u128);
    }
}

} // verus!
