use vstd::arithmetic::div_mod::lemma_mod_breakdown;
use vstd::arithmetic::power::{lemma_pow_positive, pow};
use vstd::prelude::*;

verus! {

/// The unsigned integer whose big-endian bytes are `s`.
pub open spec fn be_value(s: Seq<u8>) -> nat
    decreases s.len(),
{
    if s.len() == 0 {
        0
    } else {
        be_value(s.drop_last()) * 256 + s.last() as nat
    }
}

/// The `n` low-order bytes of `v`, most significant first.
pub open spec fn be_bytes(v: nat, n: nat) -> Seq<u8>
    decreases n,
{
    if n == 0 {
        Seq::empty()
    } else {
        be_bytes(v / 256, (n - 1) as nat).push((v % 256) as u8)
    }
}

/// `n` big-endian bytes hold `v` modulo `256^n`.
pub proof fn lemma_be_roundtrip(v: nat, n: nat)
    ensures
        be_bytes(v, n).len() == n,
        be_value(be_bytes(v, n)) == v % (pow(256, n) as nat),
    decreases n,
{
    reveal(pow);
    if n == 0 {
    } else {
        lemma_be_roundtrip(v / 256, (n - 1) as nat);
        lemma_pow_positive(256, (n - 1) as nat);
        let s = be_bytes(v, n);
        assert(s.drop_last() =~= be_bytes(v / 256, (n - 1) as nat));
        lemma_mod_breakdown(v as int, 256, pow(256, (n - 1) as nat));
        assert(pow(256, n) == 256 * pow(256, (n - 1) as nat));
    }
}

/// A value read from `s` is below `256^len`.
pub proof fn lemma_be_value_bound(s: Seq<u8>)
    ensures
        be_value(s) < pow(256, s.len()),
    decreases s.len(),
{
    reveal(pow);
    if s.len() > 0 {
        lemma_be_value_bound(s.drop_last());
        let a = be_value(s.drop_last());
        let p = pow(256, (s.len() - 1) as nat);
        assert(a * 256 + s.last() < p * 256) by (nonlinear_arith)
            requires
                a < p,
                s.last() < 256,
        ;
    }
}

proof fn lemma_pow256_16()
    ensures
        pow(256, 16) == 0x1_0000_0000_0000_0000_0000_0000_0000_0000,
        pow(256, 16) == 256 * pow(256, 15),
{
    reveal_with_fuel(pow, 17);
}

/// Appends the `n` low-order bytes of `v`, most significant first.
pub fn push_be(out: &mut Vec<u8>, v: u128, n: usize)
    ensures
        final(out)@ == old(out)@ + be_bytes(v as nat, n as nat),
    decreases n,
{
    if n > 0 {
        push_be(out, v / 256, n - 1);
        out.push((v % 256) as u8);
        assert(be_bytes(v as nat, n as nat) =~= be_bytes((v / 256) as nat, (n - 1) as nat).push((v % 256) as u8));
    }
}

/// The unsigned integer whose big-endian bytes are `bytes` (at most 16).
pub fn be_read(bytes: &Vec<u8>) -> (v: u128)
    requires
        bytes@.len() <= 16,
    ensures
        v == be_value(bytes@),
{
    let mut acc: u128 = 0;
    let mut i: usize = 0;
    proof {
        lemma_pow256_16();
    }
    while i < bytes.len()
        invariant
            bytes@.len() <= 16,
            0 <= i <= bytes.len(),
            acc == be_value(bytes@.take(i as int)),
            pow(256, 16) == 0x1_0000_0000_0000_0000_0000_0000_0000_0000,
            pow(256, 16) == 256 * pow(256, 15),
        decreases bytes.len() - i,
    {
        proof {
            lemma_be_value_bound(bytes@.take(i as int));
            vstd::arithmetic::power::lemma_pow_increases(256, i as nat, 15);
            assert(acc * 256 + bytes@[i as int] < pow(256, 16)) by (nonlinear_arith)
                requires
                    acc < pow(256, i as nat),
                    pow(256, i as nat) <= pow(256, 15),
                    pow(256, 16) == 256 * pow(256, 15),
                    bytes@[i as int] < 256,
            ;
        }
        assert(bytes@.take(i + 1).drop_last() =~= bytes@.take(i as int));
        acc = acc * 256 + bytes[i] as u128;
        i = i + 1;
    }
    assert(bytes@.take(bytes@.len() as int) =~= bytes@);
    acc
}

} // verus!
