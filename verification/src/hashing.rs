//! The digest primitive that links the chain together: a 64-bit
//! Fowler-Noll-Vo (FNV-1a) mixing function over byte sequences, together
//! with the byte renderings the ledger feeds into it (little-endian
//! integers, characters, and decimal digit strings).
//!
//! This is a linkage checksum, not a cryptographic hash: it is
//! deterministic and order-sensitive, and nothing more is claimed of it.

use vstd::prelude::*;

verus! {

/// The FNV-1a 64-bit offset basis: the state a digest starts from.
pub const FNV_OFFSET_BASIS: u64 = 0xcbf2_9ce4_8422_2325;

/// The FNV-1a 64-bit prime, by which the state is multiplied (wrapping)
/// after each absorbed byte.
pub const FNV_PRIME: u64 = 0x100_0000_01b3;

/// One step of the mixing function: xor the byte in, then multiply by the
/// prime modulo 2^64.
pub open spec fn fnv1a_step(h: u64, b: u8) -> u64 {
    vstd::wrapping::u64_specs::wrapping_mul(h ^ (b as u64), FNV_PRIME)
}

/// The state after absorbing `bytes` in order, starting from state `h`.
pub open spec fn fnv1a_from(h: u64, bytes: Seq<u8>) -> u64
    decreases bytes.len(),
{
    if bytes.len() == 0 {
        h
    } else {
        fnv1a_from(fnv1a_step(h, bytes[0]), bytes.drop_first())
    }
}

/// The digest of a byte sequence: absorb it starting from the offset basis.
pub open spec fn fnv1a(bytes: Seq<u8>) -> u64 {
    fnv1a_from(FNV_OFFSET_BASIS, bytes)
}

/// Absorbing a concatenation is absorbing the two halves one after the
/// other.
pub proof fn lemma_fnv1a_from_concat(h: u64, a: Seq<u8>, b: Seq<u8>)
    ensures
        fnv1a_from(h, a + b) == fnv1a_from(fnv1a_from(h, a), b),
    decreases a.len(),
{
    if a.len() == 0 {
        assert(a + b =~= b);
    } else {
        assert((a + b)[0] == a[0]);
        assert((a + b).drop_first() =~= a.drop_first() + b);
        lemma_fnv1a_from_concat(fnv1a_step(h, a[0]), a.drop_first(), b);
    }
}

/// Absorbing a single byte is one mixing step.
pub proof fn lemma_fnv1a_from_single(h: u64, b: u8)
    ensures
        fnv1a_from(h, seq![b]) == fnv1a_step(h, b),
{
    let s = seq![b];
    assert(s.len() == 1);
    assert(s[0] == b);
    assert(s.drop_first() =~= Seq::<u8>::empty());
    assert(fnv1a_from(h, s) == fnv1a_from(fnv1a_step(h, b), s.drop_first()));
}

/// Absorbs a byte slice into the digest state `h0`.
pub fn fnv1a_absorb(h0: u64, bytes: &[u8]) -> (r: u64)
    ensures
        r == fnv1a_from(h0, bytes@),
{
    let mut h: u64 = h0;
    let n: usize = bytes.len();
    let mut i: usize = 0;
    while i < n
        invariant
            i <= n,
            n == bytes@.len(),
            h == fnv1a_from(h0, bytes@.take(i as int)),
        decreases n - i,
    {
        let b: u8 = bytes[i];
        proof {
            assert(bytes@.take(i + 1) =~= bytes@.take(i as int) + seq![b]);
            lemma_fnv1a_from_concat(h0, bytes@.take(i as int), seq![b]);
            lemma_fnv1a_from_single(h, b);
        }
        h = (h ^ (b as u64)).wrapping_mul(FNV_PRIME);
        i = i + 1;
    }
    proof {
        assert(bytes@.take(n as int) =~= bytes@);
    }
    h
}

/// Absorbs the eight little-endian bytes of `x` into the digest state `h0`.
pub fn fnv1a_absorb_u64(h0: u64, x: u64) -> (r: u64)
    ensures
        r == fnv1a_from(h0, vstd::bytes::spec_u64_to_le_bytes(x)),
{
    let bytes = vstd::bytes::u64_to_le_bytes(x);
    fnv1a_absorb(h0, bytes.as_slice())
}

/// The byte rendering of one character: its scalar value, little-endian.
pub open spec fn char_bytes(c: char) -> Seq<u8> {
    vstd::bytes::spec_u32_to_le_bytes(c as u32)
}

/// The byte rendering of a character sequence, character by character.
pub open spec fn str_bytes(s: Seq<char>) -> Seq<u8>
    decreases s.len(),
{
    if s.len() == 0 {
        Seq::empty()
    } else {
        char_bytes(s[0]) + str_bytes(s.drop_first())
    }
}

/// Appending a character to a string appends its bytes to the rendering.
pub proof fn lemma_str_bytes_push(s: Seq<char>, c: char)
    ensures
        str_bytes(s.push(c)) == str_bytes(s) + char_bytes(c),
    decreases s.len(),
{
    if s.len() == 0 {
        let p = s.push(c);
        assert(p.len() == 1);
        assert(p[0] == c);
        assert(p.drop_first() =~= Seq::<char>::empty());
        assert(str_bytes(p) == char_bytes(c) + str_bytes(p.drop_first()));
        assert(char_bytes(c) + Seq::<u8>::empty() =~= char_bytes(c));
        assert(str_bytes(s) + char_bytes(c) =~= char_bytes(c));
    } else {
        assert(s.push(c)[0] == s[0]);
        assert(s.push(c).drop_first() =~= s.drop_first().push(c));
        lemma_str_bytes_push(s.drop_first(), c);
        assert(char_bytes(s[0]) + (str_bytes(s.drop_first()) + char_bytes(c)) =~= (char_bytes(
            s[0],
        ) + str_bytes(s.drop_first())) + char_bytes(c));
    }
}

/// Absorbs a string into the digest state `h0`, character by character.
pub fn fnv1a_absorb_str(h0: u64, s: &str) -> (r: u64)
    ensures
        r == fnv1a_from(h0, str_bytes(s@)),
{
    let mut h: u64 = h0;
    let n: usize = s.unicode_len();
    let mut i: usize = 0;
    while i < n
        invariant
            i <= n,
            n == s@.len(),
            h == fnv1a_from(h0, str_bytes(s@.take(i as int))),
        decreases n - i,
    {
        let c: char = s.get_char(i);
        let cb = vstd::bytes::u32_to_le_bytes(c as u32);
        proof {
            assert(s@.take(i + 1) =~= s@.take(i as int).push(c));
            lemma_str_bytes_push(s@.take(i as int), c);
            lemma_fnv1a_from_concat(h0, str_bytes(s@.take(i as int)), char_bytes(c));
        }
        h = fnv1a_absorb(h, cb.as_slice());
        i = i + 1;
    }
    proof {
        assert(s@.take(n as int) =~= s@);
    }
    h
}

/// The decimal digits of `n` as ASCII bytes, most significant first, with
/// no leading zeroes (`0` itself is the single digit `"0"`).
pub open spec fn dec_ascii(n: nat) -> Seq<u8>
    decreases n,
{
    if n < 10 {
        seq![(48 + n) as u8]
    } else {
        dec_ascii(n / 10).push((48 + n % 10) as u8)
    }
}

/// Renders `n` in decimal as ASCII bytes, most significant digit first.
pub fn u64_to_dec_ascii(n: u64) -> (digits: Vec<u8>)
    ensures
        digits@ == dec_ascii(n as nat),
    decreases n,
{
    if n < 10 {
        let mut v: Vec<u8> = Vec::new();
        v.push(48 + n as u8);
        proof {
            assert(v@ =~= dec_ascii(n as nat));
        }
        v
    } else {
        let mut v = u64_to_dec_ascii(n / 10);
        v.push(48 + (n % 10) as u8);
        proof {
            assert(v@ =~= dec_ascii(n as nat));
        }
        v
    }
}

} // verus!
