//! Digest-backed envelopes: the codec, schema version and digest that seal
//! the canonical bytes of a serialized node.

use vstd::prelude::*;
use crate::text::{
    hex_digits, is_digit_of, lemma_hex16_reads_back, lemma_hex_digits_len,
    lemma_hex_digits_read_back, numeral_value, push_hex,
};

verus! {

/// The 64-bit FNV-1a offset basis.
pub const FNV_OFFSET: u64 = 0xcbf2_9ce4_8422_2325;

/// The 64-bit FNV-1a prime.
pub const FNV_PRIME: u64 = 0x0000_0100_0000_01b3;

/// The schema version that envelopes carry.
pub const SCHEMA_VERSION: u32 = 1;

/// The 64-bit FNV-1a hash of `bytes`.
pub open spec fn fnv1a(bytes: Seq<u8>) -> u64
    decreases bytes.len(),
{
    if bytes.len() == 0 {
        FNV_OFFSET
    } else {
        (fnv1a(bytes.drop_last()) ^ (bytes.last() as u64)).wrapping_mul(FNV_PRIME)
    }
}

/// The digest text of `bytes`: their FNV-1a hash as 16 lowercase hex digits.
pub open spec fn digest_text(bytes: Seq<u8>) -> Seq<char> {
    hex_digits(fnv1a(bytes) as nat, 16)
}

/// The codec, schema version and digest that seal a payload.
#[derive(Clone, Debug)]
pub struct EnvelopeSeal {
    pub codec: String,
    pub schema_version: u32,
    pub digest: String,
}

/// The 64-bit FNV-1a hash of `bytes`.
pub fn fnv1a_digest(bytes: &[u8]) -> (h: u64)
    ensures
        h == fnv1a(bytes@),
{
    let mut h: u64 = FNV_OFFSET;
    let mut i: usize = 0;
    assert(bytes@.take(0) =~= Seq::<u8>::empty());
    while i < bytes.len()
        invariant
            i <= bytes@.len(),
            h == fnv1a(bytes@.take(i as int)),
        decreases bytes@.len() - i,
    {
        assert(bytes@.take(i + 1).drop_last() =~= bytes@.take(i as int));
        h = (h ^ (bytes[i] as u64)).wrapping_mul(FNV_PRIME);
        i = i + 1;
    }
    assert(bytes@.take(i as int) =~= bytes@);
    h
}

/// The seal of the canonical serialized bytes of a payload: codec
/// `zk-canonical-v1`, schema version 1, and the payload's digest.
pub fn seal(canonical_payload: &[u8]) -> (s: EnvelopeSeal)
    ensures
        s.codec@ == "zk-canonical-v1"@,
        s.schema_version == SCHEMA_VERSION,
        s.digest@ == digest_text(canonical_payload@),
        s.digest@.len() == 16,
{
    let h = fnv1a_digest(canonical_payload);
    let mut digest = String::new();
    push_hex(&mut digest, h, 16);
    proof {
        lemma_hex_digits_len(h as nat, 16);
    }
    EnvelopeSeal {
        codec: String::from_str("zk-canonical-v1"),
        schema_version: SCHEMA_VERSION,
        digest,
    }
}

/// FNV-1a starts from the offset basis and takes every byte in turn: xor the
/// byte into the hash, then multiply by the prime modulo 2^64.
pub proof fn lemma_fnv1a_every_byte(bytes: Seq<u8>, x: u8)
    ensures
        fnv1a(Seq::<u8>::empty()) == FNV_OFFSET,
        fnv1a(bytes.push(x)) == (fnv1a(bytes) ^ (x as u64)).wrapping_mul(FNV_PRIME),
{
    assert(bytes.push(x).drop_last() =~= bytes);
}

/// A seal's digest is the FNV-1a hash of the payload written as 16 lowercase
/// hex digits: it reads back as the hash.
pub proof fn lemma_digest_is_the_hash(bytes: Seq<u8>)
    ensures
        digest_text(bytes).len() == 16,
        numeral_value(digest_text(bytes), 16) == fnv1a(bytes),
        forall|i: int| 0 <= i < 16 ==> is_digit_of(#[trigger] digest_text(bytes)[i], 16),
{
    lemma_hex16_reads_back(fnv1a(bytes));
    lemma_hex_digits_read_back(fnv1a(bytes) as nat, 16);
}

} // verus!
