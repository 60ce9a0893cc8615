//! A 128-bit key stored as two big-endian byte arrays, so that byte
//! order and numeric order of the two halves agree.

use vstd::prelude::*;

verus! {

/// The big-endian bytes of a 64-bit value, most significant first.
pub open spec fn be_bytes(v: u64) -> Seq<u8> {
    seq![
        ((v >> 56) & 0xFF) as u8,
        ((v >> 48) & 0xFF) as u8,
        ((v >> 40) & 0xFF) as u8,
        ((v >> 32) & 0xFF) as u8,
        ((v >> 24) & 0xFF) as u8,
        ((v >> 16) & 0xFF) as u8,
        ((v >> 8) & 0xFF) as u8,
        (v & 0xFF) as u8,
    ]
}

/// The value eight big-endian bytes spell.
pub open spec fn be_value(s: Seq<u8>) -> u64 {
    (((s[0] as u64) << 56) | ((s[1] as u64) << 48) | ((s[2] as u64) << 40) | ((s[3] as u64) << 32)
        | ((s[4] as u64) << 24) | ((s[5] as u64) << 16) | ((s[6] as u64) << 8) | (s[7] as u64))
}

/// Reading back the big-endian bytes of a value recovers it.
pub proof fn lemma_be_roundtrip(v: u64)
    ensures
        be_value(be_bytes(v)) == v,
{
    assert((((((v >> 56) & 0xFF) as u8) as u64) << 56) | (((((v >> 48) & 0xFF) as u8) as u64)
        << 48) | (((((v >> 40) & 0xFF) as u8) as u64) << 40) | (((((v >> 32) & 0xFF) as u8) as u64)
        << 32) | (((((v >> 24) & 0xFF) as u8) as u64) << 24) | (((((v >> 16) & 0xFF) as u8) as u64)
        << 16) | (((((v >> 8) & 0xFF) as u8) as u64) << 8) | ((((v & 0xFF) as u8) as u64)) == v)
        by (bit_vector);
}

/// Two 64-bit halves, each laid down big-endian.
#[derive(Copy, Clone)]
pub struct LexicalKey128 {
    key1: [u8; 8],
    key2: [u8; 8],
}

impl LexicalKey128 {
    pub closed spec fn key1_bytes(self) -> Seq<u8> {
        self.key1@
    }

    pub closed spec fn key2_bytes(self) -> Seq<u8> {
        self.key2@
    }

    pub fn new(key1: u64, key2: u64) -> (r: LexicalKey128)
        ensures
            r.key1_bytes() == be_bytes(key1),
            r.key2_bytes() == be_bytes(key2),
    {
        let a: [u8; 8] = [
            ((key1 >> 56) & 0xFF) as u8,
            ((key1 >> 48) & 0xFF) as u8,
            ((key1 >> 40) & 0xFF) as u8,
            ((key1 >> 32) & 0xFF) as u8,
            ((key1 >> 24) & 0xFF) as u8,
            ((key1 >> 16) & 0xFF) as u8,
            ((key1 >> 8) & 0xFF) as u8,
            (key1 & 0xFF) as u8,
        ];
        let b: [u8; 8] = [
            ((key2 >> 56) & 0xFF) as u8,
            ((key2 >> 48) & 0xFF) as u8,
            ((key2 >> 40) & 0xFF) as u8,
            ((key2 >> 32) & 0xFF) as u8,
            ((key2 >> 24) & 0xFF) as u8,
            ((key2 >> 16) & 0xFF) as u8,
            ((key2 >> 8) & 0xFF) as u8,
            (key2 & 0xFF) as u8,
        ];
        let r = LexicalKey128 { key1: a, key2: b };
        proof {
            assert(r.key1_bytes() =~= be_bytes(key1));
            assert(r.key2_bytes() =~= be_bytes(key2));
        }
        r
    }

    pub fn key1(&self) -> (r: u64)
        ensures
            r == be_value(self.key1_bytes()),
    {
        ((self.key1[0] as u64) << 56) | ((self.key1[1] as u64) << 48) | ((self.key1[2] as u64)
            << 40) | ((self.key1[3] as u64) << 32) | ((self.key1[4] as u64) << 24) | ((
        self.key1[5] as u64) << 16) | ((self.key1[6] as u64) << 8) | (self.key1[7] as u64)
    }

    pub fn key2(&self) -> (r: u64)
        ensures
            r == be_value(self.key2_bytes()),
    {
        ((self.key2[0] as u64) << 56) | ((self.key2[1] as u64) << 48) | ((self.key2[2] as u64)
            << 40) | ((self.key2[3] as u64) << 32) | ((self.key2[4] as u64) << 24) | ((
        self.key2[5] as u64) << 16) | ((self.key2[6] as u64) << 8) | (self.key2[7] as u64)
    }
}

} // verus!
