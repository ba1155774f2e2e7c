//! Bitcoin block headers: the 80-byte consensus encoding, the block hash and
//! the proof-of-work check.

use vstd::prelude::*;
use crate::hash::{sha256d, sha256d_digest};
use crate::pow::{compact_target_value, CompactTarget, Target};
use crate::wire::{le_value, read_u32_le, u32_le_bytes, u32_le_bytes_of_le, u32_of_le, u32_to_le};

verus! {

/// Length of an encoded header.
pub const HEADER_SIZE: usize = 80;

/// A Bitcoin block header.
#[derive(Clone, Copy, Debug)]
pub struct Header {
    pub version: i32,
    pub prev_blockhash: crate::hash::Hash,
    pub merkle_root: crate::hash::Hash,
    pub time: u32,
    pub bits: CompactTarget,
    pub nonce: u32,
}

/// The previous block hash that an encoded header carries.
pub open spec fn encoded_prev_blockhash(bytes: Seq<u8>) -> Seq<u8> {
    bytes.subrange(4, 36)
}

/// The merkle root that an encoded header carries.
pub open spec fn encoded_merkle_root(bytes: Seq<u8>) -> Seq<u8> {
    bytes.subrange(36, 68)
}

/// The block time that an encoded header carries.
pub open spec fn encoded_time(bytes: Seq<u8>) -> u32 {
    u32_of_le(bytes.subrange(68, 72))
}

/// The compact target that an encoded header carries.
pub open spec fn encoded_bits(bytes: Seq<u8>) -> u32 {
    u32_of_le(bytes.subrange(72, 76))
}

/// The hash of the block whose encoded header is `bytes`.
pub open spec fn encoded_block_hash(bytes: Seq<u8>) -> Seq<u8> {
    sha256d(bytes)
}

/// Whether the block with the encoded header `bytes` meets the target that
/// the header itself names: its hash, read as a little-endian number, is at
/// most the target.
pub open spec fn encoded_pow_is_valid(bytes: Seq<u8>) -> bool {
    le_value(encoded_block_hash(bytes)) <= compact_target_value(encoded_bits(bytes))
}

/// The signed number with the same 32 bits.
fn reinterpret_as_i32(x: u32) -> (r: i32)
    ensures
        r as u32 == x,
{
    let r = x as i32;
    assert(r as u32 == x) by (bit_vector)
        requires
            r == x as i32,
    ;
    r
}

/// The unsigned number with the same 32 bits.
fn reinterpret_as_u32(x: i32) -> (r: u32)
    ensures
        r == x as u32,
{
    x as u32
}

impl Header {
    /// The 80 bytes of the header in consensus encoding: version, previous
    /// block hash, merkle root, time, compact target and nonce, the numbers
    /// little-endian.
    pub open spec fn encode_spec(self) -> Seq<u8> {
        u32_le_bytes(self.version as u32) + self.prev_blockhash@ + self.merkle_root@
            + u32_le_bytes(self.time) + u32_le_bytes(self.bits.bits) + u32_le_bytes(self.nonce)
    }

    /// Reads the header whose 80 bytes start at `at`.
    pub fn read(bytes: &[u8], at: usize) -> (r: Header)
        requires
            at + HEADER_SIZE <= bytes@.len(),
        ensures
            r.encode_spec() == bytes@.subrange(at as int, at + HEADER_SIZE),
    {
        let len = bytes.len();
        let header = Header {
            version: reinterpret_as_i32(read_u32_le(bytes, at)),
            prev_blockhash: crate::hash::Hash::read(bytes, at + 4),
            merkle_root: crate::hash::Hash::read(bytes, at + 36),
            time: read_u32_le(bytes, at + 68),
            bits: CompactTarget { bits: read_u32_le(bytes, at + 72) },
            nonce: read_u32_le(bytes, at + 76),
        };
        proof {
            u32_le_bytes_of_le(bytes@.subrange(at as int, at + 4));
            u32_le_bytes_of_le(bytes@.subrange(at + 68, at + 72));
            u32_le_bytes_of_le(bytes@.subrange(at + 72, at + 76));
            u32_le_bytes_of_le(bytes@.subrange(at + 76, at + 80));
            assert(header.encode_spec() =~= bytes@.subrange(at as int, at + HEADER_SIZE));
        }
        header
    }

    /// Decodes a header; `None` unless there are exactly 80 bytes.
    pub fn decode(bytes: &[u8]) -> (r: Option<Header>)
        ensures
            r.is_some() <==> bytes@.len() == HEADER_SIZE,
            r matches Some(header) ==> header.encode_spec() == bytes@,
    {
        if bytes.len() != HEADER_SIZE {
            return None;
        }
        let header = Header::read(bytes, 0);
        assert(bytes@.subrange(0, HEADER_SIZE as int) =~= bytes@);
        Some(header)
    }

    /// Encodes the header.
    pub fn encode(&self) -> (r: Vec<u8>)
        ensures
            r@ == self.encode_spec(),
            r@.len() == HEADER_SIZE,
    {
        let mut out: Vec<u8> = Vec::with_capacity(HEADER_SIZE);
        push_bytes(&mut out, u32_to_le(reinterpret_as_u32(self.version)).as_slice());
        push_bytes(&mut out, self.prev_blockhash.bytes.as_slice());
        push_bytes(&mut out, self.merkle_root.bytes.as_slice());
        push_bytes(&mut out, u32_to_le(self.time).as_slice());
        push_bytes(&mut out, u32_to_le(self.bits.bits).as_slice());
        push_bytes(&mut out, u32_to_le(self.nonce).as_slice());
        assert(out@ =~= self.encode_spec());
        out
    }

    /// The hash of the block: the double SHA-256 of the encoded header.
    pub fn block_hash(&self) -> (r: crate::hash::Hash)
        ensures
            r@ == encoded_block_hash(self.encode_spec()),
    {
        let bytes = self.encode();
        sha256d_digest(bytes.as_slice())
    }

    /// The target that the header names.
    pub fn target(&self) -> (r: Target)
        ensures
            r@ == compact_target_value(self.bits.bits),
    {
        Target::from_compact(self.bits)
    }

    /// Checks the proof of work against the target that the header names, and
    /// returns the block hash where it is met.
    pub fn validate_pow(&self) -> (r: Option<crate::hash::Hash>)
        ensures
            r.is_some() <==> encoded_pow_is_valid(self.encode_spec()),
            r matches Some(hash) ==> hash@ == encoded_block_hash(self.encode_spec()),
    {
        proof {
            self.encoding_carries_fields();
        }
        let hash = self.block_hash();
        if self.target().is_met_by(&hash) {
            Some(hash)
        } else {
            None
        }
    }

    /// The encoding has 80 bytes and carries each field at its place.
    pub proof fn encoding_carries_fields(self)
        ensures
            self.encode_spec().len() == HEADER_SIZE,
            encoded_prev_blockhash(self.encode_spec()) == self.prev_blockhash@,
            encoded_merkle_root(self.encode_spec()) == self.merkle_root@,
            encoded_time(self.encode_spec()) == self.time,
            encoded_bits(self.encode_spec()) == self.bits.bits,
    {
        let bytes = self.encode_spec();
        assert(bytes.subrange(4, 36) =~= self.prev_blockhash@);
        assert(bytes.subrange(36, 68) =~= self.merkle_root@);
        assert(bytes.subrange(68, 72) =~= u32_le_bytes(self.time));
        assert(bytes.subrange(72, 76) =~= u32_le_bytes(self.bits.bits));
        crate::wire::u32_le_round_trip(self.time);
        crate::wire::u32_le_round_trip(self.bits.bits);
    }
}

/// Appends `src` to `out`.
pub fn push_bytes(out: &mut Vec<u8>, src: &[u8])
    ensures
        final(out)@ == old(out)@ + src@,
{
    let n = src.len();
    let mut i: usize = 0;
    while i < n
        invariant
            i <= n,
            n == src@.len(),
            out@ == old(out)@ + src@.take(i as int),
        decreases n - i,
    {
        out.push(src[i]);
        assert(out@ =~= old(out)@ + src@.take(i + 1));
        i += 1;
    }
    assert(src@.take(n as int) =~= src@);
}

} // verus!
