//! The packed forms of the witnesses: the update that advances a client and
//! the proof of a transaction.

use vstd::prelude::*;
use crate::client::{byte_strings, SpvUpdate};
use crate::header::{push_bytes, HEADER_SIZE};
use crate::mmr::{digest_views, DigestView};
use crate::packed::{copy_range, u32_at};
use crate::transaction::TransactionProof;
use crate::vectors::{
    all_of_size, digest_views_are_packable, nodes_are_packable, pack_bytes, pack_headers,
    pack_proof, packed_bytes, packed_bytes_round_trip, packed_headers, packed_of_unpacked_headers, packed_of_unpacked_proof,
    packed_proof, unpack_bytes, unpack_headers, unpack_proof, unpacked_bytes, unpacked_headers,
    unpacked_of_packed_headers, unpacked_of_packed_proof, unpacked_proof,
};
use crate::wire::{read_u32_le, u32_le_bytes, u32_le_bytes_of_le, u32_le_round_trip, u32_to_le};

verus! {

/// The packed form of an update: a table of the packed headers and the
/// packed proof. Its head gives the full size and the two offsets.
pub open spec fn packed_update(headers: Seq<Seq<u8>>, nodes: Seq<DigestView>) -> Seq<u8> {
    let packed_headers = packed_headers(headers);
    let packed_proof = packed_proof(nodes);
    u32_le_bytes((12 + packed_headers.len() + packed_proof.len()) as u32) + u32_le_bytes(12)
        + u32_le_bytes((12 + packed_headers.len()) as u32) + packed_headers + packed_proof
}

/// The full size of a packed update.
pub open spec fn packed_update_len(headers: Seq<Seq<u8>>, nodes: Seq<DigestView>) -> nat {
    12 + (4 + 80 * headers.len()) + (4 + 96 * nodes.len())
}

/// The encoded headers and the proof that a packed update holds; `None`
/// unless the bytes are a table of two fields that unpack.
pub open spec fn unpacked_update(bytes: Seq<u8>) -> Option<(Seq<Seq<u8>>, Seq<DigestView>)> {
    if bytes.len() >= 12 && u32_at(bytes, 0) == bytes.len() && u32_at(bytes, 4) == 12 && 12
        <= u32_at(bytes, 8) <= bytes.len() {
        match (
            unpacked_headers(bytes.subrange(12, u32_at(bytes, 8) as int)),
            unpacked_proof(bytes.subrange(u32_at(bytes, 8) as int, bytes.len() as int)),
        ) {
            (Some(headers), Some(nodes)) => Some((headers, nodes)),
            _ => None,
        }
    } else {
        None
    }
}

/// Unpacking a packed update gives the headers and the proof back.
pub proof fn unpacked_of_packed_update(headers: Seq<Seq<u8>>, nodes: Seq<DigestView>)
    requires
        packed_update_len(headers, nodes) <= u32::MAX,
        all_of_size(headers, HEADER_SIZE as nat),
        nodes_are_packable(nodes),
    ensures
        packed_update(headers, nodes).len() == packed_update_len(headers, nodes),
        unpacked_update(packed_update(headers, nodes)) == Some((headers, nodes)),
{
    let bytes = packed_update(headers, nodes);
    let first = packed_headers(headers);
    let second = packed_proof(nodes);
    unpacked_of_packed_headers(headers);
    unpacked_of_packed_proof(nodes);
    u32_le_round_trip((12 + first.len() + second.len()) as u32);
    u32_le_round_trip(12);
    u32_le_round_trip((12 + first.len()) as u32);
    assert(bytes.subrange(0, 4) =~= u32_le_bytes((12 + first.len() + second.len()) as u32));
    assert(bytes.subrange(4, 8) =~= u32_le_bytes(12));
    assert(bytes.subrange(8, 12) =~= u32_le_bytes((12 + first.len()) as u32));
    assert(bytes.subrange(12, (12 + first.len()) as int) =~= first);
    assert(bytes.subrange((12 + first.len()) as int, bytes.len() as int) =~= second);
}

/// Bytes that unpack to an update are the packed form of that update.
pub proof fn packed_of_unpacked_update(bytes: Seq<u8>)
    requires
        unpacked_update(bytes) is Some,
    ensures
        all_of_size(unpacked_update(bytes)->Some_0.0, HEADER_SIZE as nat),
        nodes_are_packable(unpacked_update(bytes)->Some_0.1),
        packed_update(unpacked_update(bytes)->Some_0.0, unpacked_update(bytes)->Some_0.1) == bytes,
{
    let split = u32_at(bytes, 8) as int;
    let first = bytes.subrange(12, split);
    let second = bytes.subrange(split, bytes.len() as int);
    packed_of_unpacked_headers(first);
    packed_of_unpacked_proof(second);
    u32_le_bytes_of_le(bytes.subrange(0, 4));
    u32_le_bytes_of_le(bytes.subrange(4, 8));
    u32_le_bytes_of_le(bytes.subrange(8, 12));
    let found = unpacked_update(bytes)->Some_0;
    assert(packed_update(found.0, found.1) =~= bytes);
}

impl SpvUpdate {
    /// Whether the update can be packed: every header has its 80 bytes and
    /// the packed form is no longer than a 32-bit size can say.
    pub open spec fn is_packable(&self) -> bool {
        &&& all_of_size(byte_strings(self.headers@), HEADER_SIZE as nat)
        &&& packed_update_len(byte_strings(self.headers@), digest_views(self.new_headers_mmr_proof@))
            <= u32::MAX
    }

    /// Whether the update can be packed.
    pub fn can_be_packed(&self) -> (r: bool)
        ensures
            r == self.is_packable(),
    {
        let count = self.headers.len();
        let mut i: usize = 0;
        while i < count
            invariant
                i <= count,
                count == self.headers@.len(),
                forall|k: int|
                    0 <= k < i ==> (#[trigger] byte_strings(self.headers@)[k]).len() == HEADER_SIZE,
            decreases count - i,
        {
            if self.headers[i].len() != HEADER_SIZE {
                assert(byte_strings(self.headers@)[i as int].len() != HEADER_SIZE);
                return false;
            }
            i += 1;
        }
        let nodes = self.new_headers_mmr_proof.len();
        assert(byte_strings(self.headers@).len() == count);
        assert(digest_views(self.new_headers_mmr_proof@).len() == nodes);
        count <= u32::MAX as usize && nodes <= u32::MAX as usize && 20 + 80 * (count as u64) + 96
            * (nodes as u64) <= u32::MAX as u64
    }

    /// The packed form of the update.
    pub fn encode(&self) -> (r: Vec<u8>)
        requires
            self.is_packable(),
        ensures
            r@ == packed_update(
                byte_strings(self.headers@),
                digest_views(self.new_headers_mmr_proof@),
            ),
    {
        proof {
            digest_views_are_packable(self.new_headers_mmr_proof@);
            unpacked_of_packed_headers(byte_strings(self.headers@));
            unpacked_of_packed_proof(digest_views(self.new_headers_mmr_proof@));
        }
        let first = pack_headers(&self.headers);
        let second = pack_proof(&self.new_headers_mmr_proof);
        let mut out: Vec<u8> = Vec::new();
        push_bytes(&mut out, u32_to_le((12 + first.len() + second.len()) as u32).as_slice());
        push_bytes(&mut out, u32_to_le(12).as_slice());
        push_bytes(&mut out, u32_to_le((12 + first.len()) as u32).as_slice());
        push_bytes(&mut out, first.as_slice());
        push_bytes(&mut out, second.as_slice());
        assert(out@ =~= packed_update(
            byte_strings(self.headers@),
            digest_views(self.new_headers_mmr_proof@),
        ));
        out
    }

    /// Unpacks an update; `None` unless the bytes are the packed form of one.
    pub fn decode(bytes: &[u8]) -> (r: Option<SpvUpdate>)
        ensures
            match r {
                Some(update) => unpacked_update(bytes@) == Some(
                    (byte_strings(update.headers@), digest_views(update.new_headers_mmr_proof@)),
                ),
                None => unpacked_update(bytes@).is_none(),
            },
    {
        let len = bytes.len();
        if len < 12 || len > u32::MAX as usize {
            return None;
        }
        if read_u32_le(bytes, 0) as usize != len || read_u32_le(bytes, 4) != 12 {
            return None;
        }
        let split = read_u32_le(bytes, 8) as usize;
        if split < 12 || split > len {
            return None;
        }
        let first = copy_range(bytes, 12, split);
        let second = copy_range(bytes, split, len);
        let headers = match unpack_headers(first.as_slice()) {
            Some(headers) => headers,
            None => {
                return None;
            },
        };
        let new_headers_mmr_proof = match unpack_proof(second.as_slice()) {
            Some(nodes) => nodes,
            None => {
                return None;
            },
        };
        Some(SpvUpdate { headers, new_headers_mmr_proof })
    }
}

/// The packed form of a transaction proof: a table of the place of the
/// transaction, the height of its block, the packed merkle block and the
/// packed header proof. Its head gives the full size and the four offsets.
pub open spec fn packed_transaction_proof(
    tx_index: u32,
    height: u32,
    transaction_proof: Seq<u8>,
    header_proof: Seq<DigestView>,
) -> Seq<u8> {
    let third = packed_bytes(transaction_proof);
    let fourth = packed_proof(header_proof);
    u32_le_bytes((28 + third.len() + fourth.len()) as u32) + u32_le_bytes(20) + u32_le_bytes(24)
        + u32_le_bytes(28) + u32_le_bytes((28 + third.len()) as u32) + u32_le_bytes(tx_index)
        + u32_le_bytes(height) + third + fourth
}

/// The full size of a packed transaction proof.
pub open spec fn packed_transaction_proof_len(
    transaction_proof: Seq<u8>,
    header_proof: Seq<DigestView>,
) -> nat {
    28 + (4 + transaction_proof.len()) + (4 + 96 * header_proof.len())
}

/// The fields that a packed transaction proof holds; `None` unless the bytes
/// are a table of four fields that unpack.
pub open spec fn unpacked_transaction_proof(bytes: Seq<u8>) -> Option<
    (u32, u32, Seq<u8>, Seq<DigestView>),
> {
    if bytes.len() >= 28 && u32_at(bytes, 0) == bytes.len() && u32_at(bytes, 4) == 20 && u32_at(
        bytes,
        8,
    ) == 24 && u32_at(bytes, 12) == 28 && 28 <= u32_at(bytes, 16) <= bytes.len() {
        match (
            unpacked_bytes(bytes.subrange(28, u32_at(bytes, 16) as int)),
            unpacked_proof(bytes.subrange(u32_at(bytes, 16) as int, bytes.len() as int)),
        ) {
            (Some(transaction_proof), Some(header_proof)) => Some(
                (u32_at(bytes, 20), u32_at(bytes, 24), transaction_proof, header_proof),
            ),
            _ => None,
        }
    } else {
        None
    }
}

/// Unpacking a packed transaction proof gives its fields back.
pub proof fn unpacked_of_packed_transaction_proof(
    tx_index: u32,
    height: u32,
    transaction_proof: Seq<u8>,
    header_proof: Seq<DigestView>,
)
    requires
        packed_transaction_proof_len(transaction_proof, header_proof) <= u32::MAX,
        nodes_are_packable(header_proof),
    ensures
        unpacked_transaction_proof(
            packed_transaction_proof(tx_index, height, transaction_proof, header_proof),
        ) == Some((tx_index, height, transaction_proof, header_proof)),
{
    let bytes = packed_transaction_proof(tx_index, height, transaction_proof, header_proof);
    let third = packed_bytes(transaction_proof);
    let fourth = packed_proof(header_proof);
    packed_bytes_round_trip(transaction_proof, third);
    unpacked_of_packed_proof(header_proof);
    u32_le_round_trip((28 + third.len() + fourth.len()) as u32);
    u32_le_round_trip(20);
    u32_le_round_trip(24);
    u32_le_round_trip(28);
    u32_le_round_trip((28 + third.len()) as u32);
    u32_le_round_trip(tx_index);
    u32_le_round_trip(height);
    assert(bytes.subrange(0, 4) =~= u32_le_bytes((28 + third.len() + fourth.len()) as u32));
    assert(bytes.subrange(4, 8) =~= u32_le_bytes(20));
    assert(bytes.subrange(8, 12) =~= u32_le_bytes(24));
    assert(bytes.subrange(12, 16) =~= u32_le_bytes(28));
    assert(bytes.subrange(16, 20) =~= u32_le_bytes((28 + third.len()) as u32));
    assert(bytes.subrange(20, 24) =~= u32_le_bytes(tx_index));
    assert(bytes.subrange(24, 28) =~= u32_le_bytes(height));
    assert(bytes.subrange(28, (28 + third.len()) as int) =~= third);
    assert(bytes.subrange((28 + third.len()) as int, bytes.len() as int) =~= fourth);
}

/// Bytes that unpack to a transaction proof are the packed form of it.
pub proof fn packed_of_unpacked_transaction_proof(bytes: Seq<u8>)
    requires
        unpacked_transaction_proof(bytes) is Some,
    ensures
        ({
            let found = unpacked_transaction_proof(bytes)->Some_0;
            nodes_are_packable(found.3) && packed_transaction_proof(
                found.0,
                found.1,
                found.2,
                found.3,
            ) == bytes
        }),
{
    let split = u32_at(bytes, 16) as int;
    let third = bytes.subrange(28, split);
    let fourth = bytes.subrange(split, bytes.len() as int);
    packed_bytes_round_trip(Seq::empty(), third);
    packed_of_unpacked_proof(fourth);
    u32_le_bytes_of_le(bytes.subrange(0, 4));
    u32_le_bytes_of_le(bytes.subrange(4, 8));
    u32_le_bytes_of_le(bytes.subrange(8, 12));
    u32_le_bytes_of_le(bytes.subrange(12, 16));
    u32_le_bytes_of_le(bytes.subrange(16, 20));
    u32_le_bytes_of_le(bytes.subrange(20, 24));
    u32_le_bytes_of_le(bytes.subrange(24, 28));
    let found = unpacked_transaction_proof(bytes)->Some_0;
    assert(packed_transaction_proof(found.0, found.1, found.2, found.3) =~= bytes);
}

impl TransactionProof {
    /// Whether the proof can be packed: its packed form is no longer than a
    /// 32-bit size can say.
    pub open spec fn is_packable(&self) -> bool {
        packed_transaction_proof_len(self.transaction_proof@, digest_views(self.header_proof@))
            <= u32::MAX
    }

    /// Whether the proof can be packed.
    pub fn can_be_packed(&self) -> (r: bool)
        ensures
            r == self.is_packable(),
    {
        let bytes = self.transaction_proof.len();
        let nodes = self.header_proof.len();
        assert(digest_views(self.header_proof@).len() == nodes);
        bytes <= u32::MAX as usize && nodes <= u32::MAX as usize && 36 + bytes as u64 + 96 * (
        nodes as u64) <= u32::MAX as u64
    }

    /// The packed form of the proof.
    pub fn encode(&self) -> (r: Vec<u8>)
        requires
            self.is_packable(),
        ensures
            r@ == packed_transaction_proof(
                self.tx_index,
                self.height,
                self.transaction_proof@,
                digest_views(self.header_proof@),
            ),
    {
        proof {
            digest_views_are_packable(self.header_proof@);
            unpacked_of_packed_proof(digest_views(self.header_proof@));
        }
        let third = pack_bytes(self.transaction_proof.as_slice());
        let fourth = pack_proof(&self.header_proof);
        let mut out: Vec<u8> = Vec::new();
        push_bytes(&mut out, u32_to_le((28 + third.len() + fourth.len()) as u32).as_slice());
        push_bytes(&mut out, u32_to_le(20).as_slice());
        push_bytes(&mut out, u32_to_le(24).as_slice());
        push_bytes(&mut out, u32_to_le(28).as_slice());
        push_bytes(&mut out, u32_to_le((28 + third.len()) as u32).as_slice());
        push_bytes(&mut out, u32_to_le(self.tx_index).as_slice());
        push_bytes(&mut out, u32_to_le(self.height).as_slice());
        push_bytes(&mut out, third.as_slice());
        push_bytes(&mut out, fourth.as_slice());
        assert(out@ =~= packed_transaction_proof(
            self.tx_index,
            self.height,
            self.transaction_proof@,
            digest_views(self.header_proof@),
        ));
        out
    }

    /// Unpacks a transaction proof; `None` unless the bytes are the packed
    /// form of one.
    pub fn decode(bytes: &[u8]) -> (r: Option<TransactionProof>)
        ensures
            match r {
                Some(proof) => unpacked_transaction_proof(bytes@) == Some(
                    (
                        proof.tx_index,
                        proof.height,
                        proof.transaction_proof@,
                        digest_views(proof.header_proof@),
                    ),
                ),
                None => unpacked_transaction_proof(bytes@).is_none(),
            },
    {
        let len = bytes.len();
        if len < 28 || len > u32::MAX as usize {
            return None;
        }
        if read_u32_le(bytes, 0) as usize != len || read_u32_le(bytes, 4) != 20 || read_u32_le(
            bytes,
            8,
        ) != 24 || read_u32_le(bytes, 12) != 28 {
            return None;
        }
        let split = read_u32_le(bytes, 16) as usize;
        if split < 28 || split > len {
            return None;
        }
        let third = copy_range(bytes, 28, split);
        let fourth = copy_range(bytes, split, len);
        let transaction_proof = match unpack_bytes(third.as_slice()) {
            Some(data) => data,
            None => {
                return None;
            },
        };
        let header_proof = match unpack_proof(fourth.as_slice()) {
            Some(nodes) => nodes,
            None => {
                return None;
            },
        };
        Some(
            TransactionProof {
                tx_index: read_u32_le(bytes, 20),
                height: read_u32_le(bytes, 24),
                transaction_proof,
                header_proof,
            },
        )
    }
}

} // verus!
