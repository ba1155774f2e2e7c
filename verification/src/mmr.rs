//! The Merkle Mountain Range over block headers: its nodes, the rule that
//! merges two of them, and the proofs checked against a root.

use vstd::prelude::*;
use crate::hash::{hash_concat, sha256d, sha256d_digest};
use crate::header::{encoded_bits, encoded_block_hash, push_bytes, Header};
use crate::pow::{compact_target_value, target_work};
use crate::uint256::U256;
use crate::wire::{le_bytes, le_bytes_of_value, le_value_injective, pow256, u32_le_bytes, u32_to_le};

verus! {

/// Length of an encoded node.
pub const HEADER_DIGEST_SIZE: usize = 92;

/// A node of the Merkle Mountain Range: the summary of the headers between
/// two heights.
#[derive(Clone, Copy, Debug)]
pub struct HeaderDigest {
    /// The height of the first header that the node covers.
    pub min_height: u32,
    /// The height of the last header that the node covers.
    pub max_height: u32,
    /// The sum of the work of the headers that the node covers.
    pub partial_chain_work: U256,
    /// For a leaf the block hash, else the hash of the two children.
    pub children_hash: crate::hash::Hash,
}

/// What a node holds, as mathematical values.
pub struct DigestView {
    pub min_height: u32,
    pub max_height: u32,
    pub partial_chain_work: nat,
    pub children_hash: Seq<u8>,
}

/// The first 20 bytes of every encoded node: its size, 92, and the offsets of
/// its four fields, 20, 24, 28 and 60.
pub open spec fn digest_table_head() -> Seq<u8> {
    u32_le_bytes(92) + u32_le_bytes(20) + u32_le_bytes(24) + u32_le_bytes(28) + u32_le_bytes(60)
}

impl DigestView {
    /// The packed form of the node: a table of the two heights, the work as
    /// 32 little-endian bytes, and the hash.
    pub open spec fn encode(self) -> Seq<u8> {
        digest_table_head() + u32_le_bytes(self.min_height) + u32_le_bytes(self.max_height)
            + le_bytes(self.partial_chain_work, 32) + self.children_hash
    }

    /// The hash by which a parent commits to the node: the double SHA-256 of
    /// its packed form.
    pub open spec fn node_hash(self) -> Seq<u8> {
        sha256d(self.encode())
    }
}

/// The leaf that stands for the header encoded as `header_bytes` at `height`.
pub open spec fn leaf_view(height: u32, header_bytes: Seq<u8>) -> DigestView {
    DigestView {
        min_height: height,
        max_height: height,
        partial_chain_work: target_work(compact_target_value(encoded_bits(header_bytes))),
        children_hash: encoded_block_hash(header_bytes),
    }
}

/// The parent of two nodes. There is one only where the right node starts
/// one block after the left one ends and the summed work fits in 256 bits.
pub open spec fn merge_spec(lhs: DigestView, rhs: DigestView) -> Option<DigestView> {
    if lhs.max_height + 1 == rhs.min_height && lhs.partial_chain_work + rhs.partial_chain_work
        < pow256(32) {
        Some(
            DigestView {
                min_height: lhs.min_height,
                max_height: rhs.max_height,
                partial_chain_work: lhs.partial_chain_work + rhs.partial_chain_work,
                children_hash: sha256d(lhs.node_hash() + rhs.node_hash()),
            },
        )
    } else {
        None
    }
}

impl View for HeaderDigest {
    type V = DigestView;

    open spec fn view(&self) -> DigestView {
        DigestView {
            min_height: self.min_height,
            max_height: self.max_height,
            partial_chain_work: self.partial_chain_work@,
            children_hash: self.children_hash@,
        }
    }
}

impl PartialEq for HeaderDigest {
    fn eq(&self, other: &HeaderDigest) -> (r: bool) {
        proof {
            if self.partial_chain_work@ == other.partial_chain_work@ {
                le_value_injective(
                    self.partial_chain_work.le_bytes@,
                    other.partial_chain_work.le_bytes@,
                );
            }
        }
        self.min_height == other.min_height && self.max_height == other.max_height
            && self.partial_chain_work == other.partial_chain_work && self.children_hash
            == other.children_hash
    }
}

impl vstd::std_specs::cmp::PartialEqSpecImpl for HeaderDigest {
    open spec fn obeys_eq_spec() -> bool {
        true
    }

    open spec fn eq_spec(&self, other: &HeaderDigest) -> bool {
        self@ == other@
    }
}

impl HeaderDigest {
    /// Creates the leaf for a header at a height: it covers that height alone,
    /// carries the work of the header's target, and the block hash.
    pub fn new_leaf(height: u32, header: &Header) -> (r: HeaderDigest)
        ensures
            r@ == leaf_view(height, header.encode_spec()),
    {
        proof {
            header.encoding_carries_fields();
        }
        let block_hash = header.block_hash();
        let blockwork = header.target().to_work();
        HeaderDigest {
            min_height: height,
            max_height: height,
            partial_chain_work: blockwork,
            children_hash: block_hash,
        }
    }

    /// The packed form of the node.
    pub fn encode(&self) -> (r: Vec<u8>)
        ensures
            r@ == self@.encode(),
            r@.len() == HEADER_DIGEST_SIZE,
    {
        let mut out: Vec<u8> = Vec::with_capacity(HEADER_DIGEST_SIZE);
        push_bytes(&mut out, u32_to_le(92).as_slice());
        push_bytes(&mut out, u32_to_le(20).as_slice());
        push_bytes(&mut out, u32_to_le(24).as_slice());
        push_bytes(&mut out, u32_to_le(28).as_slice());
        push_bytes(&mut out, u32_to_le(60).as_slice());
        push_bytes(&mut out, u32_to_le(self.min_height).as_slice());
        push_bytes(&mut out, u32_to_le(self.max_height).as_slice());
        push_bytes(&mut out, self.partial_chain_work.le_bytes.as_slice());
        push_bytes(&mut out, self.children_hash.bytes.as_slice());
        proof {
            le_bytes_of_value(self.partial_chain_work.le_bytes@);
            assert(out@ =~= self@.encode());
        }
        out
    }

    /// Calculates the hash by which a parent commits to the node.
    pub fn calc_mmr_hash(&self) -> (r: crate::hash::Hash)
        ensures
            r@ == self@.node_hash(),
    {
        let bytes = self.encode();
        sha256d_digest(bytes.as_slice())
    }
}

/// The error type of the Merkle Mountain Range library.
#[verifier::external_type_specification]
#[verifier::external_body]
pub struct ExMmrError(ckb_merkle_mountain_range::Error);

/// `ckb_merkle_mountain_range::Error::MergeError`, for two nodes whose
/// heights do not follow each other.
#[verifier::external_body]
fn discontinuous_error(lhs_end: u32, rhs_start: u32) -> ckb_merkle_mountain_range::Error {
    ckb_merkle_mountain_range::Error::MergeError(
        format!("failed since the headers isn't continuous ([-,{lhs_end}], [{rhs_start},-])"),
    )
}

/// `ckb_merkle_mountain_range::Error::MergeError`, for two nodes whose summed
/// work does not fit in 256 bits.
#[verifier::external_body]
fn work_overflow_error() -> ckb_merkle_mountain_range::Error {
    ckb_merkle_mountain_range::Error::MergeError(
        format!("failed since the chain work of the two nodes overflows"),
    )
}

/// The rule that merges two nodes of the Merkle Mountain Range.
pub struct MergeHeaderDigest;

impl MergeHeaderDigest {
    /// Whether the merge of two nodes, in the library's terms, is the parent
    /// that the rule gives.
    pub open spec fn agrees(
        merged: Result<HeaderDigest, ckb_merkle_mountain_range::Error>,
        lhs: DigestView,
        rhs: DigestView,
    ) -> bool {
        match merged {
            Ok(parent) => merge_spec(lhs, rhs) == Some(parent@),
            Err(_) => merge_spec(lhs, rhs).is_none(),
        }
    }

    /// Merges a left node and the right node that follows it into their
    /// parent.
    pub fn merge_nodes(lhs: &HeaderDigest, rhs: &HeaderDigest) -> (r: Result<
        HeaderDigest,
        ckb_merkle_mountain_range::Error,
    >)
        ensures
            MergeHeaderDigest::agrees(r, lhs@, rhs@),
    {
        // 1. Check block heights.
        let lhs_end = lhs.max_height;
        let rhs_start = rhs.min_height;
        if lhs_end == u32::MAX || lhs_end + 1 != rhs_start {
            return Err(discontinuous_error(lhs_end, rhs_start));
        }
        // 2. Sum the work.
        let partial_chain_work = match lhs.partial_chain_work.checked_add(&rhs.partial_chain_work) {
            Some(sum) => sum,
            None => {
                return Err(work_overflow_error());
            },
        };
        // 3. Commit to both children.
        let children_hash = hash_concat(&lhs.calc_mmr_hash(), &rhs.calc_mmr_hash());
        Ok(
            HeaderDigest {
                min_height: lhs.min_height,
                max_height: rhs.max_height,
                partial_chain_work,
                children_hash,
            },
        )
    }
}

impl ckb_merkle_mountain_range::Merge for MergeHeaderDigest {
    type Item = HeaderDigest;

    fn merge(lhs: &HeaderDigest, rhs: &HeaderDigest) -> (r: Result<
        HeaderDigest,
        ckb_merkle_mountain_range::Error,
    >)
        ensures
            MergeHeaderDigest::agrees(r, lhs@, rhs@),
    {
        MergeHeaderDigest::merge_nodes(lhs, rhs)
    }

    fn merge_peaks(lhs: &HeaderDigest, rhs: &HeaderDigest) -> (r: Result<
        HeaderDigest,
        ckb_merkle_mountain_range::Error,
    >)
        ensures
            MergeHeaderDigest::agrees(r, rhs@, lhs@),
    {
        MergeHeaderDigest::merge_nodes(rhs, lhs)
    }
}

/// The views of a list of nodes.
pub open spec fn digest_views(nodes: Seq<HeaderDigest>) -> Seq<DigestView> {
    nodes.map_values(|node: HeaderDigest| node@)
}

/// The number of one bits in the binary form of `n`.
pub open spec fn bit_count(n: nat) -> nat
    decreases n,
{
    if n == 0 {
        0
    } else {
        n % 2 + bit_count(n / 2)
    }
}

/// The number of zero bits below the lowest one bit of `n`.
pub open spec fn trailing_zero_count(n: nat) -> nat
    decreases n,
{
    if n == 0 || n % 2 == 1 {
        0
    } else {
        1 + trailing_zero_count(n / 2)
    }
}

/// The number of nodes in a range whose last leaf has the index
/// `leaf_index`: twice the number of leaves, less the number of peaks.
#[verifier::opaque]
pub open spec fn mmr_size_of(leaf_index: u64) -> int {
    2 * (leaf_index + 1) - bit_count((leaf_index + 1) as nat)
}

/// The position of the leaf with the index `leaf_index` among the nodes.
#[verifier::opaque]
pub open spec fn leaf_position_of(leaf_index: u64) -> int {
    mmr_size_of(leaf_index) - trailing_zero_count((leaf_index + 1) as nat) - 1
}

/// The largest range size that the checks below are asked about: more than
/// any range over 32-bit heights has.
pub const MAX_MMR_SIZE: u64 = 0x2_0000_0000;

/// `ckb_merkle_mountain_range::helper::leaf_index_to_mmr_size`: twice the
/// number of leaves up to `index`, less the number of one bits in that
/// number. The index must leave room for the doubling.
pub assume_specification[ ckb_merkle_mountain_range::helper::leaf_index_to_mmr_size ](
    index: u64,
) -> (r: u64)
    requires
        index < 0x7fff_ffff_ffff_ffff,
    ensures
        r == mmr_size_of(index),
;

/// `ckb_merkle_mountain_range::helper::leaf_index_to_pos`: the size of the
/// range up to the leaf, less the trailing zero bits of the number of leaves,
/// less one.
pub assume_specification[ ckb_merkle_mountain_range::helper::leaf_index_to_pos ](
    index: u64,
) -> (r: u64)
    requires
        index < 0x7fff_ffff_ffff_ffff,
    ensures
        r == leaf_position_of(index),
;

/// What the library's check of a membership proof gives: whether the root
/// rebuilt from the leaf at `position` and the proof equals `root`, or `None`
/// where it cannot be rebuilt.
pub uninterp spec fn mmr_membership(
    mmr_size: u64,
    proof: Seq<DigestView>,
    root: DigestView,
    position: u64,
    leaf: DigestView,
) -> Option<bool>;

/// What the library's check of an extension proof gives: whether appending
/// `appended` to a range with the root `old_root` gives a range of `mmr_size`
/// nodes with the root `new_root`, or `None` where the roots cannot be
/// rebuilt.
pub uninterp spec fn mmr_extension(
    mmr_size: u64,
    proof: Seq<DigestView>,
    new_root: DigestView,
    old_root: DigestView,
    appended: Seq<DigestView>,
) -> Option<bool>;

/// `ckb_merkle_mountain_range::MerkleProof::verify`, on a proof made with
/// `MerkleProof::new` for one leaf. The outcome is a function of the values
/// handed in: the library merges by `MergeHeaderDigest` and compares nodes
/// field by field.
#[verifier::external_body]
pub(crate) fn verify_membership(
    mmr_size: u64,
    proof: &Vec<HeaderDigest>,
    root: HeaderDigest,
    position: u64,
    leaf: HeaderDigest,
) -> (r: Result<bool, ckb_merkle_mountain_range::Error>)
    requires
        mmr_size <= MAX_MMR_SIZE,
    ensures
        match r {
            Ok(accepted) => mmr_membership(mmr_size, digest_views(proof@), root@, position, leaf@)
                == Some(accepted),
            Err(_) => mmr_membership(mmr_size, digest_views(proof@), root@, position, leaf@)
                .is_none(),
        },
{
    let proof = ckb_merkle_mountain_range::MerkleProof::<HeaderDigest, MergeHeaderDigest>::new(
        mmr_size,
        proof.clone(),
    );
    proof.verify(root, vec![(position, leaf)])
}

/// `ckb_merkle_mountain_range::MerkleProof::verify_incremental`, on a proof
/// made with `MerkleProof::new`. The outcome is a function of the values
/// handed in: the library merges by `MergeHeaderDigest` and compares nodes
/// field by field.
#[verifier::external_body]
pub(crate) fn verify_extension(
    mmr_size: u64,
    proof: Vec<HeaderDigest>,
    new_root: HeaderDigest,
    old_root: HeaderDigest,
    appended: Vec<HeaderDigest>,
) -> (r: Result<bool, ckb_merkle_mountain_range::Error>)
    requires
        mmr_size <= MAX_MMR_SIZE,
    ensures
        match r {
            Ok(accepted) => mmr_extension(
                mmr_size,
                digest_views(proof@),
                new_root@,
                old_root@,
                digest_views(appended@),
            ) == Some(accepted),
            Err(_) => mmr_extension(
                mmr_size,
                digest_views(proof@),
                new_root@,
                old_root@,
                digest_views(appended@),
            ).is_none(),
        },
{
    let proof = ckb_merkle_mountain_range::MerkleProof::<HeaderDigest, MergeHeaderDigest>::new(
        mmr_size,
        proof,
    );
    proof.verify_incremental(new_root, old_root, appended)
}

/// The number of nodes in the range over the leaves `0..=leaf_index`.
pub fn range_size(leaf_index: u32) -> (r: u64)
    ensures
        r == mmr_size_of(leaf_index as u64),
        r <= MAX_MMR_SIZE,
{
    reveal(mmr_size_of);
    ckb_merkle_mountain_range::helper::leaf_index_to_mmr_size(leaf_index as u64)
}

/// The position of the leaf with the index `leaf_index`.
pub fn leaf_position(leaf_index: u32) -> (r: u64)
    ensures
        r == leaf_position_of(leaf_index as u64),
{
    ckb_merkle_mountain_range::helper::leaf_index_to_pos(leaf_index as u64)
}

} // verus!
