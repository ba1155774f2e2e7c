//! Generates the proofs that tie transactions to their block.

use vstd::prelude::*;
use crate::blockdata::{
    block_transactions, transaction_ids, transaction_views, Block, Transaction,
};
use crate::header::{Header, HEADER_SIZE};
use crate::prover::result::ProverError;
use crate::prover::utilities::decode_from_slice;
use crate::transaction::hash_views;

verus! {

/// The encoded merkle block that proves, for the block with the encoded
/// header `header` and the transaction ids `txids`, the transactions whose
/// ids are among `selected`.
pub uninterp spec fn txout_proof_of(
    header: Seq<u8>,
    txids: Seq<Seq<u8>>,
    selected: Seq<Seq<u8>>,
) -> Seq<u8>;

/// `format!`: the text for a transaction that a block does not have.
#[verifier::external_body]
fn missing_transaction_message(block_hash: &crate::hash::Hash, index: usize) -> String {
    let shown = bitcoin::hash_types::BlockHash::from_raw_hash(
        bitcoin::hashes::Hash::from_byte_array(block_hash.bytes),
    );
    format!("block {shown:#x} doesn't have {index}-th transaction")
}

/// `format!`: the text for a block without transactions.
#[verifier::external_body]
fn no_transactions_message(block_hash: &crate::hash::Hash) -> String {
    let shown = bitcoin::hash_types::BlockHash::from_raw_hash(
        bitcoin::hashes::Hash::from_byte_array(block_hash.bytes),
    );
    format!("block {shown:#x} doesn't have any transaction")
}

/// `bitcoin::merkle_tree::MerkleBlock::from_header_txids_with_predicate`,
/// with the predicate that an id is among `selected`, and
/// `bitcoin::consensus::serialize` of what it gives. The library refuses a
/// block without transactions.
#[verifier::external_body]
fn build_txout_proof(
    header: &Header,
    txids: &Vec<crate::hash::Hash>,
    selected: &Vec<crate::hash::Hash>,
) -> (r: Vec<u8>)
    requires
        txids@.len() > 0,
    ensures
        r@ == txout_proof_of(header.encode_spec(), hash_views(txids@), hash_views(selected@)),
{
    let header = bitcoin::blockdata::block::Header {
        version: bitcoin::blockdata::block::Version::from_consensus(header.version),
        prev_blockhash: bitcoin::hashes::Hash::from_byte_array(header.prev_blockhash.bytes),
        merkle_root: bitcoin::hashes::Hash::from_byte_array(header.merkle_root.bytes),
        time: header.time,
        bits: bitcoin::pow::CompactTarget::from_consensus(header.bits.bits),
        nonce: header.nonce,
    };
    let ids: Vec<bitcoin::hash_types::Txid> =
        txids.iter().map(|id| bitcoin::hashes::Hash::from_byte_array(id.bytes)).collect();
    let chosen = |id: &bitcoin::hash_types::Txid| is_selected(selected, id.as_ref());
    bitcoin::consensus::serialize(
        &bitcoin::merkle_tree::MerkleBlock::from_header_txids_with_predicate(&header, &ids, chosen),
    )
}

/// Whether `id` is among `selected`.
pub fn is_selected(selected: &Vec<crate::hash::Hash>, id: &[u8; 32]) -> (r: bool)
    ensures
        r == hash_views(selected@).contains(id@),
{
    let wanted = crate::hash::Hash::from_byte_array(*id);
    let mut i: usize = 0;
    while i < selected.len()
        invariant
            i <= selected@.len(),
            wanted@ == id@,
            forall|j: int| 0 <= j < i ==> hash_views(selected@)[j] != id@,
        decreases selected@.len() - i,
    {
        if selected[i] == wanted {
            assert(hash_views(selected@)[i as int] == id@);
            return true;
        }
        i += 1;
    }
    false
}

/// The ids of the transactions at the places `indexes` among `txids`.
pub open spec fn selected_ids(txids: Seq<Seq<u8>>, indexes: Seq<u32>) -> Seq<Seq<u8>> {
    indexes.map_values(|index: u32| txids[index as int])
}

/// The ids of a list of transactions.
fn ids_of(transactions: &Vec<Transaction>) -> (r: Vec<crate::hash::Hash>)
    ensures
        hash_views(r@) == transaction_ids(transactions@),
{
    let mut ids: Vec<crate::hash::Hash> = Vec::with_capacity(transactions.len());
    let mut i: usize = 0;
    while i < transactions.len()
        invariant
            i <= transactions@.len(),
            ids@.len() == i,
            forall|j: int| 0 <= j < i ==> (#[trigger] ids@[j])@ == transactions@[j].txid@,
        decreases transactions@.len() - i,
    {
        ids.push(transactions[i].txid);
        i += 1;
    }
    assert(hash_views(ids@) =~= transaction_ids(transactions@));
    ids
}

/// A generator of block-related proofs.
#[derive(Clone, Debug)]
pub struct BlockProofGenerator {
    pub block: Block,
}

impl BlockProofGenerator {
    /// Creates a new block proof generator.
    pub fn new(block: Block) -> (r: BlockProofGenerator)
        ensures
            r.block == block,
    {
        BlockProofGenerator { block }
    }

    /// Loads a block from its binary data.
    pub fn from_slice(slice: &[u8]) -> (r: Result<BlockProofGenerator, ProverError>)
        ensures
            match r {
                Ok(generator) => {
                    &&& block_transactions(slice@) == Some(
                        transaction_views(generator.block.txdata@),
                    )
                    &&& slice@.len() >= HEADER_SIZE
                    &&& generator.block.header.encode_spec() == slice@.subrange(
                        0,
                        HEADER_SIZE as int,
                    )
                },
                Err(e) => block_transactions(slice@).is_none() && e is Other,
            },
    {
        match decode_from_slice(slice) {
            Ok(block) => Ok(BlockProofGenerator::new(block)),
            Err(e) => Err(e),
        }
    }

    /// The block that the generator holds.
    pub fn as_ref(&self) -> (r: &Block)
        ensures
            *r == self.block,
    {
        &self.block
    }

    /// Gets the transaction at a place of the block.
    pub fn get_transaction(&self, index: usize) -> (r: Result<&Transaction, ProverError>)
        ensures
            match r {
                Ok(transaction) => index < self.block.txdata@.len() && *transaction
                    == self.block.txdata@[index as int],
                Err(e) => index >= self.block.txdata@.len() && e is Other,
            },
    {
        if index < self.block.txdata.len() {
            Ok(&self.block.txdata[index])
        } else {
            let block_hash = self.block.header.block_hash();
            Err(ProverError::other(missing_transaction_message(&block_hash, index)))
        }
    }

    /// Generates the proof for the transactions at the places `indexes`: an
    /// encoded merkle block. Every place must be one of the block, and the
    /// block must have a transaction.
    pub fn generate_txoutproof_via_indexes(&self, indexes: &[u32]) -> (r: Result<
        Vec<u8>,
        ProverError,
    >)
        ensures
            match r {
                Ok(proof) => {
                    &&& self.block.txdata@.len() > 0
                    &&& forall|k: int|
                        0 <= k < indexes@.len() ==> indexes@[k] < self.block.txdata@.len()
                    &&& proof@ == txout_proof_of(
                        self.block.header.encode_spec(),
                        transaction_ids(self.block.txdata@),
                        selected_ids(transaction_ids(self.block.txdata@), indexes@),
                    )
                },
                Err(e) => {
                    &&& e is Other
                    &&& self.block.txdata@.len() == 0 || exists|k: int|
                        0 <= k < indexes@.len() && indexes@[k] >= self.block.txdata@.len()
                },
            },
    {
        let block = &self.block;
        let count = block.txdata.len();
        let ghost txids = transaction_ids(block.txdata@);
        let mut match_txids: Vec<crate::hash::Hash> = Vec::with_capacity(indexes.len());
        let mut k: usize = 0;
        while k < indexes.len()
            invariant
                k <= indexes@.len(),
                count == block.txdata@.len(),
                *block == self.block,
                txids == transaction_ids(block.txdata@),
                forall|j: int| 0 <= j < k ==> indexes@[j] < count,
                hash_views(match_txids@) == selected_ids(txids, indexes@.take(k as int)),
            decreases indexes@.len() - k,
        {
            let index = indexes[k] as usize;
            if index >= count {
                assert(indexes@[k as int] >= self.block.txdata@.len());
                let block_hash = block.header.block_hash();
                return Err(ProverError::other(missing_transaction_message(&block_hash, index)));
            }
            let ghost had = match_txids@;
            match_txids.push(block.txdata[index].txid);
            proof {
                let wanted = selected_ids(txids, indexes@.take(k + 1));
                let before = selected_ids(txids, indexes@.take(k as int));
                assert(hash_views(had).len() == had.len());
                assert(before.len() == k);
                assert forall|j: int| 0 <= j < wanted.len() implies hash_views(match_txids@)[j]
                    == wanted[j] by {
                    if j < k {
                        assert(hash_views(had)[j] == before[j]);
                        assert(indexes@.take(k as int)[j] == indexes@.take(k + 1)[j]);
                    }
                }
                assert(hash_views(match_txids@) =~= wanted);
            }
            k += 1;
        }
        assert(indexes@.take(k as int) =~= indexes@);
        if count == 0 {
            let block_hash = block.header.block_hash();
            return Err(ProverError::other(no_transactions_message(&block_hash)));
        }
        let ids = ids_of(&block.txdata);
        assert(hash_views(ids@).len() == ids@.len());
        assert(transaction_ids(block.txdata@).len() == count);
        Ok(build_txout_proof(&block.header, &ids, &match_txids))
    }
}

} // verus!
