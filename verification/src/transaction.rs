//! Proofs that a transaction is part of the chain that a client follows: a
//! merkle block that ties the transaction to a header, and a membership proof
//! that ties the header to the client's root.

use vstd::prelude::*;
use crate::blockdata::{transaction_id, txid_of_encoded, Transaction, TransactionView};
use crate::client::{ClientView, SpvClient};
use crate::error::VerifyTxError;
use crate::header::{Header, HEADER_SIZE};
use crate::mmr::{
    digest_views, leaf_position, leaf_position_of, leaf_view, mmr_membership, mmr_size_of,
    range_size, verify_membership, DigestView, HeaderDigest,
};
use crate::packed::copy_range;

verus! {

/// Whether the bytes encode a merkle block: a block header together with a
/// partial merkle tree of the block's transactions.
pub uninterp spec fn merkle_block_decodes(bytes: Seq<u8>) -> bool;

/// The transactions that the merkle block encoded by the bytes proves: their
/// ids and their places in the block, or `None` where the partial tree is
/// malformed or does not lead to the header's merkle root.
pub uninterp spec fn merkle_block_matches(bytes: Seq<u8>) -> Option<(Seq<Seq<u8>>, Seq<u32>)>;

/// The byte strings of a list of hashes.
pub open spec fn hash_views(hashes: Seq<crate::hash::Hash>) -> Seq<Seq<u8>> {
    hashes.map_values(|hash: crate::hash::Hash| hash@)
}

/// What reading an encoded merkle block gives.
#[derive(Clone, Debug)]
pub enum MerkleBlockOutcome {
    /// The bytes encode no merkle block.
    Undecodable,
    /// The partial merkle tree is malformed or does not lead to the merkle
    /// root of the header.
    Inconsistent,
    /// The ids of the transactions that the merkle block proves and their
    /// places in the block.
    Proves { txids: Vec<crate::hash::Hash>, indexes: Vec<u32> },
}

/// `bitcoin::merkle_tree::MerkleBlock::extract_matches`, of the merkle block
/// that `bitcoin::consensus::deserialize` reads from the bytes. A merkle
/// block starts with the 80 bytes of its header.
#[verifier::external_body]
fn read_merkle_block(bytes: &[u8]) -> (r: MerkleBlockOutcome)
    ensures
        r is Undecodable <==> !merkle_block_decodes(bytes@),
        !(r is Undecodable) ==> bytes@.len() >= HEADER_SIZE,
        r matches MerkleBlockOutcome::Proves { txids, indexes } ==> merkle_block_matches(bytes@)
            == Some((hash_views(txids@), indexes@)),
        r is Inconsistent ==> merkle_block_matches(bytes@).is_none(),
{
    let block: bitcoin::merkle_tree::MerkleBlock = match bitcoin::consensus::deserialize(bytes) {
        Ok(block) => block,
        Err(_) => return MerkleBlockOutcome::Undecodable,
    };
    let mut matches: Vec<bitcoin::hash_types::Txid> = Vec::new();
    let mut indexes: Vec<u32> = Vec::new();
    match block.extract_matches(&mut matches, &mut indexes) {
        Ok(()) => MerkleBlockOutcome::Proves {
            txids: matches.iter().map(
                |id| crate::hash::Hash { bytes: bitcoin::hashes::Hash::to_byte_array(*id) },
            ).collect(),
            indexes,
        },
        Err(_) => MerkleBlockOutcome::Inconsistent,
    }
}

/// The proof that a transaction is part of the chain.
#[derive(Clone, Debug)]
pub struct TransactionProof {
    /// The place of the transaction in its block.
    pub tx_index: u32,
    /// The height of the block.
    pub height: u32,
    /// The encoded merkle block that proves the transaction.
    pub transaction_proof: Vec<u8>,
    /// The proof that the block's header is under the client's root.
    pub header_proof: Vec<HeaderDigest>,
}

/// The first place at which `value` stands in `list`.
pub open spec fn first_position(list: Seq<u32>, value: u32) -> Option<int>
    decreases list.len(),
{
    if list.len() == 0 {
        None
    } else if list[0] == value {
        Some(0)
    } else {
        match first_position(list.drop_first(), value) {
            Some(i) => Some(i + 1),
            None => None,
        }
    }
}

/// The first place of a value is a place where it stands, with no earlier
/// one; there is none only where the value stands nowhere.
pub proof fn first_position_is_first(list: Seq<u32>, value: u32)
    ensures
        match first_position(list, value) {
            Some(i) => 0 <= i < list.len() && list[i] == value && forall|j: int|
                0 <= j < i ==> list[j] != value,
            None => forall|j: int| 0 <= j < list.len() ==> list[j] != value,
        },
    decreases list.len(),
{
    if list.len() > 0 && list[0] != value {
        let rest = list.drop_first();
        first_position_is_first(rest, value);
        match first_position(rest, value) {
            Some(i) => {
                assert forall|j: int| 0 <= j < i + 1 implies list[j] != value by {
                    if j > 0 {
                        assert(list[j] == rest[j - 1]);
                    }
                }
            },
            None => {
                assert forall|j: int| 0 <= j < list.len() implies list[j] != value by {
                    if j > 0 {
                        assert(list[j] == rest[j - 1]);
                    }
                }
            },
        }
    }
}

/// The verdict on what a merkle block proves, for the transaction `txid` at
/// the place `tx_index`: the two lists have one length, the place is among
/// the proved places, and the id proved for its first occurrence is `txid`.
pub open spec fn match_transaction_spec(
    txids: Seq<Seq<u8>>,
    indexes: Seq<u32>,
    tx_index: u32,
    txid: Seq<u8>,
) -> Result<(), VerifyTxError> {
    if txids.len() != indexes.len() {
        Err(VerifyTxError::TxOutProofIsInvalid)
    } else {
        match first_position(indexes, tx_index) {
            None => Err(VerifyTxError::TxOutProofInvalidTxIndex),
            Some(i) => if txids[i] == txid {
                Ok(())
            } else {
                Err(VerifyTxError::TxOutProofInvalidTxId)
            },
        }
    }
}

/// Checks what a merkle block proves against the transaction `txid` at the
/// place `tx_index` of its block.
pub fn match_transaction(
    txids: &Vec<crate::hash::Hash>,
    indexes: &Vec<u32>,
    tx_index: u32,
    txid: &[u8; 32],
) -> (r: Result<(), VerifyTxError>)
    ensures
        r == match_transaction_spec(hash_views(txids@), indexes@, tx_index, txid@),
{
    if txids.len() != indexes.len() {
        return Err(VerifyTxError::TxOutProofIsInvalid);
    }
    proof {
        first_position_is_first(indexes@, tx_index);
    }
    let wanted = crate::hash::Hash::from_byte_array(*txid);
    let mut i: usize = 0;
    while i < indexes.len()
        invariant
            i <= indexes@.len(),
            txids@.len() == indexes@.len(),
            wanted@ == txid@,
            forall|j: int| 0 <= j < i ==> indexes@[j] != tx_index,
            match first_position(indexes@, tx_index) {
                Some(at) => 0 <= at < indexes@.len() && indexes@[at] == tx_index && forall|j: int|
                    0 <= j < at ==> indexes@[j] != tx_index,
                None => forall|j: int| 0 <= j < indexes@.len() ==> indexes@[j] != tx_index,
            },
        decreases indexes@.len() - i,
    {
        if indexes[i] == tx_index {
            return if txids[i] == wanted {
                Ok(())
            } else {
                Err(VerifyTxError::TxOutProofInvalidTxId)
            };
        }
        i += 1;
    }
    Err(VerifyTxError::TxOutProofInvalidTxIndex)
}

/// The verdict of the client on a block height and a number of
/// confirmations: the height must lie between the client's first and latest
/// height, and where confirmations are asked for, that many blocks must
/// follow the height.
pub open spec fn check_height_spec(client: ClientView, height: u32, confirmations: u32) -> Result<
    (),
    VerifyTxError,
> {
    let min_height = client.headers_mmr_root.min_height;
    let max_height = client.headers_mmr_root.max_height;
    if min_height > height {
        Err(VerifyTxError::TransactionTooOld)
    } else if height > max_height {
        Err(VerifyTxError::TransactionTooNew)
    } else if confirmations > 0 && max_height - height < confirmations {
        Err(VerifyTxError::TransactionUnconfirmed)
    } else {
        Ok(())
    }
}

/// The encoded header that an encoded merkle block starts with.
pub open spec fn proved_header(transaction_proof: Seq<u8>) -> Seq<u8> {
    transaction_proof.subrange(0, HEADER_SIZE as int)
}

/// The verdict on a transaction proof: the encoded header of the block that
/// holds the transaction, or the reason why the proof is refused.
///
/// The height is checked first, then the merkle block must decode, be
/// consistent, and prove `txid` at `tx_index`; last the leaf of the merkle
/// block's header at `height` must be under the client's root.
pub open spec fn verify_transaction_spec(
    client: ClientView,
    txid: Seq<u8>,
    tx_index: u32,
    height: u32,
    transaction_proof: Seq<u8>,
    header_proof: Seq<DigestView>,
    confirmations: u32,
) -> Result<Seq<u8>, VerifyTxError> {
    let min_height = client.headers_mmr_root.min_height;
    let max_height = client.headers_mmr_root.max_height;
    match check_height_spec(client, height, confirmations) {
        Err(e) => Err(e),
        Ok(()) => if !merkle_block_decodes(transaction_proof) {
            Err(VerifyTxError::DecodeTxOutProof)
        } else {
            match merkle_block_matches(transaction_proof) {
                None => Err(VerifyTxError::TxOutProofIsInvalid),
                Some((txids, indexes)) => match match_transaction_spec(
                    txids,
                    indexes,
                    tx_index,
                    txid,
                ) {
                    Err(e) => Err(e),
                    Ok(()) => if mmr_membership(
                        mmr_size_of((max_height - min_height) as u64) as u64,
                        header_proof,
                        client.headers_mmr_root,
                        leaf_position_of((height - min_height) as u64) as u64,
                        leaf_view(height, proved_header(transaction_proof)),
                    ) == Some(true) {
                        Ok(proved_header(transaction_proof))
                    } else {
                        Err(VerifyTxError::HeaderMmrProof)
                    },
                },
            }
        },
    }
}

/// The verdict on a transaction and its proof: the transaction must decode,
/// and the proof must hold for its id.
pub open spec fn verify_transaction_data_spec(
    client: ClientView,
    tx: Seq<u8>,
    tx_index: u32,
    height: u32,
    transaction_proof: Seq<u8>,
    header_proof: Seq<DigestView>,
    confirmations: u32,
) -> Result<(Seq<u8>, TransactionView), VerifyTxError> {
    match transaction_id(tx) {
        None => Err(VerifyTxError::DecodeTransaction),
        Some(txid) => match verify_transaction_spec(
            client,
            txid,
            tx_index,
            height,
            transaction_proof,
            header_proof,
            confirmations,
        ) {
            Err(e) => Err(e),
            Ok(header) => Ok((header, TransactionView { txid, data: tx })),
        },
    }
}

impl SpvClient {
    /// Checks a block height and a number of confirmations against the
    /// heights that the client covers.
    pub fn check_height(&self, height: u32, confirmations: u32) -> (r: Result<(), VerifyTxError>)
        ensures
            r == check_height_spec(self@, height, confirmations),
    {
        let min_height = self.headers_mmr_root.min_height;
        let max_height = self.headers_mmr_root.max_height;
        if min_height > height {
            return Err(VerifyTxError::TransactionTooOld);
        }
        if height > max_height {
            return Err(VerifyTxError::TransactionTooNew);
        }
        if confirmations > 0 && max_height - height < confirmations {
            return Err(VerifyTxError::TransactionUnconfirmed);
        }
        Ok(())
    }

    /// Verifies whether a transaction is in the chain or not.
    ///
    /// Does the same checks as `verify_transaction`, but takes the encoded
    /// transaction in place of its id. The header and the transaction that
    /// were recovered from the bytes are returned.
    pub fn verify_transaction_data(
        &self,
        tx: &[u8],
        tx_proof: &TransactionProof,
        confirmations: u32,
    ) -> (r: Result<(Header, Transaction), VerifyTxError>)
        ensures
            match r {
                Ok((header, transaction)) => verify_transaction_data_spec(
                    self@,
                    tx@,
                    tx_proof.tx_index,
                    tx_proof.height,
                    tx_proof.transaction_proof@,
                    digest_views(tx_proof.header_proof@),
                    confirmations,
                ) == Ok::<(Seq<u8>, TransactionView), VerifyTxError>(
                    (header.encode_spec(), transaction@),
                ),
                Err(e) => verify_transaction_data_spec(
                    self@,
                    tx@,
                    tx_proof.tx_index,
                    tx_proof.height,
                    tx_proof.transaction_proof@,
                    digest_views(tx_proof.header_proof@),
                    confirmations,
                ) == Err::<(Seq<u8>, TransactionView), VerifyTxError>(e),
            },
    {
        let txid = match txid_of_encoded(tx) {
            Some(txid) => txid,
            None => {
                return Err(VerifyTxError::DecodeTransaction);
            },
        };
        let id = txid.to_byte_array();
        match self.verify_transaction(&id, tx_proof, confirmations) {
            Ok(header) => {
                let data = copy_range(tx, 0, tx.len());
                assert(data@ =~= tx@);
                Ok((header, Transaction { txid, data }))
            },
            Err(e) => Err(e),
        }
    }

    /// Verifies whether a transaction is in the chain or not.
    ///
    /// Checks that the transaction is part of the block whose header the
    /// merkle block carries, that this header is part of the chain under the
    /// client's root, and that enough blocks follow it: `0` confirmations
    /// ask for none. The header that was recovered from the proof is
    /// returned.
    pub fn verify_transaction(
        &self,
        txid: &[u8; 32],
        tx_proof: &TransactionProof,
        confirmations: u32,
    ) -> (r: Result<Header, VerifyTxError>)
        ensures
            match r {
                Ok(header) => verify_transaction_spec(
                    self@,
                    txid@,
                    tx_proof.tx_index,
                    tx_proof.height,
                    tx_proof.transaction_proof@,
                    digest_views(tx_proof.header_proof@),
                    confirmations,
                ) == Ok::<Seq<u8>, VerifyTxError>(header.encode_spec()),
                Err(e) => verify_transaction_spec(
                    self@,
                    txid@,
                    tx_proof.tx_index,
                    tx_proof.height,
                    tx_proof.transaction_proof@,
                    digest_views(tx_proof.header_proof@),
                    confirmations,
                ) == Err::<Seq<u8>, VerifyTxError>(e),
            },
    {
        let height = tx_proof.height;
        let min_height = self.headers_mmr_root.min_height;
        let max_height = self.headers_mmr_root.max_height;

        // Verify the height.
        match self.check_height(height, confirmations) {
            Err(e) => {
                return Err(e);
            },
            Ok(()) => {},
        }

        // Verify the merkle block.
        let (matches, indexes) = match read_merkle_block(tx_proof.transaction_proof.as_slice()) {
            MerkleBlockOutcome::Undecodable => {
                return Err(VerifyTxError::DecodeTxOutProof);
            },
            MerkleBlockOutcome::Inconsistent => {
                return Err(VerifyTxError::TxOutProofIsInvalid);
            },
            MerkleBlockOutcome::Proves { txids, indexes } => (txids, indexes),
        };
        match match_transaction(&matches, &indexes, tx_proof.tx_index, txid) {
            Err(e) => {
                return Err(e);
            },
            Ok(()) => {},
        }
        let header = Header::read(tx_proof.transaction_proof.as_slice(), 0);

        // Verify the membership of the header.
        let mmr_size = range_size(max_height - min_height);
        let position = leaf_position(height - min_height);
        let digest = HeaderDigest::new_leaf(height, &header);
        match verify_membership(
            mmr_size,
            &tx_proof.header_proof,
            self.headers_mmr_root,
            position,
            digest,
        ) {
            Ok(true) => Ok(header),
            _ => Err(VerifyTxError::HeaderMmrProof),
        }
    }
}

/// Where a proof is accepted for a transaction id, it is refused for every
/// other id, for the id: one proof at one place proves one transaction.
pub proof fn other_txid_is_refused(
    client: ClientView,
    txid: Seq<u8>,
    other_txid: Seq<u8>,
    tx_index: u32,
    height: u32,
    transaction_proof: Seq<u8>,
    header_proof: Seq<DigestView>,
    confirmations: u32,
)
    requires
        verify_transaction_spec(
            client,
            txid,
            tx_index,
            height,
            transaction_proof,
            header_proof,
            confirmations,
        ) is Ok,
        other_txid != txid,
    ensures
        verify_transaction_spec(
            client,
            other_txid,
            tx_index,
            height,
            transaction_proof,
            header_proof,
            confirmations,
        ) == Err::<Seq<u8>, VerifyTxError>(VerifyTxError::TxOutProofInvalidTxId),
{
}

/// Where a proof is accepted for a transaction id at a place, it is refused
/// at every other place: for the place where the merkle block does not prove
/// that place, and for the id where it proves another id there.
pub proof fn other_index_is_refused(
    client: ClientView,
    txid: Seq<u8>,
    tx_index: u32,
    other_index: u32,
    height: u32,
    transaction_proof: Seq<u8>,
    header_proof: Seq<DigestView>,
    confirmations: u32,
)
    requires
        verify_transaction_spec(
            client,
            txid,
            tx_index,
            height,
            transaction_proof,
            header_proof,
            confirmations,
        ) is Ok,
        other_index != tx_index,
    ensures
        ({
            let (txids, indexes) = merkle_block_matches(transaction_proof)->Some_0;
            verify_transaction_spec(
                client,
                txid,
                other_index,
                height,
                transaction_proof,
                header_proof,
                confirmations,
            ) == match first_position(indexes, other_index) {
                None => Err::<Seq<u8>, VerifyTxError>(VerifyTxError::TxOutProofInvalidTxIndex),
                Some(at) => if txids[at] != txid {
                    Err::<Seq<u8>, VerifyTxError>(VerifyTxError::TxOutProofInvalidTxId)
                } else {
                    verify_transaction_spec(
                        client,
                        txid,
                        tx_index,
                        height,
                        transaction_proof,
                        header_proof,
                        confirmations,
                    )
                },
            }
        }),
{
}

/// With a block height that the client covers, a proof is refused as
/// unconfirmed just where more confirmations are asked for than blocks
/// follow the height, and the verdict is the same for every number of
/// confirmations up to that.
pub proof fn confirmations_decide_at_the_tip(
    client: ClientView,
    txid: Seq<u8>,
    tx_index: u32,
    height: u32,
    transaction_proof: Seq<u8>,
    header_proof: Seq<DigestView>,
    confirmations: u32,
    fewer: u32,
)
    requires
        client.headers_mmr_root.min_height <= height <= client.headers_mmr_root.max_height,
    ensures
        confirmations > client.headers_mmr_root.max_height - height <==> verify_transaction_spec(
            client,
            txid,
            tx_index,
            height,
            transaction_proof,
            header_proof,
            confirmations,
        ) == Err::<Seq<u8>, VerifyTxError>(VerifyTxError::TransactionUnconfirmed),
        confirmations <= client.headers_mmr_root.max_height - height && fewer <= confirmations
            ==> verify_transaction_spec(
            client,
            txid,
            tx_index,
            height,
            transaction_proof,
            header_proof,
            fewer,
        ) == verify_transaction_spec(
            client,
            txid,
            tx_index,
            height,
            transaction_proof,
            header_proof,
            confirmations,
        ),
{
}

} // verus!
