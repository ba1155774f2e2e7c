//! Blocks and transactions, as far as the client and the prover look into
//! them: a transaction is its encoding and its id, a block is its header and
//! its transactions.

use vstd::prelude::*;
use crate::header::{Header, HEADER_SIZE};

verus! {

/// A transaction: its consensus encoding and its id.
#[derive(Clone, Debug)]
pub struct Transaction {
    pub txid: crate::hash::Hash,
    pub data: Vec<u8>,
}

/// What a transaction holds, as mathematical values.
pub struct TransactionView {
    pub txid: Seq<u8>,
    pub data: Seq<u8>,
}

impl View for Transaction {
    type V = TransactionView;

    open spec fn view(&self) -> TransactionView {
        TransactionView { txid: self.txid@, data: self.data@ }
    }
}

/// A block: its header and its transactions, in order.
#[derive(Clone, Debug)]
pub struct Block {
    pub header: Header,
    pub txdata: Vec<Transaction>,
}

/// The views of a list of transactions.
pub open spec fn transaction_views(transactions: Seq<Transaction>) -> Seq<TransactionView> {
    transactions.map_values(|transaction: Transaction| transaction@)
}

/// The ids of a list of transactions.
pub open spec fn transaction_ids(transactions: Seq<Transaction>) -> Seq<Seq<u8>> {
    transactions.map_values(|transaction: Transaction| transaction.txid@)
}

/// The error of the consensus decoder.
#[verifier::external_type_specification]
#[verifier::external_body]
pub struct ExEncodeError(bitcoin::consensus::encode::Error);

/// The id of the transaction that the bytes encode; `None` where they encode
/// none.
pub uninterp spec fn transaction_id(bytes: Seq<u8>) -> Option<Seq<u8>>;

/// The transactions of the block that the bytes encode, each with its id and
/// its encoding; `None` where the bytes encode no block.
pub uninterp spec fn block_transactions(bytes: Seq<u8>) -> Option<Seq<TransactionView>>;

/// `bitcoin::blockdata::transaction::Transaction::txid`, of the transaction
/// that `bitcoin::consensus::deserialize` reads from the bytes.
#[verifier::external_body]
pub(crate) fn txid_of_encoded(bytes: &[u8]) -> (r: Option<crate::hash::Hash>)
    ensures
        match r {
            Some(txid) => transaction_id(bytes@) == Some(txid@),
            None => transaction_id(bytes@).is_none(),
        },
{
    let transaction: bitcoin::blockdata::transaction::Transaction =
        bitcoin::consensus::deserialize(bytes).ok()?;
    Some(crate::hash::Hash { bytes: bitcoin::hashes::Hash::to_byte_array(transaction.txid()) })
}

/// `bitcoin::consensus::deserialize`, for a block: the transactions of the
/// block, each handed out as its id (`Transaction::txid`) and its encoding
/// (`bitcoin::consensus::serialize`). A block starts with the 80 bytes of its
/// header.
#[verifier::external_body]
pub(crate) fn decode_transactions(bytes: &[u8]) -> (r: Result<
    Vec<Transaction>,
    bitcoin::consensus::encode::Error,
>)
    ensures
        match r {
            Ok(transactions) => block_transactions(bytes@) == Some(
                transaction_views(transactions@),
            ) && bytes@.len() >= HEADER_SIZE,
            Err(_) => block_transactions(bytes@).is_none(),
        },
{
    let block: bitcoin::blockdata::block::Block = bitcoin::consensus::deserialize(bytes)?;
    Ok(
        block.txdata.iter().map(
            |tx| Transaction {
                txid: crate::hash::Hash { bytes: bitcoin::hashes::Hash::to_byte_array(tx.txid()) },
                data: bitcoin::consensus::serialize(tx),
            },
        ).collect(),
    )
}

} // verus!
