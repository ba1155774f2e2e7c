//! Decoding of blocks.

use vstd::prelude::*;
use crate::blockdata::{block_transactions, decode_transactions, transaction_views, Block};
use crate::header::{Header, HEADER_SIZE};
use crate::prover::result::ProverError;

verus! {

/// `format!`: the text for bytes that are no block.
#[verifier::external_body]
fn parse_failure_message(err: &bitcoin::consensus::encode::Error) -> String {
    format!("faild to parse bytes of a block since {err}")
}

/// Decodes a block from a slice: its header is read from the first 80
/// bytes, its transactions are what the consensus decoder finds.
pub fn decode_from_slice(slice: &[u8]) -> (r: Result<Block, ProverError>)
    ensures
        match r {
            Ok(block) => {
                &&& block_transactions(slice@) == Some(transaction_views(block.txdata@))
                &&& slice@.len() >= HEADER_SIZE
                &&& block.header.encode_spec() == slice@.subrange(0, HEADER_SIZE as int)
            },
            Err(e) => block_transactions(slice@).is_none() && e is Other,
        },
{
    match decode_transactions(slice) {
        Ok(txdata) => Ok(Block { header: Header::read(slice, 0), txdata }),
        Err(err) => Err(ProverError::other(parse_failure_message(&err))),
    }
}

} // verus!
