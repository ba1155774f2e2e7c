//! Error taxonomies, each with a stable numeric code below 32.

use vstd::prelude::*;

verus! {

/// Why a client could not be bootstrapped.
#[derive(Clone, Copy, Debug, PartialEq, Eq, Structural)]
pub enum BootstrapError {
    DecodeHeader,
    Height,
    Pow,
    /// Not an error: marks the bound that every code stays under.
    Unreachable,
}

/// Why an update of a client was refused.
#[derive(Clone, Copy, Debug, PartialEq, Eq, Structural)]
pub enum UpdateError {
    DecodeHeader,
    DecodeTargetAdjustInfo,
    EmptyHeaders,
    UncontinuousHeaders,
    Difficulty,
    Pow,
    Mmr,
    HeadersMmrProof,
    ClientId,
    ClientTipBlockHash,
    ClientMinimalHeight,
    ClientMaximalHeight,
    ClientTargetAdjustInfo,
    /// Not an error: marks the bound that every code stays under.
    Unreachable,
}

/// Why a transaction was not accepted as confirmed.
#[derive(Clone, Copy, Debug, PartialEq, Eq, Structural)]
pub enum VerifyTxError {
    DecodeTransaction,
    DecodeTxOutProof,
    TransactionUnconfirmed,
    TransactionTooOld,
    TransactionTooNew,
    TxOutProofIsInvalid,
    TxOutProofInvalidTxIndex,
    TxOutProofInvalidTxId,
    HeaderMmrProof,
    /// Not an error: marks the bound that every code stays under.
    Unreachable,
}

impl BootstrapError {
    /// The numeric code of the error.
    pub open spec fn code_spec(self) -> i8 {
        match self {
            BootstrapError::DecodeHeader => 0x01,
            BootstrapError::Height => 0x09,
            BootstrapError::Pow => 0x0a,
            BootstrapError::Unreachable => 0x20,
        }
    }

    /// The numeric code handed to the host chain.
    pub fn code(self) -> (c: i8)
        ensures
            c == self.code_spec(),
            0 < c <= 0x20,
            c == 0x20 <==> self == BootstrapError::Unreachable,
    {
        match self {
            BootstrapError::DecodeHeader => 0x01,
            BootstrapError::Height => 0x09,
            BootstrapError::Pow => 0x0a,
            BootstrapError::Unreachable => 0x20,
        }
    }
}

impl UpdateError {
    /// The numeric code of the error.
    pub open spec fn code_spec(self) -> i8 {
        match self {
            UpdateError::DecodeHeader => 0x01,
            UpdateError::DecodeTargetAdjustInfo => 0x02,
            UpdateError::EmptyHeaders => 0x09,
            UpdateError::UncontinuousHeaders => 0x0a,
            UpdateError::Difficulty => 0x0b,
            UpdateError::Pow => 0x0c,
            UpdateError::Mmr => 0x11,
            UpdateError::HeadersMmrProof => 0x12,
            UpdateError::ClientId => 0x19,
            UpdateError::ClientTipBlockHash => 0x1a,
            UpdateError::ClientMinimalHeight => 0x1b,
            UpdateError::ClientMaximalHeight => 0x1c,
            UpdateError::ClientTargetAdjustInfo => 0x1d,
            UpdateError::Unreachable => 0x20,
        }
    }

    /// The numeric code handed to the host chain.
    pub fn code(self) -> (c: i8)
        ensures
            c == self.code_spec(),
            0 < c <= 0x20,
            c == 0x20 <==> self == UpdateError::Unreachable,
    {
        match self {
            UpdateError::DecodeHeader => 0x01,
            UpdateError::DecodeTargetAdjustInfo => 0x02,
            UpdateError::EmptyHeaders => 0x09,
            UpdateError::UncontinuousHeaders => 0x0a,
            UpdateError::Difficulty => 0x0b,
            UpdateError::Pow => 0x0c,
            UpdateError::Mmr => 0x11,
            UpdateError::HeadersMmrProof => 0x12,
            UpdateError::ClientId => 0x19,
            UpdateError::ClientTipBlockHash => 0x1a,
            UpdateError::ClientMinimalHeight => 0x1b,
            UpdateError::ClientMaximalHeight => 0x1c,
            UpdateError::ClientTargetAdjustInfo => 0x1d,
            UpdateError::Unreachable => 0x20,
        }
    }
}

impl VerifyTxError {
    /// The numeric code of the error.
    pub open spec fn code_spec(self) -> i8 {
        match self {
            VerifyTxError::DecodeTransaction => 0x01,
            VerifyTxError::DecodeTxOutProof => 0x02,
            VerifyTxError::TransactionUnconfirmed => 0x09,
            VerifyTxError::TransactionTooOld => 0x0a,
            VerifyTxError::TransactionTooNew => 0x0b,
            VerifyTxError::TxOutProofIsInvalid => 0x11,
            VerifyTxError::TxOutProofInvalidTxIndex => 0x12,
            VerifyTxError::TxOutProofInvalidTxId => 0x13,
            VerifyTxError::HeaderMmrProof => 0x19,
            VerifyTxError::Unreachable => 0x20,
        }
    }

    /// The numeric code handed to the host chain.
    pub fn code(self) -> (c: i8)
        ensures
            c == self.code_spec(),
            0 < c <= 0x20,
            c == 0x20 <==> self == VerifyTxError::Unreachable,
    {
        match self {
            VerifyTxError::DecodeTransaction => 0x01,
            VerifyTxError::DecodeTxOutProof => 0x02,
            VerifyTxError::TransactionUnconfirmed => 0x09,
            VerifyTxError::TransactionTooOld => 0x0a,
            VerifyTxError::TransactionTooNew => 0x0b,
            VerifyTxError::TxOutProofIsInvalid => 0x11,
            VerifyTxError::TxOutProofInvalidTxIndex => 0x12,
            VerifyTxError::TxOutProofInvalidTxId => 0x13,
            VerifyTxError::HeaderMmrProof => 0x19,
            VerifyTxError::Unreachable => 0x20,
        }
    }
}

/// Distinct errors of one taxonomy have distinct codes.
pub proof fn update_error_codes_are_distinct(a: UpdateError, b: UpdateError)
    ensures
        a.code_spec() == b.code_spec() <==> a == b,
{
}

/// Distinct errors of one taxonomy have distinct codes.
pub proof fn bootstrap_error_codes_are_distinct(a: BootstrapError, b: BootstrapError)
    ensures
        a.code_spec() == b.code_spec() <==> a == b,
{
}

/// Distinct errors of one taxonomy have distinct codes.
pub proof fn verify_tx_error_codes_are_distinct(a: VerifyTxError, b: VerifyTxError)
    ensures
        a.code_spec() == b.code_spec() <==> a == b,
{
}

} // verus!
