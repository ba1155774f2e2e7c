//! Errors of the prover.

use vstd::prelude::*;

verus! {

/// An error of the prover.
#[derive(Debug)]
pub enum ProverError {
    /// The Merkle Mountain Range library failed.
    Mmr(ckb_merkle_mountain_range::Error),
    /// Anything else, as text for an operator.
    Other(String),
}

impl ProverError {
    /// An error that carries a text.
    pub fn other(message: String) -> (r: ProverError)
        ensures
            r == ProverError::Other(message),
    {
        ProverError::Other(message)
    }

    /// Whether the error carries a text.
    pub fn is_other(&self) -> (r: bool)
        ensures
            r == (self is Other),
    {
        match self {
            ProverError::Other(_) => true,
            ProverError::Mmr(_) => false,
        }
    }

    /// Whether the error came from the Merkle Mountain Range library.
    pub fn is_mmr(&self) -> (r: bool)
        ensures
            r == (self is Mmr),
    {
        match self {
            ProverError::Other(_) => false,
            ProverError::Mmr(_) => true,
        }
    }
}

} // verus!
