//! Bitcoin simplified payment verification: the client state kept on a host
//! chain, the rules that bootstrap and advance it, and the prover that builds
//! the witnesses those rules accept.

pub mod constants;
pub mod error;
pub mod wire;
pub mod hash;
pub mod uint256;
pub mod pow;
pub mod header;
pub mod mmr;
pub mod client;
pub mod blockdata;
pub mod transaction;
pub mod packed;
pub mod vectors;
pub mod witness;
pub mod prover;
