//! The prover: it follows the header stream off chain and builds the
//! witnesses that the client's rules accept.

pub mod block;
pub mod result;
pub mod service;
pub mod utilities;
