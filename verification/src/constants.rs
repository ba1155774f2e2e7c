//! Constants of the Bitcoin consensus rules and of the client's flag byte.

use vstd::prelude::*;

verus! {

/// Number of blocks between two difficulty adjustments.
pub const DIFFCHANGE_INTERVAL: u32 = 2016;

/// Seconds that one difficulty period is expected to take.
pub const DIFFCHANGE_TIMESPAN: u32 = 1209600;

/// The two highest bits of the flag byte name the chain.
pub const FLAG_CHAIN_TYPE_MASK: u8 = 0b1100_0000;

/// Chain type bits for mainnet.
pub const FLAG_CHAIN_TYPE_MAINNET: u8 = 0b0000_0000;

/// Chain type bits for testnet.
pub const FLAG_CHAIN_TYPE_TESTNET: u8 = 0b1000_0000;

/// Chain type bits for signet.
pub const FLAG_CHAIN_TYPE_SIGNET: u8 = 0b0100_0000;

/// The lowest bit of the flag byte switches the difficulty check off.
pub const FLAG_DISABLE_DIFFICULTY_CHECK: u8 = 0b0000_0001;

/// The bits of the flag byte that carry no meaning yet and must be zero.
pub const FLAG_RESERVED_MASK: u8 = 0b0011_1110;

} // verus!
