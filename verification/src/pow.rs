//! Proof-of-work arithmetic: compact targets, targets, work and the
//! difficulty adjustment.

use vstd::prelude::*;
use crate::constants::{
    DIFFCHANGE_TIMESPAN, FLAG_CHAIN_TYPE_MAINNET, FLAG_CHAIN_TYPE_MASK, FLAG_CHAIN_TYPE_SIGNET,
    FLAG_CHAIN_TYPE_TESTNET,
};
use crate::uint256::U256;
use crate::wire::{le_value, pow256};

verus! {

/// The chain that a client follows, as its flag byte names it.
#[derive(Clone, Copy, Debug, PartialEq, Eq, Structural)]
pub enum BitcoinChainType {
    Mainnet,
    Testnet,
    Signet,
    /// Reserved.
    Other,
}

impl BitcoinChainType {
    /// The chain type that the two highest bits of `flags` name.
    pub open spec fn of_flags(flags: u8) -> BitcoinChainType {
        let chain = flags & FLAG_CHAIN_TYPE_MASK;
        if chain == FLAG_CHAIN_TYPE_MAINNET {
            BitcoinChainType::Mainnet
        } else if chain == FLAG_CHAIN_TYPE_TESTNET {
            BitcoinChainType::Testnet
        } else if chain == FLAG_CHAIN_TYPE_SIGNET {
            BitcoinChainType::Signet
        } else {
            BitcoinChainType::Other
        }
    }
}

impl From<u8> for BitcoinChainType {
    fn from(flags: u8) -> (r: BitcoinChainType) {
        let chain = flags & FLAG_CHAIN_TYPE_MASK;
        if chain == FLAG_CHAIN_TYPE_MAINNET {
            BitcoinChainType::Mainnet
        } else if chain == FLAG_CHAIN_TYPE_TESTNET {
            BitcoinChainType::Testnet
        } else if chain == FLAG_CHAIN_TYPE_SIGNET {
            BitcoinChainType::Signet
        } else {
            BitcoinChainType::Other
        }
    }
}

impl vstd::std_specs::convert::FromSpecImpl<u8> for BitcoinChainType {
    open spec fn obeys_from_spec() -> bool {
        true
    }

    open spec fn from_spec(flags: u8) -> BitcoinChainType {
        BitcoinChainType::of_flags(flags)
    }
}

/// The 32-bit packed form of a target, as a block header carries it.
#[derive(Clone, Copy, Debug, PartialEq, Eq, Structural)]
pub struct CompactTarget {
    pub bits: u32,
}

impl CompactTarget {
    /// Wraps the consensus encoding of a compact target.
    pub fn from_consensus(bits: u32) -> (r: CompactTarget)
        ensures
            r.bits == bits,
    {
        CompactTarget { bits }
    }

    /// The consensus encoding of the compact target.
    pub fn to_consensus(self) -> (r: u32)
        ensures
            r == self.bits,
    {
        self.bits
    }
}

/// The number of bytes needed to write `v`: zero for zero.
pub open spec fn byte_length(v: nat) -> nat
    decreases v,
{
    if v == 0 {
        0
    } else {
        1 + byte_length(v / 256)
    }
}

/// The target that a compact target stands for.
///
/// The high byte is an exponent in bytes, the low three bytes a mantissa. A
/// mantissa with its sign bit set stands for zero. The shift is taken modulo
/// 256 bits, and what leaves the 256 bits on the left is dropped.
#[verifier::opaque]
pub open spec fn compact_target_value(bits: u32) -> nat {
    let exponent = (bits / 0x100_0000) as nat;
    let field = (bits % 0x100_0000) as nat;
    let mantissa = if exponent <= 3 {
        field / pow256((3 - exponent) as nat)
    } else {
        field
    };
    let shift = if exponent <= 3 {
        0
    } else {
        ((exponent - 3) % 32) as nat
    };
    if mantissa > 0x7f_ffff {
        0
    } else {
        (mantissa * pow256(shift)) % pow256(32)
    }
}

/// The compact form of a target: its three most significant bytes and its
/// length in bytes, moved by one byte where the mantissa's sign bit would be
/// set. Lower bytes are lost.
#[verifier::opaque]
pub open spec fn target_compact(target: nat) -> u32 {
    let size = byte_length(target);
    let mantissa = if size <= 3 {
        target * pow256((3 - size) as nat)
    } else {
        target / pow256((size - 3) as nat)
    };
    if mantissa >= 0x80_0000 {
        (mantissa / 256 + (size + 1) * 0x100_0000) as u32
    } else {
        (mantissa + size * 0x100_0000) as u32
    }
}

/// The work that a block with this target stands for: `2^256 / (target + 1)`,
/// computed as `(~target) / (target + 1) + 1` over 256 bits, with the targets
/// zero and one standing for the largest work and the largest target for one.
#[verifier::opaque]
pub open spec fn target_work(target: nat) -> nat {
    let all_ones = (pow256(32) - 1) as nat;
    if target == 0 || target == 1 {
        all_ones
    } else if target == all_ones {
        1
    } else {
        ((all_ones - target) / (target + 1) as int + 1) as nat
    }
}

/// The largest target of mainnet and testnet: `0xFFFF` followed by 26 zero
/// bytes.
pub open spec fn max_target() -> nat {
    0xffff * pow256(26)
}

/// The largest attainable target of signet.
pub open spec fn max_attainable_signet() -> nat {
    0x0377_ae00 * pow256(26)
}

/// The largest target that the chain named by `flags` allows.
pub open spec fn max_target_of(flags: u8) -> nat {
    if BitcoinChainType::of_flags(flags) == BitcoinChainType::Signet {
        max_attainable_signet()
    } else {
        max_target()
    }
}

/// The seconds that count for a difficulty period that began at `start_time`
/// and ended at `end_time`: the difference, held between a quarter and four
/// times the expected span.
pub open spec fn adjusted_timespan(start_time: u32, end_time: u32) -> nat {
    let actual = end_time - start_time;
    if actual < DIFFCHANGE_TIMESPAN / 4 {
        (DIFFCHANGE_TIMESPAN / 4) as nat
    } else if actual > DIFFCHANGE_TIMESPAN * 4 {
        (DIFFCHANGE_TIMESPAN * 4) as nat
    } else {
        actual as nat
    }
}

/// The target of the next difficulty period: the previous target scaled by
/// the time the period took over the time it should have taken, and no larger
/// than the chain's largest target.
#[verifier::opaque]
pub open spec fn next_target(prev_target: nat, start_time: u32, end_time: u32, flags: u8) -> nat {
    let scaled = prev_target * adjusted_timespan(start_time, end_time) / (
    DIFFCHANGE_TIMESPAN as nat);
    if scaled > max_target_of(flags) {
        max_target_of(flags)
    } else {
        scaled
    }
}

/// `bitcoin::pow::Target::from_compact`: the target that a compact target
/// stands for, as 32 little-endian bytes.
#[verifier::external_body]
fn target_from_compact_le(bits: u32) -> (r: [u8; 32])
    ensures
        le_value(r@) == compact_target_value(bits),
{
    let compact = bitcoin::pow::CompactTarget::from_consensus(bits);
    bitcoin::pow::Target::from_compact(compact).to_le_bytes()
}

/// `bitcoin::pow::Target::to_compact_lossy`: the compact form of the target
/// that the 32 little-endian bytes spell.
#[verifier::external_body]
fn target_to_compact_lossy_le(target: &[u8; 32]) -> (r: u32)
    ensures
        r == target_compact(le_value(target@)),
{
    bitcoin::pow::Target::from_le_bytes(*target).to_compact_lossy().to_consensus()
}

/// `bitcoin::pow::Target::to_work`: the work of the target that the 32
/// little-endian bytes spell, as 32 little-endian bytes.
#[verifier::external_body]
fn target_to_work_le(target: &[u8; 32]) -> (r: [u8; 32])
    ensures
        le_value(r@) == target_work(le_value(target@)),
{
    bitcoin::pow::Target::from_le_bytes(*target).to_work().to_le_bytes()
}

/// A 256-bit threshold that a block hash must not exceed.
#[derive(Clone, Copy, Debug)]
pub struct Target {
    pub value: U256,
}

impl View for Target {
    type V = nat;

    open spec fn view(&self) -> nat {
        self.value@
    }
}

impl Target {
    /// The target that a compact target stands for.
    pub fn from_compact(compact: CompactTarget) -> (r: Target)
        ensures
            r@ == compact_target_value(compact.bits),
    {
        Target { value: U256::from_le_bytes(target_from_compact_le(compact.bits)) }
    }

    /// The compact form of the target; its low bytes are lost.
    pub fn to_compact_lossy(&self) -> (r: CompactTarget)
        ensures
            r.bits == target_compact(self@),
    {
        let le_bytes = self.value.to_le_bytes();
        CompactTarget { bits: target_to_compact_lossy_le(&le_bytes) }
    }

    /// The work that a block with this target stands for.
    pub fn to_work(&self) -> (r: U256)
        ensures
            r@ == target_work(self@),
    {
        let le_bytes = self.value.to_le_bytes();
        U256::from_le_bytes(target_to_work_le(&le_bytes))
    }

    /// Whether the block hash, read as a little-endian number, is at most the
    /// target.
    pub fn is_met_by(&self, block_hash: &crate::hash::Hash) -> (r: bool)
        ensures
            r == (le_value(block_hash@) <= self@),
    {
        let hash_value = U256::from_le_bytes(block_hash.to_byte_array());
        !self.value.less_than(&hash_value)
    }

    /// The largest target of mainnet and testnet.
    pub fn max() -> (r: Target)
        ensures
            r@ == max_target(),
    {
        proof {
            compact_of_largest_targets();
        }
        Target::from_compact(CompactTarget { bits: 0x1d00_ffff })
    }

    /// The largest attainable target of signet.
    pub fn max_attainable_signet() -> (r: Target)
        ensures
            r@ == max_attainable_signet(),
    {
        proof {
            compact_of_largest_targets();
        }
        Target::from_compact(CompactTarget { bits: 0x1e03_77ae })
    }
}

/// 256 to a sum of exponents is the product of the powers.
pub proof fn pow256_adds(a: nat, b: nat)
    ensures
        pow256(a + b) == pow256(a) * pow256(b),
    decreases a,
{
    if a == 0 {
        assert(pow256(0) == 1);
        assert(pow256(b) == 1 * pow256(b));
    } else {
        pow256_adds((a - 1) as nat, b);
        assert(pow256(a + b) == 256 * pow256((a - 1 + b) as nat));
        assert(256 * (pow256((a - 1) as nat) * pow256(b)) == (256 * pow256((a - 1) as nat))
            * pow256(b)) by (nonlinear_arith);
    }
}

/// The small powers of 256.
pub proof fn pow256_small()
    ensures
        pow256(0) == 1,
        pow256(1) == 0x100,
        pow256(2) == 0x1_0000,
        pow256(3) == 0x100_0000,
        pow256(4) == 0x1_0000_0000,
        pow256(5) == 0x100_0000_0000,
        pow256(6) == 0x1_0000_0000_0000,
{
    reveal_with_fuel(pow256, 8);
}

/// The compact targets `0x1d00ffff` and `0x1e0377ae` stand for the largest
/// targets, and both leave room below 256 bits for the scaling of a
/// difficulty adjustment.
pub proof fn compact_of_largest_targets()
    ensures
        compact_target_value(0x1d00_ffff) == max_target(),
        compact_target_value(0x1e03_77ae) == max_attainable_signet(),
        max_target() < max_attainable_signet(),
        (max_attainable_signet() + 1) * DIFFCHANGE_TIMESPAN <= pow256(32),
{
    reveal(compact_target_value);
    pow256_small();
    pow256_adds(26, 6);
    pow256_adds(26, 1);
    let p = pow256(26);
    assert(p > 0) by {
        crate::wire::le_value_bound(Seq::<u8>::new(26, |i: int| 0u8));
    }
    assert(pow256(32) == p * 0x1_0000_0000_0000);
    assert(pow256(27) == 256 * p) by {
        assert(pow256(27) == pow256(26) * pow256(1));
        assert(p * 0x100 == 256 * p) by (nonlinear_arith);
    }
    // 0x1d00ffff: exponent 29, mantissa 0xffff, shift 26 bytes.
    assert(0x1d00_ffffu32 / 0x100_0000 == 0x1d);
    assert(0x1d00_ffffu32 % 0x100_0000 == 0xffff);
    assert(0xffff * p < p * 0x1_0000_0000_0000) by (nonlinear_arith)
        requires
            p > 0,
    ;
    assert((0xffff * p) % pow256(32) == 0xffff * p) by {
        vstd::arithmetic::div_mod::lemma_small_mod((0xffff * p) as nat, pow256(32));
    }
    // 0x1e0377ae: exponent 30, mantissa 0x0377ae, shift 27 bytes.
    assert(0x1e03_77aeu32 / 0x100_0000 == 0x1e);
    assert(0x1e03_77aeu32 % 0x100_0000 == 0x03_77ae);
    assert(0x03_77ae * (256 * p) == 0x0377_ae00 * p) by (nonlinear_arith);
    assert(0x0377_ae00 * p < p * 0x1_0000_0000_0000) by (nonlinear_arith)
        requires
            p > 0,
    ;
    assert((0x0377_ae00 * p) % pow256(32) == 0x0377_ae00 * p) by {
        vstd::arithmetic::div_mod::lemma_small_mod((0x0377_ae00 * p) as nat, pow256(32));
    }
    assert(0xffff * p < 0x0377_ae00 * p) by (nonlinear_arith)
        requires
            p > 0,
    ;
    assert((0x0377_ae00 * p + 1) * 1209600 <= p * 0x1_0000_0000_0000) by (nonlinear_arith)
        requires
            p >= 1,
    ;
}

/// The next target is never above the largest target of the chain nor above
/// four times the previous target, and it is below a quarter of the previous
/// target only where the chain's largest target is.
pub proof fn next_target_is_bounded(prev_target: nat, start_time: u32, end_time: u32, flags: u8)
    ensures
        next_target(prev_target, start_time, end_time, flags) <= max_target_of(flags),
        next_target(prev_target, start_time, end_time, flags) <= 4 * prev_target,
        next_target(prev_target, start_time, end_time, flags) >= prev_target / 4 || next_target(
            prev_target,
            start_time,
            end_time,
            flags,
        ) == max_target_of(flags),
{
    reveal(next_target);
    let expected = DIFFCHANGE_TIMESPAN as int;
    let actual = adjusted_timespan(start_time, end_time) as int;
    let product = prev_target * actual;
    let quarter = prev_target / 4;
    assert(302400 <= actual <= 4838400);
    assert(product <= (4 * prev_target) * expected) by (nonlinear_arith)
        requires
            product == prev_target * actual,
            actual <= 4838400,
            expected == 1209600,
    ;
    assert(quarter * expected <= product) by (nonlinear_arith)
        requires
            product == prev_target * actual,
            302400 <= actual,
            expected == 1209600,
            quarter * 4 <= prev_target,
    ;
    vstd::arithmetic::div_mod::lemma_div_is_ordered(
        product as int,
        (4 * prev_target) * expected,
        expected,
    );
    vstd::arithmetic::div_mod::lemma_div_multiples_vanish((4 * prev_target) as int, expected);
    vstd::arithmetic::div_mod::lemma_div_is_ordered(
        quarter * expected,
        product as int,
        expected,
    );
    vstd::arithmetic::div_mod::lemma_div_multiples_vanish(quarter as int, expected);
}

/// Calculates the target of the next difficulty period from the target of the
/// period that ends, the time of its first block and the time of its last.
pub fn calculate_next_target(
    prev_target: Target,
    start_time: u32,
    end_time: u32,
    flags: u8,
) -> (r: Target)
    ensures
        r@ == next_target(prev_target@, start_time, end_time, flags),
{
    reveal(next_target);
    let expected = DIFFCHANGE_TIMESPAN;
    let actual: u32 = if end_time < start_time {
        expected / 4
    } else {
        let spent = end_time - start_time;
        if spent < expected / 4 {
            expected / 4
        } else if spent > expected * 4 {
            expected * 4
        } else {
            spent
        }
    };
    assert(actual == adjusted_timespan(start_time, end_time));
    let max = match BitcoinChainType::from(flags) {
        BitcoinChainType::Signet => Target::max_attainable_signet(),
        _ => Target::max(),
    };
    assert(max@ == max_target_of(flags));
    proof {
        compact_of_largest_targets();
    }
    match prev_target.value.checked_mul_u32(actual) {
        None => {
            proof {
                let product = prev_target@ * actual;
                let limit = (max@ + 1) * DIFFCHANGE_TIMESPAN;
                assert(limit <= product) by (nonlinear_arith)
                    requires
                        limit == (max@ + 1) * DIFFCHANGE_TIMESPAN,
                        (max_attainable_signet() + 1) * DIFFCHANGE_TIMESPAN <= pow256(32),
                        max@ <= max_attainable_signet(),
                        pow256(32) <= product,
                ;
                vstd::arithmetic::div_mod::lemma_div_is_ordered(
                    limit as int,
                    product as int,
                    DIFFCHANGE_TIMESPAN as int,
                );
                vstd::arithmetic::div_mod::lemma_div_multiples_vanish(
                    (max@ + 1) as int,
                    DIFFCHANGE_TIMESPAN as int,
                );
            }
            max
        },
        Some(product) => {
            match product.checked_div_u32(expected) {
                Some(scaled) => {
                    if scaled.greater_than(&max.value) {
                        max
                    } else {
                        Target { value: scaled }
                    }
                },
                None => max,
            }
        },
    }
}

} // verus!
