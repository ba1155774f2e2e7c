use bitcoin::hashes::Hash as _;
use ckb_bitcoin_spv::blockdata::Transaction;
use ckb_bitcoin_spv::header::Header;
use ckb_bitcoin_spv::mmr::HeaderDigest;
use ckb_bitcoin_spv::pow::{calculate_next_target, CompactTarget, Target};
use ckb_bitcoin_spv::prover::utilities::decode_from_slice;
use ckb_bitcoin_spv::uint256::U256;

/// A sequence of numbers that looks random and is the same on every run.
struct Numbers(u64);

impl Numbers {
    fn next(&mut self) -> u64 {
        self.0 = self.0.wrapping_mul(6364136223846793005).wrapping_add(1442695040888963407);
        self.0 >> 16
    }

    fn bytes(&mut self, len: usize) -> Vec<u8> {
        (0..len).map(|_| self.next() as u8).collect()
    }

    fn array(&mut self) -> [u8; 32] {
        let mut array = [0u8; 32];
        array.copy_from_slice(&self.bytes(32));
        // Numbers of every length, not only of the full one.
        let keep = (self.next() % 33) as usize;
        for byte in array.iter_mut().skip(keep) {
            *byte = 0;
        }
        array
    }
}

#[test]
fn headers_agree_with_the_bitcoin_library() {
    let mut numbers = Numbers(1);
    for round in 0..2000 {
        let mut bytes = numbers.bytes(80);
        if round % 2 == 0 {
            // A target that many hashes meet.
            bytes[72..76].copy_from_slice(&[0xff, 0xff, 0x7f, 0x20]);
        }
        let ours = Header::decode(&bytes).unwrap();
        let theirs: bitcoin::block::Header = bitcoin::consensus::deserialize(&bytes).unwrap();
        assert_eq!(ours.version, theirs.version.to_consensus());
        assert_eq!(ours.prev_blockhash.to_byte_array(), theirs.prev_blockhash.to_byte_array());
        assert_eq!(ours.merkle_root.to_byte_array(), theirs.merkle_root.to_byte_array());
        assert_eq!(ours.time, theirs.time);
        assert_eq!(ours.bits.to_consensus(), theirs.bits.to_consensus());
        assert_eq!(ours.nonce, theirs.nonce);
        assert_eq!(ours.encode(), bitcoin::consensus::serialize(&theirs));
        assert_eq!(ours.block_hash().to_byte_array(), theirs.block_hash().to_byte_array());
        assert_eq!(ours.target().value.to_le_bytes(), theirs.target().to_le_bytes());
        let worked = theirs.validate_pow(theirs.target()).ok();
        assert_eq!(
            ours.validate_pow().map(|hash| hash.to_byte_array()),
            worked.map(|hash| hash.to_byte_array())
        );
        let leaf = HeaderDigest::new_leaf(round, &ours);
        assert_eq!(leaf.partial_chain_work.to_le_bytes(), theirs.work().to_le_bytes());
    }
}

#[test]
fn comparisons_agree_with_the_bitcoin_library() {
    let mut numbers = Numbers(2);
    for _ in 0..5000 {
        let (a, b) = (numbers.array(), numbers.array());
        let target = bitcoin::Target::from_le_bytes(a);
        let hash = bitcoin::BlockHash::from_byte_array(b);
        let ours = Target { value: U256::from_le_bytes(a) };
        let our_hash = ckb_bitcoin_spv::hash::Hash::from_byte_array(b);
        assert_eq!(ours.is_met_by(&our_hash), target.is_met_by(hash));
        let (x, y) = (U256::from_le_bytes(a), U256::from_le_bytes(b));
        let (p, q) = (
            primitive_types::U256::from_little_endian(&a),
            primitive_types::U256::from_little_endian(&b),
        );
        assert_eq!(x.less_than(&y), p < q);
        assert_eq!(x.greater_than(&y), p > q);
        assert_eq!(x == y, p == q);
        assert!(!x.less_than(&x) && !x.greater_than(&x));
        assert_eq!(
            x.checked_add(&y).map(|sum| sum.to_le_bytes().to_vec()),
            p.checked_add(q).map(|sum| {
                let mut bytes = vec![0u8; 32];
                sum.to_little_endian(&mut bytes);
                bytes
            })
        );
    }
}

#[test]
fn next_targets_agree_with_the_consensus_rule() {
    // The rule of the reference client: the time spent is held between a
    // quarter and four times two weeks, the target scaled by it over two
    // weeks, and capped at the largest of the chain.
    let mut numbers = Numbers(3);
    let largest = primitive_types::U256::from(0xffff_u64) << 208;
    for _ in 0..3000 {
        let bits = 0x1800_0000 + (numbers.next() as u32 % 0x0600_0000);
        let prev = Target::from_compact(CompactTarget::from_consensus(bits));
        let start_time = numbers.next() as u32 / 2;
        let spent = (numbers.next() % 6_000_000) as u32;
        let end_time = start_time + spent;
        let next = calculate_next_target(prev, start_time, end_time, 0);
        let held = spent.clamp(302_400, 4_838_400);
        let scaled = primitive_types::U256::from_little_endian(&prev.value.to_le_bytes())
            * primitive_types::U256::from(held)
            / primitive_types::U256::from(1_209_600_u32);
        let expected = if scaled > largest { largest } else { scaled };
        let mut bytes = [0u8; 32];
        expected.to_little_endian(&mut bytes);
        assert_eq!(next.value.to_le_bytes(), bytes, "bits {bits:#x}, spent {spent}");
    }
}

#[test]
fn blocks_agree_with_the_bitcoin_library() {
    let header = "01000000ba8b9cda965dd8e536670f9ddec10e53aab14b20bacad27b9137190000000000190760b278fe7b8565fda3b968b918d5fd997f993b23674c0af3b6fde300b38f33a5914ce6ed5b1b01e32f57";
    let transactions = [
        "01000000010000000000000000000000000000000000000000000000000000000000000000ffffffff0704e6ed5b1b014effffffff0100f2052a01000000434104b68a50eaa0287eff855189f949c1c6e5f58b37c88231373d8a59809cbae83059cc6469d65c665ccfd1cfeb75c6e8e19413bba7fbff9bc762419a76d87b16086eac00000000",
        "0100000001a6b97044d03da79c005b20ea9c0e1a6d9dc12d9f7b91a5911c9030a439eed8f5000000004948304502206e21798a42fae0e854281abd38bacd1aeed3ee3738d9e1446618c4571d1090db022100e2ac980643b0b82c0e88ffdfec6b64e3e6ba35e7ba5fdd7d5d6cc8d25c6b241501ffffffff0100f2052a010000001976a914404371705fa9bd789a2fcd52d2c580b65d35549d88ac00000000",
    ];
    let digits = |text: &str| -> Vec<u8> {
        (0..text.len() / 2).map(|i| u8::from_str_radix(&text[2 * i..2 * i + 2], 16).unwrap()).collect()
    };
    let mut bytes = digits(header);
    bytes.push(2);
    bytes.extend(digits(transactions[0]));
    bytes.extend(digits(transactions[1]));
    let ours = decode_from_slice(&bytes).unwrap();
    let theirs: bitcoin::Block = bitcoin::consensus::deserialize(&bytes).unwrap();
    assert_eq!(ours.header.block_hash().to_byte_array(), theirs.block_hash().to_byte_array());
    assert_eq!(ours.txdata.len(), theirs.txdata.len());
    for (mine, other) in ours.txdata.iter().zip(theirs.txdata.iter()) {
        let Transaction { txid, data } = mine;
        assert_eq!(txid.to_byte_array(), other.txid().to_byte_array());
        assert_eq!(*data, bitcoin::consensus::serialize(other));
    }
    assert!(theirs.check_merkle_root());
}
