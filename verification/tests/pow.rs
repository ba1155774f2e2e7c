use ckb_bitcoin_spv::constants::{
    DIFFCHANGE_INTERVAL, DIFFCHANGE_TIMESPAN, FLAG_CHAIN_TYPE_MAINNET, FLAG_CHAIN_TYPE_SIGNET,
    FLAG_CHAIN_TYPE_TESTNET, FLAG_DISABLE_DIFFICULTY_CHECK,
};
use ckb_bitcoin_spv::client::{difficulty_unchecked, period_phase};
use ckb_bitcoin_spv::header::Header;
use ckb_bitcoin_spv::mmr::HeaderDigest;
use ckb_bitcoin_spv::pow::{calculate_next_target, BitcoinChainType, CompactTarget, Target};
use ckb_bitcoin_spv::uint256::U256;

/// The headers of the first five blocks of the main chain, from height 0.
const FIRST_HEADERS: [&str; 5] = [
    "0100000000000000000000000000000000000000000000000000000000000000000000003ba3edfd7a7b12b27ac72c3e67768f617fc81bc3888a51323a9fb8aa4b1e5e4a29ab5f49ffff001d1dac2b7c",
    "010000006fe28c0ab6f1b372c1a6a246ae63f74f931e8365e15a089c68d6190000000000982051fd1e4ba744bbbe680e1fee14677ba1a3c3540bf7b1cdb606e857233e0e61bc6649ffff001d01e36299",
    "010000004860eb18bf1b1620e37e9490fc8a427514416fd75159ab86688e9a8300000000d5fdcc541e25de1c7a5addedf24858b8bb665c9f36ef744ee42c316022c90f9bb0bc6649ffff001d08d2bd61",
    "01000000bddd99ccfda39da1b108ce1a5d70038d0a967bacb68b6b63065f626a0000000044f672226090d85db9a9f2fbfe5f0f9609b387af7be5b7fbb7a1767c831c9e995dbe6649ffff001d05e0ed6d",
    "010000004944469562ae1c2c74d9a535e00b6f3e40ffbad4f2fda3895501b582000000007a06ea98cd40ba2e3288262b28638cec5337c1456aaf5eedc8e9e5a20f062bdf8cc16649ffff001d2bfee0a9",
];

fn bytes_of(text: &str) -> Vec<u8> {
    let digits: Vec<u8> = text
        .bytes()
        .map(|c| match c {
            b'0'..=b'9' => c - b'0',
            b'a'..=b'f' => c - b'a' + 10,
            _ => panic!("not a hex digit"),
        })
        .collect();
    digits.chunks(2).map(|pair| pair[0] * 16 + pair[1]).collect()
}

/// The 256-bit integer that big-endian hex digits spell.
fn u256(text: &str) -> U256 {
    let padded = format!("{:0>64}", text);
    let mut le_bytes = [0u8; 32];
    for (i, byte) in bytes_of(&padded).iter().rev().enumerate() {
        le_bytes[i] = *byte;
    }
    U256::from_le_bytes(le_bytes)
}

fn target(text: &str) -> Target {
    Target { value: u256(text) }
}

fn target_of(bits: u32) -> Target {
    Target::from_compact(CompactTarget::from_consensus(bits))
}

#[test]
fn main_chain_targets_and_chainwork() {
    let interval = DIFFCHANGE_INTERVAL;
    let mut expected_chainwork = U256::zero();
    let mut next_bits = CompactTarget::from_consensus(0);
    for (height, text) in FIRST_HEADERS.iter().enumerate() {
        let header = Header::decode(&bytes_of(text)).unwrap();
        let curr_target: Target = header.target();
        let blockwork = curr_target.to_work();
        assert!(blockwork == u256("100010001"));
        if height == 0 {
            next_bits = header.bits;
        } else {
            assert_eq!(next_bits, header.bits);
        }
        expected_chainwork = expected_chainwork.checked_add(&blockwork).unwrap();
        let leaf = HeaderDigest::new_leaf(height as u32, &header);
        assert!(leaf.partial_chain_work == blockwork);
    }
    // The chain work at height 4, as a Bitcoin node reports it.
    assert!(expected_chainwork == u256("0500050005"));

    // The first difficulty period of the main chain, 0 to 2015, took longer
    // than two weeks: the target stays at its largest.
    assert_eq!(period_phase(2015), 0);
    assert_eq!((2015 + 1) % interval, 0);
    let next_target =
        calculate_next_target(target_of(0x1d00_ffff), 1231006505, 1233061996, 0);
    assert_eq!(next_target.to_compact_lossy().to_consensus(), 0x1d00_ffff);

    // The period 30240 to 32255 was the first to end early: block 32256
    // carries the compact target 0x1d00d86a.
    assert_eq!(period_phase(32255), 0);
    assert_eq!(period_phase(30240), 1);
    let next_target =
        calculate_next_target(target_of(0x1d00_ffff), 1261130161, 1262152739, 0);
    assert!(
        next_target.value == u256("d86a528bc8bc8bc8bc8bc8bc8bc8bc8bc8bc8bc8bc8bc8bc8bc8bc8b")
    );
    let next_bits = next_target.to_compact_lossy();
    assert_eq!(next_bits.to_consensus(), 0x1d00_d86a);
    let lossy: Target = Target::from_compact(next_bits);
    assert!(lossy.value == u256("d86a0000000000000000000000000000000000000000000000000000"));
    assert!(lossy.to_work() == u256("12ed3afd2"));
}

#[test]
fn constants_of_the_difficulty_adjustment() {
    assert_eq!(DIFFCHANGE_INTERVAL, 2016);
    assert_eq!(DIFFCHANGE_TIMESPAN, 1_209_600);
    assert_eq!(DIFFCHANGE_TIMESPAN, 2016 * 600);
}

#[test]
fn compact_targets_stand_for_targets() {
    let cases: [(u32, &str); 14] = [
        (0x1d00_ffff, "ffff0000000000000000000000000000000000000000000000000000"),
        (0x1b04_04cb, "404cb000000000000000000000000000000000000000000000000"),
        (0x1e03_77ae, "377ae000000000000000000000000000000000000000000000000000000"),
        (0x207f_ffff, "7fffff0000000000000000000000000000000000000000000000000000000000"),
        (0x0312_3456, "123456"),
        (0x0212_3456, "1234"),
        (0x0112_3456, "12"),
        (0x0012_3456, "0"),
        (0x0412_3456, "12345600"),
        (0x0500_9234, "92340000"),
        // A mantissa with its sign bit set stands for zero.
        (0x0492_3456, "0"),
        // The bytes that leave the 256 bits are dropped.
        (0x2200_00ff, "ff00000000000000000000000000000000000000000000000000000000000000"),
        (0x2101_0000, "0"),
        // A shift of 256 bits and more starts over.
        (0x2300_0001, "1"),
    ];
    for (bits, expected) in cases {
        assert!(target_of(bits).value == u256(expected), "compact target {bits:#x}");
    }
    assert!(
        target_of(0xff12_3456).value
            == u256("12345600000000000000000000000000000000000000000000000000000000")
    );
}

#[test]
fn targets_have_a_lossy_compact_form() {
    let cases: [(&str, u32); 15] = [
        ("0", 0),
        ("1", 0x0101_0000),
        ("2", 0x0102_0000),
        ("7f", 0x017f_0000),
        ("80", 0x0200_8000),
        ("ff", 0x0200_ff00),
        ("100", 0x0201_0000),
        ("7fffff", 0x037f_ffff),
        ("800000", 0x0400_8000),
        ("ffffff", 0x0400_ffff),
        ("1000000", 0x0401_0000),
        ("123456789abcdef", 0x0801_2345),
        ("8000000000000000000000000000000000000000000000000000000000000000", 0x2100_8000),
        ("ffffffffffffffffffffffffffffffffffffffffffffffffffffffffffffffff", 0x2100_ffff),
        ("d86a528bc8bc8bc8bc8bc8bc8bc8bc8bc8bc8bc8bc8bc8bc8bc8bc8b", 0x1d00_d86a),
    ];
    for (value, expected) in cases {
        assert_eq!(target(value).to_compact_lossy().to_consensus(), expected, "target {value}");
    }
    // The compact form of what a compact target stands for is the compact
    // target, where that was in its shortest form.
    for bits in [0x1d00_ffff_u32, 0x1b04_04cb, 0x1e03_77ae, 0x207f_ffff, 0x0312_3456] {
        assert_eq!(target_of(bits).to_compact_lossy().to_consensus(), bits);
    }
    assert_eq!(target_of(0x0212_3456).to_compact_lossy().to_consensus(), 0x0212_3400);
}

#[test]
fn work_is_the_inverse_of_the_target() {
    let all_ones = u256("ffffffffffffffffffffffffffffffffffffffffffffffffffffffffffffffff");
    assert!(target("0").to_work() == all_ones);
    assert!(target("1").to_work() == all_ones);
    assert!(
        target("2").to_work()
            == u256("5555555555555555555555555555555555555555555555555555555555555555")
    );
    assert!(target("ffffffffffffffffffffffffffffffffffffffffffffffffffffffffffffffff").to_work()
        == u256("1"));
    assert!(target_of(0x1d00_ffff).to_work() == u256("100010001"));
    assert!(target_of(0x1b04_04cb).to_work() == u256("3fb3ab764c00"));
    assert!(target_of(0x1e03_77ae).to_work() == u256("49d414"));
    assert!(target_of(0x207f_ffff).to_work() == u256("2"));
    assert!(target_of(0x2000_ffff).to_work() == u256("100"));
}

#[test]
fn block_hash_must_not_exceed_the_target() {
    let header = Header::decode(&bytes_of(FIRST_HEADERS[0])).unwrap();
    let hash = header.block_hash();
    let mut exact = [0u8; 32];
    exact.copy_from_slice(&hash.to_byte_array());
    let at_hash = Target { value: U256::from_le_bytes(exact) };
    assert!(at_hash.is_met_by(&hash));
    assert!(header.target().is_met_by(&hash));
    assert!(Target::max().is_met_by(&hash));
    // One below the hash is not enough.
    let mut below = exact;
    below[0] -= 1;
    assert!(!Target { value: U256::from_le_bytes(below) }.is_met_by(&hash));
    // The hash is read least significant byte first.
    assert!(target_of(0x1c00_ffff).is_met_by(&hash));
    assert!(!target_of(0x1b00_ffff).is_met_by(&hash));
    assert!(header.validate_pow().is_some());
}

#[test]
fn next_target_is_scaled_by_the_time_spent() {
    let prev = target_of(0x1b04_04cb);
    // Twice the time: twice the target.
    let next = calculate_next_target(prev, 1_000_000, 1_000_000 + 2 * 1_209_600, 0);
    assert!(next.value == u256("80996000000000000000000000000000000000000000000000000"));
    // The same time: the same target.
    let next = calculate_next_target(prev, 5, 5 + 1_209_600, 0);
    assert!(next.value == prev.value);
    // The time counts no less than a quarter of the expected span.
    let quarter = calculate_next_target(prev, 1_000_000, 1_000_001, 0);
    assert!(quarter.value == u256("10132c00000000000000000000000000000000000000000000000"));
    assert_eq!(quarter.to_compact_lossy().to_consensus(), 0x1b01_0132);
    let at_bound = calculate_next_target(prev, 1_000_000, 1_000_000 + 302_400, 0);
    assert!(at_bound.value == quarter.value);
    // A period that ends before it starts counts as the shortest.
    let backwards = calculate_next_target(prev, 2_000_000, 1_000_000, 0);
    assert!(backwards.value == quarter.value);
    // The time counts no more than four times the expected span.
    let fourfold = calculate_next_target(prev, 1_000_000, 1_000_000 + 10 * 1_209_600, 0);
    assert!(fourfold.value == u256("10132c000000000000000000000000000000000000000000000000"));
    assert_eq!(fourfold.to_compact_lossy().to_consensus(), 0x1b10_132c);
    let at_bound = calculate_next_target(prev, 1_000_000, 1_000_000 + 4_838_400, 0);
    assert!(at_bound.value == fourfold.value);
}

#[test]
fn next_target_is_capped_by_the_chain() {
    let main_max = u256("ffff0000000000000000000000000000000000000000000000000000");
    let signet_max = u256("377ae000000000000000000000000000000000000000000000000000000");
    assert!(Target::max().value == main_max);
    assert!(Target::max_attainable_signet().value == signet_max);
    assert_eq!(Target::max().to_compact_lossy().to_consensus(), 0x1d00_ffff);
    assert_eq!(Target::max_attainable_signet().to_compact_lossy().to_consensus(), 0x1e03_77ae);

    let span = 4 * 1_209_600;
    // A target that would grow beyond the largest of signet stays there.
    let next = calculate_next_target(target_of(0x1e03_77ae), 0, span, FLAG_CHAIN_TYPE_SIGNET);
    assert!(next.value == signet_max);
    assert_eq!(next.to_compact_lossy().to_consensus(), 0x1e03_77ae);
    let next = calculate_next_target(target_of(0x1e03_77ae), 0, 2 * 1_209_600, FLAG_CHAIN_TYPE_SIGNET);
    assert!(next.value == signet_max);
    // Below the largest of signet it is not capped there.
    let next = calculate_next_target(target_of(0x1d00_ffff), 0, 2 * 1_209_600, FLAG_CHAIN_TYPE_SIGNET);
    assert!(next.value == u256("1fffe0000000000000000000000000000000000000000000000000000"));
    assert_eq!(next.to_compact_lossy().to_consensus(), 0x1d01_fffe);
    // The same on the main chain and on testnet stays at their largest.
    for flags in [FLAG_CHAIN_TYPE_MAINNET, FLAG_CHAIN_TYPE_TESTNET, 0b1100_0000] {
        let next = calculate_next_target(target_of(0x1d00_ffff), 0, 2 * 1_209_600, flags);
        assert!(next.value == main_max);
        let next = calculate_next_target(target_of(0x1e03_77ae), 0, span, flags);
        assert!(next.value == main_max);
    }
    // A product that does not fit in 256 bits is capped all the same.
    let all_ones = target("ffffffffffffffffffffffffffffffffffffffffffffffffffffffffffffffff");
    let next = calculate_next_target(all_ones, 0, span, FLAG_CHAIN_TYPE_MAINNET);
    assert!(next.value == main_max);
    let next = calculate_next_target(all_ones, 0, span, FLAG_CHAIN_TYPE_SIGNET);
    assert!(next.value == signet_max);
}

#[test]
fn flags_name_the_chain() {
    assert_eq!(BitcoinChainType::from(0b0000_0000), BitcoinChainType::Mainnet);
    assert_eq!(BitcoinChainType::from(0b1000_0000), BitcoinChainType::Testnet);
    assert_eq!(BitcoinChainType::from(0b0100_0000), BitcoinChainType::Signet);
    assert_eq!(BitcoinChainType::from(0b1100_0000), BitcoinChainType::Other);
    // The lower bits do not count.
    assert_eq!(BitcoinChainType::from(0b0011_1111), BitcoinChainType::Mainnet);
    assert_eq!(BitcoinChainType::from(0b1011_1111), BitcoinChainType::Testnet);
    assert_eq!(BitcoinChainType::from(0b0100_0001), BitcoinChainType::Signet);
    assert_eq!(BitcoinChainType::from(128), BitcoinChainType::Testnet);
    assert_eq!(BitcoinChainType::from(64), BitcoinChainType::Signet);

    assert!(!difficulty_unchecked(FLAG_CHAIN_TYPE_MAINNET));
    assert!(!difficulty_unchecked(FLAG_CHAIN_TYPE_SIGNET));
    assert!(difficulty_unchecked(FLAG_CHAIN_TYPE_TESTNET));
    assert!(difficulty_unchecked(FLAG_DISABLE_DIFFICULTY_CHECK));
    assert!(difficulty_unchecked(FLAG_CHAIN_TYPE_SIGNET | FLAG_DISABLE_DIFFICULTY_CHECK));
    assert!(!difficulty_unchecked(0b1100_0000));
}

#[test]
fn period_phase_counts_from_the_block_after() {
    assert_eq!(period_phase(0), 1);
    assert_eq!(period_phase(1), 2);
    assert_eq!(period_phase(2014), 2015);
    assert_eq!(period_phase(2015), 0);
    assert_eq!(period_phase(2016), 1);
    assert_eq!(period_phase(822_527), 0);
    assert_eq!(period_phase(822_528), 1);
    assert_eq!(period_phase(u32::MAX), ((u32::MAX as u64 + 1) % 2016) as u32);
}

#[test]
fn integers_of_256_bits() {
    let all_ones = u256("ffffffffffffffffffffffffffffffffffffffffffffffffffffffffffffffff");
    let one = u256("1");
    assert!(U256::zero() == u256("0"));
    assert!(U256::zero().checked_add(&one).unwrap() == one);
    assert!(all_ones.checked_add(&one).is_none());
    assert!(all_ones.checked_add(&U256::zero()).unwrap() == all_ones);
    let carry = u256("ffffffffffffffffffffffffffffffff").checked_add(&one).unwrap();
    assert!(carry == u256("100000000000000000000000000000000"));

    assert!(u256("100010001").checked_mul_u32(5).unwrap() == u256("500050005"));
    assert!(u256("ffffffff").checked_mul_u32(u32::MAX).unwrap() == u256("fffffffe00000001"));
    assert!(all_ones.checked_mul_u32(2).is_none());
    assert!(all_ones.checked_mul_u32(1).unwrap() == all_ones);
    assert!(all_ones.checked_mul_u32(0).unwrap() == U256::zero());
    assert!(u256("8000000000000000000000000000000000000000000000000000000000000000")
        .checked_mul_u32(2)
        .is_none());

    assert!(u256("500050005").checked_div_u32(5).unwrap() == u256("100010001"));
    assert!(u256("500050009").checked_div_u32(5).unwrap() == u256("100010001"));
    assert!(u256("4").checked_div_u32(5).unwrap() == U256::zero());
    assert!(all_ones.checked_div_u32(0).is_none());
    assert!(
        all_ones.checked_div_u32(0x1_0000).unwrap()
            == u256("ffffffffffffffffffffffffffffffffffffffffffffffffffffffffffff")
    );

    assert!(one.less_than(&u256("2")));
    assert!(!one.less_than(&one));
    assert!(!u256("2").less_than(&one));
    assert!(u256("ff").less_than(&u256("100")));
    assert!(u256("ffffffffffffffffffffffffffffffff").less_than(&u256("100000000000000000000000000000000")));
    assert!(u256("0100000000000000000000000000000000000000000000000000000000000000")
        .greater_than(&u256("ffffffffffffffffffffffffffffffffffffffffffffffffffffffffffffff")));
    assert!(!one.greater_than(&one));

    let mut le_bytes = [0u8; 32];
    le_bytes[0] = 0x34;
    le_bytes[1] = 0x12;
    assert!(U256::from_le_bytes(le_bytes) == u256("1234"));
    assert_eq!(u256("1234").to_le_bytes(), le_bytes);
    let mut padded = vec![0xaa_u8; 3];
    padded.extend_from_slice(&le_bytes);
    assert!(U256::read(&padded, 3) == u256("1234"));
}
