use ckb_bitcoin_spv::hash::hash_concat;
use ckb_bitcoin_spv::header::Header;
use ckb_bitcoin_spv::mmr::{leaf_position, range_size, HeaderDigest, MergeHeaderDigest};
use ckb_bitcoin_spv::uint256::U256;
use ckb_merkle_mountain_range::Merge;

const FIRST: &str = "0100000000000000000000000000000000000000000000000000000000000000000000003ba3edfd7a7b12b27ac72c3e67768f617fc81bc3888a51323a9fb8aa4b1e5e4a29ab5f49ffff001d1dac2b7c";
const SECOND: &str = "010000006fe28c0ab6f1b372c1a6a246ae63f74f931e8365e15a089c68d6190000000000982051fd1e4ba744bbbe680e1fee14677ba1a3c3540bf7b1cdb606e857233e0e61bc6649ffff001d01e36299";

fn octets(text: &str) -> Vec<u8> {
    let digits: Vec<u8> = text
        .bytes()
        .map(|c| match c {
            b'0'..=b'9' => c - b'0',
            b'a'..=b'f' => c - b'a' + 10,
            _ => panic!("not a hex digit"),
        })
        .collect();
    digits.chunks(2).map(|pair| pair[0] * 16 + pair[1]).collect()
}

fn digest(bytes: &[u8]) -> ckb_bitcoin_spv::hash::Hash {
    let mut array = [0u8; 32];
    array.copy_from_slice(bytes);
    ckb_bitcoin_spv::hash::Hash::from_byte_array(array)
}

fn small(value: u64) -> U256 {
    let mut le_bytes = [0u8; 32];
    le_bytes[..8].copy_from_slice(&value.to_le_bytes());
    U256::from_le_bytes(le_bytes)
}

fn node(min_height: u32, max_height: u32, work: u64, fill: u8) -> HeaderDigest {
    HeaderDigest {
        min_height,
        max_height,
        partial_chain_work: small(work),
        children_hash: digest(&[fill; 32]),
    }
}

#[test]
fn two_hashes_merge_into_the_hash_of_both() {
    let zeros = ckb_bitcoin_spv::hash::Hash::all_zeros();
    assert_eq!(zeros.to_byte_array(), [0u8; 32]);
    assert_eq!(
        hash_concat(&zeros, &zeros),
        digest(&octets("e2f61c3f71d1defd3fa999dfa36953755c690689799962b48bebd836974e8cf9"))
    );
    // The order counts.
    let ones = digest(&[1; 32]);
    assert_ne!(hash_concat(&zeros, &ones), hash_concat(&ones, &zeros));
    assert_ne!(hash_concat(&zeros, &ones), zeros);
}

#[test]
fn leaf_of_a_header() {
    let header = Header::decode(&octets(FIRST)).unwrap();
    let leaf = HeaderDigest::new_leaf(822_528, &header);
    assert_eq!(leaf.min_height, 822_528);
    assert_eq!(leaf.max_height, 822_528);
    assert!(leaf.partial_chain_work == small(0x1_0001_0001));
    assert_eq!(
        leaf.children_hash,
        digest(&octets("6fe28c0ab6f1b372c1a6a246ae63f74f931e8365e15a089c68d6190000000000"))
    );
    assert_eq!(leaf.children_hash, header.block_hash());
}

#[test]
fn nodes_that_follow_each_other_merge() {
    let left = HeaderDigest::new_leaf(0, &Header::decode(&octets(FIRST)).unwrap());
    let right = HeaderDigest::new_leaf(1, &Header::decode(&octets(SECOND)).unwrap());
    let parent = MergeHeaderDigest::merge_nodes(&left, &right).unwrap();
    assert_eq!(parent.min_height, 0);
    assert_eq!(parent.max_height, 1);
    assert!(parent.partial_chain_work == small(0x2_0002_0002));
    assert_eq!(
        parent.children_hash,
        digest(&octets("a06788382bdcbdbdfdd171ac705392fcbc014388fc71e93a50d0cdd70dbf6e55"))
    );
    assert_eq!(
        parent.children_hash,
        hash_concat(&left.calc_mmr_hash(), &right.calc_mmr_hash())
    );
    assert_eq!(MergeHeaderDigest::merge(&left, &right).unwrap(), parent);
    // Peaks merge with their arguments swapped.
    assert_eq!(MergeHeaderDigest::merge_peaks(&right, &left).unwrap(), parent);
    assert!(MergeHeaderDigest::merge_peaks(&left, &right).is_err());

    let wide = MergeHeaderDigest::merge_nodes(&node(10, 19, 5, 1), &node(20, 100, 7, 2)).unwrap();
    assert_eq!(wide.min_height, 10);
    assert_eq!(wide.max_height, 100);
    assert!(wide.partial_chain_work == small(12));
}

#[test]
fn nodes_that_do_not_follow_each_other_do_not_merge() {
    let left = node(5, 9, 1, 1);
    for (min_height, max_height) in [(9, 12), (11, 12), (0, 4), (5, 9), (0, 0)] {
        let right = node(min_height, max_height, 1, 2);
        assert!(MergeHeaderDigest::merge_nodes(&left, &right).is_err());
        assert!(MergeHeaderDigest::merge(&left, &right).is_err());
    }
    assert!(MergeHeaderDigest::merge_nodes(&left, &node(10, 12, 1, 2)).is_ok());
    // The right node swapped with the left.
    assert!(MergeHeaderDigest::merge_nodes(&node(10, 12, 1, 2), &left).is_err());
    // No height follows the last one.
    assert!(MergeHeaderDigest::merge_nodes(&node(0, u32::MAX, 1, 1), &node(0, 0, 1, 2)).is_err());
}

#[test]
fn nodes_whose_work_does_not_fit_do_not_merge() {
    let mut heavy = node(0, 0, 0, 1);
    heavy.partial_chain_work = U256::from_le_bytes([0xff; 32]);
    assert!(MergeHeaderDigest::merge_nodes(&heavy, &node(1, 1, 1, 2)).is_err());
    let merged = MergeHeaderDigest::merge_nodes(&heavy, &node(1, 1, 0, 2)).unwrap();
    assert!(merged.partial_chain_work == heavy.partial_chain_work);
}

#[test]
fn nodes_are_equal_field_by_field() {
    let one = node(1, 2, 3, 4);
    assert_eq!(one, node(1, 2, 3, 4));
    assert_ne!(one, node(0, 2, 3, 4));
    assert_ne!(one, node(1, 3, 3, 4));
    assert_ne!(one, node(1, 2, 4, 4));
    assert_ne!(one, node(1, 2, 3, 5));
}

#[test]
fn leaves_have_their_positions() {
    let sizes = [1, 3, 4, 7, 8, 10, 11, 15, 16, 18, 19];
    let positions = [0, 1, 3, 4, 7, 8, 10, 11, 15, 16, 18];
    for index in 0..11 {
        assert_eq!(range_size(index as u32), sizes[index], "size for leaf {index}");
        assert_eq!(leaf_position(index as u32), positions[index], "position of leaf {index}");
    }
    assert_eq!(range_size(8063), 2 * 8064 - 6);
    assert_eq!(range_size(u32::MAX), 2 * (1u64 << 32) - 1);
    assert_eq!(leaf_position(u32::MAX), 2 * (1u64 << 32) - 1 - 32 - 1);
}
