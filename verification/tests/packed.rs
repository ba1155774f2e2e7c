use ckb_bitcoin_spv::client::{SpvBootstrap, SpvClient, SpvInfo, SpvUpdate, TargetAdjustInfo};
use ckb_bitcoin_spv::header::Header;
use ckb_bitcoin_spv::mmr::{HeaderDigest, MergeHeaderDigest};
use ckb_bitcoin_spv::packed::{recognises_flags, HeaderDigestReader, SpvTypeArgs};
use ckb_bitcoin_spv::pow::CompactTarget;
use ckb_bitcoin_spv::transaction::TransactionProof;
use ckb_bitcoin_spv::vectors::{
    pack_bytes, pack_headers, pack_proof, unpack_bytes, unpack_headers, unpack_proof,
};
use ckb_bitcoin_spv::wire::{read_u32_le, u32_to_le};

const HEADER_0: &str = "0100000000000000000000000000000000000000000000000000000000000000000000003ba3edfd7a7b12b27ac72c3e67768f617fc81bc3888a51323a9fb8aa4b1e5e4a29ab5f49ffff001d1dac2b7c";
const HEADER_1: &str = "010000006fe28c0ab6f1b372c1a6a246ae63f74f931e8365e15a089c68d6190000000000982051fd1e4ba744bbbe680e1fee14677ba1a3c3540bf7b1cdb606e857233e0e61bc6649ffff001d01e36299";

/// The packed leaf of the header at height 0.
const LEAF_0: &str = "5c00000014000000180000001c0000003c000000000000000000000001000100010000000000000000000000000000000000000000000000000000006fe28c0ab6f1b372c1a6a246ae63f74f931e8365e15a089c68d6190000000000";

/// The packed parent of the leaves of the headers at heights 0 and 1.
const PARENT_0_1: &str = "5c00000014000000180000001c0000003c00000000000000010000000200020002000000000000000000000000000000000000000000000000000000a06788382bdcbdbdfdd171ac705392fcbc014388fc71e93a50d0cdd70dbf6e55";

/// The packed client that the header at height 0 bootstraps.
const CLIENT_0: &str = "9900000014000000150000003500000091000000006fe28c0ab6f1b372c1a6a246ae63f74f931e8365e15a089c68d61900000000005c00000014000000180000001c0000003c000000000000000000000001000100010000000000000000000000000000000000000000000000000000006fe28c0ab6f1b372c1a6a246ae63f74f931e8365e15a089c68d619000000000029ab5f49ffff001d";

fn unhexed(text: &str) -> Vec<u8> {
    let digits: Vec<u8> = text
        .bytes()
        .map(|c| match c {
            b'0'..=b'9' => c - b'0',
            b'a'..=b'f' => c - b'a' + 10,
            _ => panic!("not a hex digit"),
        })
        .collect();
    digits.chunks(2).map(|pair| pair[0] * 16 + pair[1]).collect()
}

fn leaf(height: u32, text: &str) -> HeaderDigest {
    HeaderDigest::new_leaf(height, &Header::decode(&unhexed(text)).unwrap())
}

fn parent() -> HeaderDigest {
    MergeHeaderDigest::merge_nodes(&leaf(0, HEADER_0), &leaf(1, HEADER_1)).unwrap()
}

#[test]
fn numbers_are_little_endian() {
    assert_eq!(u32_to_le(0), [0, 0, 0, 0]);
    assert_eq!(u32_to_le(1), [1, 0, 0, 0]);
    assert_eq!(u32_to_le(0x0102_0304), [4, 3, 2, 1]);
    assert_eq!(u32_to_le(u32::MAX), [0xff; 4]);
    assert_eq!(u32_to_le(822_528), [0x00, 0x8d, 0x0c, 0x00]);
    let bytes = [9, 4, 3, 2, 1, 9];
    assert_eq!(read_u32_le(&bytes, 1), 0x0102_0304);
    assert_eq!(read_u32_le(&bytes, 0), 0x0203_0409);
    assert_eq!(read_u32_le(&[0xff, 0xff, 0xff, 0xff], 0), u32::MAX);
    for value in [0, 1, 255, 256, 65_535, 65_536, 16_777_215, 16_777_216, u32::MAX - 1] {
        assert_eq!(read_u32_le(&u32_to_le(value), 0), value);
    }
}

#[test]
fn packed_node() {
    let node = leaf(0, HEADER_0);
    assert_eq!(node.encode(), unhexed(LEAF_0));
    assert_eq!(node.encode().len(), 92);
    assert_eq!(HeaderDigest::decode(&unhexed(LEAF_0)), Some(node));
    assert_eq!(parent().encode(), unhexed(PARENT_0_1));
    assert_eq!(HeaderDigest::decode(&unhexed(PARENT_0_1)), Some(parent()));

    // Every byte of the head counts, and so does the length.
    for at in 0..20 {
        let mut bytes = unhexed(LEAF_0);
        bytes[at] ^= 1;
        assert_eq!(HeaderDigest::decode(&bytes), None, "byte {at}");
    }
    let mut bytes = unhexed(LEAF_0);
    bytes.push(0);
    assert_eq!(HeaderDigest::decode(&bytes), None);
    bytes.truncate(91);
    assert_eq!(HeaderDigest::decode(&bytes), None);
    assert_eq!(HeaderDigest::decode(&[]), None);
    // Every other byte is data.
    for at in 20..92 {
        let mut bytes = unhexed(LEAF_0);
        bytes[at] ^= 0x40;
        let other = HeaderDigest::decode(&bytes).unwrap();
        assert_ne!(other, node);
        assert_eq!(other.encode(), bytes);
    }
}

#[test]
fn packed_node_is_what_a_parent_commits_to() {
    let node = leaf(0, HEADER_0);
    let expected = "7dea9c623d3ef3c8b7a75e67b6925f92916b32e68446afc50c81a49673a1a11a";
    assert_eq!(node.calc_mmr_hash().to_byte_array().to_vec(), unhexed(expected));
    let packed = node.encode();
    let reader = HeaderDigestReader { data: &packed };
    assert_eq!(reader.calc_mmr_hash(), node.calc_mmr_hash());
    let empty = HeaderDigestReader { data: &[] };
    assert_eq!(
        empty.calc_mmr_hash().to_byte_array().to_vec(),
        unhexed("5df6e0e2761359d30a8275058e299fcc0381534545f55cf43e41983f5d4c9456")
    );
}

#[test]
fn packed_client() {
    let bootstrap = SpvBootstrap { height: 0, header: unhexed(HEADER_0) };
    let client = bootstrap.initialize_spv_client().unwrap();
    assert_eq!(client.encode(), unhexed(CLIENT_0));
    assert_eq!(client.encode().len(), 153);
    let decoded = SpvClient::decode(&unhexed(CLIENT_0)).unwrap();
    assert_eq!(decoded.id, 0);
    assert_eq!(decoded.tip_block_hash, client.tip_block_hash);
    assert_eq!(decoded.headers_mmr_root, client.headers_mmr_root);
    assert_eq!(decoded.target_adjust_info, client.target_adjust_info);

    let other = SpvClient {
        id: 0xfe,
        tip_block_hash: parent().children_hash,
        headers_mmr_root: parent(),
        target_adjust_info: TargetAdjustInfo::encode(7, CompactTarget::from_consensus(9)),
    };
    let packed = other.encode();
    assert_eq!(packed[20], 0xfe);
    assert_eq!(&packed[53..145], &unhexed(PARENT_0_1)[..]);
    assert_eq!(&packed[145..], &[7, 0, 0, 0, 9, 0, 0, 0]);
    assert_eq!(SpvClient::decode(&packed).unwrap().encode(), packed);

    // The head of the client and the head of its root count.
    for at in (0..20).chain(53..73) {
        let mut bytes = unhexed(CLIENT_0);
        bytes[at] ^= 1;
        assert!(SpvClient::decode(&bytes).is_none(), "byte {at}");
    }
    let mut bytes = unhexed(CLIENT_0);
    bytes.push(0);
    assert!(SpvClient::decode(&bytes).is_none());
    assert!(SpvClient::decode(&bytes[..152]).is_none());
    assert!(SpvClient::decode(&unhexed(LEAF_0)).is_none());
}

#[test]
fn packed_info() {
    for id in [0, 1, 200, 255] {
        let info = SpvInfo { tip_client_id: id };
        assert_eq!(info.encode(), vec![id]);
        assert_eq!(SpvInfo::decode(&[id]), Some(info));
    }
    assert_eq!(SpvInfo::decode(&[]), None);
    assert_eq!(SpvInfo::decode(&[1, 2]), None);
}

#[test]
fn packed_type_args() {
    let mut type_id = [0u8; 32];
    for (i, byte) in type_id.iter_mut().enumerate() {
        *byte = i as u8;
    }
    let args = SpvTypeArgs {
        type_id: ckb_bitcoin_spv::hash::Hash::from_byte_array(type_id),
        clients_count: 3,
        flags: 0x80,
    };
    let expected = "32000000100000003000000031000000000102030405060708090a0b0c0d0e0f101112131415161718191a1b1c1d1e1f0380";
    assert_eq!(args.encode(), unhexed(expected));
    let decoded = SpvTypeArgs::decode(&unhexed(expected)).unwrap();
    assert_eq!(decoded.type_id, args.type_id);
    assert_eq!(decoded.clients_count, 3);
    assert_eq!(decoded.flags, 0x80);

    // Flag bytes with the reserved chain type or a reserved bit are refused.
    for flags in [0x00, 0x01, 0x40, 0x41, 0x80, 0x81] {
        assert!(recognises_flags(flags));
        let mut bytes = unhexed(expected);
        bytes[49] = flags;
        assert_eq!(SpvTypeArgs::decode(&bytes).unwrap().flags, flags);
    }
    for flags in [0xc0, 0xc1, 0x02, 0x04, 0x08, 0x10, 0x20, 0x3e, 0x82, 0x60, 0xff] {
        assert!(!recognises_flags(flags));
        let mut bytes = unhexed(expected);
        bytes[49] = flags;
        assert!(SpvTypeArgs::decode(&bytes).is_none(), "flags {flags:#x}");
    }
    for at in 0..16 {
        let mut bytes = unhexed(expected);
        bytes[at] ^= 1;
        assert!(SpvTypeArgs::decode(&bytes).is_none(), "byte {at}");
    }
    assert!(SpvTypeArgs::decode(&unhexed(expected)[..49]).is_none());
}

#[test]
fn packed_bootstrap() {
    let bootstrap = SpvBootstrap { height: 822_528, header: unhexed(HEADER_0) };
    let expected = format!("600000000c00000010000000008d0c00{HEADER_0}");
    assert_eq!(bootstrap.encode(), unhexed(&expected));
    let decoded = SpvBootstrap::decode(&unhexed(&expected)).unwrap();
    assert_eq!(decoded.height, 822_528);
    assert_eq!(decoded.header, unhexed(HEADER_0));
    for at in 0..12 {
        let mut bytes = unhexed(&expected);
        bytes[at] ^= 1;
        assert!(SpvBootstrap::decode(&bytes).is_none(), "byte {at}");
    }
    assert!(SpvBootstrap::decode(&unhexed(&expected)[..95]).is_none());
}

#[test]
fn packed_lists() {
    assert_eq!(pack_bytes(&[]), vec![0, 0, 0, 0]);
    assert_eq!(pack_bytes(&[0xaa, 0xbb, 0xcc]), vec![3, 0, 0, 0, 0xaa, 0xbb, 0xcc]);
    assert_eq!(unpack_bytes(&[3, 0, 0, 0, 0xaa, 0xbb, 0xcc]), Some(vec![0xaa, 0xbb, 0xcc]));
    assert_eq!(unpack_bytes(&[0, 0, 0, 0]), Some(vec![]));
    assert_eq!(unpack_bytes(&[3, 0, 0, 0, 0xaa, 0xbb]), None);
    assert_eq!(unpack_bytes(&[3, 0, 0, 0, 0xaa, 0xbb, 0xcc, 0xdd]), None);
    assert_eq!(unpack_bytes(&[0, 0, 0]), None);
    assert_eq!(unpack_bytes(&[0xff, 0xff, 0xff, 0xff]), None);

    assert_eq!(pack_headers(&vec![]), vec![0, 0, 0, 0]);
    let both = vec![unhexed(HEADER_0), unhexed(HEADER_1)];
    let packed = pack_headers(&both);
    assert_eq!(packed, unhexed(&format!("02000000{HEADER_0}{HEADER_1}")));
    assert_eq!(unpack_headers(&packed), Some(both));
    assert_eq!(unpack_headers(&[0, 0, 0, 0]), Some(vec![]));
    assert_eq!(unpack_headers(&packed[..packed.len() - 1]), None);
    assert_eq!(unpack_headers(&unhexed(&format!("01000000{HEADER_0}{HEADER_1}"))), None);
    assert_eq!(unpack_headers(&[1, 0, 0]), None);

    assert_eq!(pack_proof(&vec![]), vec![4, 0, 0, 0]);
    assert_eq!(unpack_proof(&[4, 0, 0, 0]), Some(vec![]));
    let nodes = vec![leaf(0, HEADER_0), parent()];
    let packed = pack_proof(&nodes);
    assert_eq!(packed, unhexed(&format!("c40000000c00000068000000{LEAF_0}{PARENT_0_1}")));
    assert_eq!(unpack_proof(&packed), Some(nodes));
    let single = pack_proof(&vec![leaf(0, HEADER_0)]);
    assert_eq!(single, unhexed(&format!("6400000008000000{LEAF_0}")));
    // The full size, each offset and the head of each node count.
    for at in (0..12).chain(12..32).chain(104..124) {
        let mut bytes = packed.clone();
        bytes[at] ^= 1;
        assert_eq!(unpack_proof(&bytes), None, "byte {at}");
    }
    assert_eq!(unpack_proof(&packed[..packed.len() - 1]), None);
    assert_eq!(unpack_proof(&[0, 0, 0, 0]), None);
    assert_eq!(unpack_proof(&[]), None);
}

#[test]
fn packed_update() {
    let update = SpvUpdate {
        headers: vec![unhexed(HEADER_1)],
        new_headers_mmr_proof: vec![leaf(0, HEADER_0)],
    };
    assert!(update.can_be_packed());
    let expected =
        format!("c40000000c0000006000000001000000{HEADER_1}6400000008000000{LEAF_0}");
    assert_eq!(update.encode(), unhexed(&expected));
    let decoded = SpvUpdate::decode(&unhexed(&expected)).unwrap();
    assert_eq!(decoded.headers, update.headers);
    assert_eq!(decoded.new_headers_mmr_proof, update.new_headers_mmr_proof);

    let empty = SpvUpdate { headers: vec![], new_headers_mmr_proof: vec![] };
    assert!(empty.can_be_packed());
    assert_eq!(empty.encode(), unhexed("140000000c000000100000000000000004000000"));
    let decoded = SpvUpdate::decode(&empty.encode()).unwrap();
    assert!(decoded.headers.is_empty() && decoded.new_headers_mmr_proof.is_empty());

    // A header that has not its 80 bytes cannot be packed.
    let short = SpvUpdate { headers: vec![vec![0; 79]], new_headers_mmr_proof: vec![] };
    assert!(!short.can_be_packed());

    for at in 0..16 {
        let mut bytes = unhexed(&expected);
        bytes[at] ^= 1;
        assert!(SpvUpdate::decode(&bytes).is_none(), "byte {at}");
    }
    assert!(SpvUpdate::decode(&unhexed(&expected)[..195]).is_none());
    assert!(SpvUpdate::decode(&[]).is_none());
}

#[test]
fn packed_transaction_proof() {
    let proof = TransactionProof {
        tx_index: 1,
        height: 80_640,
        transaction_proof: vec![0xaa, 0xbb, 0xcc],
        header_proof: vec![leaf(0, HEADER_0), parent()],
    };
    assert!(proof.can_be_packed());
    let expected = format!(
        "e700000014000000180000001c0000002300000001000000003b010003000000aabbcc\
         c40000000c00000068000000{LEAF_0}{PARENT_0_1}"
    );
    assert_eq!(proof.encode(), unhexed(&expected));
    let decoded = TransactionProof::decode(&unhexed(&expected)).unwrap();
    assert_eq!(decoded.tx_index, 1);
    assert_eq!(decoded.height, 80_640);
    assert_eq!(decoded.transaction_proof, proof.transaction_proof);
    assert_eq!(decoded.header_proof, proof.header_proof);

    let empty =
        TransactionProof { tx_index: 0, height: 0, transaction_proof: vec![], header_proof: vec![] };
    assert_eq!(
        empty.encode(),
        unhexed("2400000014000000180000001c0000002000000000000000000000000000000004000000")
    );
    assert!(TransactionProof::decode(&empty.encode()).is_some());

    for at in (0..20).chain(28..32).chain(35..47) {
        let mut bytes = unhexed(&expected);
        bytes[at] ^= 1;
        assert!(TransactionProof::decode(&bytes).is_none(), "byte {at}");
    }
    assert!(TransactionProof::decode(&unhexed(&expected)[..230]).is_none());
}
