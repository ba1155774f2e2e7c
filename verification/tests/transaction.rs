use ckb_bitcoin_spv::client::{SpvBootstrap, SpvClient};
use ckb_bitcoin_spv::error::VerifyTxError;
use ckb_bitcoin_spv::header::Header;
use ckb_bitcoin_spv::mmr::HeaderDigest;
use ckb_bitcoin_spv::prover::block::BlockProofGenerator;
use ckb_bitcoin_spv::prover::service::DummyService;
use ckb_bitcoin_spv::transaction::{match_transaction, TransactionProof};

/// The header of block 80000 of the main chain.
const HEADER: &str = "01000000ba8b9cda965dd8e536670f9ddec10e53aab14b20bacad27b9137190000000000190760b278fe7b8565fda3b968b918d5fd997f993b23674c0af3b6fde300b38f33a5914ce6ed5b1b01e32f57";

/// The two transactions of block 80000.
const TRANSACTIONS: [&str; 2] = [
    "01000000010000000000000000000000000000000000000000000000000000000000000000ffffffff0704e6ed5b1b014effffffff0100f2052a01000000434104b68a50eaa0287eff855189f949c1c6e5f58b37c88231373d8a59809cbae83059cc6469d65c665ccfd1cfeb75c6e8e19413bba7fbff9bc762419a76d87b16086eac00000000",
    "0100000001a6b97044d03da79c005b20ea9c0e1a6d9dc12d9f7b91a5911c9030a439eed8f5000000004948304502206e21798a42fae0e854281abd38bacd1aeed3ee3738d9e1446618c4571d1090db022100e2ac980643b0b82c0e88ffdfec6b64e3e6ba35e7ba5fdd7d5d6cc8d25c6b241501ffffffff0100f2052a010000001976a914404371705fa9bd789a2fcd52d2c580b65d35549d88ac00000000",
];

/// The ids of the two transactions, in the byte order of the wire.
const TXIDS: [&str; 2] = [
    "252bf9d75c4f481ebb6278d708257d1f12beb6dd30301d26c623f789b2ba6fc0",
    "e2d32adb5f8ca820731dff234a84e78ec30bce4ec69dbd562d0b2b8266bf4e5a",
];

/// The proof for the transaction at place 1, as a Bitcoin node gives it.
const TXOUTPROOF: &str = "01000000ba8b9cda965dd8e536670f9ddec10e53aab14b20bacad27b9137190000000000190760b278fe7b8565fda3b968b918d5fd997f993b23674c0af3b6fde300b38f33a5914ce6ed5b1b01e32f570200000002252bf9d75c4f481ebb6278d708257d1f12beb6dd30301d26c623f789b2ba6fc0e2d32adb5f8ca820731dff234a84e78ec30bce4ec69dbd562d0b2b8266bf4e5a0105";

/// The headers of the first five blocks of the main chain, each of which
/// holds one transaction.
const SINGLE_TX_HEADERS: [&str; 5] = [
    "0100000000000000000000000000000000000000000000000000000000000000000000003ba3edfd7a7b12b27ac72c3e67768f617fc81bc3888a51323a9fb8aa4b1e5e4a29ab5f49ffff001d1dac2b7c",
    "010000006fe28c0ab6f1b372c1a6a246ae63f74f931e8365e15a089c68d6190000000000982051fd1e4ba744bbbe680e1fee14677ba1a3c3540bf7b1cdb606e857233e0e61bc6649ffff001d01e36299",
    "010000004860eb18bf1b1620e37e9490fc8a427514416fd75159ab86688e9a8300000000d5fdcc541e25de1c7a5addedf24858b8bb665c9f36ef744ee42c316022c90f9bb0bc6649ffff001d08d2bd61",
    "01000000bddd99ccfda39da1b108ce1a5d70038d0a967bacb68b6b63065f626a0000000044f672226090d85db9a9f2fbfe5f0f9609b387af7be5b7fbb7a1767c831c9e995dbe6649ffff001d05e0ed6d",
    "010000004944469562ae1c2c74d9a535e00b6f3e40ffbad4f2fda3895501b582000000007a06ea98cd40ba2e3288262b28638cec5337c1456aaf5eedc8e9e5a20f062bdf8cc16649ffff001d2bfee0a9",
];

fn data(text: &str) -> Vec<u8> {
    let digits: Vec<u8> = text
        .bytes()
        .map(|c| match c {
            b'0'..=b'9' => c - b'0',
            b'a'..=b'f' => c - b'a' + 10,
            _ => panic!("not a hex digit"),
        })
        .collect();
    digits.chunks(2).map(|pair| pair[0] * 16 + pair[1]).collect()
}

fn id(text: &str) -> [u8; 32] {
    let mut bytes = [0u8; 32];
    bytes.copy_from_slice(&data(text));
    bytes
}

/// A client that knows the block of `HEADER` alone, at a height that opens a
/// difficulty period.
const HEIGHT: u32 = 80_640;

fn client() -> SpvClient {
    let bootstrap = SpvBootstrap { height: HEIGHT, header: data(HEADER) };
    bootstrap.initialize_spv_client().unwrap()
}

fn tx_proof() -> TransactionProof {
    TransactionProof {
        tx_index: 1,
        height: HEIGHT,
        transaction_proof: data(TXOUTPROOF),
        header_proof: vec![],
    }
}

/// The merkle block for the only transaction of a block: the header, the
/// number of transactions, the one hash and the one flag bit.
fn single_tx_proof(header: &str) -> Vec<u8> {
    let mut bytes = data(header);
    bytes.extend_from_slice(&[1, 0, 0, 0, 1]);
    bytes.extend_from_slice(&data(header)[36..68]);
    bytes.extend_from_slice(&[1, 1]);
    bytes
}

#[test]
fn transaction_in_the_tip_block() {
    let client = client();
    let header = client.verify_transaction(&id(TXIDS[1]), &tx_proof(), 0).unwrap();
    assert_eq!(header.encode(), data(HEADER));
    assert_eq!(header.block_hash(), client.tip_block_hash);

    // No block follows the tip: one confirmation is one too many.
    assert_eq!(
        client.verify_transaction(&id(TXIDS[1]), &tx_proof(), 1).err(),
        Some(VerifyTxError::TransactionUnconfirmed)
    );
    assert_eq!(
        client.verify_transaction(&id(TXIDS[1]), &tx_proof(), u32::MAX).err(),
        Some(VerifyTxError::TransactionUnconfirmed)
    );
}

#[test]
fn transaction_outside_the_heights_of_the_client() {
    let client = client();
    let mut newer = tx_proof();
    newer.height = HEIGHT + 5;
    assert_eq!(
        client.verify_transaction(&id(TXIDS[1]), &newer, 0).err(),
        Some(VerifyTxError::TransactionTooNew)
    );
    newer.height = HEIGHT + 1;
    assert_eq!(
        client.verify_transaction(&id(TXIDS[1]), &newer, 3).err(),
        Some(VerifyTxError::TransactionTooNew)
    );
    let mut older = tx_proof();
    older.height = HEIGHT - 1;
    assert_eq!(
        client.verify_transaction(&id(TXIDS[1]), &older, 0).err(),
        Some(VerifyTxError::TransactionTooOld)
    );
    older.height = 0;
    older.transaction_proof = vec![];
    assert_eq!(
        client.verify_transaction(&id(TXIDS[1]), &older, 9).err(),
        Some(VerifyTxError::TransactionTooOld)
    );

    assert_eq!(client.check_height(HEIGHT, 0), Ok(()));
    assert_eq!(client.check_height(HEIGHT, 1), Err(VerifyTxError::TransactionUnconfirmed));
    assert_eq!(client.check_height(HEIGHT + 1, 0), Err(VerifyTxError::TransactionTooNew));
    assert_eq!(client.check_height(HEIGHT - 1, 0), Err(VerifyTxError::TransactionTooOld));
}

#[test]
fn transaction_proof_that_does_not_decode() {
    let client = client();
    for bytes in [vec![], data(HEADER), data(TXOUTPROOF)[..150].to_vec(), vec![0xff; 200]] {
        let mut broken = tx_proof();
        broken.transaction_proof = bytes;
        assert_eq!(
            client.verify_transaction(&id(TXIDS[1]), &broken, 0).err(),
            Some(VerifyTxError::DecodeTxOutProof)
        );
    }
    let mut longer = tx_proof();
    longer.transaction_proof.push(0);
    assert_eq!(
        client.verify_transaction(&id(TXIDS[1]), &longer, 0).err(),
        Some(VerifyTxError::DecodeTxOutProof)
    );
}

#[test]
fn transaction_proof_that_is_not_consistent() {
    let client = client();
    // A hash of the partial tree that does not lead to the merkle root.
    let mut broken = tx_proof();
    broken.transaction_proof[90] ^= 1;
    assert_eq!(
        client.verify_transaction(&id(TXIDS[1]), &broken, 0).err(),
        Some(VerifyTxError::TxOutProofIsInvalid)
    );
    // A merkle root that the partial tree does not lead to.
    let mut broken = tx_proof();
    broken.transaction_proof[40] ^= 1;
    assert_eq!(
        client.verify_transaction(&id(TXIDS[1]), &broken, 0).err(),
        Some(VerifyTxError::TxOutProofIsInvalid)
    );
    // No transactions at all.
    let mut broken = tx_proof();
    broken.transaction_proof = data(HEADER);
    broken.transaction_proof.extend_from_slice(&[0, 0, 0, 0, 0, 0]);
    assert_eq!(
        client.verify_transaction(&id(TXIDS[1]), &broken, 0).err(),
        Some(VerifyTxError::TxOutProofIsInvalid)
    );
}

#[test]
fn transaction_at_another_place_or_with_another_id() {
    let client = client();
    // The proof is for place 1 alone.
    let mut other_place = tx_proof();
    other_place.tx_index = 0;
    assert_eq!(
        client.verify_transaction(&id(TXIDS[0]), &other_place, 0).err(),
        Some(VerifyTxError::TxOutProofInvalidTxIndex)
    );
    assert_eq!(
        client.verify_transaction(&id(TXIDS[1]), &other_place, 0).err(),
        Some(VerifyTxError::TxOutProofInvalidTxIndex)
    );
    other_place.tx_index = 2;
    assert_eq!(
        client.verify_transaction(&id(TXIDS[1]), &other_place, 0).err(),
        Some(VerifyTxError::TxOutProofInvalidTxIndex)
    );
    // Another id at the place that the proof is for.
    assert_eq!(
        client.verify_transaction(&id(TXIDS[0]), &tx_proof(), 0).err(),
        Some(VerifyTxError::TxOutProofInvalidTxId)
    );
    assert_eq!(
        client.verify_transaction(&[0; 32], &tx_proof(), 0).err(),
        Some(VerifyTxError::TxOutProofInvalidTxId)
    );

    // A proof for both places proves each id at its place and no other.
    let mut block = data(HEADER);
    block.push(2);
    block.extend(data(TRANSACTIONS[0]));
    block.extend(data(TRANSACTIONS[1]));
    let generator = BlockProofGenerator::from_slice(&block).unwrap();
    let mut both = tx_proof();
    both.transaction_proof = generator.generate_txoutproof_via_indexes(&[0, 1]).unwrap();
    for place in 0..2 {
        both.tx_index = place as u32;
        assert!(client.verify_transaction(&id(TXIDS[place]), &both, 0).is_ok());
        assert_eq!(
            client.verify_transaction(&id(TXIDS[1 - place]), &both, 0).err(),
            Some(VerifyTxError::TxOutProofInvalidTxId)
        );
    }
}

#[test]
fn transaction_in_a_block_that_the_client_does_not_know() {
    // The proof is for block 80000, the client knows block 0 at that height.
    let other = SpvBootstrap { height: HEIGHT, header: data(SINGLE_TX_HEADERS[0]) };
    let other_client = other.initialize_spv_client().unwrap();
    assert_eq!(
        other_client.verify_transaction(&id(TXIDS[1]), &tx_proof(), 0).err(),
        Some(VerifyTxError::HeaderMmrProof)
    );
    // In a range of one leaf the leaf is the root: the nodes of a header
    // proof are not looked at.
    let client = client();
    let mut longer = tx_proof();
    longer.header_proof.push(client.headers_mmr_root);
    assert!(client.verify_transaction(&id(TXIDS[1]), &longer, 0).is_ok());
    // A root with other work than the header has.
    let mut lighter = client;
    lighter.headers_mmr_root.partial_chain_work.le_bytes[0] ^= 1;
    assert_eq!(
        lighter.verify_transaction(&id(TXIDS[1]), &tx_proof(), 0).err(),
        Some(VerifyTxError::HeaderMmrProof)
    );
}

#[test]
fn transaction_data_in_place_of_its_id() {
    let client = client();
    let tx_bytes = data(TRANSACTIONS[1]);
    let (header, tx) = client.verify_transaction_data(&tx_bytes, &tx_proof(), 0).unwrap();
    assert_eq!(header.encode(), data(HEADER));
    assert_eq!(tx.data, tx_bytes);
    assert_eq!(tx.txid.to_byte_array(), id(TXIDS[1]));

    assert_eq!(
        client.verify_transaction_data(&data(TRANSACTIONS[0]), &tx_proof(), 0).err(),
        Some(VerifyTxError::TxOutProofInvalidTxId)
    );
    assert_eq!(
        client.verify_transaction_data(&tx_bytes, &tx_proof(), 1).err(),
        Some(VerifyTxError::TransactionUnconfirmed)
    );
    for garbage in [vec![], vec![1, 2, 3], tx_bytes[..tx_bytes.len() - 1].to_vec()] {
        assert_eq!(
            client.verify_transaction_data(&garbage, &tx_proof(), 0).err(),
            Some(VerifyTxError::DecodeTransaction)
        );
    }
    // The transaction is decoded before the height is looked at.
    let mut newer = tx_proof();
    newer.height += 1;
    assert_eq!(
        client.verify_transaction_data(&[], &newer, 0).err(),
        Some(VerifyTxError::DecodeTransaction)
    );
}

#[test]
fn transactions_below_the_tip_count_their_confirmations() {
    let header = |height: usize| Header::decode(&data(SINGLE_TX_HEADERS[height])).unwrap();
    let mut service = DummyService::bootstrap(0, header(0)).unwrap();
    service.update(vec![header(1), header(2), header(3), header(4)]).unwrap();
    let client = service.tip_client();
    let tip: u32 = 4;
    for height in 0..=tip {
        let text = SINGLE_TX_HEADERS[height as usize];
        let txid = header(height as usize).merkle_root.to_byte_array();
        let tx_proof = TransactionProof {
            tx_index: 0,
            height,
            transaction_proof: single_tx_proof(text),
            header_proof: service.generate_header_proof(height).unwrap().unwrap(),
        };
        for confirmations in 0..=(tip - height) {
            let found = client.verify_transaction(&txid, &tx_proof, confirmations).unwrap();
            assert_eq!(found.encode(), data(text));
        }
        for confirmations in [tip - height + 1, tip - height + 2, u32::MAX] {
            assert_eq!(
                client.verify_transaction(&txid, &tx_proof, confirmations).err(),
                Some(VerifyTxError::TransactionUnconfirmed)
            );
        }
        // The header proof of another height does not fit.
        let mut misplaced = TransactionProof {
            tx_index: 0,
            height,
            transaction_proof: single_tx_proof(text),
            header_proof: service.generate_header_proof((height + 1) % 5).unwrap().unwrap(),
        };
        assert_eq!(
            client.verify_transaction(&txid, &misplaced, 0).err(),
            Some(VerifyTxError::HeaderMmrProof)
        );
        // Nor does the block of another height.
        misplaced.header_proof = service.generate_header_proof(height).unwrap().unwrap();
        misplaced.transaction_proof = single_tx_proof(SINGLE_TX_HEADERS[((height + 1) % 5) as usize]);
        let other_txid = header(((height + 1) % 5) as usize).merkle_root.to_byte_array();
        assert_eq!(
            client.verify_transaction(&other_txid, &misplaced, 0).err(),
            Some(VerifyTxError::HeaderMmrProof)
        );
    }
    // A forged node in the header proof.
    let mut forged = TransactionProof {
        tx_index: 0,
        height: 1,
        transaction_proof: single_tx_proof(SINGLE_TX_HEADERS[1]),
        header_proof: service.generate_header_proof(1).unwrap().unwrap(),
    };
    let txid = header(1).merkle_root.to_byte_array();
    assert!(client.verify_transaction(&txid, &forged, 0).is_ok());
    forged.header_proof[0] = HeaderDigest::new_leaf(0, &header(2));
    assert_eq!(
        client.verify_transaction(&txid, &forged, 0).err(),
        Some(VerifyTxError::HeaderMmrProof)
    );
}

#[test]
fn proved_transactions_are_matched_by_place_then_id() {
    let ids: Vec<ckb_bitcoin_spv::hash::Hash> = [3u8, 5, 7]
        .iter()
        .map(|byte| ckb_bitcoin_spv::hash::Hash::from_byte_array([*byte; 32]))
        .collect();
    let places = vec![4, 9, 4];
    assert_eq!(match_transaction(&ids, &places, 4, &[3; 32]), Ok(()));
    assert_eq!(match_transaction(&ids, &places, 9, &[5; 32]), Ok(()));
    // The first occurrence of a place counts.
    assert_eq!(
        match_transaction(&ids, &places, 4, &[7; 32]),
        Err(VerifyTxError::TxOutProofInvalidTxId)
    );
    assert_eq!(
        match_transaction(&ids, &places, 9, &[3; 32]),
        Err(VerifyTxError::TxOutProofInvalidTxId)
    );
    assert_eq!(
        match_transaction(&ids, &places, 5, &[5; 32]),
        Err(VerifyTxError::TxOutProofInvalidTxIndex)
    );
    assert_eq!(
        match_transaction(&vec![], &vec![], 0, &[0; 32]),
        Err(VerifyTxError::TxOutProofInvalidTxIndex)
    );
    // Lists of different lengths are refused before anything is looked up.
    assert_eq!(
        match_transaction(&ids, &vec![4, 9], 4, &[3; 32]),
        Err(VerifyTxError::TxOutProofIsInvalid)
    );
    assert_eq!(
        match_transaction(&vec![], &places, 4, &[3; 32]),
        Err(VerifyTxError::TxOutProofIsInvalid)
    );
}
