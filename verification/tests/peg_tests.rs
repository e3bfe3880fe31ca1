use drivechain::peg::{get_two_way_peg_data, withdrawal_bundle_hex};
use drivechain::types::{BlockHash, Deposit, Error, FailedWithdrawal, OutPoint, SpentWithdrawal,
    TwoWayPegData, Txid, WithdrawalBundleStatus};

fn block_hash(n: u128) -> BlockHash {
    BlockHash { hi: 0, lo: n }
}

fn burn_tx(total: u64) -> (String, Txid) {
    let tx = bitcoin::Transaction {
        version: bitcoin::transaction::Version::TWO,
        lock_time: bitcoin::absolute::LockTime::ZERO,
        input: vec![bitcoin::TxIn {
            previous_output: bitcoin::OutPoint::null(),
            script_sig: bitcoin::ScriptBuf::new(),
            sequence: bitcoin::Sequence::MAX,
            witness: bitcoin::Witness::new(),
        }],
        output: vec![bitcoin::TxOut {
            value: bitcoin::Amount::from_sat(total),
            script_pubkey: bitcoin::ScriptBuf::new(),
        }],
    };
    let bytes = bitcoin::consensus::serialize(&tx);
    let digest: [u8; 32] = *bitcoin::hashes::Hash::as_byte_array(&tx.compute_txid());
    let hi = u128::from_be_bytes(digest[0..16].try_into().unwrap());
    let lo = u128::from_be_bytes(digest[16..32].try_into().unwrap());
    (hex::encode(&bytes), Txid { hi, lo })
}

#[test]
fn combined_pass_reports_credits_and_statuses() {
    let b1 = block_hash(1);
    let b2 = block_hash(2);
    let (hex1, txid1) = burn_tx(100);
    let (hex2, txid2) = burn_tx(150);
    let deposits = vec![
        Deposit { hashblock: b1, nburnindex: 0, ntx: 0, strdest: "addr1".to_string(), txhex: hex1 },
        Deposit { hashblock: b2, nburnindex: 0, ntx: 0, strdest: "addr1".to_string(), txhex: hex2 },
    ];
    let x = Txid { hi: 4, lo: 4 };
    let spent = vec![SpentWithdrawal { nsidechain: 3, hash: x, hashblock: b2 }];
    let failed = vec![FailedWithdrawal { nsidechain: 3, hash: x }];
    let data = get_two_way_peg_data(3, &deposits, None, &spent, &failed).unwrap();
    assert_eq!(data.deposits.len(), 2);
    let find = |k: &OutPoint| {
        data.deposits.iter().find(|(q, _)| q == k).map(|(_, o)| o.value)
    };
    assert_eq!(find(&OutPoint { txid: txid1, vout: 0 }), Some(100));
    assert_eq!(find(&OutPoint { txid: txid2, vout: 0 }), Some(50));
    assert_eq!(data.deposit_block_hash, Some(b2));
    assert_eq!(data.bundle_statuses, vec![(x, WithdrawalBundleStatus::Confirmed)]);
}

#[test]
fn combined_pass_aborts_whole_call_on_decode_fault() {
    let deposits = vec![Deposit {
        hashblock: block_hash(1),
        nburnindex: 0,
        ntx: 0,
        strdest: "addr1".to_string(),
        txhex: "zz".to_string(),
    }];
    let x = Txid { hi: 4, lo: 4 };
    let spent = vec![SpentWithdrawal { nsidechain: 3, hash: x, hashblock: block_hash(2) }];
    assert_eq!(get_two_way_peg_data(3, &deposits, None, &spent, &vec![]), Err(Error::Hex));
}

#[test]
fn empty_range_yields_no_credits_and_no_block() {
    let data = get_two_way_peg_data(3, &vec![], None, &vec![], &vec![]).unwrap();
    assert!(data.deposits.is_empty());
    assert_eq!(data.deposit_block_hash, None);
    assert!(data.bundle_statuses.is_empty());
}

#[test]
fn bundle_hex_is_lowercase_hex_of_the_bytes() {
    assert_eq!(withdrawal_bundle_hex(&vec![0xde, 0xad, 0xbe, 0xef]), "deadbeef");
    assert_eq!(withdrawal_bundle_hex(&vec![]), "");
    assert_eq!(withdrawal_bundle_hex(&vec![0x01, 0x02, 0x03, 0x0f, 0x10]), "0102030f10");
}

#[test]
fn bundle_hex_matches_the_wire_encoding_of_a_transaction() {
    let (tx_hex, _) = burn_tx(42);
    let bytes = hex::decode(&tx_hex).unwrap();
    assert_eq!(withdrawal_bundle_hex(&bytes), tx_hex);
}

#[test]
fn default_peg_data_is_empty() {
    let data = TwoWayPegData::default();
    assert!(data.deposits.is_empty());
    assert_eq!(data.deposit_block_hash, None);
    assert!(data.bundle_statuses.is_empty());
}
