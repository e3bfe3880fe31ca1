use drivechain::types::{BlockHash, OutPoint, Output, SidechainActivationStatus, SidechainId, Txid,
    Vote};

#[test]
fn hashes_compare_by_value() {
    let a = BlockHash { hi: 1, lo: 2 };
    let b = BlockHash { hi: 1, lo: 2 };
    let c = BlockHash { hi: 1, lo: 3 };
    assert_eq!(a, b);
    assert_ne!(a, c);
    let p = OutPoint { txid: Txid { hi: 9, lo: 9 }, vout: 0 };
    let q = OutPoint { txid: Txid { hi: 9, lo: 9 }, vout: 1 };
    assert_ne!(p, q);
}

#[test]
fn sidechain_ids_compare_by_equality() {
    assert_eq!(SidechainId(3), SidechainId(3));
    assert_ne!(SidechainId(3), SidechainId(4));
}

#[test]
fn outputs_carry_destination_and_value() {
    let o = Output { address: "addr1".to_string(), value: 21 };
    assert_eq!(o, o.clone());
    assert_ne!(o, Output { address: "addr1".to_string(), value: 22 });
}

#[test]
fn votes_and_activation_status_are_plain_data() {
    assert_ne!(Vote::Upvote, Vote::Downvote);
    let s = SidechainActivationStatus {
        name: "side".to_string(),
        description: "a sidechain".to_string(),
        age: 10,
        fail: 0,
    };
    assert_eq!(s, s.clone());
}
