use drivechain::types::{BlockHash, FailedWithdrawal, SpentWithdrawal, Txid, WithdrawalBundleStatus};
use drivechain::withdrawals::get_withdrawal_bundle_statuses;

fn txid(n: u128) -> Txid {
    Txid { hi: n, lo: 0 }
}

fn block_hash(n: u128) -> BlockHash {
    BlockHash { hi: 0, lo: n }
}

#[test]
fn scenario_spent_and_failed_resolves_confirmed() {
    let x = txid(10);
    let spent = vec![SpentWithdrawal { nsidechain: 3, hash: x, hashblock: block_hash(1) }];
    let failed = vec![FailedWithdrawal { nsidechain: 3, hash: x }];
    let statuses = get_withdrawal_bundle_statuses(3, &spent, &failed);
    assert_eq!(statuses, vec![(x, WithdrawalBundleStatus::Confirmed)]);
}

#[test]
fn spent_list_is_filtered_to_this_sidechain() {
    let mine = txid(1);
    let other = txid(2);
    let spent = vec![
        SpentWithdrawal { nsidechain: 3, hash: mine, hashblock: block_hash(1) },
        SpentWithdrawal { nsidechain: 5, hash: other, hashblock: block_hash(1) },
    ];
    let statuses = get_withdrawal_bundle_statuses(3, &spent, &vec![]);
    assert_eq!(statuses, vec![(mine, WithdrawalBundleStatus::Confirmed)]);
}

#[test]
fn failed_only_bundle_is_failed() {
    let x = txid(4);
    let failed = vec![FailedWithdrawal { nsidechain: 3, hash: x }];
    let statuses = get_withdrawal_bundle_statuses(3, &vec![], &failed);
    assert_eq!(statuses, vec![(x, WithdrawalBundleStatus::Failed)]);
}

#[test]
fn failed_list_is_not_filtered_by_sidechain() {
    let x = txid(4);
    let failed = vec![FailedWithdrawal { nsidechain: 7, hash: x }];
    let statuses = get_withdrawal_bundle_statuses(3, &vec![], &failed);
    assert_eq!(statuses, vec![(x, WithdrawalBundleStatus::Failed)]);
}

#[test]
fn duplicate_reports_yield_one_entry_each() {
    let x = txid(1);
    let y = txid(2);
    let spent = vec![
        SpentWithdrawal { nsidechain: 3, hash: x, hashblock: block_hash(1) },
        SpentWithdrawal { nsidechain: 3, hash: x, hashblock: block_hash(2) },
    ];
    let failed = vec![
        FailedWithdrawal { nsidechain: 3, hash: y },
        FailedWithdrawal { nsidechain: 3, hash: y },
    ];
    let statuses = get_withdrawal_bundle_statuses(3, &spent, &failed);
    assert_eq!(
        statuses,
        vec![(x, WithdrawalBundleStatus::Confirmed), (y, WithdrawalBundleStatus::Failed)],
    );
}

#[test]
fn empty_lists_yield_empty_map() {
    let statuses = get_withdrawal_bundle_statuses(0, &vec![], &vec![]);
    assert!(statuses.is_empty());
}
