//! The withdrawal-bundle status reconciler: the mainchain's spent list,
//! filtered to this sidechain, and its failed list, folded into one status
//! map in which confirmation always wins a conflict.

use vstd::prelude::*;

use crate::kv::{kv_has_key, kv_keys_unique, kv_map, lemma_kv_map_contains, lemma_kv_map_index,
    lemma_kv_map_push};
use crate::types::{FailedWithdrawal, SpentWithdrawal, Txid, WithdrawalBundleStatus};

verus! {

/// The withdrawal transaction ids the spent list reports for this sidechain.
pub open spec fn spent_txids(spent: Seq<SpentWithdrawal>, sidechain_number: u8) -> Set<Txid> {
    Set::new(
        |t: Txid|
            exists|i: int|
                0 <= i < spent.len() && (#[trigger] spent[i]).nsidechain == sidechain_number
                    && spent[i].hash == t,
    )
}

/// The withdrawal transaction ids the failed list reports.
pub open spec fn failed_txids(failed: Seq<FailedWithdrawal>) -> Set<Txid> {
    Set::new(|t: Txid| exists|i: int| 0 <= i < failed.len() && (#[trigger] failed[i]).hash == t)
}

/// What the status map of one reconciliation pass says, in full: its keys
/// are exactly the bundles either list reports (for this sidechain, where
/// the spent list is concerned), every bundle the spent list reports is
/// `Confirmed` — even one the failed list also reports: confirmation wins
/// the tie — and every bundle only the failed list reports is `Failed`.
pub open spec fn statuses_correct(
    r: Seq<(Txid, WithdrawalBundleStatus)>,
    spent: Seq<SpentWithdrawal>,
    failed: Seq<FailedWithdrawal>,
    sidechain_number: u8,
) -> bool {
    &&& kv_keys_unique(r)
    &&& forall|t: Txid|
        kv_map(r).contains_key(t) <==> spent_txids(spent, sidechain_number).contains(t)
            || failed_txids(failed).contains(t)
    &&& forall|t: Txid|
        spent_txids(spent, sidechain_number).contains(t) ==> kv_map(r)[t]
            == WithdrawalBundleStatus::Confirmed
    &&& forall|t: Txid|
        failed_txids(failed).contains(t) && !spent_txids(spent, sidechain_number).contains(t)
            ==> kv_map(r)[t] == WithdrawalBundleStatus::Failed
}

/// Builds the status map of the broadcast withdrawal bundles: every bundle
/// the spent list reports for this sidechain is `Confirmed`, every bundle
/// only the failed list reports is `Failed`, and a bundle both lists report
/// resolves to `Confirmed` — confirmation is never overwritten. Bundles of
/// other sidechains in the spent list are ignored; a pending bundle appears
/// in neither list and gets no entry.
pub fn get_withdrawal_bundle_statuses(
    sidechain_number: u8,
    spent: &Vec<SpentWithdrawal>,
    failed: &Vec<FailedWithdrawal>,
) -> (r: Vec<(Txid, WithdrawalBundleStatus)>)
    ensures
        statuses_correct(r@, spent@, failed@, sidechain_number),
{
    let mut statuses: Vec<(Txid, WithdrawalBundleStatus)> = Vec::new();
    let ns = spent.len();
    for i in 0..ns
        invariant
            ns == spent.len(),
            kv_keys_unique(statuses@),
            forall|t: Txid|
                kv_map(statuses@).contains_key(t) <==> spent_txids(
                    spent@.take(i as int),
                    sidechain_number,
                ).contains(t),
            forall|j: int|
                0 <= j < statuses@.len() ==> (#[trigger] statuses@[j]).1
                    == WithdrawalBundleStatus::Confirmed,
    {
        let s = &spent[i];
        if s.nsidechain == sidechain_number {
            if !contains_txid(&statuses, s.hash) {
                proof {
                    lemma_kv_map_contains(statuses@, s.hash);
                    lemma_kv_map_push(statuses@, s.hash, WithdrawalBundleStatus::Confirmed);
                }
                statuses.push((s.hash, WithdrawalBundleStatus::Confirmed));
            }
        }
        proof {
            lemma_spent_take_step(spent@, sidechain_number, i as int);
        }
    }
    proof {
        assert(spent@.take(ns as int) =~= spent@);
        assert forall|t: Txid| spent_txids(spent@, sidechain_number).contains(t) implies kv_map(
            statuses@,
        )[t] == WithdrawalBundleStatus::Confirmed by {
            lemma_kv_map_contains(statuses@, t);
            let j = choose|j: int| 0 <= j < statuses@.len() && (#[trigger] statuses@[j]).0 == t;
            lemma_kv_map_index(statuses@, j);
        }
    }
    let nf = failed.len();
    for i in 0..nf
        invariant
            nf == failed.len(),
            kv_keys_unique(statuses@),
            forall|t: Txid|
                kv_map(statuses@).contains_key(t) <==> spent_txids(
                    spent@,
                    sidechain_number,
                ).contains(t) || failed_txids(failed@.take(i as int)).contains(t),
            forall|t: Txid|
                spent_txids(spent@, sidechain_number).contains(t) ==> kv_map(statuses@)[t]
                    == WithdrawalBundleStatus::Confirmed,
            forall|t: Txid|
                kv_map(statuses@).contains_key(t) && !spent_txids(
                    spent@,
                    sidechain_number,
                ).contains(t) ==> kv_map(statuses@)[t] == WithdrawalBundleStatus::Failed,
    {
        let f = &failed[i];
        if !contains_txid(&statuses, f.hash) {
            proof {
                lemma_kv_map_contains(statuses@, f.hash);
                lemma_kv_map_push(statuses@, f.hash, WithdrawalBundleStatus::Failed);
            }
            statuses.push((f.hash, WithdrawalBundleStatus::Failed));
        }
        proof {
            lemma_failed_take_step(failed@, i as int);
        }
    }
    proof {
        assert(failed@.take(nf as int) =~= failed@);
    }
    statuses
}

/// Whether a status was already recorded for this transaction id.
fn contains_txid(statuses: &Vec<(Txid, WithdrawalBundleStatus)>, t: Txid) -> (r: bool)
    ensures
        r == kv_map(statuses@).contains_key(t),
{
    proof {
        lemma_kv_map_contains(statuses@, t);
    }
    let n = statuses.len();
    for j in 0..n
        invariant
            n == statuses.len(),
            forall|p: int| 0 <= p < j ==> (#[trigger] statuses@[p]).0 != t,
    {
        if statuses[j].0 == t {
            proof {
                lemma_kv_map_contains(statuses@, t);
            }
            return true;
        }
    }
    assert(!kv_has_key(statuses@, t));
    false
}

/// Taking one more spent record extends the reported ids by at most that
/// record's id.
proof fn lemma_spent_take_step(spent: Seq<SpentWithdrawal>, sidechain_number: u8, i: int)
    requires
        0 <= i < spent.len(),
    ensures
        spent_txids(spent.take(i + 1), sidechain_number) == (if spent[i].nsidechain
            == sidechain_number {
            spent_txids(spent.take(i), sidechain_number).insert(spent[i].hash)
        } else {
            spent_txids(spent.take(i), sidechain_number)
        }),
{
    let prev = spent_txids(spent.take(i), sidechain_number);
    let next = spent_txids(spent.take(i + 1), sidechain_number);
    assert forall|t: Txid| next.contains(t) implies prev.contains(t) || (spent[i].nsidechain
        == sidechain_number && spent[i].hash == t) by {
        let j = choose|j: int|
            0 <= j < spent.take(i + 1).len() && (#[trigger] spent.take(i + 1)[j]).nsidechain
                == sidechain_number && spent.take(i + 1)[j].hash == t;
        if j < i {
            assert(spent.take(i)[j] == spent[j]);
        }
    }
    assert forall|t: Txid| prev.contains(t) implies next.contains(t) by {
        let j = choose|j: int|
            0 <= j < spent.take(i).len() && (#[trigger] spent.take(i)[j]).nsidechain
                == sidechain_number && spent.take(i)[j].hash == t;
        assert(spent.take(i + 1)[j] == spent[j]);
    }
    if spent[i].nsidechain == sidechain_number {
        assert(spent.take(i + 1)[i] == spent[i]);
        assert(next.contains(spent[i].hash));
        assert(next =~= prev.insert(spent[i].hash));
    } else {
        assert(next =~= prev);
    }
}

/// Taking one more failed record extends the reported ids by that record's
/// id.
proof fn lemma_failed_take_step(failed: Seq<FailedWithdrawal>, i: int)
    requires
        0 <= i < failed.len(),
    ensures
        failed_txids(failed.take(i + 1)) == failed_txids(failed.take(i)).insert(failed[i].hash),
{
    let prev = failed_txids(failed.take(i));
    let next = failed_txids(failed.take(i + 1));
    assert forall|t: Txid| next.contains(t) implies prev.contains(t) || failed[i].hash == t by {
        let j = choose|j: int|
            0 <= j < failed.take(i + 1).len() && (#[trigger] failed.take(i + 1)[j]).hash == t;
        if j < i {
            assert(failed.take(i)[j] == failed[j]);
        }
    }
    assert forall|t: Txid| prev.contains(t) implies next.contains(t) by {
        let j = choose|j: int| 0 <= j < failed.take(i).len() && (#[trigger] failed.take(i)[j]).hash == t;
        assert(failed.take(i + 1)[j] == failed[j]);
    }
    assert(failed.take(i + 1)[i] == failed[i]);
    assert(next.contains(failed[i].hash));
    assert(next =~= prev.insert(failed[i].hash));
}

} // verus!
