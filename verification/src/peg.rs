//! The peg operations the sidechain node drives, over the node's answers as
//! plain values: one consolidated two-way-peg result per reconciliation
//! call, and the wire encoding of a withdrawal bundle for broadcast.

use vstd::prelude::*;

use crate::codec::{hex_encode, to_hex};
use crate::kv::{kv_keys_unique, kv_map};
use crate::reconcile::{deposits_view, credits_view, get_deposit_outputs, initial_state, reconcile,
    ReconcileState};
use crate::types::{BlockHash, Deposit, Error, FailedWithdrawal, SpentWithdrawal, TwoWayPegData};
use crate::withdrawals::{get_withdrawal_bundle_statuses, statuses_correct};

verus! {

/// Runs one full reconciliation pass for this sidechain: the incremental
/// deposit credits of the queried block range together with the withdrawal
/// bundle statuses, as one consolidated result.
///
/// The deposit records must be in ascending mainchain order; `start` is the
/// exclusive lower bound of the range, whose record only seeds the running
/// total. A decode fault in any deposit record aborts the whole call with
/// that fault and no partial result.
pub fn get_two_way_peg_data(
    sidechain_number: u8,
    deposits: &Vec<Deposit>,
    start: Option<BlockHash>,
    spent: &Vec<SpentWithdrawal>,
    failed: &Vec<FailedWithdrawal>,
) -> (r: Result<TwoWayPegData, Error>)
    ensures
        ({
            let m = reconcile(initial_state(), deposits_view(deposits@), start);
            match r {
                Ok(data) => m is Ok && kv_keys_unique(credits_view(data.deposits@)) && kv_map(
                    credits_view(data.deposits@),
                ) == kv_map(m->Ok_0.credits) && data.deposit_block_hash
                    == m->Ok_0.last_block_hash,
                Err(e) => m == Err::<ReconcileState, Error>(e),
            }
        }),
        r matches Ok(data) ==> statuses_correct(
            data.bundle_statuses@,
            spent@,
            failed@,
            sidechain_number,
        ),
{
    let (outputs, deposit_block_hash) = match get_deposit_outputs(deposits, start) {
        Ok(p) => p,
        Err(e) => {
            return Err(e);
        },
    };
    let bundle_statuses = get_withdrawal_bundle_statuses(sidechain_number, spent, failed);
    let data = TwoWayPegData { deposits: outputs, deposit_block_hash, bundle_statuses };
    Ok(data)
}

/// The hex text of a withdrawal bundle's raw consensus bytes, as the
/// mainchain node's broadcast query takes it.
pub fn withdrawal_bundle_hex(rawtx: &Vec<u8>) -> (r: String)
    ensures
        r@ == to_hex(rawtx@),
{
    hex_encode(rawtx)
}

} // verus!

