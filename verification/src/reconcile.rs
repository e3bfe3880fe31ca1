//! The deposit reconciler: turns a block range's deposit-burn records into
//! incremental deposit credits.
//!
//! A mainchain deposit transaction carries, in its burn output, the
//! *cumulative* total ever burned to the sidechain, not a per-deposit
//! increment. The reconciler therefore diffs consecutive observations of
//! that total: each record's credit is its total minus the running total,
//! a record at the start bound only seeds the running total, and a record
//! whose total went backwards is a stale observation and is skipped.

use vstd::prelude::*;

use crate::codec::{decode_transaction, hex_bytes, hex_decode, is_hex, tx_computed_txid,
    tx_output_values};
use crate::kv::{kv_keys_unique, kv_map, lemma_kv_map_push, lemma_kv_map_update};
use crate::types::{BlockHash, Deposit, DepositV, Error, OutPoint, Output, OutputV};

verus! {

/// The running state of one reconciliation pass: the last cumulative total
/// seen, the credits emitted so far in emission order, and the block of the
/// last record that contributed a credit.
pub struct ReconcileState {
    pub last_total: u64,
    pub credits: Seq<(OutPoint, OutputV)>,
    pub last_block_hash: Option<BlockHash>,
}

/// The state a pass starts from: total zero, nothing emitted.
pub open spec fn initial_state() -> ReconcileState {
    ReconcileState { last_total: 0, credits: Seq::empty(), last_block_hash: None }
}

/// The cumulative burn total a deposit record reports: the value of the
/// output at the record's burn index of its decoded raw transaction — or the
/// decode fault that aborts the pass.
pub open spec fn deposit_total(d: DepositV) -> Result<u64, Error> {
    if !is_hex(d.txhex) {
        Err(Error::Hex)
    } else {
        match tx_output_values(hex_bytes(d.txhex)) {
            Option::None => Err(Error::BitcoinConsensusEncode),
            Option::Some(values) => if d.nburnindex < values.len() {
                Ok(values[d.nburnindex as int])
            } else {
                Err(Error::BurnIndexOutOfRange)
            },
        }
    }
}

/// The outpoint that keys a record's credit: the decoded transaction's id
/// and the burn index.
pub open spec fn deposit_outpoint(d: DepositV) -> OutPoint {
    OutPoint { txid: tx_computed_txid(hex_bytes(d.txhex)), vout: d.nburnindex as u32 }
}

/// One step of the reconciliation: how a single deposit record moves the
/// state, or which fault it aborts with.
///
/// A record at the start bound re-states the already-processed boundary and
/// only seeds the running total; a record whose total fell below the running
/// total is a stale observation and changes nothing; every other record
/// contributes the difference as a credit and advances the running total.
pub open spec fn reconcile_step(st: ReconcileState, d: DepositV, start: Option<BlockHash>) -> Result<
    ReconcileState,
    Error,
> {
    match deposit_total(d) {
        Err(e) => Err(e),
        Ok(total) => if start == Some(d.hashblock) {
            Ok(ReconcileState { last_total: total, ..st })
        } else if total < st.last_total {
            Ok(st)
        } else {
            Ok(
                ReconcileState {
                    last_total: total,
                    credits: st.credits.push(
                        (
                            deposit_outpoint(d),
                            OutputV { address: d.strdest, value: (total - st.last_total) as u64 },
                        ),
                    ),
                    last_block_hash: Some(d.hashblock),
                },
            )
        },
    }
}

/// The whole pass: the records folded through `reconcile_step` in delivered
/// (ascending mainchain) order, stopping at the first fault.
pub open spec fn reconcile(st: ReconcileState, ds: Seq<DepositV>, start: Option<BlockHash>) -> Result<
    ReconcileState,
    Error,
> decreases ds.len() {
    if ds.len() == 0 {
        Ok(st)
    } else {
        match reconcile_step(st, ds.first(), start) {
            Err(e) => Err(e),
            Ok(st2) => reconcile(st2, ds.drop_first(), start),
        }
    }
}

/// The views of a sequence of deposit records.
pub open spec fn deposits_view(s: Seq<Deposit>) -> Seq<DepositV> {
    s.map_values(|d: Deposit| d@)
}

/// The views of the credit pairs an exec pass accumulates.
pub open spec fn credits_view(s: Seq<(OutPoint, Output)>) -> Seq<(OutPoint, OutputV)> {
    s.map_values(|p: (OutPoint, Output)| (p.0, p.1@))
}

/// Folding a concatenation folds the two halves in turn.
pub proof fn lemma_reconcile_concat(
    st: ReconcileState,
    a: Seq<DepositV>,
    b: Seq<DepositV>,
    start: Option<BlockHash>,
)
    ensures
        reconcile(st, a + b, start) == (match reconcile(st, a, start) {
            Ok(mid) => reconcile(mid, b, start),
            Err(e) => Err(e),
        }),
    decreases a.len(),
{
    if a.len() == 0 {
        assert(a + b =~= b);
    } else {
        assert((a + b).first() == a.first());
        assert((a + b).drop_first() =~= a.drop_first() + b);
        match reconcile_step(st, a.first(), start) {
            Err(_) => {
            },
            Ok(st2) => {
                lemma_reconcile_concat(st2, a.drop_first(), b, start);
            },
        }
    }
}

/// Folding one more record steps the fold of the prefix.
pub proof fn lemma_reconcile_snoc(
    st: ReconcileState,
    ds: Seq<DepositV>,
    d: DepositV,
    start: Option<BlockHash>,
)
    ensures
        reconcile(st, ds.push(d), start) == (match reconcile(st, ds, start) {
            Ok(mid) => reconcile_step(mid, d, start),
            Err(e) => Err(e),
        }),
{
    assert(ds.push(d) =~= ds + seq![d]);
    lemma_reconcile_concat(st, ds, seq![d], start);
    match reconcile(st, ds, start) {
        Ok(mid) => {
            assert(seq![d].first() == d);
            assert(seq![d].drop_first() =~= Seq::<DepositV>::empty());
            match reconcile_step(mid, d, start) {
                Ok(st2) => {
                    assert(reconcile(st2, seq![d].drop_first(), start) == Ok::<
                        ReconcileState,
                        Error,
                    >(st2));
                },
                Err(_) => {
                },
            }
        },
        Err(_) => {
        },
    }
}

/// Computes the incremental deposit credits of a block range, keyed by
/// outpoint, and the last block that contributed a credit.
///
/// The records must be in ascending mainchain order, as the node delivers
/// them. `start` is the exclusive lower bound of the range: a record of that
/// block only recovers the running total and earns no credit. On the first
/// record whose raw transaction does not read back as hex, as a transaction,
/// or whose burn index names no output, the whole pass aborts with that
/// fault and no partial credit set is returned.
pub fn get_deposit_outputs(deposits: &Vec<Deposit>, start: Option<BlockHash>) -> (r: Result<
    (Vec<(OutPoint, Output)>, Option<BlockHash>),
    Error,
>)
    ensures
        ({
            let m = reconcile(initial_state(), deposits_view(deposits@), start);
            match r {
                Ok(p) => m is Ok && kv_keys_unique(credits_view(p.0@)) && kv_map(
                    credits_view(p.0@),
                ) == kv_map(m->Ok_0.credits) && p.1 == m->Ok_0.last_block_hash,
                Err(e) => m == Err::<ReconcileState, Error>(e),
            }
        }),
{
    let ghost dsv = deposits_view(deposits@);
    let mut outputs: Vec<(OutPoint, Output)> = Vec::new();
    let mut last_block_hash: Option<BlockHash> = None;
    let mut last_total: u64 = 0;
    let ghost mut credits: Seq<(OutPoint, OutputV)> = Seq::empty();
    assert(dsv.take(0) =~= Seq::empty());
    let n = deposits.len();
    for i in 0..n
        invariant
            n == deposits.len(),
            dsv == deposits_view(deposits@),
            reconcile(initial_state(), dsv.take(i as int), start) == Ok::<ReconcileState, Error>(
                ReconcileState { last_total, credits, last_block_hash },
            ),
            kv_keys_unique(credits_view(outputs@)),
            kv_map(credits_view(outputs@)) == kv_map(credits),
    {
        let d = &deposits[i];
        assert(dsv[i as int] == d@);
        let bytes = match hex_decode(d.txhex.as_str()) {
            Option::Some(bytes) => bytes,
            Option::None => {
                proof {
                    abort_from_prefix(dsv, i as int, start, Error::Hex);
                }
                return Err(Error::Hex);
            },
        };
        let decoded = match decode_transaction(&bytes) {
            Option::Some(decoded) => decoded,
            Option::None => {
                proof {
                    abort_from_prefix(dsv, i as int, start, Error::BitcoinConsensusEncode);
                }
                return Err(Error::BitcoinConsensusEncode);
            },
        };
        let (values, txid) = decoded;
        if d.nburnindex >= values.len() {
            proof {
                abort_from_prefix(dsv, i as int, start, Error::BurnIndexOutOfRange);
            }
            return Err(Error::BurnIndexOutOfRange);
        }
        let total = values[d.nburnindex];
        assert(deposit_total(dsv[i as int]) == Ok::<u64, Error>(total));
        let at_start = match start {
            Option::Some(s) => s == d.hashblock,
            Option::None => false,
        };
        if at_start {
            last_total = total;
        } else if total < last_total {
            // stale observation: the cumulative total went backwards
        } else {
            let value = total - last_total;
            let outpoint = OutPoint { txid, vout: #[verifier::truncate] (d.nburnindex as u32) };
            let output = Output { address: d.strdest.clone(), value };
            assert(outpoint == deposit_outpoint(dsv[i as int]));
            proof {
                assert(credits.push((outpoint, output@)).drop_last() =~= credits);
                assert(kv_map(credits.push((outpoint, output@))) == kv_map(credits).insert(
                    outpoint,
                    output@,
                ));
                credits = credits.push((outpoint, output@));
            }
            store_credit(&mut outputs, outpoint, output);
            last_total = total;
            last_block_hash = Some(d.hashblock);
        }
        proof {
            lemma_reconcile_snoc(initial_state(), dsv.take(i as int), dsv[i as int], start);
            assert(dsv.take(i + 1) =~= dsv.take(i as int).push(dsv[i as int]));
        }
    }
    proof {
        assert(dsv.take(n as int) =~= dsv);
    }
    Ok((outputs, last_block_hash))
}

/// Records a credit under its outpoint; a credit already recorded under the
/// same outpoint is replaced, as re-insertion into a map would replace it.
fn store_credit(outputs: &mut Vec<(OutPoint, Output)>, outpoint: OutPoint, output: Output)
    requires
        kv_keys_unique(credits_view(old(outputs)@)),
    ensures
        kv_keys_unique(credits_view(final(outputs)@)),
        kv_map(credits_view(final(outputs)@)) == kv_map(credits_view(old(outputs)@)).insert(
            outpoint,
            output@,
        ),
{
    let n = outputs.len();
    for j in 0..n
        invariant
            n == outputs.len(),
            outputs@ == old(outputs)@,
            kv_keys_unique(credits_view(outputs@)),
            forall|p: int| 0 <= p < j ==> (#[trigger] outputs@[p]).0 != outpoint,
    {
        if outputs[j].0 == outpoint {
            let ghost before = credits_view(outputs@);
            outputs[j] = (outpoint, output);
            proof {
                assert(credits_view(outputs@) =~= before.update(j as int, (outpoint, output@)));
                assert(before[j as int].0 == outpoint);
                lemma_kv_map_update(before, j as int, output@);
            }
            return ;
        }
    }
    let ghost before = credits_view(outputs@);
    proof {
        assert forall|p: int| 0 <= p < before.len() implies (#[trigger] before[p]).0 != outpoint by {
            assert(outputs@[p].0 != outpoint);
        }
        lemma_kv_map_push(before, outpoint, output@);
    }
    outputs.push((outpoint, output));
    proof {
        assert(credits_view(outputs@) =~= before.push((outpoint, output@)));
    }
}

/// A fault on the record at `i` aborts the fold of the whole sequence with
/// that fault, given the fold of the prefix before `i` reached the state of
/// the failing step.
proof fn abort_from_prefix(dsv: Seq<DepositV>, i: int, start: Option<BlockHash>, e: Error)
    requires
        0 <= i < dsv.len(),
        reconcile(initial_state(), dsv.take(i), start) is Ok,
        reconcile_step(
            reconcile(initial_state(), dsv.take(i), start)->Ok_0,
            dsv[i],
            start,
        ) == Err::<ReconcileState, Error>(e),
    ensures
        reconcile(initial_state(), dsv, start) == Err::<ReconcileState, Error>(e),
{
    assert(dsv =~= dsv.take(i) + seq![dsv[i]] + dsv.skip(i + 1));
    lemma_reconcile_concat(initial_state(), dsv.take(i) + seq![dsv[i]], dsv.skip(i + 1), start);
    lemma_reconcile_snoc(initial_state(), dsv.take(i), dsv[i], start);
    assert(dsv.take(i) + seq![dsv[i]] =~= dsv.take(i).push(dsv[i]));
}

/// The sum of the credit values of a sequence of emitted credits.
pub open spec fn sum_credits(s: Seq<(OutPoint, OutputV)>) -> int
    decreases s.len(),
{
    if s.len() == 0 {
        0
    } else {
        sum_credits(s.drop_last()) + s.last().1.value
    }
}

/// Reconciliation is a function of the delivered records and the start
/// bound alone: two passes over the same range yield the same credits and
/// the same last block hash.
pub proof fn lemma_reconcile_idempotent(
    ds: Seq<DepositV>,
    start: Option<BlockHash>,
    r1: Result<ReconcileState, Error>,
    r2: Result<ReconcileState, Error>,
)
    requires
        r1 == reconcile(initial_state(), ds, start),
        r2 == reconcile(initial_state(), ds, start),
    ensures
        r1 == r2,
{
}

/// The monotonic-diff law: over records that all decode, none of which sits
/// at the start bound, whose cumulative totals never decrease and start at
/// or above the running total, the pass accepts every record and the credit
/// values it emits sum exactly to the last total minus the seed.
pub proof fn lemma_monotonic_diff(st: ReconcileState, ds: Seq<DepositV>, start: Option<BlockHash>)
    requires
        forall|i: int| 0 <= i < ds.len() ==> deposit_total(#[trigger] ds[i]) is Ok,
        forall|i: int| 0 <= i < ds.len() ==> start != Some((#[trigger] ds[i]).hashblock),
        forall|i: int|
            0 <= i < ds.len() - 1 ==> deposit_total(#[trigger] ds[i])->Ok_0 <= deposit_total(
                ds[i + 1],
            )->Ok_0,
        ds.len() > 0 ==> st.last_total <= deposit_total(ds[0])->Ok_0,
    ensures
        reconcile(st, ds, start) is Ok,
        sum_credits(reconcile(st, ds, start)->Ok_0.credits) - sum_credits(st.credits) == (
        if ds.len() == 0 {
            0
        } else {
            deposit_total(ds.last())->Ok_0 - st.last_total
        }),
    decreases ds.len(),
{
    if ds.len() > 0 {
        let d = ds.first();
        let total = deposit_total(d)->Ok_0;
        let pair = (
            deposit_outpoint(d),
            OutputV { address: d.strdest, value: (total - st.last_total) as u64 },
        );
        let st2 = reconcile_step(st, d, start)->Ok_0;
        assert(st2.credits == st.credits.push(pair));
        assert(st.credits.push(pair).drop_last() =~= st.credits);
        assert(st.credits.push(pair).last() == pair);
        assert(sum_credits(st2.credits) == sum_credits(st.credits) + (total - st.last_total));
        let rest = ds.drop_first();
        assert forall|i: int| 0 <= i < rest.len() implies deposit_total(#[trigger] rest[i]) is Ok
            && start != Some(rest[i].hashblock) by {
            assert(rest[i] == ds[i + 1]);
        }
        assert forall|i: int|
            0 <= i < rest.len() - 1 implies deposit_total(#[trigger] rest[i])->Ok_0
            <= deposit_total(rest[i + 1])->Ok_0 by {
            assert(rest[i] == ds[i + 1] && rest[i + 1] == ds[i + 2]);
        }
        if rest.len() > 0 {
            assert(rest[0] == ds[1]);
            assert(st2.last_total <= deposit_total(rest[0])->Ok_0);
        }
        lemma_monotonic_diff(st2, rest, start);
        if rest.len() > 0 {
            assert(rest.last() == ds.last());
        }
    }
}

/// The monotonic-diff law for a seeded range: with the start-block record
/// delivered first, it only seeds the running total — so over following
/// records with never-decreasing totals, the emitted credit values sum
/// exactly to the last total minus the start block's total, and the start
/// record itself earns no credit.
pub proof fn lemma_monotonic_diff_seeded(d0: DepositV, ds: Seq<DepositV>, start: BlockHash)
    requires
        deposit_total(d0) is Ok,
        d0.hashblock == start,
        forall|i: int| 0 <= i < ds.len() ==> deposit_total(#[trigger] ds[i]) is Ok,
        forall|i: int| 0 <= i < ds.len() ==> (#[trigger] ds[i]).hashblock != start,
        forall|i: int|
            0 <= i < ds.len() - 1 ==> deposit_total(#[trigger] ds[i])->Ok_0 <= deposit_total(
                ds[i + 1],
            )->Ok_0,
        ds.len() > 0 ==> deposit_total(d0)->Ok_0 <= deposit_total(ds[0])->Ok_0,
    ensures
        reconcile(initial_state(), seq![d0] + ds, Some(start)) is Ok,
        sum_credits(reconcile(initial_state(), seq![d0] + ds, Some(start))->Ok_0.credits) == (
        if ds.len() == 0 {
            0
        } else {
            deposit_total(ds.last())->Ok_0 - deposit_total(d0)->Ok_0
        }),
{
    let full = seq![d0] + ds;
    assert(full.first() == d0);
    assert(full.drop_first() =~= ds);
    let st2 = reconcile_step(initial_state(), d0, Some(start))->Ok_0;
    assert(st2.last_total == deposit_total(d0)->Ok_0);
    assert(st2.credits == Seq::<(OutPoint, OutputV)>::empty());
    assert forall|i: int| 0 <= i < ds.len() implies Some((#[trigger] ds[i]).hashblock) != Some(
        start,
    ) by {
        assert(ds[i].hashblock != start);
    }
    lemma_monotonic_diff(st2, ds, Some(start));
}

/// The stale-skip law: a record that decodes, does not sit at the start
/// bound, and reports a total below the running total reached just before it
/// changes nothing — the pass over the sequence with it equals the pass over
/// the sequence without it.
pub proof fn lemma_stale_skip(
    st: ReconcileState,
    pre: Seq<DepositV>,
    d: DepositV,
    suf: Seq<DepositV>,
    start: Option<BlockHash>,
)
    requires
        reconcile(st, pre, start) is Ok,
        deposit_total(d) is Ok,
        start != Some(d.hashblock),
        deposit_total(d)->Ok_0 < reconcile(st, pre, start)->Ok_0.last_total,
    ensures
        reconcile(st, pre + seq![d] + suf, start) == reconcile(st, pre + suf, start),
{
    let mid = reconcile(st, pre, start)->Ok_0;
    assert(pre + seq![d] + suf =~= pre + (seq![d] + suf));
    lemma_reconcile_concat(st, pre, seq![d] + suf, start);
    assert((seq![d] + suf).first() == d);
    assert((seq![d] + suf).drop_first() =~= suf);
    assert(reconcile_step(mid, d, start) == Ok::<ReconcileState, Error>(mid));
    lemma_reconcile_concat(st, pre, suf, start);
}

} // verus!
