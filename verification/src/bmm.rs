//! The BMM (block-merge-mining) confirmation protocol, as a state machine.
//!
//! The confirmer starts WAITING at a known mainchain block: it asks for that
//! block's successor, and while none exists it suspends for the polling
//! interval and asks again. Once a successor appears it submits the
//! sidechain's claimed commitment for verification against that block; the
//! node's answer settles the run as CONFIRMED or FAILED. The two negative
//! outcomes are distinct on purpose: "no successor yet" is an expected,
//! retried condition, while a commitment mismatch is terminal.
//!
//! The polling and the suspension are the caller's: it performs the action
//! each step requests — after waiting out its polling interval, and subject
//! to whatever deadline or cancellation it imposes — and feeds the node's
//! answer back in as the next event.

use vstd::prelude::*;

use crate::types::BlockHash;

verus! {

/// Where a confirmation run stands.
#[derive(Clone, Copy, Debug, PartialEq, Eq, Structural)]
pub enum BmmState {
    /// The successor of the observed mainchain block has not appeared yet.
    Waiting,
    /// A successor appeared; its verification answer is outstanding.
    Verifying { main_hash: BlockHash },
    /// The mainchain verified the commitment in the successor block.
    Confirmed,
    /// The mainchain rejected the commitment: a terminal mismatch.
    Failed,
}

/// A mainchain answer fed into the run.
#[derive(Clone, Copy, Debug, PartialEq, Eq, Structural)]
pub enum BmmEvent {
    /// The answer to a tip check: the successor of the observed block, if
    /// one exists by now.
    NextBlock { next: Option<BlockHash> },
    /// The answer to the verification query.
    VerifyResult { accepted: bool },
}

/// What the caller must do next.
#[derive(Clone, Copy, Debug, PartialEq, Eq, Structural)]
pub enum BmmAction {
    /// Wait out the polling interval, then ask for the successor of the
    /// observed block again.
    CheckNextBlock,
    /// Submit the commitment and the sidechain id for verification against
    /// this block.
    SubmitVerification { main_hash: BlockHash },
    /// The run is settled; nothing remains to be done.
    Stop,
}

/// Whether a state expects this kind of event: WAITING consumes tip checks,
/// verification consumes the verification answer, and a settled run consumes
/// nothing.
pub open spec fn bmm_expects(st: BmmState, ev: BmmEvent) -> bool {
    match (st, ev) {
        (BmmState::Waiting, BmmEvent::NextBlock { .. }) => true,
        (BmmState::Verifying { .. }, BmmEvent::VerifyResult { .. }) => true,
        _ => false,
    }
}

/// The transition table of the confirmer.
pub open spec fn spec_bmm_step(st: BmmState, ev: BmmEvent) -> (BmmState, BmmAction) {
    match (st, ev) {
        (BmmState::Waiting, BmmEvent::NextBlock { next: Option::None }) => (
            BmmState::Waiting,
            BmmAction::CheckNextBlock,
        ),
        (BmmState::Waiting, BmmEvent::NextBlock { next: Option::Some(h) }) => (
            BmmState::Verifying { main_hash: h },
            BmmAction::SubmitVerification { main_hash: h },
        ),
        (BmmState::Verifying { .. }, BmmEvent::VerifyResult { accepted: true }) => (
            BmmState::Confirmed,
            BmmAction::Stop,
        ),
        (BmmState::Verifying { .. }, BmmEvent::VerifyResult { accepted: false }) => (
            BmmState::Failed,
            BmmAction::Stop,
        ),
        _ => (st, BmmAction::Stop),
    }
}

/// One step of a confirmation run: consumes the mainchain's answer and
/// returns the next state with the action the caller must perform.
pub fn bmm_step(st: BmmState, ev: BmmEvent) -> (r: (BmmState, BmmAction))
    requires
        bmm_expects(st, ev),
    ensures
        r == spec_bmm_step(st, ev),
{
    match (st, ev) {
        (BmmState::Waiting, BmmEvent::NextBlock { next: Option::None }) => (
            BmmState::Waiting,
            BmmAction::CheckNextBlock,
        ),
        (BmmState::Waiting, BmmEvent::NextBlock { next: Option::Some(h) }) => (
            BmmState::Verifying { main_hash: h },
            BmmAction::SubmitVerification { main_hash: h },
        ),
        (BmmState::Verifying { .. }, BmmEvent::VerifyResult { accepted: true }) => (
            BmmState::Confirmed,
            BmmAction::Stop,
        ),
        (BmmState::Verifying { .. }, BmmEvent::VerifyResult { accepted: false }) => (
            BmmState::Failed,
            BmmAction::Stop,
        ),
        _ => (st, BmmAction::Stop),
    }
}

/// The state a run reaches from `st` after consuming these events in order.
pub open spec fn bmm_run(st: BmmState, evs: Seq<BmmEvent>) -> BmmState
    decreases evs.len(),
{
    if evs.len() == 0 {
        st
    } else {
        bmm_run(spec_bmm_step(st, evs.first()).0, evs.drop_first())
    }
}

/// Consuming one more event steps the run of the prefix.
pub proof fn lemma_bmm_run_snoc(st: BmmState, evs: Seq<BmmEvent>, ev: BmmEvent)
    ensures
        bmm_run(st, evs.push(ev)) == spec_bmm_step(bmm_run(st, evs), ev).0,
    decreases evs.len(),
{
    if evs.len() == 0 {
        assert(evs.push(ev).first() == ev);
        assert(evs.push(ev).drop_first() =~= Seq::<BmmEvent>::empty());
        assert(bmm_run(st, evs.push(ev)) == bmm_run(
            spec_bmm_step(st, ev).0,
            evs.push(ev).drop_first(),
        ));
        assert(bmm_run(spec_bmm_step(st, ev).0, Seq::<BmmEvent>::empty()) == spec_bmm_step(
            st,
            ev,
        ).0);
        assert(bmm_run(st, evs) == st);
    } else {
        let st2 = spec_bmm_step(st, evs.first()).0;
        assert(evs.push(ev).first() == evs.first());
        assert(evs.push(ev).drop_first() =~= evs.drop_first().push(ev));
        assert(bmm_run(st, evs.push(ev)) == bmm_run(st2, evs.drop_first().push(ev)));
        lemma_bmm_run_snoc(st2, evs.drop_first(), ev);
        assert(bmm_run(st, evs) == bmm_run(st2, evs.drop_first()));
    }
}

/// The termination law of the polling loop: if the mainchain answers the
/// first `k` tip checks with no successor and the next one with successor
/// `h`, the confirmer is still WAITING after each of the first `k` answers —
/// so it issues exactly `k + 1` tip checks — and the `(k + 1)`-th answer
/// moves it out of WAITING, into verifying against `h`.
pub proof fn lemma_bmm_polls(evs: Seq<BmmEvent>, k: int, h: BlockHash)
    requires
        0 <= k < evs.len(),
        forall|i: int|
            0 <= i < k ==> evs[i] == (BmmEvent::NextBlock { next: Option::None::<BlockHash> }),
        evs[k] == (BmmEvent::NextBlock { next: Option::Some(h) }),
    ensures
        forall|i: int| 0 <= i <= k ==> bmm_run(BmmState::Waiting, evs.take(i)) == BmmState::Waiting,
        bmm_run(BmmState::Waiting, evs.take(k + 1)) == (BmmState::Verifying { main_hash: h }),
{
    assert forall|i: int| 0 <= i <= k implies bmm_run(BmmState::Waiting, evs.take(i))
        == BmmState::Waiting by {
        lemma_bmm_all_none(evs, i);
    }
    assert(evs.take(k + 1) =~= evs.take(k).push(evs[k]));
    lemma_bmm_run_snoc(BmmState::Waiting, evs.take(k), evs[k]);
}

/// A run over tip checks that all answered "no successor yet" is still
/// WAITING.
proof fn lemma_bmm_all_none(evs: Seq<BmmEvent>, i: int)
    requires
        0 <= i <= evs.len(),
        forall|j: int|
            0 <= j < i ==> evs[j] == (BmmEvent::NextBlock { next: Option::None::<BlockHash> }),
    ensures
        bmm_run(BmmState::Waiting, evs.take(i)) == BmmState::Waiting,
    decreases i,
{
    if i > 0 {
        lemma_bmm_all_none(evs, i - 1);
        assert(evs.take(i) =~= evs.take(i - 1).push(evs[i - 1]));
        lemma_bmm_run_snoc(BmmState::Waiting, evs.take(i - 1), evs[i - 1]);
    } else {
        assert(evs.take(0) =~= Seq::<BmmEvent>::empty());
    }
}

} // verus!
