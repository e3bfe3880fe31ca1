use drivechain::bmm::{bmm_step, BmmAction, BmmEvent, BmmState};
use drivechain::types::BlockHash;

fn block_hash(n: u128) -> BlockHash {
    BlockHash { hi: 0, lo: n }
}

/// Drives the polling phase against a stub mainchain that reports no
/// successor for the first `k` tip checks and `successor` from then on.
/// Returns the number of tip checks issued and the state reached.
fn poll_until_out_of_waiting(k: usize, successor: BlockHash) -> (usize, BmmState) {
    let mut state = BmmState::Waiting;
    let mut checks: usize = 0;
    loop {
        checks += 1;
        let next = if checks <= k { None } else { Some(successor) };
        let (new_state, action) = bmm_step(state, BmmEvent::NextBlock { next });
        state = new_state;
        match action {
            BmmAction::CheckNextBlock => continue,
            _ => return (checks, state),
        }
    }
}

#[test]
fn successor_after_k_polls_takes_k_plus_one_tip_checks() {
    let h = block_hash(9);
    for k in [0usize, 1, 2, 5] {
        let (checks, state) = poll_until_out_of_waiting(k, h);
        assert_eq!(checks, k + 1);
        assert_eq!(state, BmmState::Verifying { main_hash: h });
    }
}

#[test]
fn accepted_verification_confirms() {
    let h = block_hash(9);
    let (state, action) = bmm_step(BmmState::Waiting, BmmEvent::NextBlock { next: Some(h) });
    assert_eq!(state, BmmState::Verifying { main_hash: h });
    assert_eq!(action, BmmAction::SubmitVerification { main_hash: h });
    let (state, action) = bmm_step(state, BmmEvent::VerifyResult { accepted: true });
    assert_eq!(state, BmmState::Confirmed);
    assert_eq!(action, BmmAction::Stop);
}

#[test]
fn scenario_thirty_stalled_polls_then_mismatch_is_terminal_failure() {
    let h = block_hash(7);
    let (checks, state) = poll_until_out_of_waiting(30, h);
    assert_eq!(checks, 31);
    assert_eq!(state, BmmState::Verifying { main_hash: h });
    // the mainchain rejects the commitment: a terminal mismatch, not a timeout
    let (state, action) = bmm_step(state, BmmEvent::VerifyResult { accepted: false });
    assert_eq!(state, BmmState::Failed);
    assert_eq!(action, BmmAction::Stop);
}

#[test]
fn no_successor_keeps_waiting() {
    let (state, action) = bmm_step(BmmState::Waiting, BmmEvent::NextBlock { next: None });
    assert_eq!(state, BmmState::Waiting);
    assert_eq!(action, BmmAction::CheckNextBlock);
}
