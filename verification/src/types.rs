use vstd::prelude::*;

verus! {

/// A 256-bit mainchain block identifier, held as two 128-bit halves of the
/// digest so that blocks can be compared by equality.
#[derive(Clone, Copy, Debug, PartialEq, Eq, Structural)]
pub struct BlockHash {
    pub hi: u128,
    pub lo: u128,
}

/// A 256-bit mainchain transaction identifier, held as two 128-bit halves of
/// the digest so that transactions can be compared by equality.
#[derive(Clone, Copy, Debug, PartialEq, Eq, Structural)]
pub struct Txid {
    pub hi: u128,
    pub lo: u128,
}

/// A unique locator for a spendable output: a transaction id and the index of
/// one of that transaction's outputs.
#[derive(Clone, Copy, Debug, PartialEq, Eq, Structural)]
pub struct OutPoint {
    pub txid: Txid,
    pub vout: u32,
}

/// The 8-bit identifier that distinguishes sidechains sharing one mainchain.
#[derive(Clone, Copy, Debug, PartialEq, Eq, Structural)]
pub struct SidechainId(pub u8);

/// Terminal states of a previously broadcast withdrawal bundle. A pending
/// bundle appears in neither source list and so gets no status at all.
#[derive(Clone, Copy, Debug, PartialEq, Eq, Structural)]
pub enum WithdrawalBundleStatus {
    Failed,
    Confirmed,
}

/// A deposit credit: value that must be credited on the sidechain ledger to
/// the given destination descriptor.
#[derive(Clone, Debug, PartialEq, Eq)]
pub struct Output {
    pub address: String,
    pub value: u64,
}

/// The mathematical content of an `Output`.
pub struct OutputV {
    pub address: Seq<char>,
    pub value: u64,
}

impl View for Output {
    type V = OutputV;

    open spec fn view(&self) -> OutputV {
        OutputV { address: self.address@, value: self.value }
    }
}

/// One deposit record for a block range, as the mainchain node reports it:
/// the containing block, the index of the burn output, the raw transaction
/// as hex, and the destination descriptor.
#[derive(Clone, Debug, PartialEq, Eq)]
pub struct Deposit {
    pub hashblock: BlockHash,
    pub nburnindex: usize,
    pub ntx: usize,
    pub strdest: String,
    pub txhex: String,
}

/// The part of a `Deposit` that the reconciliation algorithm reads.
pub struct DepositV {
    pub hashblock: BlockHash,
    pub nburnindex: usize,
    pub strdest: Seq<char>,
    pub txhex: Seq<char>,
}

impl View for Deposit {
    type V = DepositV;

    open spec fn view(&self) -> DepositV {
        DepositV {
            hashblock: self.hashblock,
            nburnindex: self.nburnindex,
            strdest: self.strdest@,
            txhex: self.txhex@,
        }
    }
}

/// A withdrawal bundle the mainchain reports as paid out, with the sidechain
/// it belongs to and the block that confirmed it.
#[derive(Clone, Copy, Debug, PartialEq, Eq, Structural)]
pub struct SpentWithdrawal {
    pub nsidechain: u8,
    pub hash: Txid,
    pub hashblock: BlockHash,
}

/// A withdrawal bundle the mainchain reports as failed.
#[derive(Clone, Copy, Debug, PartialEq, Eq, Structural)]
pub struct FailedWithdrawal {
    pub nsidechain: u8,
    pub hash: Txid,
}

/// A vote on a pending sidechain proposal.
#[derive(Clone, Copy, Debug, PartialEq, Eq, Structural)]
pub enum Vote {
    Upvote,
    Abstain,
    Downvote,
}

/// Activation progress of a proposed sidechain.
#[derive(Clone, Debug, PartialEq, Eq)]
pub struct SidechainActivationStatus {
    pub name: String,
    pub description: String,
    pub age: u32,
    pub fail: u32,
}

/// Faults of the reconciliation pass itself. Every variant aborts the whole
/// pass: no partial credit set is ever returned, since partially applied
/// credits would corrupt the caller's ledger. Transport faults never reach
/// this type; they stay with the caller that performs the node queries.
#[derive(Clone, Copy, Debug, PartialEq, Eq, Structural)]
pub enum Error {
    /// A deposit record's raw transaction held a non-hex character or an odd
    /// number of digits.
    Hex,
    /// A deposit record's bytes did not decode as a mainchain transaction.
    BitcoinConsensusEncode,
    /// A deposit record's burn index did not name an output of its decoded
    /// transaction.
    BurnIndexOutOfRange,
}

/// The aggregate result of one reconciliation pass: the new deposit credits
/// keyed by outpoint, the last mainchain block that contributed a credit (if
/// any did), and the terminal statuses of broadcast withdrawal bundles.
///
/// Both `deposits` and `bundle_statuses` are association lists with unique
/// keys; `crate::kv::kv_map` gives their reading as maps.
#[derive(Clone, Debug, PartialEq, Eq)]
pub struct TwoWayPegData {
    pub deposits: Vec<(OutPoint, Output)>,
    pub deposit_block_hash: Option<BlockHash>,
    pub bundle_statuses: Vec<(Txid, WithdrawalBundleStatus)>,
}

impl Default for TwoWayPegData {
    /// An empty reconciliation result: no credits, no contributing block, no
    /// bundle statuses.
    fn default() -> (r: Self)
        ensures
            r.deposits@ == Seq::<(OutPoint, Output)>::empty(),
            r.deposit_block_hash is None,
            r.bundle_statuses@ == Seq::<(Txid, WithdrawalBundleStatus)>::empty(),
    {
        TwoWayPegData { deposits: Vec::new(), deposit_block_hash: None, bundle_statuses: Vec::new() }
    }
}

} // verus!
