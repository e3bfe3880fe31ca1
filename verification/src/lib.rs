//! Client-side reconciliation logic for a two-way peg between a sidechain and
//! its mainchain: turning the mainchain's cumulative deposit-burn records into
//! incremental deposit credits, resolving withdrawal-bundle statuses, and the
//! block-merge-mining (BMM) confirmation protocol.
//!
//! The mainchain node itself is an external collaborator reached over RPC;
//! the functions here take the node's answers as plain values and compute
//! from them, so the accounting itself carries proofs.

pub mod bmm;
pub mod codec;
pub mod kv;
pub mod peg;
pub mod reconcile;
pub mod types;
pub mod withdrawals;
