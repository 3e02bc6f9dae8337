//! Custody ledger and cross-chain settlement correlation for crowdfunded
//! proposals whose funds may arrive locally or from a remote chain.
//!
//! Depositors fund proposals; applicants claim a proposal's funds with an
//! application that names the shareholders of the payout; depositors vote
//! their funds onto an application; once the auditors have verified it, the
//! locked funds are shared out among the shareholders. Messages that the
//! ledger sends to a remote chain are tied to their later outcome by channel
//! and sequence number, and deposits seen on the remote chain are credited
//! once.
//!
//! Funds in custody are conserved: a deposit adds to what the depositor
//! holds, a lock changes nothing but the lock flag, a payout removes the
//! locked funds and adds each shareholder's part to what it holds, and a
//! withdrawal takes the unlocked funds out. Funds that are locked or that
//! belong to another proposal are never added to: such a deposit or payout
//! is refused.
//!
//! A ledger that keeps its invariant never holds more of a token for a
//! proposal than the proposal has received in it; with that, no payout
//! runs out of room in 128 bits.
//!
//! The whole state is a [`storage::Ledger`]. A command that is refused
//! leaves the ledger as it found it. What each command does is written as a
//! function on the ledger's view (`..._outcome`), and the command's contract
//! says that it does just that.

/// Calls into other crates, with the contracts that are taken on trust.
pub mod adapters;
/// Conservation of the funds in custody.
pub mod conservation;
/// The entry points, which route messages.
pub mod contract;
/// The reasons for which a call is refused.
pub mod error;
/// The commands.
pub mod execute;
/// Subscriptions to transfers on a remote chain.
pub mod interchain_queries;
/// What holds of the rules over all states and inputs.
pub mod laws;
/// Messages and answers.
pub mod msg;
/// The questions.
pub mod query;
/// The records and the ledger.
pub mod storage;
/// The notifications of the chain.
pub mod sudo;
/// Keyed tables.
pub mod table;
/// A subscription registered on request.
pub mod temp;
/// The parts of a remote transaction that are read.
pub mod tx;
/// Helpers.
pub mod utils;
