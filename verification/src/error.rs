//! The ways in which a call on the ledger can fail.

use vstd::prelude::*;

verus! {

/// Why a call was refused. A refused call leaves the ledger as it was.
#[derive(Clone, Copy, Debug, PartialEq, Eq, Structural)]
pub enum ContractError {
    /// The application breaks the rule on shareholders or on the deadline.
    InvalidApplication,
    /// The caller holds no unlocked funds of the proposal to vote with.
    CantVote,
    /// The caller may not act on this application.
    NonAuthorized,
    /// The auditor has verified this application before.
    AlreadyVerified,
    /// The caller holds no unlocked funds to withdraw.
    NoFunds,
    /// No proposal is stored under the identifier.
    ProposalNotFound,
    /// No application is stored for the proposal and applicant.
    ApplicationNotFound,
    /// The proposal has no funding record for the token.
    ProposalFundingNotFound,
    /// A depositor's custody record is missing.
    CustodyFundsNotFound,
    /// An application's funding record is missing.
    ApplicationFundsNotFound,
    /// An amount or an index would pass the largest value that can be held.
    Overflow,
    /// The account holds funds in the token that are locked or belong to
    /// another proposal, so that nothing can be added to them.
    CustodyConflict,
    /// The request packet names no sequence number.
    SequenceNotFound,
    /// The request packet names no source channel.
    ChannelNotFound,
    /// An outcome is already recorded for this port and sequence number.
    DuplicateAcknowledgement,
    /// No payload is staged for the reply.
    NoReplyPayload,
    /// No payload is staged under the channel and sequence number.
    SudoPayloadNotFound,
    /// The submission failed.
    SubmissionFailed,
    /// The reply carries no data.
    NoReplyResult,
    /// The reply's data is no submission response.
    InvalidReplyData,
    /// The reply's identifier is none that the ledger issues.
    UnsupportedReplyId,
    /// The counterparty's session descriptor could not be read.
    InvalidCounterpartyVersion,
    /// The port identifier names no proposal.
    InvalidPortId,
    /// The interchain account is registered but not bound yet.
    InterchainAccountNotCreated,
    /// No interchain account is registered for the proposal.
    InterchainAccountNotFound,
    /// The transaction or one of its messages could not be decoded.
    InvalidTransaction,
    /// The subscription's filter could not be read.
    InvalidTransactionFilter,
    /// No transfer of the transaction goes to the subscribed recipient.
    NoMatchingTransfer,
    /// A transfer's amount is no decimal number that can be held.
    InvalidTransferAmount,
    /// A transfer's amount is above the allowed maximum.
    TransferTooLarge,
}

} // verus!
