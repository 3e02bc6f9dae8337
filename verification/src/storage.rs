//! The ledger's records and tables.

use crate::conservation::{
    conserved, counts_for, held_for, lemma_held_nothing, lemma_held_prefix, received,
};
use crate::error::ContractError;
use crate::table::{distinct_keys, lookup, put, Key, Stored, Table};
use vstd::prelude::*;

verus! {

/// What is staged for an outbound message until its outcome arrives.
#[derive(Clone, Debug, PartialEq, Eq)]
pub struct SudoPayload {
    pub message: String,
    pub port_id: String,
}

/// A `SudoPayload` as contracts speak of it.
pub struct SudoPayloadView {
    pub message: Seq<char>,
    pub port_id: Seq<char>,
}

impl View for SudoPayload {
    type V = SudoPayloadView;

    open spec fn view(&self) -> SudoPayloadView {
        SudoPayloadView { message: self.message@, port_id: self.port_id@ }
    }
}

impl DeepView for SudoPayload {
    type V = SudoPayloadView;

    open spec fn deep_view(&self) -> SudoPayloadView {
        self@
    }
}

impl Stored for SudoPayload {
    fn duplicate(&self) -> (r: Self) {
        SudoPayload { message: self.message.clone(), port_id: self.port_id.clone() }
    }
}

/// A shareholder of an application and the percentage of the payout owed
/// to it.
#[derive(Clone, Debug, PartialEq, Eq)]
pub struct GoodFee {
    pub recipient: String,
    pub percent_share: u8,
}

/// A `GoodFee` as contracts speak of it.
pub struct GoodFeeView {
    pub recipient: Seq<char>,
    pub percent_share: u8,
}

impl View for GoodFee {
    type V = GoodFeeView;

    open spec fn view(&self) -> GoodFeeView {
        GoodFeeView { recipient: self.recipient@, percent_share: self.percent_share }
    }
}

impl DeepView for GoodFee {
    type V = GoodFeeView;

    open spec fn deep_view(&self) -> GoodFeeView {
        self@
    }
}

impl Stored for GoodFee {
    fn duplicate(&self) -> (r: Self) {
        GoodFee { recipient: self.recipient.clone(), percent_share: self.percent_share }
    }
}

/// What a proposal has received in one token, over all depositors.
#[derive(Clone, Debug, PartialEq, Eq)]
pub struct ProjectFunding {
    /// The account that deposited last.
    pub sender: String,
    pub amount: u128,
    pub auto_agree: bool,
    pub native: bool,
}

/// A `ProjectFunding` as contracts speak of it.
pub struct ProjectFundingView {
    pub sender: Seq<char>,
    pub amount: u128,
    pub auto_agree: bool,
    pub native: bool,
}

impl View for ProjectFunding {
    type V = ProjectFundingView;

    open spec fn view(&self) -> ProjectFundingView {
        ProjectFundingView {
            sender: self.sender@,
            amount: self.amount,
            auto_agree: self.auto_agree,
            native: self.native,
        }
    }
}

impl DeepView for ProjectFunding {
    type V = ProjectFundingView;

    open spec fn deep_view(&self) -> ProjectFundingView {
        self@
    }
}

impl Stored for ProjectFunding {
    fn duplicate(&self) -> (r: Self) {
        ProjectFunding {
            sender: self.sender.clone(),
            amount: self.amount,
            auto_agree: self.auto_agree,
            native: self.native,
        }
    }
}

impl ProjectFundingView {
    /// The funding of a token that nobody has deposited yet.
    pub open spec fn empty() -> ProjectFundingView {
        ProjectFundingView { sender: Seq::empty(), amount: 0, auto_agree: false, native: true }
    }
}

impl Default for ProjectFunding {
    fn default() -> (r: Self)
        ensures
            r@ == ProjectFundingView::empty(),
    {
        ProjectFunding { sender: String::new(), amount: 0, auto_agree: false, native: true }
    }
}

/// Funds held for an account in one token.
#[derive(Clone, Debug, PartialEq, Eq)]
pub struct CustodyFunds {
    pub amount: u128,
    pub proposal_id: u64,
    pub locked: bool,
    /// The port through which the funds arrived, for funds of a remote chain.
    pub remote: Option<String>,
}

/// A `CustodyFunds` as contracts speak of it.
pub struct CustodyFundsView {
    pub amount: u128,
    pub proposal_id: u64,
    pub locked: bool,
    pub remote: Option<Seq<char>>,
}

impl View for CustodyFunds {
    type V = CustodyFundsView;

    open spec fn view(&self) -> CustodyFundsView {
        CustodyFundsView {
            amount: self.amount,
            proposal_id: self.proposal_id,
            locked: self.locked,
            remote: self.remote.deep_view(),
        }
    }
}

impl DeepView for CustodyFunds {
    type V = CustodyFundsView;

    open spec fn deep_view(&self) -> CustodyFundsView {
        self@
    }
}

impl Stored for CustodyFunds {
    fn duplicate(&self) -> (r: Self) {
        CustodyFunds {
            amount: self.amount,
            proposal_id: self.proposal_id,
            locked: self.locked,
            remote: self.remote.duplicate(),
        }
    }
}

/// A proposal that can be funded and applied for.
#[derive(Clone, Debug, PartialEq, Eq)]
pub struct Proposal {
    pub title: String,
    pub description: String,
    pub funding: Vec<ProjectFunding>,
}

/// A `Proposal` as contracts speak of it.
pub struct ProposalView {
    pub title: Seq<char>,
    pub description: Seq<char>,
    pub funding: Seq<ProjectFundingView>,
}

impl View for Proposal {
    type V = ProposalView;

    open spec fn view(&self) -> ProposalView {
        ProposalView {
            title: self.title@,
            description: self.description@,
            funding: self.funding.deep_view(),
        }
    }
}

impl DeepView for Proposal {
    type V = ProposalView;

    open spec fn deep_view(&self) -> ProposalView {
        self@
    }
}

impl Stored for Proposal {
    fn duplicate(&self) -> (r: Self) {
        Proposal {
            title: self.title.clone(),
            description: self.description.clone(),
            funding: self.funding.duplicate(),
        }
    }
}

/// The point at which an application's delivery is due.
#[derive(Clone, Copy, Debug, PartialEq, Eq, Structural)]
pub enum Expiration {
    /// Due once the block height has reached this height.
    AtHeight(u64),
    /// Due once the block time has reached this time, in nanoseconds.
    AtTime(u64),
    /// Never due.
    Never,
}

impl View for Expiration {
    type V = Expiration;

    open spec fn view(&self) -> Expiration {
        *self
    }
}

impl DeepView for Expiration {
    type V = Expiration;

    open spec fn deep_view(&self) -> Expiration {
        *self
    }
}

impl Stored for Expiration {
    fn duplicate(&self) -> (r: Self) {
        *self
    }
}

impl Expiration {
    /// Whether the point is reached in a block of the given height and time.
    pub open spec fn expired_at(self, height: u64, time: u64) -> bool {
        match self {
            Expiration::AtHeight(h) => height >= h,
            Expiration::AtTime(t) => time >= t,
            Expiration::Never => false,
        }
    }

    /// Whether the point is reached in a block of the given height and time.
    pub fn is_expired(&self, height: u64, time: u64) -> (b: bool)
        ensures
            b == self.expired_at(height, time),
    {
        match self {
            Expiration::AtHeight(h) => height >= *h,
            Expiration::AtTime(t) => time >= *t,
            Expiration::Never => false,
        }
    }
}

/// A claim on a proposal's funds: who is paid, who audits, and by when.
#[derive(Clone, Debug, PartialEq, Eq)]
pub struct Application {
    pub applicants: Vec<GoodFee>,
    pub auditors: Vec<GoodFee>,
    pub deliver_by: Expiration,
    pub accepted: bool,
    pub verifications: Vec<String>,
}

/// An `Application` as contracts speak of it.
pub struct ApplicationView {
    pub applicants: Seq<GoodFeeView>,
    pub auditors: Seq<GoodFeeView>,
    pub deliver_by: Expiration,
    pub accepted: bool,
    pub verifications: Seq<Seq<char>>,
}

impl View for Application {
    type V = ApplicationView;

    open spec fn view(&self) -> ApplicationView {
        ApplicationView {
            applicants: self.applicants.deep_view(),
            auditors: self.auditors.deep_view(),
            deliver_by: self.deliver_by,
            accepted: self.accepted,
            verifications: self.verifications.deep_view(),
        }
    }
}

impl DeepView for Application {
    type V = ApplicationView;

    open spec fn deep_view(&self) -> ApplicationView {
        self@
    }
}

impl Stored for Application {
    fn duplicate(&self) -> (r: Self) {
        Application {
            applicants: self.applicants.duplicate(),
            auditors: self.auditors.duplicate(),
            deliver_by: self.deliver_by,
            accepted: self.accepted,
            verifications: self.verifications.duplicate(),
        }
    }
}

impl Application {
    /// Whether the application keeps the rule on shareholders.
    pub fn is_wf(&self) -> (b: bool)
        ensures
            b == self@.wf(),
    {
        valid_shares(&self.applicants, &self.auditors) && check_verifications(
            &self.auditors,
            &self.verifications,
        )
    }
}

/// Adds up the percentages of at most 100 shareholders.
fn sum_shares(fees: &Vec<GoodFee>) -> (sum: u32)
    requires
        fees@.len() <= 100,
    ensures
        sum == share_total(fees.deep_view()),
        sum <= 255 * fees@.len(),
{
    let mut sum: u32 = 0;
    let mut i: usize = 0;
    let ghost all = fees.deep_view();
    while i < fees.len()
        invariant
            all == fees.deep_view(),
            i <= fees@.len(),
            fees@.len() <= 100,
            sum == share_total(all.take(i as int)),
            sum <= 255 * i,
        decreases fees@.len() - i,
    {
        assert(all.take(i + 1).drop_last() =~= all.take(i as int));
        let share: u32 = fees[i].percent_share.into();
        sum = sum + share;
        i += 1;
    }
    assert(all.take(fees@.len() as int) =~= all);
    sum
}

/// The percentages of two lists of shareholders, one after the other, add
/// up to the sum of the two lists' sums.
pub proof fn lemma_share_total_concat(a: Seq<GoodFeeView>, b: Seq<GoodFeeView>)
    ensures
        share_total(a + b) == share_total(a) + share_total(b),
    decreases b.len(),
{
    if b.len() > 0 {
        assert((a + b).drop_last() =~= a + b.drop_last());
        lemma_share_total_concat(a, b.drop_last());
    }
}

/// Whether two lists of shareholders keep the rule on shareholders.
pub fn valid_shares(applicants: &Vec<GoodFee>, auditors: &Vec<GoodFee>) -> (b: bool)
    ensures
        b == valid_shareholders(applicants.deep_view(), auditors.deep_view()),
{
    if applicants.len() == 0 || auditors.len() == 0 {
        return false;
    }
    if applicants.len() > 100 || auditors.len() > 100 || applicants.len() + auditors.len() > 100 {
        return false;
    }
    proof {
        lemma_share_total_concat(applicants.deep_view(), auditors.deep_view());
    }
    sum_shares(applicants) + sum_shares(auditors) == 100
}

/// The sum of the percentages of a list of shareholders.
pub open spec fn share_total(fees: Seq<GoodFeeView>) -> nat
    decreases fees.len(),
{
    if fees.len() == 0 {
        0
    } else {
        share_total(fees.drop_last()) + fees.last().percent_share as nat
    }
}

/// The rule on an application's shareholders: both lists hold someone, there
/// are at most 100 shareholders, and their percentages add up to 100.
pub open spec fn valid_shareholders(
    applicants: Seq<GoodFeeView>,
    auditors: Seq<GoodFeeView>,
) -> bool {
    &&& applicants.len() > 0
    &&& auditors.len() > 0
    &&& applicants.len() + auditors.len() <= 100
    &&& share_total(applicants + auditors) == 100
}

/// Some entry of `fees` names `who`.
pub open spec fn names(fees: Seq<GoodFeeView>, who: Seq<char>) -> bool {
    exists|i: int| 0 <= i < fees.len() && (#[trigger] fees[i]).recipient == who
}

/// Whether some entry of `fees` names `who`.
pub fn is_named(fees: &Vec<GoodFee>, who: &String) -> (b: bool)
    ensures
        b == names(fees.deep_view(), who@),
{
    let mut i: usize = 0;
    while i < fees.len()
        invariant
            i <= fees@.len(),
            forall|j: int| 0 <= j < i ==> (#[trigger] fees.deep_view()[j]).recipient != who@,
        decreases fees@.len() - i,
    {
        if fees[i].recipient.same_as(who) {
            assert(fees.deep_view()[i as int].recipient == who@);
            return true;
        }
        i += 1;
    }
    false
}

/// Whether `who` is among `accounts`.
pub fn is_listed(accounts: &Vec<String>, who: &String) -> (b: bool)
    ensures
        b == accounts.deep_view().contains(who@),
{
    let mut i: usize = 0;
    while i < accounts.len()
        invariant
            i <= accounts@.len(),
            forall|j: int| 0 <= j < i ==> (#[trigger] accounts.deep_view()[j]) != who@,
        decreases accounts@.len() - i,
    {
        if accounts[i].same_as(who) {
            assert(accounts.deep_view()[i as int] == who@);
            return true;
        }
        i += 1;
    }
    false
}

/// The rule on an application's verifications: each is by one of the
/// auditors, and none is there twice.
pub open spec fn valid_verifications(
    auditors: Seq<GoodFeeView>,
    verifications: Seq<Seq<char>>,
) -> bool {
    &&& forall|i: int|
        0 <= i < verifications.len() ==> names(auditors, #[trigger] verifications[i])
    &&& forall|i: int, j: int|
        0 <= i < j < verifications.len() ==> #[trigger] verifications[i]
            != #[trigger] verifications[j]
}

/// Whether the verifications keep their rule.
pub fn check_verifications(auditors: &Vec<GoodFee>, verifications: &Vec<String>) -> (b: bool)
    ensures
        b == valid_verifications(auditors.deep_view(), verifications.deep_view()),
{
    let ghost all = verifications.deep_view();
    let mut i: usize = 0;
    while i < verifications.len()
        invariant
            all == verifications.deep_view(),
            i <= verifications@.len(),
            forall|k: int| 0 <= k < i ==> names(auditors.deep_view(), #[trigger] all[k]),
            forall|a: int, b: int| 0 <= a < b < i ==> #[trigger] all[a] != #[trigger] all[b],
        decreases verifications@.len() - i,
    {
        if !is_named(auditors, &verifications[i]) {
            assert(!names(auditors.deep_view(), all[i as int]));
            return false;
        }
        let mut j: usize = 0;
        while j < i
            invariant
                all == verifications.deep_view(),
                i < verifications@.len(),
                j <= i,
                forall|a: int| 0 <= a < j ==> #[trigger] all[a] != all[i as int],
            decreases i - j,
        {
            if verifications[j].same_as(&verifications[i]) {
                assert(all[j as int] == all[i as int]);
                return false;
            }
            j += 1;
        }
        i += 1;
    }
    true
}

impl ApplicationView {
    /// The shareholders in payout order: applicants, then auditors.
    pub open spec fn shareholders(self) -> Seq<GoodFeeView> {
        self.applicants + self.auditors
    }

    /// The application's invariant: the rules on its shareholders and on its
    /// verifications.
    pub open spec fn wf(self) -> bool {
        &&& valid_shareholders(self.applicants, self.auditors)
        &&& valid_verifications(self.auditors, self.verifications)
    }
}

/// Completors and auditors of a proposal, with their shares.
#[derive(Clone, Debug, PartialEq, Eq)]
pub struct Configuration {
    pub completors: Vec<GoodFee>,
    pub auditors: Vec<GoodFee>,
}

/// A bank transfer seen in a remote transaction.
#[derive(Clone, Debug, PartialEq, Eq)]
pub struct Transfer {
    pub recipient: String,
    pub sender: String,
    pub denom: String,
    pub amount: String,
}

/// A `Transfer` as contracts speak of it.
pub struct TransferView {
    pub recipient: Seq<char>,
    pub sender: Seq<char>,
    pub denom: Seq<char>,
    pub amount: Seq<char>,
}

impl View for Transfer {
    type V = TransferView;

    open spec fn view(&self) -> TransferView {
        TransferView {
            recipient: self.recipient@,
            sender: self.sender@,
            denom: self.denom@,
            amount: self.amount@,
        }
    }
}

impl DeepView for Transfer {
    type V = TransferView;

    open spec fn deep_view(&self) -> TransferView {
        self@
    }
}

/// The recorded outcome of an outbound message.
#[derive(Debug, PartialEq, Eq)]
pub enum AcknowledgementResult {
    /// Acknowledged; holds the type of each message item.
    Success(Vec<String>),
    /// Failed; holds the staged message and the error details.
    Error((String, String)),
    /// Timed out; holds the staged message.
    Timeout(String),
}

/// An `AcknowledgementResult` as contracts speak of it.
pub enum AcknowledgementResultView {
    Success(Seq<Seq<char>>),
    Error((Seq<char>, Seq<char>)),
    Timeout(Seq<char>),
}

impl View for AcknowledgementResult {
    type V = AcknowledgementResultView;

    open spec fn view(&self) -> AcknowledgementResultView {
        match self {
            AcknowledgementResult::Success(items) => AcknowledgementResultView::Success(
                items.deep_view(),
            ),
            AcknowledgementResult::Error(e) => AcknowledgementResultView::Error((e.0@, e.1@)),
            AcknowledgementResult::Timeout(m) => AcknowledgementResultView::Timeout(m@),
        }
    }
}

impl DeepView for AcknowledgementResult {
    type V = AcknowledgementResultView;

    open spec fn deep_view(&self) -> AcknowledgementResultView {
        self@
    }
}

impl Stored for AcknowledgementResult {
    fn duplicate(&self) -> (r: Self) {
        match self {
            AcknowledgementResult::Success(items) => AcknowledgementResult::Success(
                items.duplicate(),
            ),
            AcknowledgementResult::Error(e) => AcknowledgementResult::Error(
                (e.0.clone(), e.1.clone()),
            ),
            AcknowledgementResult::Timeout(m) => AcknowledgementResult::Timeout(m.clone()),
        }
    }
}

impl Clone for AcknowledgementResult {
    fn clone(&self) -> (r: Self)
        ensures
            r@ == self@,
    {
        self.duplicate()
    }
}

/// Marker kept for funds that are locked; carries nothing.
#[derive(Clone, Debug, PartialEq, Eq)]
pub struct LockedFunds {}

/// How often, in blocks, a transfer subscription is refreshed.
pub const DEFAULT_UPDATE_PERIOD: u64 = 6;

/// The reply identifier under which submissions are staged.
pub const SUDO_PAYLOAD_REPLY_ID: u64 = 1;

/// The most diagnostics that the queue holds: one for each index that 32
/// bits can write, from 0 to 2^32 - 1. A queue that holds that many is full,
/// and what is added to it is dropped.
pub const MAX_QUEUED_ERRORS: u64 = 0x1_0000_0000;

/// The whole state of the settlement core. Every table keeps its entries in
/// the order in which their keys were first stored; a value stored under a
/// key that is there already takes the place of the old one.
#[derive(Clone, Debug, PartialEq, Eq)]
pub struct Ledger {
    /// The identifier that the next proposal gets.
    pub proposal_index: u64,
    /// Proposals by identifier.
    pub proposals: Table<u64, Proposal>,
    /// Funding by proposal and token.
    pub proposal_funding: Table<(u64, String), ProjectFunding>,
    /// Applications by proposal and applicant.
    pub applications: Table<(u64, String), Application>,
    /// Funds committed to an application, by proposal, applicant and token.
    pub application_funding: Table<(u64, String, String), u128>,
    /// Funds in custody by account and token.
    pub custody_funds: Table<(String, String), CustodyFunds>,
    /// Interchain accounts by port: `None` while registration is pending,
    /// then the bound address and the connection.
    pub interchain_accounts: Table<String, Option<(String, String)>>,
    /// The proposal that a bound remote address collects for.
    pub address_to_proposal: Table<String, u64>,
    /// Digests of the remote transactions that were applied.
    pub processed_txs: Table<u64, bool>,
    /// The payload staged for the next reply.
    pub reply_payload: Option<SudoPayload>,
    /// Staged payloads by channel and sequence number.
    pub sudo_payloads: Table<(String, u64), SudoPayload>,
    /// Recorded outcomes by port and sequence number.
    pub acknowledgement_results: Table<(String, u64), AcknowledgementResult>,
    /// Diagnostics, oldest first; an entry's index is its position.
    pub errors_queue: Vec<String>,
}

/// A `Ledger` as contracts speak of it.
pub struct LedgerView {
    pub proposal_index: u64,
    pub proposals: Seq<(u64, ProposalView)>,
    pub proposal_funding: Seq<((u64, Seq<char>), ProjectFundingView)>,
    pub applications: Seq<((u64, Seq<char>), ApplicationView)>,
    pub application_funding: Seq<((u64, Seq<char>, Seq<char>), u128)>,
    pub custody_funds: Seq<((Seq<char>, Seq<char>), CustodyFundsView)>,
    pub interchain_accounts: Seq<(Seq<char>, Option<(Seq<char>, Seq<char>)>)>,
    pub address_to_proposal: Seq<(Seq<char>, u64)>,
    pub processed_txs: Seq<(u64, bool)>,
    pub reply_payload: Option<SudoPayloadView>,
    pub sudo_payloads: Seq<((Seq<char>, u64), SudoPayloadView)>,
    pub acknowledgement_results: Seq<((Seq<char>, u64), AcknowledgementResultView)>,
    pub errors_queue: Seq<Seq<char>>,
}

impl LedgerView {
    /// The ledger's invariant: no table holds a key twice, every stored
    /// application keeps the rules on its shareholders and verifications, and
    /// the diagnostic queue is within its limit, and funds are conserved:
    /// custody holds for no proposal more of a token than the proposal has
    /// received.
    pub open spec fn wf(self) -> bool {
        &&& distinct_keys(self.proposals)
        &&& distinct_keys(self.proposal_funding)
        &&& distinct_keys(self.applications)
        &&& distinct_keys(self.application_funding)
        &&& distinct_keys(self.custody_funds)
        &&& distinct_keys(self.interchain_accounts)
        &&& distinct_keys(self.address_to_proposal)
        &&& distinct_keys(self.processed_txs)
        &&& distinct_keys(self.sudo_payloads)
        &&& distinct_keys(self.acknowledgement_results)
        &&& self.errors_queue.len() <= MAX_QUEUED_ERRORS
        &&& conserved(self.custody_funds, self.proposal_funding)
        &&& forall|i: int|
            0 <= i < self.applications.len() ==> (#[trigger] self.applications[i]).1.wf()
    }

    /// The ledger before anything was stored.
    pub open spec fn empty() -> LedgerView {
        LedgerView {
            proposal_index: 0,
            proposals: Seq::empty(),
            proposal_funding: Seq::empty(),
            applications: Seq::empty(),
            application_funding: Seq::empty(),
            custody_funds: Seq::empty(),
            interchain_accounts: Seq::empty(),
            address_to_proposal: Seq::empty(),
            processed_txs: Seq::empty(),
            reply_payload: None,
            sudo_payloads: Seq::empty(),
            acknowledgement_results: Seq::empty(),
            errors_queue: Seq::empty(),
        }
    }
}

impl View for Ledger {
    type V = LedgerView;

    open spec fn view(&self) -> LedgerView {
        LedgerView {
            proposal_index: self.proposal_index,
            proposals: self.proposals@,
            proposal_funding: self.proposal_funding@,
            applications: self.applications@,
            application_funding: self.application_funding@,
            custody_funds: self.custody_funds@,
            interchain_accounts: self.interchain_accounts@,
            address_to_proposal: self.address_to_proposal@,
            processed_txs: self.processed_txs@,
            reply_payload: self.reply_payload.deep_view(),
            sudo_payloads: self.sudo_payloads@,
            acknowledgement_results: self.acknowledgement_results@,
            errors_queue: self.errors_queue.deep_view(),
        }
    }
}

impl DeepView for Ledger {
    type V = LedgerView;

    open spec fn deep_view(&self) -> LedgerView {
        self@
    }
}

impl Stored for Ledger {
    fn duplicate(&self) -> (r: Self) {
        Ledger {
            proposal_index: self.proposal_index,
            proposals: self.proposals.duplicate(),
            proposal_funding: self.proposal_funding.duplicate(),
            applications: self.applications.duplicate(),
            application_funding: self.application_funding.duplicate(),
            custody_funds: self.custody_funds.duplicate(),
            interchain_accounts: self.interchain_accounts.duplicate(),
            address_to_proposal: self.address_to_proposal.duplicate(),
            processed_txs: self.processed_txs.duplicate(),
            reply_payload: self.reply_payload.duplicate(),
            sudo_payloads: self.sudo_payloads.duplicate(),
            acknowledgement_results: self.acknowledgement_results.duplicate(),
            errors_queue: self.errors_queue.duplicate(),
        }
    }
}

impl Ledger {
    /// The ledger's invariant, which every call keeps.
    pub open spec fn wf(&self) -> bool {
        self@.wf()
    }

    /// Adds up what custody holds for a proposal in a token; `None` where the
    /// sum passes the largest amount that can be held.
    fn held_sum(&self, proposal_id: u64, token: &String) -> (r: Option<u128>)
        ensures
            match r {
                Some(sum) => sum == held_for(self@.custody_funds, proposal_id, token@),
                None => held_for(self@.custody_funds, proposal_id, token@) > u128::MAX,
            },
    {
        let ghost custody = self@.custody_funds;
        let mut sum: u128 = 0;
        let mut i: usize = 0;
        while i < self.custody_funds.len()
            invariant
                custody == self@.custody_funds,
                i <= custody.len(),
                sum == held_for(custody.take(i as int), proposal_id, token@),
            decreases custody.len() - i,
        {
            let key = self.custody_funds.key_at(i);
            let value = self.custody_funds.value_at(i);
            assert(custody.take(i + 1).drop_last() =~= custody.take(i as int));
            assert(custody.take(i + 1).last() == custody[i as int]);
            if value.proposal_id == proposal_id && key.1.same_as(token) {
                if sum > u128::MAX - value.amount {
                    proof {
                        lemma_held_prefix(custody, i + 1, proposal_id, token@);
                    }
                    return None;
                }
                sum = sum + value.amount;
            }
            i += 1;
        }
        assert(custody.take(custody.len() as int) =~= custody);
        Some(sum)
    }

    /// Whether funds are conserved.
    fn is_conserved(&self) -> (b: bool)
        requires
            self.proposal_funding.wf(),
        ensures
            b == conserved(self@.custody_funds, self@.proposal_funding),
    {
        let ghost custody = self@.custody_funds;
        let ghost funding = self@.proposal_funding;
        let mut i: usize = 0;
        while i < self.custody_funds.len()
            invariant
                self.proposal_funding.wf(),
                custody == self@.custody_funds,
                funding == self@.proposal_funding,
                i <= custody.len(),
                forall|k: int|
                    0 <= k < i ==> held_for(
                        custody,
                        (#[trigger] custody[k]).1.proposal_id,
                        custody[k].0.1,
                    ) <= received(funding, custody[k].1.proposal_id, custody[k].0.1),
            decreases custody.len() - i,
        {
            let key = self.custody_funds.key_at(i);
            let value = self.custody_funds.value_at(i);
            let had = match self.proposal_funding.get(&(value.proposal_id, key.1.clone())) {
                Some(f) => f.amount,
                None => 0,
            };
            match self.held_sum(value.proposal_id, &key.1) {
                None => {
                    assert(held_for(custody, value.proposal_id, key.1@) > received(
                        funding,
                        value.proposal_id,
                        key.1@,
                    ));
                    return false;
                },
                Some(sum) => {
                    if sum > had {
                        assert(held_for(custody, value.proposal_id, key.1@) > received(
                            funding,
                            value.proposal_id,
                            key.1@,
                        ));
                        return false;
                    }
                },
            }
            i += 1;
        }
        assert forall|p: u64, t: Seq<char>| #[trigger]
            held_for(custody, p, t) <= received(funding, p, t) by {
            if exists|k: int|
                0 <= k < custody.len() && counts_for(#[trigger] custody[k], p, t) != 0 {
                let k = choose|k: int|
                    0 <= k < custody.len() && counts_for(#[trigger] custody[k], p, t) != 0;
                assert(custody[k].1.proposal_id == p && custody[k].0.1 == t);
            } else {
                lemma_held_nothing(custody, p, t);
            }
        }
        true
    }

    /// Whether the ledger keeps its invariant. A ledger that was put together
    /// from stored parts is to pass this test before it is used.
    pub fn is_wf(&self) -> (b: bool)
        ensures
            b == self.wf(),
    {
        if !(self.proposals.is_wf() && self.proposal_funding.is_wf() && self.applications.is_wf()
            && self.application_funding.is_wf() && self.custody_funds.is_wf()
            && self.interchain_accounts.is_wf() && self.address_to_proposal.is_wf()
            && self.processed_txs.is_wf() && self.sudo_payloads.is_wf()
            && self.acknowledgement_results.is_wf()) {
            return false;
        }
        if self.errors_queue.len() as u64 > MAX_QUEUED_ERRORS {
            return false;
        }
        if !self.is_conserved() {
            return false;
        }
        let mut i: usize = 0;
        while i < self.applications.len()
            invariant
                i <= self@.applications.len(),
                forall|j: int| 0 <= j < i ==> (#[trigger] self@.applications[j]).1.wf(),
            decreases self@.applications.len() - i,
        {
            if !self.applications.value_at(i).is_wf() {
                return false;
            }
            i += 1;
        }
        true
    }

    /// An empty ledger.
    pub fn new() -> (ledger: Self)
        ensures
            ledger.wf(),
            ledger@ == LedgerView::empty(),
    {
        let ledger = Ledger {
            proposal_index: 0,
            proposals: Table::new(),
            proposal_funding: Table::new(),
            applications: Table::new(),
            application_funding: Table::new(),
            custody_funds: Table::new(),
            interchain_accounts: Table::new(),
            address_to_proposal: Table::new(),
            processed_txs: Table::new(),
            reply_payload: None,
            sudo_payloads: Table::new(),
            acknowledgement_results: Table::new(),
            errors_queue: Vec::new(),
        };
        assert(ledger.errors_queue.deep_view() =~= Seq::<Seq<char>>::empty());
        ledger
    }
}

/// Stages `payload` for the next reply, in place of what was staged.
pub fn save_reply_payload(ledger: &mut Ledger, payload: SudoPayload)
    requires
        old(ledger).wf(),
    ensures
        final(ledger).wf(),
        final(ledger)@ == (LedgerView { reply_payload: Some(payload@), ..old(ledger)@ }),
{
    ledger.reply_payload = Some(payload);
}

/// The payload staged for the next reply.
pub fn read_reply_payload(ledger: &Ledger) -> (r: Result<SudoPayload, ContractError>)
    ensures
        match ledger@.reply_payload {
            Some(payload) => r is Ok && r->Ok_0@ == payload,
            None => r is Err && r->Err_0 == ContractError::NoReplyPayload,
        },
{
    match &ledger.reply_payload {
        Some(payload) => Ok(payload.duplicate()),
        None => Err(ContractError::NoReplyPayload),
    }
}

/// A queue after a diagnostic was added at its end; a full queue stays as it
/// is.
pub open spec fn enqueued(queue: Seq<Seq<char>>, error_msg: Seq<char>) -> Seq<Seq<char>> {
    if queue.len() < MAX_QUEUED_ERRORS {
        queue.push(error_msg)
    } else {
        queue
    }
}

/// Appends a diagnostic to the queue under the next index. Answers `None`,
/// and adds nothing, where the queue is full: no 32-bit index is left for
/// another entry.
pub fn add_error_to_queue(ledger: &mut Ledger, error_msg: String) -> (r: Option<()>)
    requires
        old(ledger).wf(),
    ensures
        final(ledger).wf(),
        r is Some <==> old(ledger)@.errors_queue.len() < MAX_QUEUED_ERRORS,
        final(ledger)@ == (LedgerView {
            errors_queue: enqueued(old(ledger)@.errors_queue, error_msg@),
            ..old(ledger)@
        }),
{
    if ledger.errors_queue.len() as u64 >= MAX_QUEUED_ERRORS {
        return None;
    }
    let ghost before = ledger.errors_queue.deep_view();
    ledger.errors_queue.push(error_msg);
    assert(ledger.errors_queue.deep_view() =~= before.push(error_msg@));
    Some(())
}

/// A 32-bit index as four bytes, the most significant first.
pub open spec fn index_bytes(index: int) -> Seq<u8> {
    seq![
        (index / 0x100_0000 % 0x100) as u8,
        (index / 0x1_0000 % 0x100) as u8,
        (index / 0x100 % 0x100) as u8,
        (index % 0x100) as u8,
    ]
}

/// The queue's entries, each with its index as four bytes.
pub open spec fn indexed_errors(queue: Seq<Seq<char>>) -> Seq<(Seq<u8>, Seq<char>)> {
    Seq::new(queue.len(), |i: int| (index_bytes(i), queue[i]))
}

/// Writes a 32-bit index as four bytes, the most significant first.
fn index_to_bytes(index: usize) -> (bytes: Vec<u8>)
    requires
        index <= 0xffff_ffff,
    ensures
        bytes@ == index_bytes(index as int),
{
    let mut bytes: Vec<u8> = Vec::new();
    bytes.push((index / 0x100_0000 % 0x100) as u8);
    bytes.push((index / 0x1_0000 % 0x100) as u8);
    bytes.push((index / 0x100 % 0x100) as u8);
    bytes.push((index % 0x100) as u8);
    bytes
}

/// Lists the diagnostics, oldest first, each with its index as four bytes.
pub fn read_errors_from_queue(ledger: &Ledger) -> (r: Vec<(Vec<u8>, String)>)
    requires
        ledger.wf(),
    ensures
        r.deep_view() == indexed_errors(ledger@.errors_queue),
{
    let mut out: Vec<(Vec<u8>, String)> = Vec::new();
    let mut i: usize = 0;
    while i < ledger.errors_queue.len()
        invariant
            ledger.errors_queue@.len() <= MAX_QUEUED_ERRORS,
            i <= ledger.errors_queue@.len(),
            out@.len() == i,
            forall|j: int|
                0 <= j < i ==> (#[trigger] out@[j]).deep_view() == (
                    index_bytes(j),
                    ledger@.errors_queue[j],
                ),
        decreases ledger.errors_queue@.len() - i,
    {
        let entry = (index_to_bytes(i), ledger.errors_queue[i].clone());
        out.push(entry);
        i += 1;
    }
    out
}

/// The payload staged under a channel and sequence number.
pub fn read_sudo_payload(ledger: &Ledger, channel_id: String, seq_id: u64) -> (r: Result<
    SudoPayload,
    ContractError,
>)
    requires
        ledger.wf(),
    ensures
        match lookup(ledger@.sudo_payloads, (channel_id@, seq_id)) {
            Some(payload) => r is Ok && r->Ok_0@ == payload,
            None => r is Err && r->Err_0 == ContractError::SudoPayloadNotFound,
        },
{
    match ledger.sudo_payloads.get(&(channel_id, seq_id)) {
        Some(payload) => Ok(payload.duplicate()),
        None => Err(ContractError::SudoPayloadNotFound),
    }
}

/// Stages `payload` under a channel and sequence number, in place of what
/// was staged there.
pub fn save_sudo_payload(ledger: &mut Ledger, channel_id: String, seq_id: u64, payload: SudoPayload)
    requires
        old(ledger).wf(),
    ensures
        final(ledger).wf(),
        final(ledger)@ == (LedgerView {
            sudo_payloads: put(old(ledger)@.sudo_payloads, (channel_id@, seq_id), payload@),
            ..old(ledger)@
        }),
{
    ledger.sudo_payloads.insert((channel_id, seq_id), payload);
}

} // verus!
