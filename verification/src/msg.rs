//! Messages that the ledger's entry points take and the answers they give.

use crate::error::ContractError;
use crate::interchain_queries::{TransfersQuery, TransfersQueryView};
use crate::storage::{
    AcknowledgementResult, Application, ApplicationView, CustodyFunds, Expiration, GoodFee,
    GoodFeeView, ProjectFunding, ProjectFundingView,
};
use crate::table::Stored;
use vstd::prelude::*;

verus! {

/// Sent when the ledger is migrated; carries nothing.
#[derive(Clone, Debug, PartialEq, Eq)]
pub struct MigrateMsg {}

/// Sent when the ledger is created; carries nothing.
#[derive(Clone, Debug, PartialEq, Eq)]
pub struct InstantiateMsg {}

/// An amount of one token.
#[derive(Clone, Debug, PartialEq, Eq)]
pub struct Coin {
    pub denom: String,
    pub amount: u128,
}

/// A `Coin` as contracts speak of it.
pub struct CoinView {
    pub denom: Seq<char>,
    pub amount: u128,
}

impl View for Coin {
    type V = CoinView;

    open spec fn view(&self) -> CoinView {
        CoinView { denom: self.denom@, amount: self.amount }
    }
}

impl DeepView for Coin {
    type V = CoinView;

    open spec fn deep_view(&self) -> CoinView {
        self@
    }
}

impl Stored for Coin {
    fn duplicate(&self) -> (r: Self) {
        Coin { denom: self.denom.clone(), amount: self.amount }
    }
}

/// The block in which a call runs.
#[derive(Clone, Copy, Debug, PartialEq, Eq)]
pub struct BlockInfo {
    pub height: u64,
    /// Block time in nanoseconds.
    pub time: u64,
}

/// The account of the ledger itself.
#[derive(Clone, Debug, PartialEq, Eq)]
pub struct ContractInfo {
    pub address: String,
}

/// Where and when a call runs.
#[derive(Clone, Debug, PartialEq, Eq)]
pub struct Env {
    pub block: BlockInfo,
    pub contract: ContractInfo,
}

/// Who calls, and the funds sent along.
#[derive(Clone, Debug, PartialEq, Eq)]
pub struct MessageInfo {
    pub sender: String,
    pub funds: Vec<Coin>,
}

/// A request that a call hands back for the chain to carry out.
#[derive(Clone, Debug, PartialEq, Eq)]
pub enum OutboundMsg {
    /// Register an interchain account over a connection.
    RegisterInterchainAccount { connection_id: String, interchain_account_id: String },
    /// Subscribe to transactions on a remote chain.
    RegisterInterchainQuery(TransfersQuery),
    /// Pay `amount` of `denom` out to `to_address`.
    Send { to_address: String, denom: String, amount: u128 },
}

/// An `OutboundMsg` as contracts speak of it.
pub enum OutboundMsgView {
    RegisterInterchainAccount { connection_id: Seq<char>, interchain_account_id: Seq<char> },
    RegisterInterchainQuery(TransfersQueryView),
    Send { to_address: Seq<char>, denom: Seq<char>, amount: u128 },
}

impl View for OutboundMsg {
    type V = OutboundMsgView;

    open spec fn view(&self) -> OutboundMsgView {
        match self {
            OutboundMsg::RegisterInterchainAccount { connection_id, interchain_account_id } => {
                OutboundMsgView::RegisterInterchainAccount {
                    connection_id: connection_id@,
                    interchain_account_id: interchain_account_id@,
                }
            },
            OutboundMsg::RegisterInterchainQuery(query) => {
                OutboundMsgView::RegisterInterchainQuery(query@)
            },
            OutboundMsg::Send { to_address, denom, amount } => OutboundMsgView::Send {
                to_address: to_address@,
                denom: denom@,
                amount: *amount,
            },
        }
    }
}

impl DeepView for OutboundMsg {
    type V = OutboundMsgView;

    open spec fn deep_view(&self) -> OutboundMsgView {
        self@
    }
}

/// What a successful call answers: the requests to carry out, in order.
#[derive(Clone, Debug, PartialEq, Eq)]
pub struct Response {
    pub messages: Vec<OutboundMsg>,
}

/// A `Response` as contracts speak of it.
pub struct ResponseView {
    pub messages: Seq<OutboundMsgView>,
}

impl View for Response {
    type V = ResponseView;

    open spec fn view(&self) -> ResponseView {
        ResponseView { messages: self.messages.deep_view() }
    }
}

impl DeepView for Response {
    type V = ResponseView;

    open spec fn deep_view(&self) -> ResponseView {
        self@
    }
}

impl ResponseView {
    /// The answer that asks for nothing.
    pub open spec fn empty() -> ResponseView {
        ResponseView { messages: Seq::empty() }
    }
}

impl Default for Response {
    fn default() -> (r: Self)
        ensures
            r@ == ResponseView::empty(),
    {
        let r = Response { messages: Vec::new() };
        assert(r.messages.deep_view() =~= Seq::<OutboundMsgView>::empty());
        r
    }
}

/// The result of a call on the ledger.
pub type NeutronResponse = Result<Response, ContractError>;

/// An application as its sender submits it.
#[derive(Clone, Debug, PartialEq, Eq)]
pub struct ApplicationSubmission {
    pub applicants: Vec<GoodFee>,
    pub auditors: Vec<GoodFee>,
    pub deliver_by: Expiration,
}

/// An `ApplicationSubmission` as contracts speak of it.
pub struct ApplicationSubmissionView {
    pub applicants: Seq<GoodFeeView>,
    pub auditors: Seq<GoodFeeView>,
    pub deliver_by: Expiration,
}

impl View for ApplicationSubmission {
    type V = ApplicationSubmissionView;

    open spec fn view(&self) -> ApplicationSubmissionView {
        ApplicationSubmissionView {
            applicants: self.applicants.deep_view(),
            auditors: self.auditors.deep_view(),
            deliver_by: self.deliver_by,
        }
    }
}

impl DeepView for ApplicationSubmission {
    type V = ApplicationSubmissionView;

    open spec fn deep_view(&self) -> ApplicationSubmissionView {
        self@
    }
}

/// A proposal with its funding and the applications made for it.
#[derive(Clone, Debug, PartialEq, Eq)]
pub struct FullProposalInfo {
    pub id: u64,
    pub title: String,
    pub description: String,
    pub funding: Vec<(String, ProjectFunding)>,
    pub applications: Vec<(String, Application)>,
}

/// A `FullProposalInfo` as contracts speak of it.
pub struct FullProposalInfoView {
    pub id: u64,
    pub title: Seq<char>,
    pub description: Seq<char>,
    pub funding: Seq<(Seq<char>, ProjectFundingView)>,
    pub applications: Seq<(Seq<char>, ApplicationView)>,
}

impl View for FullProposalInfo {
    type V = FullProposalInfoView;

    open spec fn view(&self) -> FullProposalInfoView {
        FullProposalInfoView {
            id: self.id,
            title: self.title@,
            description: self.description@,
            funding: self.funding.deep_view(),
            applications: self.applications.deep_view(),
        }
    }
}

impl DeepView for FullProposalInfo {
    type V = FullProposalInfoView;

    open spec fn deep_view(&self) -> FullProposalInfoView {
        self@
    }
}

/// Every proposal, each with its funding and applications.
#[derive(Clone, Debug, PartialEq, Eq)]
pub struct AllProposalResponse {
    pub proposals: Vec<FullProposalInfo>,
}

impl View for AllProposalResponse {
    type V = Seq<FullProposalInfoView>;

    open spec fn view(&self) -> Seq<FullProposalInfoView> {
        self.proposals.deep_view()
    }
}

/// A command on the ledger.
#[derive(Clone, Debug, PartialEq, Eq)]
pub enum ExecuteMsg {
    SubmitProposal { title: String, description: String },
    SubmitApplication { proposal_id: u64, application: ApplicationSubmission },
    FundProposal { proposal_id: u64, auto_agree: Option<bool> },
    RegisterICA { proposal_id: u64, connection_id: String },
    ApproveApplication { proposal_id: u64, application_sender: String },
    AcceptApplication { proposal_id: u64, application_sender: String },
    VerifyApplication { proposal_id: u64, application_sender: String, stop_at: Option<u64> },
    WithdrawFunds {},
    TempRegister {
        connection_id: String,
        recipient: String,
        update_period: u64,
        min_height: Option<u64>,
    },
}

/// A question that the ledger answers from what it holds.
#[derive(Clone, Debug, PartialEq, Eq)]
pub enum QueryMsg {
    AllProposals {},
    Proposal { proposal_id: u64 },
    AddressFunds { address: String, skip_locked: Option<bool> },
    InterchainAccountAddressFromContract { proposal_id: u64 },
    AcknowledgementResult { sequence_id: u64, proposal_id: u64 },
    ErrorsQueue {},
}

/// The ledger's answer to a question.
#[derive(Debug, PartialEq, Eq)]
pub enum QueryResponse {
    AllProposals(AllProposalResponse),
    Proposal(FullProposalInfo),
    AddressFunds(Vec<(String, CustodyFunds)>),
    InterchainAccountAddress { address: String, connection_id: String },
    AcknowledgementResult(Option<AcknowledgementResult>),
    ErrorsQueue(Vec<(Vec<u8>, String)>),
}

} // verus!
