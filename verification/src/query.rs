//! The questions that the ledger answers.
//!
//! Every listing comes in table order: the order in which the keys were
//! first stored in the table, not the order of the keys themselves.

use crate::adapters::{decimal, get_port_id, port_of, u64_to_string};
use crate::error::ContractError;
use crate::msg::{AllProposalResponse, Env, FullProposalInfo, FullProposalInfoView};
use crate::storage::{
    indexed_errors, read_errors_from_queue, AcknowledgementResult, Application, ApplicationView,
    CustodyFunds, CustodyFundsView, Ledger, LedgerView, ProjectFunding, ProjectFundingView,
    ProposalView,
};
use crate::table::{lookup, Key, Stored};
use vstd::prelude::*;

verus! {

/// A funding table as the ledger's view holds it.
pub type FundingTable = Seq<((u64, Seq<char>), ProjectFundingView)>;

/// The funding of a proposal by token, in table order; with `only`, the
/// funding whose flag for automatic agreement has that value.
pub open spec fn proposal_funds(funding: FundingTable, proposal_id: u64, only: Option<bool>) -> Seq<
    (Seq<char>, ProjectFundingView),
>
    decreases funding.len(),
{
    if funding.len() == 0 {
        Seq::empty()
    } else {
        let e = funding.last();
        let before = proposal_funds(funding.drop_last(), proposal_id, only);
        if e.0.0 == proposal_id && (only is None || only == Some(e.1.auto_agree)) {
            before.push((e.0.1, e.1))
        } else {
            before
        }
    }
}

/// Lists the funding of a proposal by token; with `auto_agree_only`, the
/// funding whose flag for automatic agreement has that value.
pub fn query_proposal_funds(
    ledger: &Ledger,
    proposal_id: u64,
    auto_agree_only: Option<bool>,
) -> (funds: Vec<(String, ProjectFunding)>)
    ensures
        funds.deep_view() == proposal_funds(ledger@.proposal_funding, proposal_id, auto_agree_only),
{
    let mut funds: Vec<(String, ProjectFunding)> = Vec::new();
    let ghost table = ledger@.proposal_funding;
    let mut i: usize = 0;
    while i < ledger.proposal_funding.len()
        invariant
            table == ledger@.proposal_funding,
            i <= table.len(),
            funds.deep_view() == proposal_funds(table.take(i as int), proposal_id, auto_agree_only),
        decreases table.len() - i,
    {
        let key = ledger.proposal_funding.key_at(i);
        let value = ledger.proposal_funding.value_at(i);
        assert(table.take(i + 1).drop_last() =~= table.take(i as int));
        let wanted = match auto_agree_only {
            None => true,
            Some(flag) => value.auto_agree == flag,
        };
        if key.0 == proposal_id && wanted {
            let entry = (key.1.clone(), value.duplicate());
            funds.push(entry);
        }
        i += 1;
    }
    assert(table.take(table.len() as int) =~= table);
    funds
}

/// What a proposal has received in one token.
pub fn query_proposal_funds_token(ledger: &Ledger, proposal_id: u64, token: &String) -> (r: Result<
    u128,
    ContractError,
>)
    requires
        ledger.wf(),
    ensures
        match lookup(ledger@.proposal_funding, (proposal_id, token@)) {
            Some(f) => r == Ok::<u128, ContractError>(f.amount),
            None => r == Err::<u128, _>(ContractError::ProposalFundingNotFound),
        },
{
    match ledger.proposal_funding.get(&(proposal_id, token.clone())) {
        Some(f) => Ok(f.amount),
        None => Err(ContractError::ProposalFundingNotFound),
    }
}

/// The applications made for a proposal by applicant, in table order.
pub open spec fn proposal_applications(
    table: Seq<((u64, Seq<char>), ApplicationView)>,
    proposal_id: u64,
) -> Seq<(Seq<char>, ApplicationView)>
    decreases table.len(),
{
    if table.len() == 0 {
        Seq::empty()
    } else {
        let e = table.last();
        let before = proposal_applications(table.drop_last(), proposal_id);
        if e.0.0 == proposal_id {
            before.push((e.0.1, e.1))
        } else {
            before
        }
    }
}

/// Lists the applications made for a proposal.
pub fn query_proposal_applications(ledger: &Ledger, proposal_id: u64) -> (r: Vec<
    (String, Application),
>)
    ensures
        r.deep_view() == proposal_applications(ledger@.applications, proposal_id),
{
    let mut out: Vec<(String, Application)> = Vec::new();
    let ghost table = ledger@.applications;
    let mut i: usize = 0;
    while i < ledger.applications.len()
        invariant
            table == ledger@.applications,
            i <= table.len(),
            out.deep_view() == proposal_applications(table.take(i as int), proposal_id),
        decreases table.len() - i,
    {
        let key = ledger.applications.key_at(i);
        let value = ledger.applications.value_at(i);
        assert(table.take(i + 1).drop_last() =~= table.take(i as int));
        if key.0 == proposal_id {
            let entry = (key.1.clone(), value.duplicate());
            out.push(entry);
        }
        i += 1;
    }
    assert(table.take(table.len() as int) =~= table);
    out
}

/// A table of committed funds as the ledger's view holds it.
pub type CommittedTable = Seq<((u64, Seq<char>, Seq<char>), u128)>;

/// What is committed to an application, by token, in table order.
pub open spec fn application_funds(
    table: CommittedTable,
    proposal_id: u64,
    applicant: Seq<char>,
) -> Seq<(Seq<char>, u128)>
    decreases table.len(),
{
    if table.len() == 0 {
        Seq::empty()
    } else {
        let e = table.last();
        let before = application_funds(table.drop_last(), proposal_id, applicant);
        if e.0.0 == proposal_id && e.0.1 == applicant {
            before.push((e.0.2, e.1))
        } else {
            before
        }
    }
}

/// Lists what is committed to an application.
pub fn query_application_funds(
    ledger: &Ledger,
    proposal_id: u64,
    application_sender: &String,
) -> (funds: Vec<(String, u128)>)
    ensures
        funds.deep_view() == application_funds(
            ledger@.application_funding,
            proposal_id,
            application_sender@,
        ),
{
    let mut funds: Vec<(String, u128)> = Vec::new();
    let ghost table = ledger@.application_funding;
    let mut i: usize = 0;
    while i < ledger.application_funding.len()
        invariant
            table == ledger@.application_funding,
            i <= table.len(),
            funds.deep_view() == application_funds(
                table.take(i as int),
                proposal_id,
                application_sender@,
            ),
        decreases table.len() - i,
    {
        let key = ledger.application_funding.key_at(i);
        let value = ledger.application_funding.value_at(i);
        assert(table.take(i + 1).drop_last() =~= table.take(i as int));
        if key.0 == proposal_id && key.1.same_as(application_sender) {
            funds.push((key.2.clone(), *value));
        }
        i += 1;
    }
    assert(table.take(table.len() as int) =~= table);
    funds
}

/// What is committed to an application in one token.
pub fn query_application_funds_token(
    ledger: &Ledger,
    proposal_id: u64,
    application_sender: &String,
    token: &String,
) -> (r: Result<u128, ContractError>)
    requires
        ledger.wf(),
    ensures
        match lookup(ledger@.application_funding, (proposal_id, application_sender@, token@)) {
            Some(a) => r == Ok::<u128, ContractError>(a),
            None => r == Err::<u128, _>(ContractError::ApplicationFundsNotFound),
        },
{
    let key = (proposal_id, application_sender.clone(), token.clone());
    match ledger.application_funding.get(&key) {
        Some(a) => Ok(*a),
        None => Err(ContractError::ApplicationFundsNotFound),
    }
}

/// What an account holds in custody by token, in table order; with
/// `skip_locked`, only what is not locked.
pub open spec fn address_funds(
    custody: Seq<((Seq<char>, Seq<char>), CustodyFundsView)>,
    address: Seq<char>,
    skip_locked: bool,
) -> Seq<(Seq<char>, CustodyFundsView)>
    decreases custody.len(),
{
    if custody.len() == 0 {
        Seq::empty()
    } else {
        let e = custody.last();
        let before = address_funds(custody.drop_last(), address, skip_locked);
        if e.0.0 == address && !(skip_locked && e.1.locked) {
            before.push((e.0.1, e.1))
        } else {
            before
        }
    }
}

/// Lists what an account holds in custody; with `skip_locked`, only what is
/// not locked.
pub fn query_address_funds(ledger: &Ledger, address: &String, skip_locked: bool) -> (funds: Vec<
    (String, CustodyFunds),
>)
    ensures
        funds.deep_view() == address_funds(ledger@.custody_funds, address@, skip_locked),
{
    let mut funds: Vec<(String, CustodyFunds)> = Vec::new();
    let ghost table = ledger@.custody_funds;
    let mut i: usize = 0;
    while i < ledger.custody_funds.len()
        invariant
            table == ledger@.custody_funds,
            i <= table.len(),
            funds.deep_view() == address_funds(table.take(i as int), address@, skip_locked),
        decreases table.len() - i,
    {
        let key = ledger.custody_funds.key_at(i);
        let value = ledger.custody_funds.value_at(i);
        assert(table.take(i + 1).drop_last() =~= table.take(i as int));
        if key.0.same_as(address) && !(skip_locked && value.locked) {
            let entry = (key.1.clone(), value.duplicate());
            funds.push(entry);
        }
        i += 1;
    }
    assert(table.take(table.len() as int) =~= table);
    funds
}

/// A proposal with its funding and its applications.
pub open spec fn full_info(l: LedgerView, id: u64, proposal: ProposalView) -> FullProposalInfoView {
    FullProposalInfoView {
        id,
        title: proposal.title,
        description: proposal.description,
        funding: proposal_funds(l.proposal_funding, id, None),
        applications: proposal_applications(l.applications, id),
    }
}

/// Every proposal of `proposals` in full, in order.
pub open spec fn all_infos(l: LedgerView, proposals: Seq<(u64, ProposalView)>) -> Seq<
    FullProposalInfoView,
> {
    Seq::new(proposals.len(), |i: int| full_info(l, proposals[i].0, proposals[i].1))
}

/// Puts a proposal together with its funding and its applications.
fn get_proposal_full_info(ledger: &Ledger, id: u64, title: &String, description: &String) -> (r:
    FullProposalInfo)
    ensures
        r@ == (FullProposalInfoView {
            id,
            title: title@,
            description: description@,
            funding: proposal_funds(ledger@.proposal_funding, id, None),
            applications: proposal_applications(ledger@.applications, id),
        }),
{
    let funding = query_proposal_funds(ledger, id, None);
    let applications = query_proposal_applications(ledger, id);
    FullProposalInfo {
        id,
        title: title.clone(),
        description: description.clone(),
        funding,
        applications,
    }
}

/// Lists every proposal with its funding and its applications, in table
/// order.
pub fn query_all_proposals(ledger: &Ledger) -> (r: AllProposalResponse)
    ensures
        r@ == all_infos(ledger@, ledger@.proposals),
{
    let mut proposals: Vec<FullProposalInfo> = Vec::new();
    let mut i: usize = 0;
    while i < ledger.proposals.len()
        invariant
            i <= ledger@.proposals.len(),
            proposals@.len() == i,
            forall|j: int|
                0 <= j < i ==> (#[trigger] proposals@[j])@ == full_info(
                    ledger@,
                    ledger@.proposals[j].0,
                    ledger@.proposals[j].1,
                ),
        decreases ledger@.proposals.len() - i,
    {
        let id = *ledger.proposals.key_at(i);
        let proposal = ledger.proposals.value_at(i);
        proposals.push(get_proposal_full_info(ledger, id, &proposal.title, &proposal.description));
        i += 1;
    }
    let r = AllProposalResponse { proposals };
    r
}

/// One proposal with its funding and its applications.
pub fn query_proposal(ledger: &Ledger, proposal_id: u64) -> (r: Result<
    FullProposalInfo,
    ContractError,
>)
    requires
        ledger.wf(),
    ensures
        match lookup(ledger@.proposals, proposal_id) {
            Some(proposal) => r is Ok && r->Ok_0@ == full_info(ledger@, proposal_id, proposal),
            None => r is Err && r->Err_0 == ContractError::ProposalNotFound,
        },
{
    match ledger.proposals.get(&proposal_id) {
        Some(proposal) => Ok(
            get_proposal_full_info(ledger, proposal_id, &proposal.title, &proposal.description),
        ),
        None => Err(ContractError::ProposalNotFound),
    }
}

/// The address and the connection that the proposal's interchain account
/// is bound to.
pub fn get_ica(ledger: &Ledger, env: &Env, proposal_id: u64) -> (r: Result<
    (String, String),
    ContractError,
>)
    requires
        ledger.wf(),
    ensures
        match lookup(
            ledger@.interchain_accounts,
            port_of(env.contract.address@, decimal(proposal_id as nat)),
        ) {
            Some(Some(bound)) => r is Ok && r->Ok_0.deep_view() == bound,
            Some(None) => r is Err && r->Err_0 == ContractError::InterchainAccountNotCreated,
            None => r is Err && r->Err_0 == ContractError::InterchainAccountNotFound,
        },
{
    let key = get_port_id(&env.contract.address, &u64_to_string(proposal_id));
    match ledger.interchain_accounts.get(&key) {
        Some(Some(bound)) => Ok(bound.duplicate()),
        Some(None) => Err(ContractError::InterchainAccountNotCreated),
        None => Err(ContractError::InterchainAccountNotFound),
    }
}

/// The address and the connection that the proposal's interchain account
/// is bound to, as the ledger has noted them.
pub fn query_interchain_address_contract(ledger: &Ledger, env: Env, proposal_id: u64) -> (r: Result<
    (String, String),
    ContractError,
>)
    requires
        ledger.wf(),
    ensures
        match lookup(
            ledger@.interchain_accounts,
            port_of(env.contract.address@, decimal(proposal_id as nat)),
        ) {
            Some(Some(bound)) => r is Ok && r->Ok_0.deep_view() == bound,
            Some(None) => r is Err && r->Err_0 == ContractError::InterchainAccountNotCreated,
            None => r is Err && r->Err_0 == ContractError::InterchainAccountNotFound,
        },
{
    get_ica(ledger, &env, proposal_id)
}

/// The outcome recorded for a message that was sent through the proposal's
/// interchain account under a sequence number, if one is recorded.
pub fn query_acknowledgement_result(
    ledger: &Ledger,
    env: Env,
    sequence_id: u64,
    proposal_id: u64,
) -> (r: Option<AcknowledgementResult>)
    requires
        ledger.wf(),
    ensures
        r.deep_view() == lookup(
            ledger@.acknowledgement_results,
            (port_of(env.contract.address@, decimal(proposal_id as nat)), sequence_id),
        ),
{
    let port_id = get_port_id(&env.contract.address, &u64_to_string(proposal_id));
    match ledger.acknowledgement_results.get(&(port_id, sequence_id)) {
        Some(result) => Some(result.duplicate()),
        None => None,
    }
}

/// Lists the diagnostics, oldest first, each with its index as four bytes.
pub fn query_errors_queue(ledger: &Ledger) -> (r: Vec<(Vec<u8>, String)>)
    requires
        ledger.wf(),
    ensures
        r.deep_view() == indexed_errors(ledger@.errors_queue),
{
    read_errors_from_queue(ledger)
}

} // verus!
