//! The ledger's entry points: each hands a message to the command,
//! question or notification that the message names.

use crate::adapters::{decimal, port_of};
use crate::error::ContractError;
use crate::execute::{
    accept_application, accept_outcome, answers, approve_application, approve_outcome,
    fund_native_outcome, fund_proposal_native, quiet, register_ica, register_ica_outcome,
    settles, submit_application, submit_application_outcome, submit_proposal,
    submit_proposal_outcome, verify_application, verify_outcome, withdraw_funds,
    withdraw_outcome, Effect,
};
use crate::msg::{
    Env, ExecuteMsg, MessageInfo, NeutronResponse, QueryMsg, QueryResponse, Response,
};
use crate::query::{
    address_funds, all_infos, full_info, query_acknowledgement_result, query_address_funds,
    query_all_proposals, query_errors_queue, query_interchain_address_contract, query_proposal,
};
use crate::storage::{indexed_errors, Ledger, LedgerView, SUDO_PAYLOAD_REPLY_ID};
use crate::sudo::{
    failure_outcome, open_ack_outcome, prepare_outcome, prepare_sudo_payload, sudo_error,
    sudo_open_ack, sudo_timeout, sudo_tx_query_result, tx_query_outcome, Reply, SudoMsg,
};
use crate::table::lookup;
use crate::temp::{register_transfers_query, transfers_query_request};
use vstd::prelude::*;

verus! {

/// What a command does, sent by `info.sender` with `info.funds` in the
/// block and to the contract that `env` names.
pub open spec fn execute_outcome(
    l: LedgerView,
    env: Env,
    info: MessageInfo,
    msg: ExecuteMsg,
) -> Result<Effect, ContractError> {
    match msg {
        ExecuteMsg::SubmitProposal { title, description } => quiet(
            submit_proposal_outcome(l, title@, description@),
        ),
        ExecuteMsg::SubmitApplication { proposal_id, application } => quiet(
            submit_application_outcome(
                l,
                env.block.height,
                env.block.time,
                info.sender@,
                proposal_id,
                application@,
            ),
        ),
        ExecuteMsg::FundProposal { proposal_id, auto_agree } => quiet(
            fund_native_outcome(
                l,
                info.sender@,
                info.funds.deep_view(),
                proposal_id,
                auto_agree.unwrap_or(false),
            ),
        ),
        ExecuteMsg::RegisterICA { proposal_id, connection_id } => register_ica_outcome(
            l,
            env.contract.address@,
            connection_id@,
            proposal_id,
        ),
        ExecuteMsg::ApproveApplication { proposal_id, application_sender } => quiet(
            approve_outcome(l, info.sender@, proposal_id, application_sender@),
        ),
        ExecuteMsg::AcceptApplication { proposal_id, application_sender } => quiet(
            accept_outcome(l, info.sender@, proposal_id, application_sender@),
        ),
        ExecuteMsg::VerifyApplication { proposal_id, application_sender, stop_at } => quiet(
            verify_outcome(l, info.sender@, proposal_id, application_sender@),
        ),
        ExecuteMsg::WithdrawFunds {} => withdraw_outcome(l, info.sender@),
        ExecuteMsg::TempRegister { connection_id, recipient, update_period, min_height } => Ok(
            (l, transfers_query_request(connection_id@, recipient@, update_period, min_height)),
        ),
    }
}

/// Carries out a command.
pub fn execute(ledger: &mut Ledger, env: Env, info: MessageInfo, msg: ExecuteMsg) -> (r:
    NeutronResponse)
    requires
        old(ledger).wf(),
    ensures
        final(ledger).wf(),
        answers(execute_outcome(old(ledger)@, env, info, msg), r, old(ledger)@, final(ledger)@),
{
    match msg {
        ExecuteMsg::SubmitProposal { title, description } => {
            submit_proposal(ledger, title, description)
        },
        ExecuteMsg::SubmitApplication { proposal_id, application } => {
            submit_application(ledger, env, info.sender, proposal_id, application)
        },
        ExecuteMsg::FundProposal { proposal_id, auto_agree } => {
            fund_proposal_native(ledger, info, proposal_id, auto_agree)
        },
        ExecuteMsg::RegisterICA { proposal_id, connection_id } => {
            register_ica(ledger, env, connection_id, proposal_id)
        },
        ExecuteMsg::ApproveApplication { proposal_id, application_sender } => {
            approve_application(ledger, &info.sender, proposal_id, application_sender)
        },
        ExecuteMsg::AcceptApplication { proposal_id, application_sender } => {
            accept_application(ledger, info.sender, proposal_id, application_sender)
        },
        ExecuteMsg::VerifyApplication { proposal_id, application_sender, stop_at: _ } => {
            verify_application(ledger, info.sender, proposal_id, application_sender)
        },
        ExecuteMsg::WithdrawFunds {} => withdraw_funds(ledger, info.sender),
        ExecuteMsg::TempRegister { connection_id, recipient, update_period, min_height } => {
            register_transfers_query(connection_id, recipient, update_period, min_height)
        },
    }
}

/// Whether `r` is the ledger's answer to a question put to the contract at
/// `contract_address`.
pub open spec fn query_answer(
    l: LedgerView,
    contract_address: Seq<char>,
    msg: QueryMsg,
    r: Result<QueryResponse, ContractError>,
) -> bool {
    match msg {
        QueryMsg::AllProposals {} => r matches Ok(QueryResponse::AllProposals(all)) && all@
            == all_infos(l, l.proposals),
        QueryMsg::Proposal { proposal_id } => match lookup(l.proposals, proposal_id) {
            Some(proposal) => r matches Ok(QueryResponse::Proposal(info)) && info@ == full_info(
                l,
                proposal_id,
                proposal,
            ),
            None => r matches Err(e) && e == ContractError::ProposalNotFound,
        },
        QueryMsg::AddressFunds { address, skip_locked } => r matches Ok(
            QueryResponse::AddressFunds(funds),
        ) && funds.deep_view() == address_funds(
            l.custody_funds,
            address@,
            skip_locked.unwrap_or(false),
        ),
        QueryMsg::InterchainAccountAddressFromContract { proposal_id } => match lookup(
            l.interchain_accounts,
            port_of(contract_address, decimal(proposal_id as nat)),
        ) {
            Some(Some(bound)) => r matches Ok(
                QueryResponse::InterchainAccountAddress { address, connection_id },
            ) && address@ == bound.0 && connection_id@ == bound.1,
            Some(None) => r matches Err(e) && e == ContractError::InterchainAccountNotCreated,
            None => r matches Err(e) && e == ContractError::InterchainAccountNotFound,
        },
        QueryMsg::AcknowledgementResult { sequence_id, proposal_id } => r matches Ok(
            QueryResponse::AcknowledgementResult(result),
        ) && result.deep_view() == lookup(
            l.acknowledgement_results,
            (port_of(contract_address, decimal(proposal_id as nat)), sequence_id),
        ),
        QueryMsg::ErrorsQueue {} => r matches Ok(QueryResponse::ErrorsQueue(errors))
            && errors.deep_view() == indexed_errors(l.errors_queue),
    }
}

/// Answers a question.
pub fn query(ledger: &Ledger, env: Env, msg: QueryMsg) -> (r: Result<QueryResponse, ContractError>)
    requires
        ledger.wf(),
    ensures
        query_answer(ledger@, env.contract.address@, msg, r),
{
    match msg {
        QueryMsg::AllProposals {} => Ok(QueryResponse::AllProposals(query_all_proposals(ledger))),
        QueryMsg::Proposal { proposal_id } => match query_proposal(ledger, proposal_id) {
            Ok(info) => Ok(QueryResponse::Proposal(info)),
            Err(e) => Err(e),
        },
        QueryMsg::AddressFunds { address, skip_locked } => {
            let skip = match skip_locked {
                Some(b) => b,
                None => false,
            };
            Ok(QueryResponse::AddressFunds(query_address_funds(ledger, &address, skip)))
        },
        QueryMsg::InterchainAccountAddressFromContract { proposal_id } => {
            match query_interchain_address_contract(ledger, env, proposal_id) {
                Ok(bound) => Ok(
                    QueryResponse::InterchainAccountAddress {
                        address: bound.0,
                        connection_id: bound.1,
                    },
                ),
                Err(e) => Err(e),
            }
        },
        QueryMsg::AcknowledgementResult { sequence_id, proposal_id } => Ok(
            QueryResponse::AcknowledgementResult(
                query_acknowledgement_result(ledger, env, sequence_id, proposal_id),
            ),
        ),
        QueryMsg::ErrorsQueue {} => Ok(QueryResponse::ErrorsQueue(query_errors_queue(ledger))),
    }
}

/// What a notification does. The ledger takes note of opened channels, of
/// confirmed transactions and of failed and timed-out messages; any other
/// notification changes nothing and succeeds.
pub open spec fn sudo_outcome(l: LedgerView, env: Env, msg: SudoMsg) -> Result<
    Effect,
    ContractError,
> {
    match msg {
        SudoMsg::OpenAck {
            port_id,
            channel_id,
            counterparty_channel_id,
            counterparty_version,
        } => open_ack_outcome(l, env.block.height, port_id@, counterparty_version.deep_view()),
        SudoMsg::TxQueryResult { transactions_filter, data } => quiet(
            tx_query_outcome(l, env.contract.address@, transactions_filter@, data@),
        ),
        SudoMsg::Error { request, details } => quiet(
            failure_outcome(
                l,
                request.sequence,
                request.source_channel.deep_view(),
                Some(details@),
            ),
        ),
        SudoMsg::Timeout { request } => quiet(
            failure_outcome(l, request.sequence, request.source_channel.deep_view(), None),
        ),
        SudoMsg::Response { request, data } => Ok((l, Seq::empty())),
        SudoMsg::KVQueryResult { query_id } => Ok((l, Seq::empty())),
    }
}

/// Takes note of a notification.
pub fn sudo(ledger: &mut Ledger, env: Env, msg: SudoMsg) -> (r: NeutronResponse)
    requires
        old(ledger).wf(),
    ensures
        final(ledger).wf(),
        answers(sudo_outcome(old(ledger)@, env, msg), r, old(ledger)@, final(ledger)@),
{
    match msg {
        SudoMsg::OpenAck {
            port_id,
            channel_id,
            counterparty_channel_id,
            counterparty_version,
        } => sudo_open_ack(
            ledger,
            env,
            port_id,
            channel_id,
            counterparty_channel_id,
            counterparty_version,
        ),
        SudoMsg::TxQueryResult { transactions_filter, data } => {
            sudo_tx_query_result(ledger, env, transactions_filter, data)
        },
        SudoMsg::Error { request, details } => sudo_error(ledger, request, details),
        SudoMsg::Timeout { request } => sudo_timeout(ledger, request),
        _ => Ok(Response::default()),
    }
}

/// What a reply of the chain does. The only replies that the ledger expects
/// are those to its submissions; any other is refused.
pub open spec fn reply_outcome(l: LedgerView, msg: Reply) -> Result<LedgerView, ContractError> {
    if msg.id == SUDO_PAYLOAD_REPLY_ID {
        prepare_outcome(l, msg.returned())
    } else {
        Err(ContractError::UnsupportedReplyId)
    }
}

/// Handles a reply of the chain.
pub fn reply(ledger: &mut Ledger, env: Env, msg: Reply) -> (r: NeutronResponse)
    requires
        old(ledger).wf(),
    ensures
        final(ledger).wf(),
        settles(reply_outcome(old(ledger)@, msg), r, old(ledger)@, final(ledger)@),
{
    if msg.id == SUDO_PAYLOAD_REPLY_ID {
        prepare_sudo_payload(ledger, env, msg)
    } else {
        Err(ContractError::UnsupportedReplyId)
    }
}

} // verus!
