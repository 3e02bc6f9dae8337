//! The notifications that reach the ledger from the chain: acknowledgements
//! of what it sent out, and transactions seen on a remote chain.

use crate::adapters::{
    decimal, decode_msg_send, decode_tx_body, decode_tx_raw, decoded_msg_send, decoded_tx_body,
    decoded_tx_raw, get_port_id, parse_submit_tx_response, parse_transaction_filter, parse_u128,
    parsed_number, parsed_submit_tx_response, parsed_transaction_filter, port_of, u64_to_string,
};
use crate::error::ContractError;
use crate::execute::{answers, applies, deposit, deposit_outcome, settles, Effect};
use crate::interchain_queries::{
    recipient_field, register_transfers_query_msg, transfers_filter, TransactionFilterItem,
    TransactionFilterItemView, TransactionFilterOp, TransactionFilterValue,
    TransactionFilterValueView, TransfersQueryView,
};
use crate::msg::{Env, NeutronResponse, OutboundMsg, OutboundMsgView, Response};
use crate::storage::{
    add_error_to_queue, enqueued, read_reply_payload, save_sudo_payload, AcknowledgementResult,
    AcknowledgementResultView, Ledger, LedgerView, Transfer, TransferView, DEFAULT_UPDATE_PERIOD,
};
use crate::table::{has_key, lookup, put, Key, Stored};
use crate::tx::{AnyView, MsgSend, MsgSendView, TxBody};
use crate::utils::{digest_of, hash_data};
use vstd::prelude::*;
use vstd::string::{StrSliceExecFns, StringExecFns};

verus! {

/// The session descriptor that the counterparty sends when an interchain
/// account's channel opens.
#[derive(Clone, Debug, PartialEq, Eq)]
pub struct OpenAckVersion {
    pub version: String,
    pub controller_connection_id: String,
    pub host_connection_id: String,
    pub address: String,
    pub encoding: String,
    pub tx_type: String,
}

/// An `OpenAckVersion` as contracts speak of it.
pub struct OpenAckVersionView {
    pub version: Seq<char>,
    pub controller_connection_id: Seq<char>,
    pub host_connection_id: Seq<char>,
    pub address: Seq<char>,
    pub encoding: Seq<char>,
    pub tx_type: Seq<char>,
}

impl View for OpenAckVersion {
    type V = OpenAckVersionView;

    open spec fn view(&self) -> OpenAckVersionView {
        OpenAckVersionView {
            version: self.version@,
            controller_connection_id: self.controller_connection_id@,
            host_connection_id: self.host_connection_id@,
            address: self.address@,
            encoding: self.encoding@,
            tx_type: self.tx_type@,
        }
    }
}

impl DeepView for OpenAckVersion {
    type V = OpenAckVersionView;

    open spec fn deep_view(&self) -> OpenAckVersionView {
        self@
    }
}

/// The index of the last dot of a text.
pub open spec fn last_dot(s: Seq<char>) -> Option<int>
    decreases s.len(),
{
    if s.len() == 0 {
        None
    } else if s.last() == '.' {
        Some(s.len() - 1)
    } else {
        last_dot(s.drop_last())
    }
}

/// The proposal that a port belongs to: the number written after the port's
/// last dot, where there is one that 64 bits can hold.
pub open spec fn proposal_of_port(port: Seq<char>) -> Option<u64> {
    match last_dot(port) {
        None => None,
        Some(d) => match parsed_number(port.skip(d + 1)) {
            Some(n) => if n <= u64::MAX {
                Some(n as u64)
            } else {
                None
            },
            None => None,
        },
    }
}

/// Reads the proposal's identifier off the end of a port identifier.
pub fn get_proposal_id(port_id: &str) -> (r: Option<u64>)
    ensures
        r == proposal_of_port(port_id@),
{
    let n = port_id.unicode_len();
    let mut i: usize = n;
    assert(port_id@.take(n as int) =~= port_id@);
    while i > 0
        invariant
            n == port_id@.len(),
            i <= n,
            last_dot(port_id@) == last_dot(port_id@.take(i as int)),
        decreases i,
    {
        assert(port_id@.take(i as int).drop_last() =~= port_id@.take(i - 1));
        if port_id.get_char(i - 1) == '.' {
            let tail = port_id.substring_char(i, n);
            return match parse_u128(tail) {
                Some(v) => if v <= 0xffff_ffff_ffff_ffff {
                    Some(v as u64)
                } else {
                    None
                },
                None => None,
            };
        }
        i -= 1;
    }
    None
}

/// What the opening of an interchain account's channel does, at a block
/// height. It is refused where the counterparty's descriptor could not be
/// read and where the port names no proposal. Otherwise the port is bound to
/// the descriptor's address and controller connection, the address is noted
/// as collecting for the port's proposal, and the answer asks for a
/// subscription, over the descriptor's host connection, to the transfers
/// that reach the address from that height on.
pub open spec fn open_ack_outcome(
    l: LedgerView,
    height: u64,
    port_id: Seq<char>,
    version: Option<OpenAckVersionView>,
) -> Result<Effect, ContractError> {
    match version {
        None => Err(ContractError::InvalidCounterpartyVersion),
        Some(v) => match proposal_of_port(port_id) {
            None => Err(ContractError::InvalidPortId),
            Some(proposal_id) => Ok(
                (
                    LedgerView {
                        interchain_accounts: put(
                            l.interchain_accounts,
                            port_id,
                            Some((v.address, v.controller_connection_id)),
                        ),
                        address_to_proposal: put(l.address_to_proposal, v.address, proposal_id),
                        ..l
                    },
                    seq![
                        OutboundMsgView::RegisterInterchainQuery(
                            TransfersQueryView {
                                filter: transfers_filter(v.address, Some(height)),
                                connection_id: v.host_connection_id,
                                update_period: DEFAULT_UPDATE_PERIOD,
                            },
                        ),
                    ],
                ),
            ),
        },
    }
}

/// Handles the opening of an interchain account's channel.
/// `counterparty_version` is the counterparty's session descriptor as read,
/// or `None` where it could not be read.
pub fn sudo_open_ack(
    ledger: &mut Ledger,
    env: Env,
    port_id: String,
    _channel_id: String,
    _counterparty_channel_id: String,
    counterparty_version: Option<OpenAckVersion>,
) -> (r: NeutronResponse)
    requires
        old(ledger).wf(),
    ensures
        final(ledger).wf(),
        answers(
            open_ack_outcome(
                old(ledger)@,
                env.block.height,
                port_id@,
                counterparty_version.deep_view(),
            ),
            r,
            old(ledger)@,
            final(ledger)@,
        ),
{
    let parsed_version = match counterparty_version {
        None => {
            return Err(ContractError::InvalidCounterpartyVersion);
        },
        Some(v) => v,
    };
    let proposal_id = match get_proposal_id(port_id.as_str()) {
        None => {
            return Err(ContractError::InvalidPortId);
        },
        Some(id) => id,
    };
    ledger.interchain_accounts.insert(
        port_id,
        Some((parsed_version.address.clone(), parsed_version.controller_connection_id.clone())),
    );
    ledger.address_to_proposal.insert(parsed_version.address.clone(), proposal_id);
    let query = OutboundMsg::RegisterInterchainQuery(
        register_transfers_query_msg(
            parsed_version.host_connection_id,
            parsed_version.address,
            DEFAULT_UPDATE_PERIOD,
            Some(env.block.height),
        ),
    );
    let mut messages: Vec<OutboundMsg> = Vec::new();
    messages.push(query);
    let response = Response { messages };
    assert(response@.messages =~= seq![query@]);
    Ok(response)
}

/// The packet whose outcome is reported. Of a packet the ledger reads the
/// sequence number and the channel it left through.
#[derive(Clone, Debug, PartialEq, Eq)]
pub struct RequestPacket {
    pub sequence: Option<u64>,
    pub source_channel: Option<String>,
}

/// The diagnostic that is queued where no payload is staged for an outcome.
pub open spec fn unread_payload_msg() -> Seq<char> {
    "WASMDEBUG: Error: Unable to read sudo payload"@
}

/// The record of a failed message: an error with its details, or a timeout.
pub open spec fn failure_of(
    message: Seq<char>,
    details: Option<Seq<char>>,
) -> AcknowledgementResultView {
    match details {
        Some(d) => AcknowledgementResultView::Error((message, d)),
        None => AcknowledgementResultView::Timeout(message),
    }
}

/// What the report of a failed message does. It is refused where the packet
/// names no sequence number or no channel. Where a payload is staged under
/// the channel and sequence number, the failure is recorded under the
/// payload's port and the sequence number, which is refused where an
/// outcome is recorded there already. Where none is staged, a diagnostic is
/// queued and the call succeeds; a queue that is full, with an entry under
/// every 32-bit index, stays as it is and the diagnostic is dropped.
pub open spec fn failure_outcome(
    l: LedgerView,
    sequence: Option<u64>,
    source_channel: Option<Seq<char>>,
    details: Option<Seq<char>>,
) -> Result<LedgerView, ContractError> {
    match sequence {
        None => Err(ContractError::SequenceNotFound),
        Some(seq_id) => match source_channel {
            None => Err(ContractError::ChannelNotFound),
            Some(channel_id) => match lookup(l.sudo_payloads, (channel_id, seq_id)) {
                Some(payload) => if has_key(l.acknowledgement_results, (payload.port_id, seq_id)) {
                    Err(ContractError::DuplicateAcknowledgement)
                } else {
                    Ok(
                        LedgerView {
                            acknowledgement_results: put(
                                l.acknowledgement_results,
                                (payload.port_id, seq_id),
                                failure_of(payload.message, details),
                            ),
                            ..l
                        },
                    )
                },
                None => Ok(
                    LedgerView {
                        errors_queue: enqueued(l.errors_queue, unread_payload_msg()),
                        ..l
                    },
                ),
            },
        },
    }
}

/// Records the failure of the message that `request` reports.
fn record_failure(ledger: &mut Ledger, request: RequestPacket, details: Option<String>) -> (r:
    NeutronResponse)
    requires
        old(ledger).wf(),
    ensures
        final(ledger).wf(),
        settles(
            failure_outcome(
                old(ledger)@,
                request.sequence,
                request.source_channel.deep_view(),
                details.deep_view(),
            ),
            r,
            old(ledger)@,
            final(ledger)@,
        ),
{
    let seq_id = match request.sequence {
        None => {
            return Err(ContractError::SequenceNotFound);
        },
        Some(seq_id) => seq_id,
    };
    let channel_id = match request.source_channel {
        None => {
            return Err(ContractError::ChannelNotFound);
        },
        Some(channel_id) => channel_id,
    };
    match ledger.sudo_payloads.get(&(channel_id, seq_id)) {
        Some(payload) => {
            let key = (payload.port_id.clone(), seq_id);
            if ledger.acknowledgement_results.contains(&key) {
                return Err(ContractError::DuplicateAcknowledgement);
            }
            let result = match details {
                Some(d) => AcknowledgementResult::Error((payload.message.clone(), d)),
                None => AcknowledgementResult::Timeout(payload.message.clone()),
            };
            ledger.acknowledgement_results.insert(key, result);
        },
        None => {
            let error_msg = String::from_str("WASMDEBUG: Error: Unable to read sudo payload");
            let _ = add_error_to_queue(ledger, error_msg);
        },
    }
    Ok(Response::default())
}

/// Handles the report that a message the ledger sent out has failed with
/// `details`.
pub fn sudo_error(ledger: &mut Ledger, request: RequestPacket, details: String) -> (r:
    NeutronResponse)
    requires
        old(ledger).wf(),
    ensures
        final(ledger).wf(),
        settles(
            failure_outcome(
                old(ledger)@,
                request.sequence,
                request.source_channel.deep_view(),
                Some(details@),
            ),
            r,
            old(ledger)@,
            final(ledger)@,
        ),
{
    record_failure(ledger, request, Some(details))
}

/// Handles the report that a message the ledger sent out has timed out.
pub fn sudo_timeout(ledger: &mut Ledger, request: RequestPacket) -> (r: NeutronResponse)
    requires
        old(ledger).wf(),
    ensures
        final(ledger).wf(),
        settles(
            failure_outcome(
                old(ledger)@,
                request.sequence,
                request.source_channel.deep_view(),
                None,
            ),
            r,
            old(ledger)@,
            final(ledger)@,
        ),
{
    record_failure(ledger, request, None)
}

/// The chain's reply to a submission: the data that the submission
/// returned, if any, or the text of its error.
#[derive(Debug, PartialEq, Eq)]
pub struct Reply {
    pub id: u64,
    pub result: Result<Option<Vec<u8>>, String>,
}

/// What a payload's move from the reply slot to its channel and sequence
/// number does, given what the submission returned: `Some` data, no data, or
/// `None` where the submission failed.
pub open spec fn prepare_outcome(l: LedgerView, returned: Option<Option<Seq<u8>>>) -> Result<
    LedgerView,
    ContractError,
> {
    match l.reply_payload {
        None => Err(ContractError::NoReplyPayload),
        Some(payload) => match returned {
            None => Err(ContractError::SubmissionFailed),
            Some(None) => Err(ContractError::NoReplyResult),
            Some(Some(data)) => match parsed_submit_tx_response(data) {
                None => Err(ContractError::InvalidReplyData),
                Some(response) => Ok(
                    LedgerView {
                        sudo_payloads: put(l.sudo_payloads, (response.1, response.0), payload),
                        ..l
                    },
                ),
            },
        },
    }
}

impl Reply {
    /// What the submission returned, or `None` where it failed.
    pub open spec fn returned(self) -> Option<Option<Seq<u8>>> {
        match self.result {
            Ok(Some(data)) => Some(Some(data@)),
            Ok(None) => Some(None),
            Err(_) => None,
        }
    }
}

/// Handles the chain's reply to a submission: the payload staged for the
/// reply is staged anew under the channel and sequence number that the
/// chain assigned.
pub fn prepare_sudo_payload(ledger: &mut Ledger, _env: Env, msg: Reply) -> (r: NeutronResponse)
    requires
        old(ledger).wf(),
    ensures
        final(ledger).wf(),
        settles(
            prepare_outcome(old(ledger)@, msg.returned()),
            r,
            old(ledger)@,
            final(ledger)@,
        ),
{
    let payload = match read_reply_payload(ledger) {
        Err(e) => {
            return Err(e);
        },
        Ok(payload) => payload,
    };
    let data = match msg.result {
        Err(_) => {
            return Err(ContractError::SubmissionFailed);
        },
        Ok(None) => {
            return Err(ContractError::NoReplyResult);
        },
        Ok(Some(data)) => data,
    };
    let (seq_id, channel_id) = match parse_submit_tx_response(&data) {
        Err(_) => {
            return Err(ContractError::InvalidReplyData);
        },
        Ok(response) => response,
    };
    save_sudo_payload(ledger, channel_id, seq_id, payload);
    Ok(Response::default())
}

/// The number of a transaction's messages that are looked at.
pub const MAX_ALLOWED_MESSAGES: usize = 20;

/// The largest amount that one transfer may bring.
pub const MAX_ALLOWED_TRANSFER: u128 = 0xffff_ffff_ffff_ffff_ffff_ffff_ffff_ffff;

/// The type of a bank send message.
pub open spec fn transfer_msg_url() -> Seq<char> {
    "/cosmos.bank.v1beta1.MsgSend"@
}

/// The recipient that a subscription's filter asks for: the text that the
/// first condition on the recipient field compares for equality with; the
/// empty text where that value is no text or there is no such condition.
pub open spec fn filter_recipient(items: Seq<TransactionFilterItemView>) -> Seq<char>
    decreases items.len(),
{
    if items.len() == 0 {
        Seq::empty()
    } else if items[0].field == recipient_field() && items[0].op == TransactionFilterOp::Eq {
        match items[0].value {
            TransactionFilterValueView::String(v) => v,
            TransactionFilterValueView::Int(_) => Seq::empty(),
        }
    } else {
        filter_recipient(items.drop_first())
    }
}

/// Finds the recipient that a subscription's filter asks for.
pub fn recipient_of_filter(items: &Vec<TransactionFilterItem>) -> (recipient: String)
    ensures
        recipient@ == filter_recipient(items.deep_view()),
{
    let field = String::from_str("transfer.recipient");
    let ghost all = items.deep_view();
    let mut i: usize = 0;
    assert(all.skip(0) =~= all);
    while i < items.len()
        invariant
            all == items.deep_view(),
            field@ == recipient_field(),
            i <= items@.len(),
            filter_recipient(all) == filter_recipient(all.skip(i as int)),
        decreases items@.len() - i,
    {
        assert(all.skip(i as int).drop_first() =~= all.skip(i + 1));
        if items[i].field.same_as(&field) && items[i].op == TransactionFilterOp::Eq {
            return match &items[i].value {
                TransactionFilterValue::String(v) => v.clone(),
                TransactionFilterValue::Int(_) => String::new(),
            };
        }
        i += 1;
    }
    String::new()
}

/// The deposits that a send message brings to `recipient`: one for each of
/// its coins where it is addressed to the recipient, none otherwise.
pub open spec fn send_deposits(send: MsgSendView, recipient: Seq<char>) -> Seq<TransferView> {
    if send.to_address == recipient {
        Seq::new(
            send.amount.len(),
            |i: int|
                TransferView {
                    recipient,
                    sender: send.from_address,
                    denom: send.amount[i].denom,
                    amount: send.amount[i].amount,
                },
        )
    } else {
        Seq::empty()
    }
}

/// The deposits that `messages` bring to `recipient`, in order. Messages
/// that are no bank send messages are passed over. `None` where a bank send
/// message cannot be decoded.
pub open spec fn message_deposits(messages: Seq<AnyView>, recipient: Seq<char>) -> Option<
    Seq<TransferView>,
>
    decreases messages.len(),
{
    if messages.len() == 0 {
        Some(Seq::empty())
    } else if messages[0].type_url != transfer_msg_url() {
        message_deposits(messages.drop_first(), recipient)
    } else {
        match decoded_msg_send(messages[0].value) {
            None => None,
            Some(send) => match message_deposits(messages.drop_first(), recipient) {
                None => None,
                Some(rest) => Some(send_deposits(send, recipient) + rest),
            },
        }
    }
}

/// The messages of a transaction that are looked at: the first
/// `MAX_ALLOWED_MESSAGES`.
pub open spec fn first_messages(messages: Seq<AnyView>) -> Seq<AnyView> {
    if messages.len() <= MAX_ALLOWED_MESSAGES {
        messages
    } else {
        messages.take(MAX_ALLOWED_MESSAGES as int)
    }
}

/// Appends the deposits that a send message brings to `recipient`.
fn push_send_deposits(deposits: &mut Vec<Transfer>, send: &MsgSend, recipient: &String)
    ensures
        final(deposits).deep_view() == old(deposits).deep_view() + send_deposits(
            send@,
            recipient@,
        ),
{
    let ghost start = deposits.deep_view();
    if !send.to_address.same_as(recipient) {
        return ;
    }
    let ghost all = send_deposits(send@, recipient@);
    let mut i: usize = 0;
    while i < send.amount.len()
        invariant
            i <= send.amount@.len(),
            all == send_deposits(send@, recipient@),
            all.len() == send.amount@.len(),
            send.to_address@ == recipient@,
            deposits.deep_view() == start + all.take(i as int),
        decreases send.amount@.len() - i,
    {
        let coin = &send.amount[i];
        let transfer = Transfer {
            sender: send.from_address.clone(),
            amount: coin.amount.clone(),
            denom: coin.denom.clone(),
            recipient: recipient.clone(),
        };
        let ghost prev = deposits.deep_view();
        deposits.push(transfer);
        assert(deposits.deep_view() =~= prev.push(transfer@));
        i += 1;
    }
}

/// Collects the deposits that the first messages of a transaction bring to
/// `recipient`.
pub fn recipient_deposits_from_tx_body(tx_body: &TxBody, recipient: &String) -> (r: Result<
    Vec<Transfer>,
    ContractError,
>)
    ensures
        match message_deposits(first_messages(tx_body@.messages), recipient@) {
            Some(deposits) => r is Ok && r->Ok_0.deep_view() == deposits,
            None => r is Err && r->Err_0 == ContractError::InvalidTransaction,
        },
{
    let url = String::from_str("/cosmos.bank.v1beta1.MsgSend");
    let mut deposits: Vec<Transfer> = Vec::new();
    let count = if tx_body.messages.len() <= MAX_ALLOWED_MESSAGES {
        tx_body.messages.len()
    } else {
        MAX_ALLOWED_MESSAGES
    };
    let ghost msgs = first_messages(tx_body@.messages);
    let mut i: usize = 0;
    assert(msgs.skip(0) =~= msgs);
    while i < count
        invariant
            msgs == first_messages(tx_body@.messages),
            count == msgs.len(),
            count <= tx_body.messages@.len(),
            url@ == transfer_msg_url(),
            i <= count,
            match message_deposits(msgs.skip(i as int), recipient@) {
                Some(rest) => message_deposits(msgs, recipient@) == Some(
                    deposits.deep_view() + rest,
                ),
                None => message_deposits(msgs, recipient@) is None,
            },
        decreases count - i,
    {
        let msg = &tx_body.messages[i];
        assert(msgs.skip(i as int).drop_first() =~= msgs.skip(i + 1));
        if msg.type_url.same_as(&url) {
            let send = match decode_msg_send(&msg.value) {
                Err(_) => {
                    return Err(ContractError::InvalidTransaction);
                },
                Ok(send) => send,
            };
            push_send_deposits(&mut deposits, &send, recipient);
        }
        i += 1;
    }
    Ok(deposits)
}

/// Whether every deposit's amount can be read and is at most `max`;
/// otherwise the fault of the first deposit that has one.
pub open spec fn sizes_within(deposits: Seq<TransferView>, max: u128) -> Result<(), ContractError>
    decreases deposits.len(),
{
    if deposits.len() == 0 {
        Ok(())
    } else {
        match parsed_number(deposits[0].amount) {
            None => Err(ContractError::InvalidTransferAmount),
            Some(amount) => if amount > max {
                Err(ContractError::TransferTooLarge)
            } else {
                sizes_within(deposits.drop_first(), max)
            },
        }
    }
}

/// Whether every deposit's amount can be read and is within the allowed
/// maximum; otherwise the fault of the first deposit that has one.
pub open spec fn sizes_outcome(deposits: Seq<TransferView>) -> Result<(), ContractError> {
    sizes_within(deposits, MAX_ALLOWED_TRANSFER)
}

/// Checks that every deposit's amount can be read and is at most `max`.
pub fn check_deposits_within(deposits: &Vec<Transfer>, max: u128) -> (r: Result<(), ContractError>)
    ensures
        r == sizes_within(deposits.deep_view(), max),
{
    let ghost all = deposits.deep_view();
    let mut i: usize = 0;
    assert(all.skip(0) =~= all);
    while i < deposits.len()
        invariant
            all == deposits.deep_view(),
            i <= deposits@.len(),
            sizes_within(all, max) == sizes_within(all.skip(i as int), max),
        decreases deposits@.len() - i,
    {
        assert(all.skip(i as int).drop_first() =~= all.skip(i + 1));
        match parse_u128(deposits[i].amount.as_str()) {
            Some(amount) => {
                if amount > max {
                    return Err(ContractError::TransferTooLarge);
                }
            },
            None => {
                return Err(ContractError::InvalidTransferAmount);
            },
        }
        i += 1;
    }
    Ok(())
}

/// Checks that every deposit's amount can be read and is within the allowed
/// maximum.
pub fn check_deposits_size(deposits: &Vec<Transfer>) -> (r: Result<(), ContractError>)
    ensures
        r == sizes_outcome(deposits.deep_view()),
{
    check_deposits_within(deposits, MAX_ALLOWED_TRANSFER)
}

/// Takes funds that arrived on a remote chain into custody for `sender`, as
/// funding of the proposal. The funds are tagged with the port of the
/// proposal's interchain account.
pub fn fund_proposal_remote(
    ledger: &mut Ledger,
    env: &Env,
    sender: &String,
    denom: &String,
    amount: u128,
    proposal_id: u64,
    auto_agree: bool,
) -> (r: Result<(), ContractError>)
    requires
        old(ledger).wf(),
    ensures
        final(ledger).wf(),
        applies(
            deposit_outcome(
                old(ledger)@,
                sender@,
                denom@,
                amount,
                proposal_id,
                auto_agree,
                Some(port_of(env.contract.address@, decimal(proposal_id as nat))),
            ),
            r,
            old(ledger)@,
            final(ledger)@,
        ),
{
    let port = get_port_id(&env.contract.address, &u64_to_string(proposal_id));
    deposit(ledger, sender, denom, amount, proposal_id, auto_agree, Some(port))
}

/// The ledger after each of `deposits` was credited in turn. A deposit whose
/// recipient collects for no proposal is passed over. The first deposit
/// whose amount cannot be read, or whose proposal's funding would overflow,
/// fails the whole.
pub open spec fn credit_all(
    l: LedgerView,
    contract_address: Seq<char>,
    deposits: Seq<TransferView>,
    auto_agree: bool,
) -> Result<LedgerView, ContractError>
    decreases deposits.len(),
{
    if deposits.len() == 0 {
        Ok(l)
    } else {
        let d = deposits[0];
        match lookup(l.address_to_proposal, d.recipient) {
            None => credit_all(l, contract_address, deposits.drop_first(), auto_agree),
            Some(proposal_id) => match parsed_number(d.amount) {
                None => Err(ContractError::InvalidTransferAmount),
                Some(amount) => match deposit_outcome(
                    l,
                    d.sender,
                    d.denom,
                    amount,
                    proposal_id,
                    auto_agree,
                    Some(port_of(contract_address, decimal(proposal_id as nat))),
                ) {
                    Err(e) => Err(e),
                    Ok(m) => credit_all(m, contract_address, deposits.drop_first(), auto_agree),
                },
            },
        }
    }
}

/// What the deposits of a remote transaction do, given the transaction's
/// digest. A transaction that was applied before changes nothing and
/// succeeds. A transaction without deposits is refused, and so is one with
/// a deposit whose amount cannot be read or is above the maximum. Otherwise
/// the deposits are credited in turn and the digest is noted as applied.
pub open spec fn remote_deposits_outcome(
    l: LedgerView,
    contract_address: Seq<char>,
    digest: u64,
    deposits: Seq<TransferView>,
    auto_agree: bool,
) -> Result<LedgerView, ContractError> {
    if has_key(l.processed_txs, digest) {
        Ok(l)
    } else if deposits.len() == 0 {
        Err(ContractError::NoMatchingTransfer)
    } else {
        match sizes_outcome(deposits) {
            Err(e) => Err(e),
            Ok(_) => match credit_all(l, contract_address, deposits, auto_agree) {
                Err(e) => Err(e),
                Ok(m) => Ok(LedgerView { processed_txs: put(m.processed_txs, digest, true), ..m }),
            },
        }
    }
}

/// Credits the deposits of a remote transaction whose body has the given
/// digest, once.
pub fn apply_remote_deposits(
    ledger: &mut Ledger,
    env: &Env,
    digest: u64,
    deposits: &Vec<Transfer>,
    auto_agree: bool,
) -> (r: NeutronResponse)
    requires
        old(ledger).wf(),
    ensures
        final(ledger).wf(),
        settles(
            remote_deposits_outcome(
                old(ledger)@,
                env.contract.address@,
                digest,
                deposits.deep_view(),
                auto_agree,
            ),
            r,
            old(ledger)@,
            final(ledger)@,
        ),
{
    if ledger.processed_txs.contains(&digest) {
        return Ok(Response::default());
    }
    if deposits.len() == 0 {
        return Err(ContractError::NoMatchingTransfer);
    }
    match check_deposits_size(deposits) {
        Err(e) => {
            return Err(e);
        },
        Ok(()) => {},
    }
    let saved = ledger.duplicate();
    let ghost start = ledger@;
    let ghost all = deposits.deep_view();
    let ghost contract = env.contract.address@;
    let mut i: usize = 0;
    assert(all.skip(0) =~= all);
    while i < deposits.len()
        invariant
            ledger.wf(),
            start.wf(),
            start == old(ledger)@,
            saved@ == start,
            all == deposits.deep_view(),
            contract == env.contract.address@,
            !has_key(start.processed_txs, digest),
            all.len() > 0,
            sizes_outcome(all) is Ok,
            ledger@.processed_txs == start.processed_txs,
            i <= deposits@.len(),
            credit_all(start, contract, all, auto_agree) == credit_all(
                ledger@,
                contract,
                all.skip(i as int),
                auto_agree,
            ),
        decreases deposits@.len() - i,
    {
        let deposit = &deposits[i];
        assert(all.skip(i as int).drop_first() =~= all.skip(i + 1));
        match ledger.address_to_proposal.get(&deposit.recipient) {
            None => {},
            Some(id) => {
                let proposal_id = *id;
                let amount = match parse_u128(deposit.amount.as_str()) {
                    None => {
                        *ledger = saved;
                        return Err(ContractError::InvalidTransferAmount);
                    },
                    Some(amount) => amount,
                };
                match fund_proposal_remote(
                    ledger,
                    env,
                    &deposit.sender,
                    &deposit.denom,
                    amount,
                    proposal_id,
                    auto_agree,
                ) {
                    Err(e) => {
                        *ledger = saved;
                        return Err(e);
                    },
                    Ok(()) => {},
                }
            },
        }
        i += 1;
    }
    ledger.processed_txs.insert(digest, true);
    Ok(Response::default())
}

/// What a confirmed remote transaction does, given its bytes and the text
/// of the subscription's filter. Bytes that hold no transaction are refused.
/// A transaction whose body was applied before changes nothing and
/// succeeds. Otherwise the filter must be readable, and the deposits that
/// the first messages bring to the filter's recipient are credited; with
/// the memo `auto_agree` they are flagged for automatic agreement.
pub open spec fn tx_query_outcome(
    l: LedgerView,
    contract_address: Seq<char>,
    transactions_filter: Seq<char>,
    data: Seq<u8>,
) -> Result<LedgerView, ContractError> {
    match decoded_tx_raw(data) {
        None => Err(ContractError::InvalidTransaction),
        Some(body_bytes) => match decoded_tx_body(body_bytes) {
            None => Err(ContractError::InvalidTransaction),
            Some(body) => if has_key(l.processed_txs, digest_of(body_bytes)) {
                Ok(l)
            } else {
                match parsed_transaction_filter(transactions_filter) {
                    None => Err(ContractError::InvalidTransactionFilter),
                    Some(items) => match message_deposits(
                        first_messages(body.messages),
                        filter_recipient(items),
                    ) {
                        None => Err(ContractError::InvalidTransaction),
                        Some(deposits) => remote_deposits_outcome(
                            l,
                            contract_address,
                            digest_of(body_bytes),
                            deposits,
                            body.memo == "auto_agree"@,
                        ),
                    },
                }
            },
        },
    }
}

/// Whether the transaction that `data` holds was applied before; bytes that
/// hold no transaction are refused.
pub open spec fn applied_before(l: LedgerView, data: Seq<u8>) -> Result<bool, ContractError> {
    match decoded_tx_raw(data) {
        None => Err(ContractError::InvalidTransaction),
        Some(body_bytes) => match decoded_tx_body(body_bytes) {
            None => Err(ContractError::InvalidTransaction),
            Some(_) => Ok(has_key(l.processed_txs, digest_of(body_bytes))),
        },
    }
}

/// Tells whether a confirmed remote transaction was applied before, so that
/// a repeated delivery can be answered without asking for its subscription.
pub fn is_applied(ledger: &Ledger, data: &Vec<u8>) -> (r: Result<bool, ContractError>)
    requires
        ledger.wf(),
    ensures
        r == applied_before(ledger@, data@),
{
    let body_bytes = match decode_tx_raw(data) {
        Err(_) => {
            return Err(ContractError::InvalidTransaction);
        },
        Ok(body_bytes) => body_bytes,
    };
    match decode_tx_body(&body_bytes) {
        Err(_) => Err(ContractError::InvalidTransaction),
        Ok(_) => Ok(ledger.processed_txs.contains(&hash_data(&body_bytes))),
    }
}

/// Handles a transaction that was confirmed on a remote chain for a
/// subscription. `transactions_filter` is the filter that the subscription
/// was registered with, and `data` the raw transaction.
pub fn sudo_tx_query_result(
    ledger: &mut Ledger,
    env: Env,
    transactions_filter: String,
    data: Vec<u8>,
) -> (r: NeutronResponse)
    requires
        old(ledger).wf(),
    ensures
        final(ledger).wf(),
        settles(
            tx_query_outcome(old(ledger)@, env.contract.address@, transactions_filter@, data@),
            r,
            old(ledger)@,
            final(ledger)@,
        ),
{
    let body_bytes = match decode_tx_raw(&data) {
        Err(_) => {
            return Err(ContractError::InvalidTransaction);
        },
        Ok(body_bytes) => body_bytes,
    };
    let body = match decode_tx_body(&body_bytes) {
        Err(_) => {
            return Err(ContractError::InvalidTransaction);
        },
        Ok(body) => body,
    };
    let digest = hash_data(&body_bytes);
    if ledger.processed_txs.contains(&digest) {
        return Ok(Response::default());
    }
    let auto_agree = body.memo.same_as(&String::from_str("auto_agree"));
    let query_data = match parse_transaction_filter(&transactions_filter) {
        Err(_) => {
            return Err(ContractError::InvalidTransactionFilter);
        },
        Ok(query_data) => query_data,
    };
    let recipient = recipient_of_filter(&query_data);
    let deposits = match recipient_deposits_from_tx_body(&body, &recipient) {
        Err(e) => {
            return Err(e);
        },
        Ok(deposits) => deposits,
    };
    apply_remote_deposits(ledger, &env, digest, &deposits, auto_agree)
}

/// A notification of the chain.
#[derive(Clone, Debug, PartialEq, Eq)]
pub enum SudoMsg {
    /// A message that the ledger sent out was acknowledged.
    Response { request: RequestPacket, data: Vec<u8> },
    /// A message that the ledger sent out has failed.
    Error { request: RequestPacket, details: String },
    /// A message that the ledger sent out has timed out.
    Timeout { request: RequestPacket },
    /// An interchain account's channel has opened. `counterparty_version` is
    /// the counterparty's session descriptor as read, or `None` where it
    /// could not be read.
    OpenAck {
        port_id: String,
        channel_id: String,
        counterparty_channel_id: String,
        counterparty_version: Option<OpenAckVersion>,
    },
    /// A transaction was confirmed on a remote chain for a subscription that
    /// was registered with `transactions_filter`.
    TxQueryResult { transactions_filter: String, data: Vec<u8> },
    /// A stored value was confirmed on a remote chain.
    KVQueryResult { query_id: u64 },
}

} // verus!
