//! What holds of the ledger's rules over all states and inputs.

use crate::adapters::{
    all_digits, decimal, decoded_tx_body, decoded_tx_raw, digit, digits_value, is_digit,
    parsed_number, parsed_transaction_filter, port_of,
};
use crate::conservation::{lemma_conserved_deposit, lemma_reward_fits};
use crate::error::ContractError;
use crate::msg::CoinView;
use crate::execute::{
    agree_all, agree_one, approve_outcome, auto_agree_outcome, check_all, check_outcome,
    committed, credit_holders, credit_one, credit_tokens, credited, deposit_outcome,
    fund_native_outcome, funded,
    locked_at, locked_for, locked_totals, majority, reward_outcome, share_of, sum_locked,
    unlocked_of, verify_outcome, votable_funds, voted, voted_all, withdraw_outcome, CustodyTable,
    Effect,
};
use crate::query::{address_funds, application_funds, proposal_funds};
use crate::storage::{
    share_total, ApplicationView, CustodyFundsView, GoodFeeView, LedgerView, ProjectFundingView,
    TransferView, MAX_QUEUED_ERRORS,
};
use crate::sudo::{
    applied_before, credit_all, failure_of, failure_outcome, filter_recipient, first_messages,
    last_dot, message_deposits, proposal_of_port, remote_deposits_outcome, tx_query_outcome,
    unread_payload_msg,
};
use crate::table::{
    distinct_keys, has_key, lemma_position_unique, lemma_put, lemma_without, lookup, position,
    put, without,
};
use crate::utils::{digest_of, lemma_share_bounded};
use vstd::prelude::*;

verus! {

/// Crediting deposits leaves the set of applied transactions and the
/// mapping from addresses to proposals as they were, and keeps the ledger's
/// invariant.
pub proof fn lemma_credit_all_keeps(
    l: LedgerView,
    contract_address: Seq<char>,
    deposits: Seq<TransferView>,
    auto_agree: bool,
)
    requires
        l.wf(),
        credit_all(l, contract_address, deposits, auto_agree) is Ok,
    ensures
        credit_all(l, contract_address, deposits, auto_agree)->Ok_0.wf(),
        credit_all(l, contract_address, deposits, auto_agree)->Ok_0.processed_txs
            == l.processed_txs,
        credit_all(l, contract_address, deposits, auto_agree)->Ok_0.address_to_proposal
            == l.address_to_proposal,
    decreases deposits.len(),
{
    if deposits.len() > 0 {
        let d = deposits[0];
        match lookup(l.address_to_proposal, d.recipient) {
            None => {
                lemma_credit_all_keeps(l, contract_address, deposits.drop_first(), auto_agree);
            },
            Some(proposal_id) => {
                let amount = parsed_number(d.amount)->0;
                let port = port_of(contract_address, decimal(proposal_id as nat));
                let m = deposit_outcome(
                    l,
                    d.sender,
                    d.denom,
                    amount,
                    proposal_id,
                    auto_agree,
                    Some(port),
                )->Ok_0;
                if amount != 0 {
                    lemma_put(
                        l.proposal_funding,
                        (proposal_id, d.denom),
                        lookup(m.proposal_funding, (proposal_id, d.denom))->0,
                    );
                    lemma_put(
                        l.custody_funds,
                        (d.sender, d.denom),
                        lookup(m.custody_funds, (d.sender, d.denom))->0,
                    );
                }
                lemma_conserved_deposit(
                    l,
                    d.sender,
                    d.denom,
                    amount,
                    proposal_id,
                    auto_agree,
                    Some(port),
                );
                lemma_credit_all_keeps(m, contract_address, deposits.drop_first(), auto_agree);
            },
        }
    }
}

/// Applying the deposits of a remote transaction a second time, under the
/// same digest, succeeds and leaves the ledger as the first time left it,
/// whatever the second delivery holds.
pub proof fn lemma_remote_deposits_idempotent(
    l: LedgerView,
    contract_address: Seq<char>,
    digest: u64,
    deposits: Seq<TransferView>,
    auto_agree: bool,
    again: Seq<TransferView>,
    auto_agree_again: bool,
)
    requires
        l.wf(),
        remote_deposits_outcome(l, contract_address, digest, deposits, auto_agree) is Ok,
    ensures
        remote_deposits_outcome(
            remote_deposits_outcome(l, contract_address, digest, deposits, auto_agree)->Ok_0,
            contract_address,
            digest,
            again,
            auto_agree_again,
        ) == remote_deposits_outcome(l, contract_address, digest, deposits, auto_agree),
{
    if !has_key(l.processed_txs, digest) {
        lemma_credit_all_keeps(l, contract_address, deposits, auto_agree);
        lemma_put(l.processed_txs, digest, true);
    }
}

/// Delivering the same remote transaction a second time succeeds and leaves
/// the ledger as the first delivery left it, whatever filter comes with the
/// second.
pub proof fn lemma_tx_query_idempotent(
    l: LedgerView,
    contract_address: Seq<char>,
    transactions_filter: Seq<char>,
    data: Seq<u8>,
    filter_again: Seq<char>,
)
    requires
        l.wf(),
        tx_query_outcome(l, contract_address, transactions_filter, data) is Ok,
    ensures
        tx_query_outcome(
            tx_query_outcome(l, contract_address, transactions_filter, data)->Ok_0,
            contract_address,
            filter_again,
            data,
        ) == tx_query_outcome(l, contract_address, transactions_filter, data),
{
    let body_bytes = decoded_tx_raw(data)->0;
    let body = decoded_tx_body(body_bytes)->0;
    let digest = digest_of(body_bytes);
    if !has_key(l.processed_txs, digest) {
        let items = parsed_transaction_filter(transactions_filter)->0;
        let deposits = message_deposits(
            first_messages(body.messages),
            filter_recipient(items),
        )->0;
        lemma_credit_all_keeps(l, contract_address, deposits, body.memo == "auto_agree"@);
        lemma_put(l.processed_txs, digest, true);
    }
}

/// An account that holds nothing unlocked has nothing to withdraw.
pub proof fn lemma_nothing_unlocked(custody: CustodyTable, sender: Seq<char>)
    requires
        forall|i: int| 0 <= i < custody.len() ==> !unlocked_of(sender)(#[trigger] custody[i]),
    ensures
        address_funds(custody, sender, true).len() == 0,
    decreases custody.len(),
{
    if custody.len() > 0 {
        let before = custody.drop_last();
        assert forall|i: int| 0 <= i < before.len() implies !unlocked_of(sender)(
            #[trigger] before[i],
        ) by {
            assert(before[i] == custody[i]);
        }
        lemma_nothing_unlocked(before, sender);
        assert(!unlocked_of(sender)(custody[custody.len() - 1]));
    }
}

/// What was withdrawn is out of custody: after a withdrawal the account has
/// nothing left to withdraw, and a second withdrawal is refused.
pub proof fn lemma_withdraw_once(l: LedgerView, sender: Seq<char>)
    requires
        l.wf(),
        withdraw_outcome(l, sender) is Ok,
    ensures
        withdraw_outcome(withdraw_outcome(l, sender)->Ok_0.0, sender) == Err::<Effect, _>(
            ContractError::NoFunds,
        ),
{
    lemma_without(l.custody_funds, unlocked_of(sender));
    lemma_nothing_unlocked(without(l.custody_funds, unlocked_of(sender)), sender);
}

/// A withdrawal leaves the locked funds, and the funds of every other
/// account, where they are.
pub proof fn lemma_withdraw_spares(l: LedgerView, sender: Seq<char>, i: int)
    requires
        l.wf(),
        withdraw_outcome(l, sender) is Ok,
        0 <= i < l.custody_funds.len(),
        l.custody_funds[i].0.0 != sender || l.custody_funds[i].1.locked,
    ensures
        lookup(withdraw_outcome(l, sender)->Ok_0.0.custody_funds, l.custody_funds[i].0) == Some(
            l.custody_funds[i].1,
        ),
{
    lemma_without(l.custody_funds, unlocked_of(sender));
    assert(!unlocked_of(sender)(l.custody_funds[i]));
}

/// What a depositor holds in a token, counted as nothing where there is no
/// entry.
pub open spec fn holding(l: LedgerView, account: Seq<char>, denom: Seq<char>) -> u128 {
    match lookup(l.custody_funds, (account, denom)) {
        Some(h) => h.amount,
        None => 0,
    }
}

/// A deposit that is taken adds its amount to what the depositor holds in
/// the token and to what the proposal has received in it. What the
/// depositor then holds is unlocked funds of the proposal, and nothing else
/// in custody has changed.
pub proof fn lemma_deposit_adds(
    l: LedgerView,
    sender: Seq<char>,
    denom: Seq<char>,
    amount: u128,
    proposal_id: u64,
    auto_agree: bool,
    remote: Option<Seq<char>>,
)
    requires
        l.wf(),
        amount > 0,
        deposit_outcome(l, sender, denom, amount, proposal_id, auto_agree, remote) is Ok,
    ensures
        ({
            let m = deposit_outcome(
                l,
                sender,
                denom,
                amount,
                proposal_id,
                auto_agree,
                remote,
            )->Ok_0;
            &&& holding(m, sender, denom) == holding(l, sender, denom) + amount
            &&& funded(m, proposal_id, denom) == funded(l, proposal_id, denom) + amount
            &&& lookup(m.custody_funds, (sender, denom)) is Some
            &&& !lookup(m.custody_funds, (sender, denom))->0.locked
            &&& lookup(m.custody_funds, (sender, denom))->0.proposal_id == proposal_id
            &&& forall|k: (Seq<char>, Seq<char>)|
                k != (sender, denom) ==> lookup(m.custody_funds, k) == lookup(l.custody_funds, k)
        }),
{
    let entry = credited(
        lookup(l.custody_funds, (sender, denom)),
        amount,
        proposal_id,
        remote,
    )->Ok_0;
    let native = match lookup(l.proposal_funding, (proposal_id, denom)) {
        Some(f) => f.native,
        None => true,
    };
    let funding = ProjectFundingView {
        sender,
        amount: (funded(l, proposal_id, denom) + amount) as u128,
        auto_agree,
        native,
    };
    lemma_put(l.custody_funds, (sender, denom), entry);
    lemma_put(l.proposal_funding, (proposal_id, denom), funding);
}

/// A deposit that is taken leaves a ledger that keeps its invariant.
pub proof fn lemma_deposit_keeps_wf(
    l: LedgerView,
    sender: Seq<char>,
    denom: Seq<char>,
    amount: u128,
    proposal_id: u64,
    auto_agree: bool,
    remote: Option<Seq<char>>,
)
    requires
        l.wf(),
        deposit_outcome(l, sender, denom, amount, proposal_id, auto_agree, remote) is Ok,
    ensures
        deposit_outcome(l, sender, denom, amount, proposal_id, auto_agree, remote)->Ok_0.wf(),
{
    if amount != 0 {
        let entry = credited(
            lookup(l.custody_funds, (sender, denom)),
            amount,
            proposal_id,
            remote,
        )->Ok_0;
        let native = match lookup(l.proposal_funding, (proposal_id, denom)) {
            Some(f) => f.native,
            None => true,
        };
        let funding = ProjectFundingView {
            sender,
            amount: (funded(l, proposal_id, denom) + amount) as u128,
            auto_agree,
            native,
        };
        lemma_put(l.custody_funds, (sender, denom), entry);
        lemma_put(l.proposal_funding, (proposal_id, denom), funding);
        lemma_conserved_deposit(l, sender, denom, amount, proposal_id, auto_agree, remote);
    }
}

/// What the coins of a list bring in one token.
pub open spec fn coin_sum(funds: Seq<CoinView>, denom: Seq<char>) -> nat
    decreases funds.len(),
{
    if funds.len() == 0 {
        0
    } else {
        coin_sum(funds.drop_first(), denom) + if funds[0].denom == denom {
            funds[0].amount as nat
        } else {
            0
        }
    }
}

/// What funding a proposal with coins achieves: in every token, what the
/// sender holds and what the proposal has received both grow by what the
/// coins bring in that token.
pub proof fn lemma_fund_native_adds(
    l: LedgerView,
    sender: Seq<char>,
    funds: Seq<CoinView>,
    proposal_id: u64,
    auto_agree: bool,
    denom: Seq<char>,
)
    requires
        l.wf(),
        fund_native_outcome(l, sender, funds, proposal_id, auto_agree) is Ok,
    ensures
        fund_native_outcome(l, sender, funds, proposal_id, auto_agree)->Ok_0.wf(),
        holding(fund_native_outcome(l, sender, funds, proposal_id, auto_agree)->Ok_0, sender, denom)
            == holding(l, sender, denom) + coin_sum(funds, denom),
        funded(
            fund_native_outcome(l, sender, funds, proposal_id, auto_agree)->Ok_0,
            proposal_id,
            denom,
        ) == funded(l, proposal_id, denom) + coin_sum(funds, denom),
    decreases funds.len(),
{
    if funds.len() > 0 {
        let coin = funds[0];
        let m = deposit_outcome(
            l,
            sender,
            coin.denom,
            coin.amount,
            proposal_id,
            auto_agree,
            None,
        )->Ok_0;
        lemma_deposit_keeps_wf(l, sender, coin.denom, coin.amount, proposal_id, auto_agree, None);
        if coin.amount != 0 {
            lemma_deposit_adds(l, sender, coin.denom, coin.amount, proposal_id, auto_agree, None);
            if coin.denom != denom {
                let native = match lookup(l.proposal_funding, (proposal_id, coin.denom)) {
                    Some(f) => f.native,
                    None => true,
                };
                let funding = ProjectFundingView {
                    sender,
                    amount: (funded(l, proposal_id, coin.denom) + coin.amount) as u128,
                    auto_agree,
                    native,
                };
                lemma_put(l.proposal_funding, (proposal_id, coin.denom), funding);
            }
        }
        lemma_fund_native_adds(m, sender, funds.drop_first(), proposal_id, auto_agree, denom);
    }
}

/// No deposit touches funds that are locked or that belong to another
/// proposal: a deposit onto such funds is refused.
pub proof fn lemma_deposit_spares(
    l: LedgerView,
    sender: Seq<char>,
    denom: Seq<char>,
    amount: u128,
    proposal_id: u64,
    auto_agree: bool,
    remote: Option<Seq<char>>,
)
    requires
        amount > 0,
        lookup(l.custody_funds, (sender, denom)) is Some,
        lookup(l.custody_funds, (sender, denom))->0.locked || lookup(
            l.custody_funds,
            (sender, denom),
        )->0.proposal_id != proposal_id,
    ensures
        deposit_outcome(l, sender, denom, amount, proposal_id, auto_agree, remote) is Err,
{
}

/// Where no payload is staged for a failed message and the queue is not
/// full, the report succeeds, adds one diagnostic after those that the queue
/// holds, and changes nothing else.
pub proof fn lemma_miss_queues_one(
    l: LedgerView,
    seq_id: u64,
    channel_id: Seq<char>,
    details: Option<Seq<char>>,
)
    requires
        lookup(l.sudo_payloads, (channel_id, seq_id)) is None,
        l.errors_queue.len() < MAX_QUEUED_ERRORS,
    ensures
        failure_outcome(l, Some(seq_id), Some(channel_id), details) == Ok::<
            LedgerView,
            ContractError,
        >(LedgerView { errors_queue: l.errors_queue.push(unread_payload_msg()), ..l }),
{
}

/// A transaction that was applied before is answered with success and no
/// change, whatever filter comes with it.
pub proof fn lemma_applied_is_no_op(
    l: LedgerView,
    contract_address: Seq<char>,
    transactions_filter: Seq<char>,
    data: Seq<u8>,
)
    requires
        applied_before(l, data) == Ok::<bool, ContractError>(true),
    ensures
        tx_query_outcome(l, contract_address, transactions_filter, data) == Ok::<
            LedgerView,
            ContractError,
        >(l),
{
}

/// Once the failure of a message is recorded, a second report for the same
/// channel and sequence number is refused.
pub proof fn lemma_acknowledgement_once(
    l: LedgerView,
    seq_id: u64,
    channel_id: Seq<char>,
    details: Option<Seq<char>>,
    details_again: Option<Seq<char>>,
)
    requires
        l.wf(),
        lookup(l.sudo_payloads, (channel_id, seq_id)) is Some,
        failure_outcome(l, Some(seq_id), Some(channel_id), details) is Ok,
    ensures
        failure_outcome(
            failure_outcome(l, Some(seq_id), Some(channel_id), details)->Ok_0,
            Some(seq_id),
            Some(channel_id),
            details_again,
        ) == Err::<LedgerView, _>(ContractError::DuplicateAcknowledgement),
{
    let payload = lookup(l.sudo_payloads, (channel_id, seq_id))->0;
    lemma_put(
        l.acknowledgement_results,
        (payload.port_id, seq_id),
        failure_of(payload.message, details),
    );
}

/// An auditor whose verification was taken cannot verify the same
/// application again.
pub proof fn lemma_verify_once(
    l: LedgerView,
    sender: Seq<char>,
    proposal_id: u64,
    applicant: Seq<char>,
)
    requires
        l.wf(),
        verify_outcome(l, sender, proposal_id, applicant) is Ok,
    ensures
        verify_outcome(
            verify_outcome(l, sender, proposal_id, applicant)->Ok_0,
            sender,
            proposal_id,
            applicant,
        ) == Err::<LedgerView, _>(ContractError::AlreadyVerified),
{
    let application = lookup(l.applications, (proposal_id, applicant))->0;
    let verified = ApplicationView {
        verifications: application.verifications.push(sender),
        ..application
    };
    lemma_put(l.applications, (proposal_id, applicant), verified);
    assert(verified.verifications[application.verifications.len() as int] == sender);
}

/// A vote commits its amount: what is committed to the application in the
/// token grows by it.
pub proof fn lemma_vote_commits(
    l: LedgerView,
    sender: Seq<char>,
    applicant: Seq<char>,
    proposal_id: u64,
    denom: Seq<char>,
    amount: u128,
)
    requires
        l.wf(),
        committed(l, proposal_id, applicant, denom) + amount <= u128::MAX,
    ensures
        committed(
            voted(l, sender, applicant, proposal_id, denom, amount),
            proposal_id,
            applicant,
            denom,
        ) == committed(l, proposal_id, applicant, denom) + amount,
{
    lemma_put(
        l.application_funding,
        (proposal_id, applicant, denom),
        (committed(l, proposal_id, applicant, denom) + amount) as u128,
    );
}

/// A custody entry is one that `sender` can vote with on the proposal.
pub open spec fn votable(
    e: ((Seq<char>, Seq<char>), CustodyFundsView),
    sender: Seq<char>,
    proposal_id: u64,
) -> bool {
    e.0.0 == sender && e.1.proposal_id == proposal_id && !e.1.locked
}

/// The custody table with those of its first `n` entries locked that
/// `sender` can vote with on the proposal. Every entry stays in its place
/// and keeps its amount, its proposal and its origin.
pub open spec fn votes_locked(
    custody: CustodyTable,
    sender: Seq<char>,
    proposal_id: u64,
    n: int,
) -> CustodyTable {
    Seq::new(
        custody.len(),
        |i: int|
            if i < n && votable(custody[i], sender, proposal_id) {
                (custody[i].0, CustodyFundsView { locked: true, ..custody[i].1 })
            } else {
                custody[i]
            },
    )
}

/// Committing what `sender` can vote with among the entries from `n` on,
/// after the votable entries before `n` were locked, locks every votable
/// entry of the table.
pub proof fn lemma_voted_all_locks(
    custody: CustodyTable,
    l: LedgerView,
    sender: Seq<char>,
    applicant: Seq<char>,
    proposal_id: u64,
    n: int,
)
    requires
        distinct_keys(custody),
        0 <= n <= custody.len(),
        l.custody_funds == votes_locked(custody, sender, proposal_id, n),
        voted_all(
            l,
            sender,
            applicant,
            proposal_id,
            votable_funds(custody.skip(n), sender, proposal_id),
        ) is Some,
    ensures
        voted_all(
            l,
            sender,
            applicant,
            proposal_id,
            votable_funds(custody.skip(n), sender, proposal_id),
        )->0.custody_funds == votes_locked(custody, sender, proposal_id, custody.len() as int),
    decreases custody.len() - n,
{
    let here = votes_locked(custody, sender, proposal_id, n);
    let next = votes_locked(custody, sender, proposal_id, n + 1);
    if n == custody.len() {
        assert(custody.skip(n) =~= Seq::empty());
    } else {
        assert(custody.skip(n)[0] == custody[n]);
        assert(custody.skip(n).drop_first() =~= custody.skip(n + 1));
        if votable(custody[n], sender, proposal_id) {
            let funds = votable_funds(custody.skip(n), sender, proposal_id);
            let rest = votable_funds(custody.skip(n + 1), sender, proposal_id);
            assert(funds =~= seq![(custody[n].0.1, custody[n].1.amount)] + rest);
            assert(funds[0] == (custody[n].0.1, custody[n].1.amount));
            assert(funds.drop_first() =~= rest);
            assert forall|i: int, j: int|
                0 <= i < here.len() && 0 <= j < here.len() && (#[trigger] here[i]).0 == (
                #[trigger] here[j]).0 implies i == j by {
                assert(custody[i].0 == custody[j].0);
            }
            assert(here[n] == custody[n]);
            lemma_position_unique(here, n);
            let step = voted(l, sender, applicant, proposal_id, funds[0].0, funds[0].1);
            assert(custody[n].0 == (sender, funds[0].0));
            assert(step.custody_funds =~= next);
            lemma_voted_all_locks(custody, step, sender, applicant, proposal_id, n + 1);
        } else {
            assert(here =~= next);
            lemma_voted_all_locks(custody, l, sender, applicant, proposal_id, n + 1);
        }
    }
}

/// Where `sender` can vote with no entry of the table, the list of what it
/// can vote with is empty.
pub proof fn lemma_nothing_votable(custody: CustodyTable, sender: Seq<char>, proposal_id: u64)
    requires
        forall|i: int|
            0 <= i < custody.len() ==> !votable(#[trigger] custody[i], sender, proposal_id),
    ensures
        votable_funds(custody, sender, proposal_id).len() == 0,
    decreases custody.len(),
{
    if custody.len() > 0 {
        let rest = custody.drop_first();
        assert forall|i: int| 0 <= i < rest.len() implies !votable(
            #[trigger] rest[i],
            sender,
            proposal_id,
        ) by {
            assert(rest[i] == custody[i + 1]);
        }
        lemma_nothing_votable(rest, sender, proposal_id);
        assert(!votable(custody[0], sender, proposal_id));
    }
}

/// What an approval achieves: every custody entry that the sender could
/// vote with is locked, in its place and with its amount, proposal and
/// origin as they were; no other entry of the custody table changes; and
/// the sender has nothing left to vote with, so that a second approval is
/// refused.
pub proof fn lemma_approve_locks(
    l: LedgerView,
    sender: Seq<char>,
    proposal_id: u64,
    applicant: Seq<char>,
    again: Seq<char>,
)
    requires
        l.wf(),
        approve_outcome(l, sender, proposal_id, applicant) is Ok,
    ensures
        approve_outcome(l, sender, proposal_id, applicant)->Ok_0.custody_funds == votes_locked(
            l.custody_funds,
            sender,
            proposal_id,
            l.custody_funds.len() as int,
        ),
        approve_outcome(
            approve_outcome(l, sender, proposal_id, applicant)->Ok_0,
            sender,
            proposal_id,
            again,
        ) == Err::<LedgerView, _>(ContractError::CantVote),
{
    let custody = l.custody_funds;
    assert(custody.skip(0) =~= custody);
    assert(votes_locked(custody, sender, proposal_id, 0) =~= custody);
    lemma_voted_all_locks(custody, l, sender, applicant, proposal_id, 0);
    lemma_nothing_votable(
        votes_locked(custody, sender, proposal_id, custody.len() as int),
        sender,
        proposal_id,
    );
}

/// Locking the entry under a key changes the lock flag of that entry and
/// nothing else in the table.
pub proof fn lemma_locked_at(custody: CustodyTable, key: (Seq<char>, Seq<char>))
    requires
        distinct_keys(custody),
    ensures
        distinct_keys(locked_at(custody, key)),
        locked_at(custody, key).len() == custody.len(),
        lookup(locked_at(custody, key), key) == match lookup(custody, key) {
            Some(held) => Some(CustodyFundsView { locked: true, ..held }),
            None => None,
        },
        forall|k: (Seq<char>, Seq<char>)|
            k != key ==> lookup(locked_at(custody, key), k) == lookup(custody, k),
{
    match lookup(custody, key) {
        Some(held) => {
            lemma_put(custody, key, CustodyFundsView { locked: true, ..held });
        },
        None => {},
    }
}

/// The funds that `sender` holds in `token` are beyond automatic agreement
/// on the proposal: they are locked, or they belong to another proposal.
pub open spec fn settled(
    custody: CustodyTable,
    proposal_id: u64,
    token: Seq<char>,
    sender: Seq<char>,
) -> bool {
    match lookup(custody, (sender, token)) {
        Some(held) => held.locked || held.proposal_id != proposal_id,
        None => false,
    }
}

/// Automatic agreement on one token commits exactly what it locks: where
/// the depositor's entry is unlocked funds of the proposal, the entry is
/// locked, with its amount and origin as they were, and what is committed
/// under the depositor's name grows by the entry's amount.
pub proof fn lemma_agree_one_commits(
    l: LedgerView,
    proposal_id: u64,
    token: Seq<char>,
    funding: ProjectFundingView,
)
    requires
        l.wf(),
        agree_one(l, proposal_id, token, funding) is Ok,
        !settled(l.custody_funds, proposal_id, token, funding.sender),
    ensures
        ({
            let m = agree_one(l, proposal_id, token, funding)->Ok_0;
            let held = lookup(l.custody_funds, (funding.sender, token))->0;
            &&& lookup(m.custody_funds, (funding.sender, token)) == Some(
                CustodyFundsView { locked: true, ..held },
            )
            &&& committed(m, proposal_id, funding.sender, token) == committed(
                l,
                proposal_id,
                funding.sender,
                token,
            ) + held.amount
        }),
{
    let held = lookup(l.custody_funds, (funding.sender, token))->0;
    let a = lookup(l.application_funding, (proposal_id, funding.sender, token))->0;
    lemma_locked_at(l.custody_funds, (funding.sender, token));
    lemma_put(
        l.application_funding,
        (proposal_id, funding.sender, token),
        (a + held.amount) as u128,
    );
}

/// Automatic agreement on one token leaves the token's funds settled, keeps
/// settled what was settled, and leaves the proposals' funding as it was.
pub proof fn lemma_agree_one_settles(
    l: LedgerView,
    proposal_id: u64,
    token: Seq<char>,
    funding: ProjectFundingView,
)
    requires
        distinct_keys(l.custody_funds),
        agree_one(l, proposal_id, token, funding) is Ok,
    ensures
        distinct_keys(agree_one(l, proposal_id, token, funding)->Ok_0.custody_funds),
        agree_one(l, proposal_id, token, funding)->Ok_0.proposal_funding == l.proposal_funding,
        settled(
            agree_one(l, proposal_id, token, funding)->Ok_0.custody_funds,
            proposal_id,
            token,
            funding.sender,
        ),
        forall|t: Seq<char>, s: Seq<char>|
            settled(l.custody_funds, proposal_id, t, s) ==> #[trigger] settled(
                agree_one(l, proposal_id, token, funding)->Ok_0.custody_funds,
                proposal_id,
                t,
                s,
            ),
{
    lemma_locked_at(l.custody_funds, (funding.sender, token));
}

/// Automatic agreement on a list of tokens leaves the funds of each of them
/// settled and the proposals' funding as it was.
pub proof fn lemma_agree_all_settles(
    l: LedgerView,
    proposal_id: u64,
    funds: Seq<(Seq<char>, ProjectFundingView)>,
)
    requires
        distinct_keys(l.custody_funds),
        agree_all(l, proposal_id, funds) is Ok,
    ensures
        distinct_keys(agree_all(l, proposal_id, funds)->Ok_0.custody_funds),
        agree_all(l, proposal_id, funds)->Ok_0.proposal_funding == l.proposal_funding,
        forall|i: int|
            0 <= i < funds.len() ==> settled(
                agree_all(l, proposal_id, funds)->Ok_0.custody_funds,
                proposal_id,
                (#[trigger] funds[i]).0,
                funds[i].1.sender,
            ),
        forall|t: Seq<char>, s: Seq<char>|
            settled(l.custody_funds, proposal_id, t, s) ==> #[trigger] settled(
                agree_all(l, proposal_id, funds)->Ok_0.custody_funds,
                proposal_id,
                t,
                s,
            ),
    decreases funds.len(),
{
    if funds.len() > 0 {
        let m = agree_one(l, proposal_id, funds[0].0, funds[0].1)->Ok_0;
        let rest = funds.drop_first();
        lemma_agree_one_settles(l, proposal_id, funds[0].0, funds[0].1);
        lemma_agree_all_settles(m, proposal_id, rest);
        let done = agree_all(l, proposal_id, funds)->Ok_0;
        assert forall|i: int| 0 <= i < funds.len() implies settled(
            done.custody_funds,
            proposal_id,
            (#[trigger] funds[i]).0,
            funds[i].1.sender,
        ) by {
            if i > 0 {
                assert(rest[i - 1] == funds[i]);
            } else {
                assert(settled(m.custody_funds, proposal_id, funds[0].0, funds[0].1.sender));
            }
        }
        assert forall|t: Seq<char>, s: Seq<char>|
            settled(l.custody_funds, proposal_id, t, s) implies #[trigger] settled(
            done.custody_funds,
            proposal_id,
            t,
            s,
        ) by {
            assert(settled(m.custody_funds, proposal_id, t, s));
        }
    }
}

/// Automatic agreement changes nothing where the funds of every token are
/// settled.
pub proof fn lemma_settled_is_no_op(
    l: LedgerView,
    proposal_id: u64,
    funds: Seq<(Seq<char>, ProjectFundingView)>,
)
    requires
        forall|i: int|
            0 <= i < funds.len() ==> settled(
                l.custody_funds,
                proposal_id,
                (#[trigger] funds[i]).0,
                funds[i].1.sender,
            ),
    ensures
        agree_all(l, proposal_id, funds) == Ok::<LedgerView, ContractError>(l),
    decreases funds.len(),
{
    if funds.len() > 0 {
        let rest = funds.drop_first();
        assert(settled(l.custody_funds, proposal_id, funds[0].0, funds[0].1.sender));
        assert forall|i: int| 0 <= i < rest.len() implies settled(
            l.custody_funds,
            proposal_id,
            (#[trigger] rest[i]).0,
            rest[i].1.sender,
        ) by {
            assert(rest[i] == funds[i + 1]);
        }
        lemma_settled_is_no_op(l, proposal_id, rest);
    }
}

/// Automatic agreement counts no funds twice: run again on the ledger that
/// it left, it succeeds and changes nothing.
pub proof fn lemma_auto_agree_once(l: LedgerView, proposal_id: u64)
    requires
        l.wf(),
        auto_agree_outcome(l, proposal_id) is Ok,
    ensures
        auto_agree_outcome(auto_agree_outcome(l, proposal_id)->Ok_0, proposal_id)
            == auto_agree_outcome(l, proposal_id),
{
    let funds = proposal_funds(l.proposal_funding, proposal_id, Some(true));
    lemma_agree_all_settles(l, proposal_id, funds);
    lemma_settled_is_no_op(auto_agree_outcome(l, proposal_id)->Ok_0, proposal_id, funds);
}

/// Automatic agreement leaves the proposals' funding as it was.
pub proof fn lemma_agree_all_keeps_funding(
    l: LedgerView,
    proposal_id: u64,
    funds: Seq<(Seq<char>, ProjectFundingView)>,
)
    requires
        agree_all(l, proposal_id, funds) is Ok,
    ensures
        agree_all(l, proposal_id, funds)->Ok_0.proposal_funding == l.proposal_funding,
    decreases funds.len(),
{
    if funds.len() > 0 {
        let m = agree_one(l, proposal_id, funds[0].0, funds[0].1)->Ok_0;
        lemma_agree_all_keeps_funding(m, proposal_id, funds.drop_first());
    }
}

/// For totals up to half of 10^18, an amount is a majority of a total
/// exactly where the ratio of the two, cut off after 18 decimal places, is
/// above one half.
pub proof fn lemma_majority_is_ratio_above_half(amount: u128, total: u128)
    requires
        0 < total <= 500_000_000_000_000_000,
    ensures
        majority(amount, total) <==> amount * 1_000_000_000_000_000_000 / (total as int)
            > 500_000_000_000_000_000,
{
    let unit: int = 1_000_000_000_000_000_000;
    let ratio = amount * unit / (total as int);
    assert(ratio * total <= amount * unit < (ratio + 1) * total) by (nonlinear_arith)
        requires
            ratio == amount * unit / (total as int),
            total > 0,
    ;
    if 2 * amount > total {
        assert(amount * unit * 2 >= (unit + 2) * total) by (nonlinear_arith)
            requires
                2 * amount >= total + 1,
                0 < total <= 500_000_000_000_000_000,
                unit == 1_000_000_000_000_000_000,
        ;
        assert(ratio >= 500_000_000_000_000_001) by (nonlinear_arith)
            requires
                amount * unit < (ratio + 1) * total,
                amount * unit * 2 >= (unit + 2) * total,
                unit == 1_000_000_000_000_000_000,
                total > 0,
        ;
    } else {
        assert(ratio <= 500_000_000_000_000_000) by (nonlinear_arith)
            requires
                ratio * total <= amount * unit,
                2 * amount <= total,
                unit == 1_000_000_000_000_000_000,
                total > 0,
        ;
    }
}

/// In some token of `funds`, the committed amount is a majority of what the
/// proposal has received in that token.
pub open spec fn some_majority(
    l: LedgerView,
    proposal_id: u64,
    funds: Seq<(Seq<char>, u128)>,
) -> bool {
    exists|i: int|
        0 <= i < funds.len() && majority(
            (#[trigger] funds[i]).1,
            funded(l, proposal_id, funds[i].0),
        )
}

/// The funds committed to an application reach the quorum: in some token
/// they are strictly more than half of what the proposal has received.
pub open spec fn quorum(l: LedgerView, proposal_id: u64, applicant: Seq<char>) -> bool {
    some_majority(l, proposal_id, application_funds(l.application_funding, proposal_id, applicant))
}

/// Over a list of committed funds, a quorum check that succeeds reports
/// that automatic agreement ran exactly where it had run before or some
/// token of the list holds a majority.
pub proof fn lemma_check_all_fires(
    l: LedgerView,
    proposal_id: u64,
    funds: Seq<(Seq<char>, u128)>,
    fired: bool,
)
    requires
        check_all(l, proposal_id, funds, fired) is Ok,
    ensures
        check_all(l, proposal_id, funds, fired)->Ok_0.1 == (fired || some_majority(
            l,
            proposal_id,
            funds,
        )),
    decreases funds.len(),
{
    if funds.len() > 0 {
        let rest = funds.drop_first();
        let f = lookup(l.proposal_funding, (proposal_id, funds[0].0))->0;
        if majority(funds[0].1, f.amount) {
            let agreed = auto_agree_outcome(l, proposal_id)->Ok_0;
            lemma_check_all_fires(agreed, proposal_id, rest, true);
        } else {
            lemma_check_all_fires(l, proposal_id, rest, fired);
            if some_majority(l, proposal_id, rest) {
                let i = choose|i: int|
                    0 <= i < rest.len() && majority(
                        (#[trigger] rest[i]).1,
                        funded(l, proposal_id, rest[i].0),
                    );
                assert(funds[i + 1] == rest[i]);
            }
            if some_majority(l, proposal_id, funds) {
                let i = choose|i: int|
                    0 <= i < funds.len() && majority(
                        (#[trigger] funds[i]).1,
                        funded(l, proposal_id, funds[i].0),
                    );
                assert(rest[i - 1] == funds[i]);
            }
        }
    }
}

/// A quorum check that succeeds leaves the proposals' funding as it was and
/// keeps settled what was settled.
pub proof fn lemma_check_all_keeps(
    l: LedgerView,
    proposal_id: u64,
    funds: Seq<(Seq<char>, u128)>,
    fired: bool,
)
    requires
        distinct_keys(l.custody_funds),
        check_all(l, proposal_id, funds, fired) is Ok,
    ensures
        distinct_keys(check_all(l, proposal_id, funds, fired)->Ok_0.0.custody_funds),
        check_all(l, proposal_id, funds, fired)->Ok_0.0.proposal_funding == l.proposal_funding,
        forall|t: Seq<char>, s: Seq<char>|
            settled(l.custody_funds, proposal_id, t, s) ==> #[trigger] settled(
                check_all(l, proposal_id, funds, fired)->Ok_0.0.custody_funds,
                proposal_id,
                t,
                s,
            ),
    decreases funds.len(),
{
    if funds.len() > 0 {
        let rest = funds.drop_first();
        let f = lookup(l.proposal_funding, (proposal_id, funds[0].0))->0;
        let done = check_all(l, proposal_id, funds, fired)->Ok_0.0;
        if majority(funds[0].1, f.amount) {
            let agreed = auto_agree_outcome(l, proposal_id)->Ok_0;
            lemma_agree_all_settles(
                l,
                proposal_id,
                proposal_funds(l.proposal_funding, proposal_id, Some(true)),
            );
            lemma_check_all_keeps(agreed, proposal_id, rest, true);
            assert forall|t: Seq<char>, s: Seq<char>|
                settled(l.custody_funds, proposal_id, t, s) implies #[trigger] settled(
                done.custody_funds,
                proposal_id,
                t,
                s,
            ) by {
                assert(settled(agreed.custody_funds, proposal_id, t, s));
            }
        } else {
            lemma_check_all_keeps(l, proposal_id, rest, fired);
        }
    }
}

/// Over a list of committed funds in which some token holds a majority, a
/// quorum check that succeeds leaves the funds of every token that is
/// flagged for automatic agreement settled.
pub proof fn lemma_check_all_settles(
    l: LedgerView,
    proposal_id: u64,
    funds: Seq<(Seq<char>, u128)>,
    fired: bool,
    i: int,
)
    requires
        distinct_keys(l.custody_funds),
        check_all(l, proposal_id, funds, fired) is Ok,
        some_majority(l, proposal_id, funds),
        0 <= i < proposal_funds(l.proposal_funding, proposal_id, Some(true)).len(),
    ensures
        settled(
            check_all(l, proposal_id, funds, fired)->Ok_0.0.custody_funds,
            proposal_id,
            proposal_funds(l.proposal_funding, proposal_id, Some(true))[i].0,
            proposal_funds(l.proposal_funding, proposal_id, Some(true))[i].1.sender,
        ),
    decreases funds.len(),
{
    let flagged = proposal_funds(l.proposal_funding, proposal_id, Some(true));
    if funds.len() > 0 {
        let rest = funds.drop_first();
        let f = lookup(l.proposal_funding, (proposal_id, funds[0].0))->0;
        if majority(funds[0].1, f.amount) {
            let agreed = auto_agree_outcome(l, proposal_id)->Ok_0;
            lemma_agree_all_settles(l, proposal_id, flagged);
            assert(settled(agreed.custody_funds, proposal_id, flagged[i].0, flagged[i].1.sender));
            lemma_check_all_keeps(agreed, proposal_id, rest, true);
        } else {
            let w = choose|w: int|
                0 <= w < funds.len() && majority(
                    (#[trigger] funds[w]).1,
                    funded(l, proposal_id, funds[w].0),
                );
            assert(w > 0);
            assert(rest[w - 1] == funds[w]);
            lemma_check_all_settles(l, proposal_id, rest, fired, i);
        }
    }
}

/// Over a list of committed funds in which no token holds a majority, a
/// quorum check that succeeds changes nothing.
pub proof fn lemma_check_all_idle(
    l: LedgerView,
    proposal_id: u64,
    funds: Seq<(Seq<char>, u128)>,
    fired: bool,
)
    requires
        check_all(l, proposal_id, funds, fired) is Ok,
        !some_majority(l, proposal_id, funds),
    ensures
        check_all(l, proposal_id, funds, fired)->Ok_0 == (l, fired),
    decreases funds.len(),
{
    if funds.len() > 0 {
        let rest = funds.drop_first();
        assert(!majority(funds[0].1, funded(l, proposal_id, funds[0].0)));
        if some_majority(l, proposal_id, rest) {
            let w = choose|w: int|
                0 <= w < rest.len() && majority(
                    (#[trigger] rest[w]).1,
                    funded(l, proposal_id, rest[w].0),
                );
            assert(funds[w + 1] == rest[w]);
        }
        lemma_check_all_idle(l, proposal_id, rest, fired);
    }
}

/// Where the funds committed to an application do not reach the quorum, a
/// quorum check that succeeds locks nothing and commits nothing: the ledger
/// is as it was.
pub proof fn lemma_no_quorum_no_change(l: LedgerView, proposal_id: u64, applicant: Seq<char>)
    requires
        check_outcome(l, proposal_id, applicant) is Ok,
        !quorum(l, proposal_id, applicant),
    ensures
        check_outcome(l, proposal_id, applicant)->Ok_0 == (l, false),
{
    lemma_check_all_idle(
        l,
        proposal_id,
        application_funds(l.application_funding, proposal_id, applicant),
        false,
    );
}

/// Where the funds committed to an application reach the quorum and the
/// quorum check succeeds, automatic agreement has been applied: the funds of
/// the last depositor of every token that is flagged for it are locked,
/// unless they belong to another proposal.
pub proof fn lemma_quorum_locks_flagged(
    l: LedgerView,
    proposal_id: u64,
    applicant: Seq<char>,
    i: int,
)
    requires
        l.wf(),
        check_outcome(l, proposal_id, applicant) is Ok,
        quorum(l, proposal_id, applicant),
        0 <= i < proposal_funds(l.proposal_funding, proposal_id, Some(true)).len(),
    ensures
        settled(
            check_outcome(l, proposal_id, applicant)->Ok_0.0.custody_funds,
            proposal_id,
            proposal_funds(l.proposal_funding, proposal_id, Some(true))[i].0,
            proposal_funds(l.proposal_funding, proposal_id, Some(true))[i].1.sender,
        ),
{
    lemma_check_all_settles(
        l,
        proposal_id,
        application_funds(l.application_funding, proposal_id, applicant),
        false,
        i,
    );
}

/// Where the quorum check on an application succeeds, automatic agreement
/// has run if and only if the funds committed to the application are, in
/// some token, strictly more than half of what the proposal has received in
/// that token.
pub proof fn lemma_auto_agree_iff_quorum(l: LedgerView, proposal_id: u64, applicant: Seq<char>)
    requires
        check_outcome(l, proposal_id, applicant) is Ok,
    ensures
        check_outcome(l, proposal_id, applicant)->Ok_0.1 == quorum(l, proposal_id, applicant),
{
    lemma_check_all_fires(
        l,
        proposal_id,
        application_funds(l.application_funding, proposal_id, applicant),
        false,
    );
}

/// What the shareholders are credited of a total, added up.
pub open spec fn credited_total(holders: Seq<GoodFeeView>, total: u128) -> nat
    decreases holders.len(),
{
    if holders.len() == 0 {
        0
    } else {
        credited_total(holders.drop_last(), total) + share_of(
            total,
            holders.last().percent_share,
        ) as nat
    }
}

/// A hundred times what shareholders with percentages of at most 100 are
/// credited stays below the total times the sum of their percentages, by
/// less than a hundred for each of them.
pub proof fn lemma_credit_bounds(holders: Seq<GoodFeeView>, total: u128)
    requires
        forall|i: int| 0 <= i < holders.len() ==> (#[trigger] holders[i]).percent_share <= 100,
    ensures
        100 * credited_total(holders, total) <= total * share_total(holders),
        100 * credited_total(holders, total) + 99 * holders.len() >= total * share_total(holders),
    decreases holders.len(),
{
    if holders.len() > 0 {
        let before = holders.drop_last();
        let p = holders.last().percent_share;
        assert forall|i: int| 0 <= i < before.len() implies (
        #[trigger] before[i]).percent_share <= 100 by {
            assert(before[i] == holders[i]);
        }
        lemma_credit_bounds(before, total);
        let c = total * p / 100;
        assert(0 <= c <= total && 100 * c <= total * p && 100 * c + 99 >= total * p)
            by (nonlinear_arith)
            requires
                c == total * p / 100,
                0 <= p <= 100,
                0 <= total,
        ;
        assert(share_of(total, p) == c);
        assert(total * share_total(holders) == total * share_total(before) + total * p)
            by (nonlinear_arith)
            requires
                share_total(holders) == share_total(before) + p,
        ;
    } else {
        assert(total * share_total(holders) == 0) by (nonlinear_arith)
            requires
                share_total(holders) == 0,
        ;
    }
}

/// What the shareholders of an application are credited of a total adds up
/// to the total, less a remainder of at most one unit for each shareholder
/// but one. The remainder is what rounding down leaves over.
pub proof fn lemma_reward_conserves(holders: Seq<GoodFeeView>, total: u128)
    requires
        share_total(holders) == 100,
    ensures
        credited_total(holders, total) <= total,
        total - credited_total(holders, total) <= holders.len() - 1,
{
    assert forall|i: int| 0 <= i < holders.len() implies (
    #[trigger] holders[i]).percent_share <= 100 by {
        lemma_share_bounded(holders, i);
    }
    lemma_credit_bounds(holders, total);
    assert(total * share_total(holders) == 100 * total) by (nonlinear_arith)
        requires
            share_total(holders) == 100,
    ;
}

/// The totals of locked funds hold no token twice.
pub proof fn lemma_sums_distinct(
    custody: CustodyTable,
    proposal_id: u64,
    acc: Seq<(Seq<char>, u128)>,
)
    requires
        distinct_keys(acc),
        sum_locked(custody, proposal_id, acc) is Some,
    ensures
        distinct_keys(sum_locked(custody, proposal_id, acc)->0),
    decreases custody.len(),
{
    if custody.len() > 0 {
        if locked_for(proposal_id)(custody[0]) {
            let so_far = match lookup(acc, custody[0].0.1) {
                Some(a) => a,
                None => 0,
            };
            let next = put(acc, custody[0].0.1, (so_far + custody[0].1.amount) as u128);
            lemma_put(acc, custody[0].0.1, (so_far + custody[0].1.amount) as u128);
            lemma_sums_distinct(custody.drop_first(), proposal_id, next);
        } else {
            lemma_sums_distinct(custody.drop_first(), proposal_id, acc);
        }
    }
}

/// What is held under a key of a custody table, counted as nothing where
/// there is no entry.
pub open spec fn held_under(custody: CustodyTable, key: (Seq<char>, Seq<char>)) -> u128 {
    match lookup(custody, key) {
        Some(h) => h.amount,
        None => 0,
    }
}

/// One credit adds its amount to what is held under its key and changes
/// nothing under any other key.
pub proof fn lemma_credit_one(
    custody: CustodyTable,
    account: Seq<char>,
    token: Seq<char>,
    amount: u128,
    proposal_id: u64,
)
    requires
        distinct_keys(custody),
        credit_one(custody, account, token, amount, proposal_id) is Ok,
    ensures
        distinct_keys(credit_one(custody, account, token, amount, proposal_id)->Ok_0),
        held_under(
            credit_one(custody, account, token, amount, proposal_id)->Ok_0,
            (account, token),
        ) == held_under(custody, (account, token)) + amount,
        forall|k: (Seq<char>, Seq<char>)|
            k != (account, token) ==> lookup(
                credit_one(custody, account, token, amount, proposal_id)->Ok_0,
                k,
            ) == lookup(custody, k),
{
    if amount != 0 {
        let entry = credited(lookup(custody, (account, token)), amount, proposal_id, None)->Ok_0;
        lemma_put(custody, (account, token), entry);
    }
}

/// After one shareholder was credited, it holds in every token of the totals
/// its part of the total more than before, and nothing else in the custody
/// table has changed.
pub proof fn lemma_credit_tokens(
    custody: CustodyTable,
    holder: GoodFeeView,
    sums: Seq<(Seq<char>, u128)>,
    proposal_id: u64,
)
    requires
        distinct_keys(custody),
        distinct_keys(sums),
        credit_tokens(custody, holder, sums, proposal_id) is Ok,
    ensures
        distinct_keys(credit_tokens(custody, holder, sums, proposal_id)->Ok_0),
        forall|j: int|
            0 <= j < sums.len() ==> held_under(
                credit_tokens(custody, holder, sums, proposal_id)->Ok_0,
                (holder.recipient, (#[trigger] sums[j]).0),
            ) == held_under(custody, (holder.recipient, sums[j].0)) + share_of(
                sums[j].1,
                holder.percent_share,
            ),
        forall|k: (Seq<char>, Seq<char>)|
            k.0 != holder.recipient || !has_key(sums, k.1) ==> lookup(
                #[trigger] credit_tokens(custody, holder, sums, proposal_id)->Ok_0,
                k,
            ) == lookup(custody, k),
    decreases sums.len(),
{
    let after = credit_tokens(custody, holder, sums, proposal_id)->Ok_0;
    if sums.len() > 0 {
        let first = (holder.recipient, sums[0].0);
        let amount = share_of(sums[0].1, holder.percent_share);
        let next = credit_one(custody, holder.recipient, sums[0].0, amount, proposal_id)->Ok_0;
        let rest = sums.drop_first();
        lemma_credit_one(custody, holder.recipient, sums[0].0, amount, proposal_id);
        assert forall|a: int, b: int|
            0 <= a < rest.len() && 0 <= b < rest.len() && (#[trigger] rest[a]).0 == (
            #[trigger] rest[b]).0 implies a == b by {
            assert(sums[a + 1].0 == sums[b + 1].0);
        }
        lemma_credit_tokens(next, holder, rest, proposal_id);
        assert(!has_key(rest, sums[0].0)) by {
            if has_key(rest, sums[0].0) {
                let q = position(rest, sums[0].0);
                assert(sums[q + 1].0 == sums[0].0);
            }
        }
        assert forall|j: int| 0 <= j < sums.len() implies held_under(
            after,
            (holder.recipient, (#[trigger] sums[j]).0),
        ) == held_under(custody, (holder.recipient, sums[j].0)) + share_of(
            sums[j].1,
            holder.percent_share,
        ) by {
            if j > 0 {
                assert(rest[j - 1] == sums[j]);
                assert(sums[j].0 != sums[0].0);
            } else {
                assert(lookup(after, first) == lookup(next, first));
            }
        }
        assert forall|k: (Seq<char>, Seq<char>)|
            k.0 != holder.recipient || !has_key(sums, k.1) implies lookup(after, k) == lookup(
            custody,
            k,
        ) by {
            if has_key(rest, k.1) {
                let q = position(rest, k.1);
                assert(sums[q + 1].0 == k.1);
            }
            if k == first {
                assert(sums[0].0 == k.1);
            }
        }
    }
}

/// No two shareholders are the same account.
pub open spec fn distinct_accounts(holders: Seq<GoodFeeView>) -> bool {
    forall|a: int, b: int|
        0 <= a < b < holders.len() ==> (#[trigger] holders[a]).recipient != (
        #[trigger] holders[b]).recipient
}

/// No shareholder is the account `who`.
pub open spec fn absent(holders: Seq<GoodFeeView>, who: Seq<char>) -> bool {
    forall|k: int| 0 <= k < holders.len() ==> (#[trigger] holders[k]).recipient != who
}

/// After shareholders that are distinct accounts were credited in turn, each
/// holds in every token of the totals its part of the total more than
/// before, and what belongs to other accounts or other tokens has not
/// changed.
pub proof fn lemma_credit_holders(
    custody: CustodyTable,
    holders: Seq<GoodFeeView>,
    sums: Seq<(Seq<char>, u128)>,
    proposal_id: u64,
)
    requires
        distinct_keys(custody),
        distinct_keys(sums),
        distinct_accounts(holders),
        credit_holders(custody, holders, sums, proposal_id) is Ok,
    ensures
        distinct_keys(credit_holders(custody, holders, sums, proposal_id)->Ok_0),
        forall|i: int, j: int|
            0 <= i < holders.len() && 0 <= j < sums.len() ==> held_under(
                credit_holders(custody, holders, sums, proposal_id)->Ok_0,
                ((#[trigger] holders[i]).recipient, (#[trigger] sums[j]).0),
            ) == held_under(custody, (holders[i].recipient, sums[j].0)) + share_of(
                sums[j].1,
                holders[i].percent_share,
            ),
        forall|k: (Seq<char>, Seq<char>)|
            absent(holders, k.0) || !has_key(sums, k.1) ==> lookup(
                #[trigger] credit_holders(custody, holders, sums, proposal_id)->Ok_0,
                k,
            ) == lookup(custody, k),
    decreases holders.len(),
{
    let after = credit_holders(custody, holders, sums, proposal_id)->Ok_0;
    if holders.len() > 0 {
        let next = credit_tokens(custody, holders[0], sums, proposal_id)->Ok_0;
        let rest = holders.drop_first();
        lemma_credit_tokens(custody, holders[0], sums, proposal_id);
        assert forall|a: int, b: int| 0 <= a < b < rest.len() implies (
        #[trigger] rest[a]).recipient != (#[trigger] rest[b]).recipient by {
            assert(rest[a] == holders[a + 1]);
            assert(rest[b] == holders[b + 1]);
        }
        lemma_credit_holders(next, rest, sums, proposal_id);
        assert forall|k: int| 0 <= k < rest.len() implies (#[trigger] rest[k]).recipient
            != holders[0].recipient by {
            assert(rest[k] == holders[k + 1]);
        }
        assert(absent(rest, holders[0].recipient));
        assert forall|i: int, j: int|
            0 <= i < holders.len() && 0 <= j < sums.len() implies held_under(
            after,
            ((#[trigger] holders[i]).recipient, (#[trigger] sums[j]).0),
        ) == held_under(custody, (holders[i].recipient, sums[j].0)) + share_of(
            sums[j].1,
            holders[i].percent_share,
        ) by {
            if i == 0 {
                assert(lookup(after, (holders[0].recipient, sums[j].0)) == lookup(
                    next,
                    (holders[0].recipient, sums[j].0),
                ));
            } else {
                assert(rest[i - 1] == holders[i]);
                assert(holders[i].recipient != holders[0].recipient);
                assert(lookup(next, (holders[i].recipient, sums[j].0)) == lookup(
                    custody,
                    (holders[i].recipient, sums[j].0),
                ));
            }
        }
        assert forall|k: (Seq<char>, Seq<char>)|
            absent(holders, k.0) || !has_key(sums, k.1) implies lookup(after, k) == lookup(
            custody,
            k,
        ) by {
            if absent(holders, k.0) {
                assert(holders[0].recipient != k.0);
                assert forall|q: int| 0 <= q < rest.len() implies (#[trigger] rest[q]).recipient
                    != k.0 by {
                    assert(rest[q] == holders[q + 1]);
                }
                assert(absent(rest, k.0));
            }
        }
    }
}

/// In a ledger that keeps its invariant, a distribution for an application
/// that is on record never fails for want of room: it succeeds, unless a
/// shareholder holds funds in a token that nothing can be added to.
pub proof fn lemma_reward_succeeds_or_conflicts(
    l: LedgerView,
    proposal_id: u64,
    applicant: Seq<char>,
)
    requires
        l.wf(),
        lookup(l.applications, (proposal_id, applicant)) is Some,
    ensures
        locked_totals(l.custody_funds, proposal_id) is Some,
        reward_outcome(l, proposal_id, applicant) is Err ==> reward_outcome(
            l,
            proposal_id,
            applicant,
        )->Err_0 == ContractError::CustodyConflict,
{
    let p = position(l.applications, (proposal_id, applicant));
    assert(l.applications[p].1.wf());
    lemma_reward_fits(
        l.custody_funds,
        l.proposal_funding,
        lookup(l.applications, (proposal_id, applicant))->0.shareholders(),
        proposal_id,
    );
}

/// What a distribution does to the ledger, where the shareholders of the
/// application are distinct accounts: in each token of which locked funds
/// were distributed, every shareholder holds its percentage of the token's
/// locked total, rounded down, more than it held unlocked before. By
/// `lemma_reward_conserves_each_token` these credits add up to the locked
/// total, less a remainder of at most one unit for each shareholder but one.
pub proof fn lemma_reward_credits(
    l: LedgerView,
    proposal_id: u64,
    applicant: Seq<char>,
    i: int,
    j: int,
)
    requires
        l.wf(),
        reward_outcome(l, proposal_id, applicant) is Ok,
        distinct_accounts(lookup(l.applications, (proposal_id, applicant))->0.shareholders()),
        0 <= i < lookup(l.applications, (proposal_id, applicant))->0.shareholders().len(),
        0 <= j < locked_totals(l.custody_funds, proposal_id)->0.len(),
    ensures
        ({
            let holder = lookup(l.applications, (proposal_id, applicant))->0.shareholders()[i];
            let total = locked_totals(l.custody_funds, proposal_id)->0[j];
            held_under(
                reward_outcome(l, proposal_id, applicant)->Ok_0.custody_funds,
                (holder.recipient, total.0),
            ) == held_under(
                without(l.custody_funds, locked_for(proposal_id)),
                (holder.recipient, total.0),
            ) + share_of(total.1, holder.percent_share)
        }),
{
    let holders = lookup(l.applications, (proposal_id, applicant))->0.shareholders();
    let sums = locked_totals(l.custody_funds, proposal_id)->0;
    lemma_sums_distinct(l.custody_funds, proposal_id, Seq::empty());
    lemma_without(l.custody_funds, locked_for(proposal_id));
    lemma_credit_holders(
        without(l.custody_funds, locked_for(proposal_id)),
        holders,
        sums,
        proposal_id,
    );
    assert(holders[i] == holders[i]);
    assert(sums[j] == sums[j]);
}

/// A distribution removes every locked entry of the proposal: what is left
/// of the custody table before the shareholders are credited holds none.
pub proof fn lemma_reward_removes_locked(l: LedgerView, proposal_id: u64, i: int)
    requires
        l.wf(),
        0 <= i < without(l.custody_funds, locked_for(proposal_id)).len(),
    ensures
        !locked_for(proposal_id)(without(l.custody_funds, locked_for(proposal_id))[i]),
{
    lemma_without(l.custody_funds, locked_for(proposal_id));
}

/// In each token of which locked funds are distributed, what the
/// shareholders of the application are credited adds up to the token's
/// total, less a remainder of at most one unit for each shareholder but
/// one.
pub proof fn lemma_reward_conserves_each_token(
    l: LedgerView,
    proposal_id: u64,
    applicant: Seq<char>,
    j: int,
)
    requires
        l.wf(),
        reward_outcome(l, proposal_id, applicant) is Ok,
        0 <= j < locked_totals(l.custody_funds, proposal_id)->0.len(),
    ensures
        ({
            let holders = lookup(l.applications, (proposal_id, applicant))->0.shareholders();
            let total = locked_totals(l.custody_funds, proposal_id)->0[j].1;
            &&& credited_total(holders, total) <= total
            &&& total - credited_total(holders, total) <= holders.len() - 1
        }),
{
    lemma_reward_conserves(
        lookup(l.applications, (proposal_id, applicant))->0.shareholders(),
        locked_totals(l.custody_funds, proposal_id)->0[j].1,
    );
}

/// What is written for a number is made of decimal digits and reads as
/// that number.
pub proof fn lemma_decimal_reads_back(n: nat)
    ensures
        decimal(n).len() > 0,
        all_digits(decimal(n)),
        digits_value(decimal(n)) == n,
    decreases n,
{
    let d = if n < 10 {
        n
    } else {
        n % 10
    };
    assert(is_digit(digit(d)) && (digit(d) as u8 - '0' as u8) as nat == d) by {
        assert(d < 10);
        assert(d == 0 || d == 1 || d == 2 || d == 3 || d == 4 || d == 5 || d == 6 || d == 7 || d
            == 8 || d == 9);
    }
    if n < 10 {
        assert(decimal(n).drop_last() =~= Seq::<char>::empty());
        assert(digits_value(Seq::<char>::empty()) == 0);
    } else {
        lemma_decimal_reads_back(n / 10);
        let head = decimal(n / 10);
        assert(decimal(n).drop_last() =~= head);
        assert forall|i: int| 0 <= i < decimal(n).len() implies is_digit(
            #[trigger] decimal(n)[i],
        ) by {
            if i < head.len() {
                assert(decimal(n)[i] == head[i]);
            }
        }
    }
}

/// The last dot of a text that ends in a dot and a text without dots is
/// that dot.
pub proof fn lemma_last_dot_before_tail(head: Seq<char>, tail: Seq<char>)
    requires
        forall|i: int| 0 <= i < tail.len() ==> #[trigger] tail[i] != '.',
    ensures
        last_dot(head + seq!['.'] + tail) == Some(head.len() as int),
    decreases tail.len(),
{
    let all = head + seq!['.'] + tail;
    if tail.len() == 0 {
        assert(all.last() == '.');
    } else {
        assert(all.last() == tail[tail.len() - 1]);
        assert(all.drop_last() =~= head + seq!['.'] + tail.drop_last());
        assert forall|i: int| 0 <= i < tail.drop_last().len() implies #[trigger] tail.drop_last()[i]
            != '.' by {
            assert(tail.drop_last()[i] == tail[i]);
        }
        lemma_last_dot_before_tail(head, tail.drop_last());
    }
}

/// The port of a proposal's interchain account names the proposal: what is
/// read off the port that a contract controls for a proposal is that
/// proposal's identifier.
pub proof fn lemma_port_names_its_proposal(contract_address: Seq<char>, proposal_id: u64)
    ensures
        proposal_of_port(port_of(contract_address, decimal(proposal_id as nat))) == Some(
            proposal_id,
        ),
{
    let written = decimal(proposal_id as nat);
    lemma_decimal_reads_back(proposal_id as nat);
    let head = "icacontroller-"@ + contract_address;
    let port = port_of(contract_address, written);
    assert(port =~= head + seq!['.'] + written);
    assert forall|i: int| 0 <= i < written.len() implies #[trigger] written[i] != '.' by {
        assert(is_digit(written[i]));
    }
    lemma_last_dot_before_tail(head, written);
    assert(port.skip(head.len() as int + 1) =~= written);
    assert(is_digit(written[0]));
    assert(written[0] != '+');
}

} // verus!
