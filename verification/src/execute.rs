//! The commands that change the ledger.

use crate::adapters::{decimal, get_port_id, percent_of, port_of, u64_to_string};
use crate::conservation::{
    lemma_conserved_deposit, lemma_conserved_locked_at, lemma_conserved_reward,
    lemma_conserved_without,
};
use crate::error::ContractError;
use crate::msg::{
    ApplicationSubmission, ApplicationSubmissionView, CoinView, Env, MessageInfo, NeutronResponse,
    OutboundMsg, OutboundMsgView, Response,
};
use crate::query::{
    address_funds, application_funds, proposal_funds, query_address_funds,
    query_application_funds, query_proposal_funds,
};
use crate::storage::{
    is_listed, is_named, names, Application, ApplicationView, CustodyFunds, CustodyFundsView,
    GoodFee, GoodFeeView, Ledger, LedgerView, ProjectFunding, ProjectFundingView, Proposal,
    ProposalView,
};
use crate::table::{
    has_key, lemma_put, lemma_without, lookup, position, put, without, Key, Stored, Table,
};
use crate::utils::{lemma_share_bounded, shareholders, valid_application, valid_submission};
use vstd::prelude::*;

verus! {

/// How a call's result relates to what the ledger's rules say of the call:
/// on success the ledger is the one that they give, on failure the error is
/// theirs and the ledger is as it was.
pub open spec fn applies<T>(
    outcome: Result<LedgerView, ContractError>,
    r: Result<T, ContractError>,
    before: LedgerView,
    after: LedgerView,
) -> bool {
    match outcome {
        Ok(l) => r is Ok && after == l,
        Err(e) => r is Err && r->Err_0 == e && after == before,
    }
}

/// What a call does where it succeeds: the ledger after it, and the requests
/// that it answers with.
pub type Effect = (LedgerView, Seq<OutboundMsgView>);

/// The effect of a call that answers with no requests.
pub open spec fn quiet(outcome: Result<LedgerView, ContractError>) -> Result<
    Effect,
    ContractError,
> {
    match outcome {
        Ok(l) => Ok((l, Seq::empty())),
        Err(e) => Err(e),
    }
}

/// How a call's answer relates to what the ledger's rules say of the call:
/// on success the ledger and the requests are the ones that they give, on
/// failure the error is theirs and the ledger is as it was.
pub open spec fn answers(
    outcome: Result<Effect, ContractError>,
    r: NeutronResponse,
    before: LedgerView,
    after: LedgerView,
) -> bool {
    match outcome {
        Ok(done) => r is Ok && after == done.0 && r->Ok_0@.messages == done.1,
        Err(e) => r is Err && r->Err_0 == e && after == before,
    }
}

/// A call applies the ledger's rules and answers with no requests.
pub open spec fn settles(
    outcome: Result<LedgerView, ContractError>,
    r: NeutronResponse,
    before: LedgerView,
    after: LedgerView,
) -> bool {
    answers(quiet(outcome), r, before, after)
}

/// What submitting a proposal does: the proposal is stored under the next
/// identifier, which then moves up by one. Identifiers start at 0.
pub open spec fn submit_proposal_outcome(
    l: LedgerView,
    title: Seq<char>,
    description: Seq<char>,
) -> Result<LedgerView, ContractError> {
    if l.proposal_index == u64::MAX {
        Err(ContractError::Overflow)
    } else {
        Ok(
            LedgerView {
                proposals: put(
                    l.proposals,
                    l.proposal_index,
                    ProposalView { title, description, funding: Seq::empty() },
                ),
                proposal_index: (l.proposal_index + 1) as u64,
                ..l
            },
        )
    }
}

/// Stores a new proposal under the next identifier.
pub fn submit_proposal(ledger: &mut Ledger, title: String, description: String) -> (r:
    NeutronResponse)
    requires
        old(ledger).wf(),
    ensures
        final(ledger).wf(),
        settles(
            submit_proposal_outcome(old(ledger)@, title@, description@),
            r,
            old(ledger)@,
            final(ledger)@,
        ),
{
    let index = ledger.proposal_index;
    if index == u64::MAX {
        return Err(ContractError::Overflow);
    }
    let proposal = Proposal { title, description, funding: Vec::new() };
    assert(proposal.funding.deep_view() =~= Seq::<ProjectFundingView>::empty());
    ledger.proposals.insert(index, proposal);
    ledger.proposal_index = index + 1;
    Ok(Response::default())
}

/// What submitting an application does: an application that keeps the rule
/// is stored for the proposal under its sender, not accepted and not
/// verified, in place of what the sender had applied with before.
pub open spec fn submit_application_outcome(
    l: LedgerView,
    height: u64,
    time: u64,
    sender: Seq<char>,
    proposal_id: u64,
    application: ApplicationSubmissionView,
) -> Result<LedgerView, ContractError> {
    if !valid_submission(application, height, time) {
        Err(ContractError::InvalidApplication)
    } else {
        Ok(
            LedgerView {
                applications: put(
                    l.applications,
                    (proposal_id, sender),
                    ApplicationView {
                        applicants: application.applicants,
                        auditors: application.auditors,
                        deliver_by: application.deliver_by,
                        accepted: false,
                        verifications: Seq::empty(),
                    },
                ),
                ..l
            },
        )
    }
}

/// Stores an application for a proposal under its sender.
pub fn submit_application(
    ledger: &mut Ledger,
    env: Env,
    sender: String,
    proposal_id: u64,
    application: ApplicationSubmission,
) -> (r: NeutronResponse)
    requires
        old(ledger).wf(),
    ensures
        final(ledger).wf(),
        settles(
            submit_application_outcome(
                old(ledger)@,
                env.block.height,
                env.block.time,
                sender@,
                proposal_id,
                application@,
            ),
            r,
            old(ledger)@,
            final(ledger)@,
        ),
{
    if !valid_application(&application, &env.block) {
        return Err(ContractError::InvalidApplication);
    }
    let stored = Application {
        applicants: application.applicants,
        auditors: application.auditors,
        deliver_by: application.deliver_by,
        accepted: false,
        verifications: Vec::new(),
    };
    assert(stored.verifications.deep_view() =~= Seq::<Seq<char>>::empty());
    proof {
        lemma_put_keeps_rule(ledger@.applications, (proposal_id, sender@), stored@);
    }
    ledger.applications.insert((proposal_id, sender), stored);
    Ok(Response::default())
}

/// What a proposal has received in a token so far.
pub open spec fn funded(l: LedgerView, proposal_id: u64, denom: Seq<char>) -> u128 {
    match lookup(l.proposal_funding, (proposal_id, denom)) {
        Some(f) => f.amount,
        None => 0,
    }
}

/// What an account holds in a token once `amount` was credited to it for a
/// proposal. Where the account holds nothing in the token, it then holds the
/// amount, unlocked. Where it holds unlocked funds of the same proposal, the
/// amount is added to them; they carry the port once any part of them
/// arrived through it. Funds that are locked, or that belong to another
/// proposal, are never touched: the credit is refused.
pub open spec fn credited(
    held: Option<CustodyFundsView>,
    amount: u128,
    proposal_id: u64,
    remote: Option<Seq<char>>,
) -> Result<CustodyFundsView, ContractError> {
    match held {
        None => Ok(CustodyFundsView { amount, proposal_id, locked: false, remote }),
        Some(h) => if h.locked || h.proposal_id != proposal_id {
            Err(ContractError::CustodyConflict)
        } else if h.amount + amount > u128::MAX {
            Err(ContractError::Overflow)
        } else {
            Ok(
                CustodyFundsView {
                    amount: (h.amount + amount) as u128,
                    remote: if remote is Some {
                        remote
                    } else {
                        h.remote
                    },
                    ..h
                },
            )
        },
    }
}

/// Works out what an account holds in a token once `amount` was credited to
/// it for a proposal.
pub fn credit_entry(
    held: Option<&CustodyFunds>,
    amount: u128,
    proposal_id: u64,
    remote: Option<String>,
) -> (r: Result<CustodyFunds, ContractError>)
    ensures
        match credited(held.deep_view(), amount, proposal_id, remote.deep_view()) {
            Ok(entry) => r is Ok && r->Ok_0@ == entry,
            Err(e) => r is Err && r->Err_0 == e,
        },
{
    match held {
        None => Ok(CustodyFunds { amount, proposal_id, locked: false, remote }),
        Some(h) => {
            if h.locked || h.proposal_id != proposal_id {
                return Err(ContractError::CustodyConflict);
            }
            if h.amount > u128::MAX - amount {
                return Err(ContractError::Overflow);
            }
            let tag = match remote {
                Some(port) => Some(port),
                None => h.remote.duplicate(),
            };
            Ok(
                CustodyFunds {
                    amount: h.amount + amount,
                    proposal_id: h.proposal_id,
                    locked: h.locked,
                    remote: tag,
                },
            )
        },
    }
}

/// What a deposit does. A deposit of nothing changes nothing. Any other is
/// refused where the proposal's funding in the token would pass the largest
/// amount that can be held, and where the amount cannot be credited to the
/// depositor. Otherwise the amount is added to the proposal's funding in the
/// token, the depositor and the flag are noted there, and the amount is
/// credited to the depositor's custody.
pub open spec fn deposit_outcome(
    l: LedgerView,
    sender: Seq<char>,
    denom: Seq<char>,
    amount: u128,
    proposal_id: u64,
    auto_agree: bool,
    remote: Option<Seq<char>>,
) -> Result<LedgerView, ContractError> {
    if amount == 0 {
        Ok(l)
    } else if funded(l, proposal_id, denom) + amount > u128::MAX {
        Err(ContractError::Overflow)
    } else {
        match credited(lookup(l.custody_funds, (sender, denom)), amount, proposal_id, remote) {
            Err(e) => Err(e),
            Ok(entry) => {
                let native = match lookup(l.proposal_funding, (proposal_id, denom)) {
                    Some(f) => f.native,
                    None => true,
                };
                let funding = ProjectFundingView {
                    sender,
                    amount: (funded(l, proposal_id, denom) + amount) as u128,
                    auto_agree,
                    native,
                };
                Ok(
                    LedgerView {
                        proposal_funding: put(l.proposal_funding, (proposal_id, denom), funding),
                        custody_funds: put(l.custody_funds, (sender, denom), entry),
                        ..l
                    },
                )
            },
        }
    }
}

/// Takes `amount` of `denom` into custody for `sender`, as funding of the
/// proposal. `remote` is the port through which funds of a remote chain
/// arrived.
pub fn deposit(
    ledger: &mut Ledger,
    sender: &String,
    denom: &String,
    amount: u128,
    proposal_id: u64,
    auto_agree: bool,
    remote: Option<String>,
) -> (r: Result<(), ContractError>)
    requires
        old(ledger).wf(),
    ensures
        final(ledger).wf(),
        applies(
            deposit_outcome(
                old(ledger)@,
                sender@,
                denom@,
                amount,
                proposal_id,
                auto_agree,
                remote.deep_view(),
            ),
            r,
            old(ledger)@,
            final(ledger)@,
        ),
{
    if amount == 0 {
        return Ok(());
    }
    let key = (proposal_id, denom.clone());
    let mut funding = match ledger.proposal_funding.get(&key) {
        Some(f) => f.duplicate(),
        None => ProjectFunding::default(),
    };
    if funding.amount > u128::MAX - amount {
        return Err(ContractError::Overflow);
    }
    let holder = (sender.clone(), denom.clone());
    let entry = match credit_entry(ledger.custody_funds.get(&holder), amount, proposal_id, remote) {
        Err(e) => {
            return Err(e);
        },
        Ok(entry) => entry,
    };
    proof {
        lemma_conserved_deposit(
            ledger@,
            sender@,
            denom@,
            amount,
            proposal_id,
            auto_agree,
            remote.deep_view(),
        );
    }
    funding.amount = funding.amount + amount;
    funding.auto_agree = auto_agree;
    funding.sender = sender.clone();
    ledger.proposal_funding.insert(key, funding);
    ledger.custody_funds.insert(holder, entry);
    Ok(())
}

/// What funding a proposal with coins does: the coins are deposited for
/// the sender one after the other, and where one of the deposits overflows,
/// the whole is refused.
pub open spec fn fund_native_outcome(
    l: LedgerView,
    sender: Seq<char>,
    funds: Seq<CoinView>,
    proposal_id: u64,
    auto_agree: bool,
) -> Result<LedgerView, ContractError>
    decreases funds.len(),
{
    if funds.len() == 0 {
        Ok(l)
    } else {
        match deposit_outcome(
            l,
            sender,
            funds[0].denom,
            funds[0].amount,
            proposal_id,
            auto_agree,
            None,
        ) {
            Err(e) => Err(e),
            Ok(m) => fund_native_outcome(m, sender, funds.drop_first(), proposal_id, auto_agree),
        }
    }
}

/// Funds a proposal with the coins sent along with the call. Coins of amount
/// zero are passed over. Without a flag for automatic agreement the funds
/// are not flagged.
pub fn fund_proposal_native(
    ledger: &mut Ledger,
    info: MessageInfo,
    proposal_id: u64,
    auto_agree: Option<bool>,
) -> (r: NeutronResponse)
    requires
        old(ledger).wf(),
    ensures
        final(ledger).wf(),
        settles(
            fund_native_outcome(
                old(ledger)@,
                info.sender@,
                info.funds.deep_view(),
                proposal_id,
                auto_agree.unwrap_or(false),
            ),
            r,
            old(ledger)@,
            final(ledger)@,
        ),
{
    let saved = ledger.duplicate();
    let flag = match auto_agree {
        Some(b) => b,
        None => false,
    };
    let ghost start = ledger@;
    let ghost funds = info.funds.deep_view();
    let mut i: usize = 0;
    assert(funds.skip(0) =~= funds);
    while i < info.funds.len()
        invariant
            ledger.wf(),
            start.wf(),
            start == old(ledger)@,
            saved@ == start,
            flag == auto_agree.unwrap_or(false),
            funds == info.funds.deep_view(),
            i <= info.funds@.len(),
            fund_native_outcome(start, info.sender@, funds, proposal_id, flag)
                == fund_native_outcome(
                ledger@,
                info.sender@,
                funds.skip(i as int),
                proposal_id,
                flag,
            ),
        decreases info.funds@.len() - i,
    {
        let coin = &info.funds[i];
        assert(funds.skip(i as int).drop_first() =~= funds.skip(i + 1));
        match deposit(ledger, &info.sender, &coin.denom, coin.amount, proposal_id, flag, None) {
            Err(e) => {
                *ledger = saved;
                return Err(e);
            },
            Ok(()) => {},
        }
        i += 1;
    }
    Ok(Response::default())
}

/// The tokens and amounts that `sender` can vote with on the proposal: the
/// sender's unlocked custody entries of that proposal, in table order.
pub open spec fn votable_funds(
    custody: Seq<((Seq<char>, Seq<char>), CustodyFundsView)>,
    sender: Seq<char>,
    proposal_id: u64,
) -> Seq<(Seq<char>, u128)>
    decreases custody.len(),
{
    if custody.len() == 0 {
        Seq::empty()
    } else {
        let e = custody[0];
        let rest = votable_funds(custody.drop_first(), sender, proposal_id);
        if e.0.0 == sender && e.1.proposal_id == proposal_id && !e.1.locked {
            seq![(e.0.1, e.1.amount)] + rest
        } else {
            rest
        }
    }
}

/// What is committed to an application in a token so far.
pub open spec fn committed(
    l: LedgerView,
    proposal_id: u64,
    applicant: Seq<char>,
    denom: Seq<char>,
) -> u128 {
    match lookup(l.application_funding, (proposal_id, applicant, denom)) {
        Some(a) => a,
        None => 0,
    }
}

/// A custody table with the entry under `key` locked, where there is one.
/// Nothing else of the entry changes.
pub open spec fn locked_at(custody: CustodyTable, key: (Seq<char>, Seq<char>)) -> CustodyTable {
    match lookup(custody, key) {
        Some(held) => put(custody, key, CustodyFundsView { locked: true, ..held }),
        None => custody,
    }
}

/// Locks the entry under `key`, where there is one.
pub fn lock_entry(custody: &mut Table<(String, String), CustodyFunds>, key: (String, String))
    requires
        old(custody).wf(),
    ensures
        final(custody).wf(),
        final(custody)@ == locked_at(old(custody)@, key.deep_view()),
{
    let held = match custody.get(&key) {
        Some(held) => Some(held.duplicate()),
        None => None,
    };
    match held {
        Some(mut held) => {
            held.locked = true;
            custody.insert(key, held);
        },
        None => {},
    }
}

/// The ledger after `sender` committed `amount` of `denom` to an
/// application: the amount is added to the application's funding in the
/// token, and the sender's custody entry in the token is locked.
pub open spec fn voted(
    l: LedgerView,
    sender: Seq<char>,
    applicant: Seq<char>,
    proposal_id: u64,
    denom: Seq<char>,
    amount: u128,
) -> LedgerView {
    LedgerView {
        application_funding: put(
            l.application_funding,
            (proposal_id, applicant, denom),
            (committed(l, proposal_id, applicant, denom) + amount) as u128,
        ),
        custody_funds: locked_at(l.custody_funds, (sender, denom)),
        ..l
    }
}

/// The ledger after each of `funds` was committed in turn, or `None` where
/// an application's funding would pass the largest amount that can be held.
pub open spec fn voted_all(
    l: LedgerView,
    sender: Seq<char>,
    applicant: Seq<char>,
    proposal_id: u64,
    funds: Seq<(Seq<char>, u128)>,
) -> Option<LedgerView>
    decreases funds.len(),
{
    if funds.len() == 0 {
        Some(l)
    } else if committed(l, proposal_id, applicant, funds[0].0) + funds[0].1 > u128::MAX {
        None
    } else {
        voted_all(
            voted(l, sender, applicant, proposal_id, funds[0].0, funds[0].1),
            sender,
            applicant,
            proposal_id,
            funds.drop_first(),
        )
    }
}

/// What approving an application does: it fails with `CantVote` where the
/// sender has nothing to vote with, and commits all of it otherwise.
pub open spec fn approve_outcome(
    l: LedgerView,
    sender: Seq<char>,
    proposal_id: u64,
    applicant: Seq<char>,
) -> Result<LedgerView, ContractError> {
    let funds = votable_funds(l.custody_funds, sender, proposal_id);
    if funds.len() == 0 {
        Err(ContractError::CantVote)
    } else {
        match voted_all(l, sender, applicant, proposal_id, funds) {
            Some(m) => Ok(m),
            None => Err(ContractError::Overflow),
        }
    }
}

/// Lists what `sender` can vote with on the proposal.
pub fn get_votable_funds(ledger: &Ledger, sender: &String, proposal_id: u64) -> (funds: Vec<
    (String, u128),
>)
    ensures
        funds.deep_view() == votable_funds(ledger@.custody_funds, sender@, proposal_id),
{
    let mut funds: Vec<(String, u128)> = Vec::new();
    let ghost custody = ledger@.custody_funds;
    let mut i: usize = 0;
    assert(custody.skip(0) =~= custody);
    while i < ledger.custody_funds.len()
        invariant
            custody == ledger@.custody_funds,
            i <= custody.len(),
            funds.deep_view() + votable_funds(custody.skip(i as int), sender@, proposal_id)
                == votable_funds(custody, sender@, proposal_id),
        decreases custody.len() - i,
    {
        let key = ledger.custody_funds.key_at(i);
        let value = ledger.custody_funds.value_at(i);
        assert(custody.skip(i as int).drop_first() =~= custody.skip(i + 1));
        if key.0.same_as(sender) && value.proposal_id == proposal_id && !value.locked {
            funds.push((key.1.clone(), value.amount));
        }
        i += 1;
    }
    funds
}

/// Votes all unlocked funds that `sender` holds of the proposal onto the
/// application of `application_sender`.
pub fn approve_application(
    ledger: &mut Ledger,
    sender: &String,
    proposal_id: u64,
    application_sender: String,
) -> (r: NeutronResponse)
    requires
        old(ledger).wf(),
    ensures
        final(ledger).wf(),
        settles(
            approve_outcome(old(ledger)@, sender@, proposal_id, application_sender@),
            r,
            old(ledger)@,
            final(ledger)@,
        ),
{
    let user_funds = get_votable_funds(ledger, sender, proposal_id);
    if user_funds.len() == 0 {
        return Err(ContractError::CantVote);
    }
    let saved = ledger.duplicate();
    let ghost start = ledger@;
    let ghost funds = user_funds.deep_view();
    let mut i: usize = 0;
    assert(funds.skip(0) =~= funds);
    while i < user_funds.len()
        invariant
            ledger.wf(),
            start.wf(),
            start == old(ledger)@,
            saved@ == start,
            funds == user_funds.deep_view(),
            funds == votable_funds(start.custody_funds, sender@, proposal_id),
            funds.len() > 0,
            i <= user_funds@.len(),
            voted_all(start, sender@, application_sender@, proposal_id, funds) == voted_all(
                ledger@,
                sender@,
                application_sender@,
                proposal_id,
                funds.skip(i as int),
            ),
        decreases user_funds@.len() - i,
    {
        let token = &user_funds[i].0;
        let amount = user_funds[i].1;
        assert(funds.skip(i as int).drop_first() =~= funds.skip(i + 1));
        let key = (proposal_id, application_sender.clone(), token.clone());
        let existing = match ledger.application_funding.get(&key) {
            Some(a) => *a,
            None => 0,
        };
        if existing > u128::MAX - amount {
            *ledger = saved;
            return Err(ContractError::Overflow);
        }
        ledger.application_funding.insert(key, existing + amount);
        proof {
            lemma_conserved_locked_at(
                ledger@.custody_funds,
                ledger@.proposal_funding,
                (sender@, token@),
            );
        }
        lock_entry(&mut ledger.custody_funds, (sender.clone(), token.clone()));
        i += 1;
    }
    Ok(Response::default())
}

/// A custody table as the ledger's view holds it.
pub type CustodyTable = Seq<((Seq<char>, Seq<char>), CustodyFundsView)>;

/// Marks the custody entries that are up for distribution: the locked funds
/// of the proposal.
pub open spec fn locked_for(proposal_id: u64) -> spec_fn(
    ((Seq<char>, Seq<char>), CustodyFundsView),
) -> bool {
    |e: ((Seq<char>, Seq<char>), CustodyFundsView)| e.1.proposal_id == proposal_id && e.1.locked
}

/// The totals per token of the locked funds of the proposal, added to
/// `acc`; tokens stand in the order in which they first occur. `None` where a
/// total would pass the largest amount that can be held.
pub open spec fn sum_locked(
    custody: CustodyTable,
    proposal_id: u64,
    acc: Seq<(Seq<char>, u128)>,
) -> Option<Seq<(Seq<char>, u128)>>
    decreases custody.len(),
{
    if custody.len() == 0 {
        Some(acc)
    } else if locked_for(proposal_id)(custody[0]) {
        let so_far = match lookup(acc, custody[0].0.1) {
            Some(a) => a,
            None => 0,
        };
        if so_far + custody[0].1.amount > u128::MAX {
            None
        } else {
            sum_locked(
                custody.drop_first(),
                proposal_id,
                put(acc, custody[0].0.1, (so_far + custody[0].1.amount) as u128),
            )
        }
    } else {
        sum_locked(custody.drop_first(), proposal_id, acc)
    }
}

/// The totals per token of the locked funds of the proposal.
pub open spec fn locked_totals(custody: CustodyTable, proposal_id: u64) -> Option<
    Seq<(Seq<char>, u128)>,
> {
    sum_locked(custody, proposal_id, Seq::empty())
}

/// A shareholder's part of a total: `percent` hundredths, rounded down. What
/// rounding leaves over is paid to nobody.
pub open spec fn share_of(total: u128, percent: u8) -> u128 {
    (total * percent / 100) as u128
}

/// The custody table after `amount` was credited to `account` in `token` for
/// a proposal. A credit of nothing changes nothing.
pub open spec fn credit_one(
    custody: CustodyTable,
    account: Seq<char>,
    token: Seq<char>,
    amount: u128,
    proposal_id: u64,
) -> Result<CustodyTable, ContractError> {
    if amount == 0 {
        Ok(custody)
    } else {
        match credited(lookup(custody, (account, token)), amount, proposal_id, None) {
            Err(e) => Err(e),
            Ok(entry) => Ok(put(custody, (account, token), entry)),
        }
    }
}

/// The custody table after one shareholder was credited with its part of
/// each total, up to the first credit that is refused. A credit adds to what
/// the shareholder holds in that token.
pub open spec fn credit_tokens(
    custody: CustodyTable,
    holder: GoodFeeView,
    sums: Seq<(Seq<char>, u128)>,
    proposal_id: u64,
) -> Result<CustodyTable, ContractError>
    decreases sums.len(),
{
    if sums.len() == 0 {
        Ok(custody)
    } else {
        match credit_one(
            custody,
            holder.recipient,
            sums[0].0,
            share_of(sums[0].1, holder.percent_share),
            proposal_id,
        ) {
            Err(e) => Err(e),
            Ok(next) => credit_tokens(next, holder, sums.drop_first(), proposal_id),
        }
    }
}

/// The custody table after each shareholder in turn was credited, up to the
/// first credit that is refused.
pub open spec fn credit_holders(
    custody: CustodyTable,
    holders: Seq<GoodFeeView>,
    sums: Seq<(Seq<char>, u128)>,
    proposal_id: u64,
) -> Result<CustodyTable, ContractError>
    decreases holders.len(),
{
    if holders.len() == 0 {
        Ok(custody)
    } else {
        match credit_tokens(custody, holders[0], sums, proposal_id) {
            Err(e) => Err(e),
            Ok(next) => credit_holders(next, holders.drop_first(), sums, proposal_id),
        }
    }
}

/// What distributing a proposal's locked funds does. The locked custody
/// entries of the proposal are added up per token and removed; then every
/// shareholder of the application, applicants first, is credited with its
/// percentage of each total. The distribution is refused as a whole where
/// the application is unknown, where a total or a holding would pass the
/// largest amount that can be held, and where a shareholder holds funds in a
/// token that nothing can be added to.
pub open spec fn reward_outcome(
    l: LedgerView,
    proposal_id: u64,
    applicant: Seq<char>,
) -> Result<LedgerView, ContractError> {
    match lookup(l.applications, (proposal_id, applicant)) {
        None => Err(ContractError::ApplicationNotFound),
        Some(application) => match locked_totals(l.custody_funds, proposal_id) {
            None => Err(ContractError::Overflow),
            Some(sums) => match credit_holders(
                without(l.custody_funds, locked_for(proposal_id)),
                application.shareholders(),
                sums,
                proposal_id,
            ) {
                Err(e) => Err(e),
                Ok(custody) => Ok(LedgerView { custody_funds: custody, ..l }),
            },
        },
    }
}

/// Adds up the locked funds of the proposal per token.
fn get_locked_totals(ledger: &Ledger, proposal_id: u64) -> (r: Option<Table<String, u128>>)
    requires
        ledger.wf(),
    ensures
        match locked_totals(ledger@.custody_funds, proposal_id) {
            Some(sums) => r is Some && r->0@ == sums && r->0.wf(),
            None => r is None,
        },
{
    let mut sums: Table<String, u128> = Table::new();
    let ghost custody = ledger@.custody_funds;
    let mut i: usize = 0;
    assert(custody.skip(0) =~= custody);
    while i < ledger.custody_funds.len()
        invariant
            custody == ledger@.custody_funds,
            i <= custody.len(),
            sums.wf(),
            sum_locked(custody.skip(i as int), proposal_id, sums@) == locked_totals(
                custody,
                proposal_id,
            ),
        decreases custody.len() - i,
    {
        let key = ledger.custody_funds.key_at(i);
        let value = ledger.custody_funds.value_at(i);
        assert(custody.skip(i as int).drop_first() =~= custody.skip(i + 1));
        if value.proposal_id == proposal_id && value.locked {
            let so_far = match sums.get(&key.1) {
                Some(a) => *a,
                None => 0,
            };
            if so_far > u128::MAX - value.amount {
                return None;
            }
            sums.insert(key.1.clone(), so_far + value.amount);
        }
        i += 1;
    }
    Some(sums)
}

/// Copies the custody table without the locked funds of the proposal.
fn without_locked(ledger: &Ledger, proposal_id: u64) -> (r: Table<(String, String), CustodyFunds>)
    requires
        ledger.wf(),
    ensures
        r.wf(),
        r@ == without(ledger@.custody_funds, locked_for(proposal_id)),
{
    let mut kept: Vec<((String, String), CustodyFunds)> = Vec::new();
    let ghost custody = ledger@.custody_funds;
    let mut i: usize = 0;
    while i < ledger.custody_funds.len()
        invariant
            custody == ledger@.custody_funds,
            i <= custody.len(),
            kept.deep_view() == without(custody.take(i as int), locked_for(proposal_id)),
        decreases custody.len() - i,
    {
        let key = ledger.custody_funds.key_at(i);
        let value = ledger.custody_funds.value_at(i);
        assert(custody.take(i + 1).drop_last() =~= custody.take(i as int));
        if !(value.proposal_id == proposal_id && value.locked) {
            let entry = (key.duplicate(), value.duplicate());
            kept.push(entry);
        }
        i += 1;
    }
    assert(custody.take(custody.len() as int) =~= custody);
    let table = Table { entries: kept };
    assert(table@ =~= kept.deep_view());
    proof {
        lemma_without(custody, locked_for(proposal_id));
    }
    table
}

/// Credits `amount` to `account` in `token` for a proposal.
fn credit_account(
    custody: &mut Table<(String, String), CustodyFunds>,
    account: &String,
    token: &String,
    amount: u128,
    proposal_id: u64,
) -> (r: Result<(), ContractError>)
    requires
        old(custody).wf(),
    ensures
        final(custody).wf(),
        match credit_one(old(custody)@, account@, token@, amount, proposal_id) {
            Ok(next) => r is Ok && final(custody)@ == next,
            Err(e) => r is Err && r->Err_0 == e && final(custody)@ == old(custody)@,
        },
{
    if amount == 0 {
        return Ok(());
    }
    let key = (account.clone(), token.clone());
    let entry = match credit_entry(custody.get(&key), amount, proposal_id, None) {
        Err(e) => {
            return Err(e);
        },
        Ok(entry) => entry,
    };
    custody.insert(key, entry);
    Ok(())
}

/// Credits one shareholder with its part of each total. Where a credit is
/// refused, the credits before it stay applied.
fn credit_shareholder(
    custody: &mut Table<(String, String), CustodyFunds>,
    holder: &GoodFee,
    sums: &Table<String, u128>,
    proposal_id: u64,
) -> (r: Result<(), ContractError>)
    requires
        old(custody).wf(),
        holder.percent_share <= 100,
    ensures
        final(custody).wf(),
        match credit_tokens(old(custody)@, holder@, sums@, proposal_id) {
            Ok(next) => r is Ok && final(custody)@ == next,
            Err(e) => r is Err && r->Err_0 == e,
        },
{
    let ghost start = custody@;
    let mut j: usize = 0;
    assert(sums@.skip(0) =~= sums@);
    while j < sums.len()
        invariant
            custody.wf(),
            holder.percent_share <= 100,
            j <= sums@.len(),
            start == old(custody)@,
            credit_tokens(custody@, holder@, sums@.skip(j as int), proposal_id) == credit_tokens(
                start,
                holder@,
                sums@,
                proposal_id,
            ),
        decreases sums@.len() - j,
    {
        let token = sums.key_at(j);
        let total = *sums.value_at(j);
        assert(sums@.skip(j as int)[0] == sums@[j as int]);
        assert(sums@.skip(j as int).drop_first() =~= sums@.skip(j + 1));
        assert(total * holder.percent_share / 100 <= total) by (nonlinear_arith)
            requires
                holder.percent_share <= 100,
        ;
        let amount = percent_of(total, holder.percent_share);
        match credit_account(custody, &holder.recipient, token, amount, proposal_id) {
            Err(e) => {
                return Err(e);
            },
            Ok(()) => {},
        }
        j += 1;
    }
    Ok(())
}

/// Pays the locked funds of a proposal out to the shareholders of an
/// application, each by its percentage.
pub fn reward_applicants(ledger: &mut Ledger, proposal_id: u64, application_sender: &String) -> (r:
    Result<(), ContractError>)
    requires
        old(ledger).wf(),
    ensures
        final(ledger).wf(),
        applies(
            reward_outcome(old(ledger)@, proposal_id, application_sender@),
            r,
            old(ledger)@,
            final(ledger)@,
        ),
{
    let key = (proposal_id, application_sender.clone());
    let holders = match ledger.applications.get(&key) {
        None => {
            return Err(ContractError::ApplicationNotFound);
        },
        Some(application) => shareholders(application),
    };
    let ghost application = lookup(ledger@.applications, (proposal_id, application_sender@))->0;
    proof {
        assert forall|i: int| 0 <= i < holders.deep_view().len() implies (
        #[trigger] holders.deep_view()[i]).percent_share <= 100 by {
            lemma_share_bounded(application.shareholders(), i);
        }
    }
    let sums = match get_locked_totals(ledger, proposal_id) {
        None => {
            return Err(ContractError::Overflow);
        },
        Some(sums) => sums,
    };
    let mut custody = without_locked(ledger, proposal_id);
    let ghost rest = custody@;
    let mut i: usize = 0;
    assert(holders.deep_view().skip(0) =~= holders.deep_view());
    while i < holders.len()
        invariant
            custody.wf(),
            ledger.wf(),
            *ledger == *old(ledger),
            application == lookup(ledger@.applications, (proposal_id, application_sender@))->0,
            lookup(ledger@.applications, (proposal_id, application_sender@)) is Some,
            holders.deep_view() == application.shareholders(),
            locked_totals(ledger@.custody_funds, proposal_id) == Some(sums@),
            rest == without(ledger@.custody_funds, locked_for(proposal_id)),
            i <= holders@.len(),
            forall|k: int|
                0 <= k < holders.deep_view().len() ==> (#[trigger] holders.deep_view()[
                    k
                ]).percent_share <= 100,
            credit_holders(custody@, holders.deep_view().skip(i as int), sums@, proposal_id)
                == credit_holders(rest, holders.deep_view(), sums@, proposal_id),
        decreases holders@.len() - i,
    {
        assert(holders.deep_view().skip(i as int)[0] == holders@[i as int]@);
        assert(holders.deep_view().skip(i as int).drop_first() =~= holders.deep_view().skip(i + 1));
        match credit_shareholder(&mut custody, &holders[i], &sums, proposal_id) {
            Err(e) => {
                return Err(e);
            },
            Ok(()) => {},
        }
        i += 1;
    }
    proof {
        let p = position(ledger@.applications, (proposal_id, application_sender@));
        assert(ledger@.applications[p].1.wf());
        lemma_conserved_reward(
            ledger@.custody_funds,
            ledger@.proposal_funding,
            application.shareholders(),
            proposal_id,
        );
    }
    ledger.custody_funds = custody;
    Ok(())
}

/// Storing an application that keeps the rule on shareholders, among
/// applications that keep it, leaves a table of applications that keep it.
pub proof fn lemma_put_keeps_rule(
    s: Seq<((u64, Seq<char>), ApplicationView)>,
    key: (u64, Seq<char>),
    application: ApplicationView,
)
    requires
        forall|i: int| 0 <= i < s.len() ==> (#[trigger] s[i]).1.wf(),
        application.wf(),
    ensures
        forall|i: int|
            0 <= i < put(s, key, application).len() ==> (#[trigger] put(
                s,
                key,
                application,
            )[i]).1.wf(),
{
    let t = put(s, key, application);
    assert forall|i: int| 0 <= i < t.len() implies (#[trigger] t[i]).1.wf() by {
        if !has_key(s, key) && i < s.len() {
            assert(t[i] == s[i]);
        }
    }
}

/// What an auditor's verification does. It is refused where the application
/// is unknown, where the sender is none of its auditors, and where the
/// sender has verified before. Otherwise the sender is noted as having
/// verified, and once every auditor has, the locked funds are paid out.
pub open spec fn verify_outcome(
    l: LedgerView,
    sender: Seq<char>,
    proposal_id: u64,
    applicant: Seq<char>,
) -> Result<LedgerView, ContractError> {
    match lookup(l.applications, (proposal_id, applicant)) {
        None => Err(ContractError::ApplicationNotFound),
        Some(application) => if !names(application.auditors, sender) {
            Err(ContractError::NonAuthorized)
        } else if application.verifications.contains(sender) {
            Err(ContractError::AlreadyVerified)
        } else {
            let verified = ApplicationView {
                verifications: application.verifications.push(sender),
                ..application
            };
            let noted = LedgerView {
                applications: put(l.applications, (proposal_id, applicant), verified),
                ..l
            };
            if verified.auditors.len() == verified.verifications.len() {
                reward_outcome(noted, proposal_id, applicant)
            } else {
                Ok(noted)
            }
        },
    }
}

/// Notes that auditor `sender` has verified the application of
/// `application_sender`, and pays the locked funds out once every auditor
/// has.
pub fn verify_application(
    ledger: &mut Ledger,
    sender: String,
    proposal_id: u64,
    application_sender: String,
) -> (r: NeutronResponse)
    requires
        old(ledger).wf(),
    ensures
        final(ledger).wf(),
        settles(
            verify_outcome(old(ledger)@, sender@, proposal_id, application_sender@),
            r,
            old(ledger)@,
            final(ledger)@,
        ),
{
    let key = (proposal_id, application_sender.clone());
    let mut application = match ledger.applications.get(&key) {
        None => {
            return Err(ContractError::ApplicationNotFound);
        },
        Some(application) => application.duplicate(),
    };
    if !is_named(&application.auditors, &sender) {
        return Err(ContractError::NonAuthorized);
    }
    if is_listed(&application.verifications, &sender) {
        return Err(ContractError::AlreadyVerified);
    }
    let ghost before = application@;
    let ghost who = sender@;
    application.verifications.push(sender);
    assert(application.verifications.deep_view() =~= before.verifications.push(who));
    proof {
        lemma_put(ledger@.applications, key.deep_view(), application@);
    }
    if application.auditors.len() == application.verifications.len() {
        match reward_applicants(ledger, proposal_id, &application_sender) {
            Err(e) => {
                return Err(e);
            },
            Ok(()) => {},
        }
    }
    ledger.applications.insert(key, application);
    proof {
        lemma_put_keeps_rule(
            old(ledger)@.applications,
            (proposal_id, application_sender@),
            application@,
        );
    }
    Ok(Response::default())
}

/// What automatic agreement does for one token. The last depositor's
/// custody entry in the token must exist. Where it is unlocked and belongs
/// to the proposal, it is locked and its amount is added to what is
/// committed under the depositor's name, which must be on record. Where it
/// is locked already, or belongs to another proposal, nothing changes.
pub open spec fn agree_one(
    l: LedgerView,
    proposal_id: u64,
    token: Seq<char>,
    funding: ProjectFundingView,
) -> Result<LedgerView, ContractError> {
    match lookup(l.custody_funds, (funding.sender, token)) {
        None => Err(ContractError::CustodyFundsNotFound),
        Some(held) => if held.locked || held.proposal_id != proposal_id {
            Ok(l)
        } else {
            match lookup(l.application_funding, (proposal_id, funding.sender, token)) {
                None => Err(ContractError::ApplicationFundsNotFound),
                Some(a) => if a + held.amount > u128::MAX {
                    Err(ContractError::Overflow)
                } else {
                    Ok(
                        LedgerView {
                            custody_funds: locked_at(l.custody_funds, (funding.sender, token)),
                            application_funding: put(
                                l.application_funding,
                                (proposal_id, funding.sender, token),
                                (a + held.amount) as u128,
                            ),
                            ..l
                        },
                    )
                },
            }
        },
    }
}

/// Automatic agreement for each of `funds` in turn, up to the first that
/// fails.
pub open spec fn agree_all(
    l: LedgerView,
    proposal_id: u64,
    funds: Seq<(Seq<char>, ProjectFundingView)>,
) -> Result<LedgerView, ContractError>
    decreases funds.len(),
{
    if funds.len() == 0 {
        Ok(l)
    } else {
        match agree_one(l, proposal_id, funds[0].0, funds[0].1) {
            Err(e) => Err(e),
            Ok(m) => agree_all(m, proposal_id, funds.drop_first()),
        }
    }
}

/// What automatic agreement on a proposal does: every token of the proposal
/// that is flagged for it is agreed on, in table order.
pub open spec fn auto_agree_outcome(l: LedgerView, proposal_id: u64) -> Result<
    LedgerView,
    ContractError,
> {
    agree_all(l, proposal_id, proposal_funds(l.proposal_funding, proposal_id, Some(true)))
}

/// Agrees on one flagged token.
fn agree_step(
    ledger: &mut Ledger,
    proposal_id: u64,
    token: &String,
    funding: &ProjectFunding,
) -> (r: Result<(), ContractError>)
    requires
        old(ledger).wf(),
    ensures
        final(ledger).wf(),
        applies(
            agree_one(old(ledger)@, proposal_id, token@, funding@),
            r,
            old(ledger)@,
            final(ledger)@,
        ),
{
    let custody_key = (funding.sender.clone(), token.clone());
    let (locked, owner, amount) = match ledger.custody_funds.get(&custody_key) {
        None => {
            return Err(ContractError::CustodyFundsNotFound);
        },
        Some(held) => (held.locked, held.proposal_id, held.amount),
    };
    if locked || owner != proposal_id {
        return Ok(());
    }
    let funding_key = (proposal_id, funding.sender.clone(), token.clone());
    let so_far = match ledger.application_funding.get(&funding_key) {
        None => {
            return Err(ContractError::ApplicationFundsNotFound);
        },
        Some(a) => *a,
    };
    if so_far > u128::MAX - amount {
        return Err(ContractError::Overflow);
    }
    proof {
        lemma_conserved_locked_at(
            ledger@.custody_funds,
            ledger@.proposal_funding,
            custody_key.deep_view(),
        );
    }
    lock_entry(&mut ledger.custody_funds, custody_key);
    ledger.application_funding.insert(funding_key, so_far + amount);
    Ok(())
}

/// Agrees on each flagged token in turn. Where a step fails, the steps
/// before it stay applied: the caller restores the ledger.
fn auto_agree_steps(ledger: &mut Ledger, proposal_id: u64) -> (r: Result<(), ContractError>)
    requires
        old(ledger).wf(),
    ensures
        final(ledger).wf(),
        match auto_agree_outcome(old(ledger)@, proposal_id) {
            Ok(l) => r is Ok && final(ledger)@ == l,
            Err(e) => r == Err::<(), _>(e),
        },
{
    let funds = query_proposal_funds(ledger, proposal_id, Some(true));
    let ghost start = ledger@;
    let ghost list = funds.deep_view();
    let mut i: usize = 0;
    assert(list.skip(0) =~= list);
    while i < funds.len()
        invariant
            ledger.wf(),
            start == old(ledger)@,
            list == funds.deep_view(),
            list == proposal_funds(start.proposal_funding, proposal_id, Some(true)),
            i <= funds@.len(),
            agree_all(start, proposal_id, list) == agree_all(
                ledger@,
                proposal_id,
                list.skip(i as int),
            ),
        decreases funds@.len() - i,
    {
        assert(list.skip(i as int)[0] == funds@[i as int].deep_view());
        assert(list.skip(i as int).drop_first() =~= list.skip(i + 1));
        match agree_step(ledger, proposal_id, &funds[i].0, &funds[i].1) {
            Err(e) => {
                return Err(e);
            },
            Ok(()) => {},
        }
        i += 1;
    }
    Ok(())
}

/// Locks the funds that were deposited for automatic agreement on the
/// proposal and commits them.
pub fn auto_agree(ledger: &mut Ledger, proposal_id: u64) -> (r: Result<(), ContractError>)
    requires
        old(ledger).wf(),
    ensures
        final(ledger).wf(),
        applies(auto_agree_outcome(old(ledger)@, proposal_id), r, old(ledger)@, final(ledger)@),
{
    let saved = ledger.duplicate();
    let r = auto_agree_steps(ledger, proposal_id);
    if r.is_err() {
        *ledger = saved;
    }
    r
}

/// `amount` is strictly more than half of `total`.
pub open spec fn majority(amount: u128, total: u128) -> bool {
    2 * amount > total
}

/// Whether `amount` is strictly more than half of `total`.
pub fn is_majority(amount: u128, total: u128) -> (b: bool)
    ensures
        b == majority(amount, total),
{
    amount > total / 2
}

/// The quorum check over `funds`, the tokens committed to an application
/// with their amounts. For each token in turn the proposal's funding in it
/// is looked up, which must exist; where the committed amount is a majority
/// of it, automatic agreement runs on the proposal. The flag says whether it
/// ran at all; `fired` is the flag so far.
pub open spec fn check_all(
    l: LedgerView,
    proposal_id: u64,
    funds: Seq<(Seq<char>, u128)>,
    fired: bool,
) -> Result<(LedgerView, bool), ContractError>
    decreases funds.len(),
{
    if funds.len() == 0 {
        Ok((l, fired))
    } else {
        match lookup(l.proposal_funding, (proposal_id, funds[0].0)) {
            None => Err(ContractError::ProposalFundingNotFound),
            Some(f) => if majority(funds[0].1, f.amount) {
                match auto_agree_outcome(l, proposal_id) {
                    Err(e) => Err(e),
                    Ok(m) => check_all(m, proposal_id, funds.drop_first(), true),
                }
            } else {
                check_all(l, proposal_id, funds.drop_first(), fired)
            },
        }
    }
}

/// What the quorum check on an application does.
pub open spec fn check_outcome(l: LedgerView, proposal_id: u64, applicant: Seq<char>) -> Result<
    (LedgerView, bool),
    ContractError,
> {
    check_all(
        l,
        proposal_id,
        application_funds(l.application_funding, proposal_id, applicant),
        false,
    )
}

/// Runs the quorum check step by step. Where a step fails, the steps before
/// it stay applied: the caller restores the ledger.
fn check_steps(ledger: &mut Ledger, proposal_id: u64, applicant: &String) -> (r: Result<
    bool,
    ContractError,
>)
    requires
        old(ledger).wf(),
    ensures
        final(ledger).wf(),
        match check_outcome(old(ledger)@, proposal_id, applicant@) {
            Ok(done) => r == Ok::<bool, ContractError>(done.1) && final(ledger)@ == done.0,
            Err(e) => r == Err::<bool, _>(e),
        },
{
    let funds = query_application_funds(ledger, proposal_id, applicant);
    let ghost start = ledger@;
    let ghost list = funds.deep_view();
    let mut fired = false;
    let mut i: usize = 0;
    assert(list.skip(0) =~= list);
    while i < funds.len()
        invariant
            ledger.wf(),
            start == old(ledger)@,
            list == funds.deep_view(),
            list == application_funds(start.application_funding, proposal_id, applicant@),
            i <= funds@.len(),
            check_all(start, proposal_id, list, false) == check_all(
                ledger@,
                proposal_id,
                list.skip(i as int),
                fired,
            ),
        decreases funds@.len() - i,
    {
        let token = &funds[i].0;
        let amount = funds[i].1;
        assert(list.skip(i as int).drop_first() =~= list.skip(i + 1));
        let total = match ledger.proposal_funding.get(&(proposal_id, token.clone())) {
            None => {
                return Err(ContractError::ProposalFundingNotFound);
            },
            Some(f) => f.amount,
        };
        if is_majority(amount, total) {
            match auto_agree_steps(ledger, proposal_id) {
                Err(e) => {
                    return Err(e);
                },
                Ok(()) => {},
            }
            fired = true;
        }
        i += 1;
    }
    Ok(fired)
}

/// Checks whether the funds committed to an application reach the quorum in
/// some token, and agrees automatically for each token in which they do.
/// Answers whether automatic agreement ran.
pub fn check_for_auto_agree(
    ledger: &mut Ledger,
    proposal_id: u64,
    application_sender: &String,
) -> (r: Result<bool, ContractError>)
    requires
        old(ledger).wf(),
    ensures
        final(ledger).wf(),
        match check_outcome(old(ledger)@, proposal_id, application_sender@) {
            Ok(done) => r == Ok::<bool, ContractError>(done.1) && final(ledger)@ == done.0,
            Err(e) => r == Err::<bool, _>(e) && final(ledger)@ == old(ledger)@,
        },
{
    let saved = ledger.duplicate();
    let r = check_steps(ledger, proposal_id, application_sender);
    if r.is_err() {
        *ledger = saved;
    }
    r
}

/// What accepting an application does. It is refused where the application
/// is unknown and where the sender is neither the one who applied nor one
/// of the listed applicants. Otherwise the application is marked accepted
/// and the quorum check runs.
pub open spec fn accept_outcome(
    l: LedgerView,
    sender: Seq<char>,
    proposal_id: u64,
    applicant: Seq<char>,
) -> Result<LedgerView, ContractError> {
    match lookup(l.applications, (proposal_id, applicant)) {
        None => Err(ContractError::ApplicationNotFound),
        Some(application) => if sender != applicant && !names(application.applicants, sender) {
            Err(ContractError::NonAuthorized)
        } else {
            let accepted = LedgerView {
                applications: put(
                    l.applications,
                    (proposal_id, applicant),
                    ApplicationView { accepted: true, ..application },
                ),
                ..l
            };
            match check_outcome(accepted, proposal_id, applicant) {
                Err(e) => Err(e),
                Ok(done) => Ok(done.0),
            }
        },
    }
}

/// Marks the application of `application_sender` as accepted by its
/// applicants, and runs the quorum check on it.
pub fn accept_application(
    ledger: &mut Ledger,
    sender: String,
    proposal_id: u64,
    application_sender: String,
) -> (r: NeutronResponse)
    requires
        old(ledger).wf(),
    ensures
        final(ledger).wf(),
        settles(
            accept_outcome(old(ledger)@, sender@, proposal_id, application_sender@),
            r,
            old(ledger)@,
            final(ledger)@,
        ),
{
    let key = (proposal_id, application_sender.clone());
    let mut application = match ledger.applications.get(&key) {
        None => {
            return Err(ContractError::ApplicationNotFound);
        },
        Some(application) => application.duplicate(),
    };
    if !sender.same_as(&application_sender) && !is_named(&application.applicants, &sender) {
        return Err(ContractError::NonAuthorized);
    }
    let saved = ledger.duplicate();
    application.accepted = true;
    proof {
        lemma_put_keeps_rule(ledger@.applications, key.deep_view(), application@);
    }
    ledger.applications.insert(key, application);
    match check_steps(ledger, proposal_id, &application_sender) {
        Err(e) => {
            *ledger = saved;
            Err(e)
        },
        Ok(_) => Ok(Response::default()),
    }
}

/// What registering an interchain account does: the account's port is
/// noted as registered and not bound yet, and the answer asks the chain for
/// the account, under the proposal's identifier written in decimal.
pub open spec fn register_ica_outcome(
    l: LedgerView,
    contract_address: Seq<char>,
    connection_id: Seq<char>,
    proposal_id: u64,
) -> Result<Effect, ContractError> {
    Ok(
        (
            LedgerView {
                interchain_accounts: put(
                    l.interchain_accounts,
                    port_of(contract_address, decimal(proposal_id as nat)),
                    None,
                ),
                ..l
            },
            seq![
                OutboundMsgView::RegisterInterchainAccount {
                    connection_id,
                    interchain_account_id: decimal(proposal_id as nat),
                },
            ],
        ),
    )
}

/// Asks for an interchain account on the connection for the proposal, and
/// notes the account's port as registered and not bound yet.
pub fn register_ica(ledger: &mut Ledger, env: Env, connection_id: String, proposal_id: u64) -> (r:
    NeutronResponse)
    requires
        old(ledger).wf(),
    ensures
        final(ledger).wf(),
        answers(
            register_ica_outcome(
                old(ledger)@,
                env.contract.address@,
                connection_id@,
                proposal_id,
            ),
            r,
            old(ledger)@,
            final(ledger)@,
        ),
{
    let account_id = u64_to_string(proposal_id);
    let key = get_port_id(&env.contract.address, &account_id);
    let register = OutboundMsg::RegisterInterchainAccount {
        connection_id,
        interchain_account_id: account_id,
    };
    ledger.interchain_accounts.insert(key, None);
    let mut messages: Vec<OutboundMsg> = Vec::new();
    messages.push(register);
    let response = Response { messages };
    assert(response@.messages =~= seq![register@]);
    Ok(response)
}

/// The request that pays a custody entry out to its holder.
pub open spec fn send_back(
    sender: Seq<char>,
    token: Seq<char>,
    fund: CustodyFundsView,
) -> OutboundMsgView {
    OutboundMsgView::Send { to_address: sender, denom: token, amount: fund.amount }
}

/// Builds the request that pays a custody entry out to its holder.
pub fn send_back_msg(sender: &String, token: &String, fund: &CustodyFunds) -> (msg: OutboundMsg)
    ensures
        msg@ == send_back(sender@, token@, fund@),
{
    OutboundMsg::Send { to_address: sender.clone(), denom: token.clone(), amount: fund.amount }
}

/// The requests that pay out what `funds` lists, one for each entry.
pub open spec fn send_back_all(
    sender: Seq<char>,
    funds: Seq<(Seq<char>, CustodyFundsView)>,
) -> Seq<OutboundMsgView> {
    Seq::new(funds.len(), |i: int| send_back(sender, funds[i].0, funds[i].1))
}

/// Marks the custody entries that an account can withdraw: its unlocked
/// funds.
pub open spec fn unlocked_of(sender: Seq<char>) -> spec_fn(
    ((Seq<char>, Seq<char>), CustodyFundsView),
) -> bool {
    |e: ((Seq<char>, Seq<char>), CustodyFundsView)| e.0.0 == sender && !e.1.locked
}

/// What a withdrawal does: it is refused where the sender holds nothing
/// unlocked. Otherwise the sender's unlocked custody entries are taken out
/// of the ledger, and the answer asks for each of them to be paid out to
/// the sender.
pub open spec fn withdraw_outcome(l: LedgerView, sender: Seq<char>) -> Result<
    Effect,
    ContractError,
> {
    let funds = address_funds(l.custody_funds, sender, true);
    if funds.len() == 0 {
        Err(ContractError::NoFunds)
    } else {
        Ok(
            (
                LedgerView {
                    custody_funds: without(l.custody_funds, unlocked_of(sender)),
                    ..l
                },
                send_back_all(sender, funds),
            ),
        )
    }
}

/// Copies the custody table without the unlocked funds of an account.
fn without_unlocked(ledger: &Ledger, sender: &String) -> (r: Table<(String, String), CustodyFunds>)
    requires
        ledger.wf(),
    ensures
        r.wf(),
        r@ == without(ledger@.custody_funds, unlocked_of(sender@)),
{
    let mut kept: Vec<((String, String), CustodyFunds)> = Vec::new();
    let ghost custody = ledger@.custody_funds;
    let mut i: usize = 0;
    assert(kept.deep_view() =~= without(custody.take(0), unlocked_of(sender@)));
    while i < ledger.custody_funds.len()
        invariant
            custody == ledger@.custody_funds,
            i <= custody.len(),
            kept.deep_view() == without(custody.take(i as int), unlocked_of(sender@)),
        decreases custody.len() - i,
    {
        let key = ledger.custody_funds.key_at(i);
        let value = ledger.custody_funds.value_at(i);
        assert(custody.take(i + 1).drop_last() =~= custody.take(i as int));
        assert(custody.take(i + 1).last() == custody[i as int]);
        if !(key.0.same_as(sender) && !value.locked) {
            let ghost prev = kept.deep_view();
            let entry = (key.duplicate(), value.duplicate());
            kept.push(entry);
            assert(kept.deep_view() =~= prev.push(custody[i as int]));
        }
        i += 1;
    }
    assert(custody.take(custody.len() as int) =~= custody);
    let table = Table { entries: kept };
    assert(table@ =~= kept.deep_view());
    proof {
        lemma_without(custody, unlocked_of(sender@));
    }
    table
}

/// Takes everything that `sender` holds unlocked out of custody and asks for
/// it to be paid out, with one request for each token.
pub fn withdraw_funds(ledger: &mut Ledger, sender: String) -> (r: NeutronResponse)
    requires
        old(ledger).wf(),
    ensures
        final(ledger).wf(),
        answers(withdraw_outcome(old(ledger)@, sender@), r, old(ledger)@, final(ledger)@),
{
    let funds = query_address_funds(ledger, &sender, true);
    if funds.len() == 0 {
        return Err(ContractError::NoFunds);
    }
    let mut messages: Vec<OutboundMsg> = Vec::new();
    let mut i: usize = 0;
    while i < funds.len()
        invariant
            i <= funds@.len(),
            messages@.len() == i,
            forall|j: int|
                0 <= j < i ==> (#[trigger] messages@[j])@ == send_back(
                    sender@,
                    funds.deep_view()[j].0,
                    funds.deep_view()[j].1,
                ),
        decreases funds@.len() - i,
    {
        messages.push(send_back_msg(&sender, &funds[i].0, &funds[i].1));
        i += 1;
    }
    let response = Response { messages };
    assert(response@.messages =~= send_back_all(sender@, funds.deep_view()));
    proof {
        lemma_conserved_without(
            ledger@.custody_funds,
            ledger@.proposal_funding,
            unlocked_of(sender@),
        );
    }
    ledger.custody_funds = without_unlocked(ledger, &sender);
    Ok(response)
}

} // verus!
