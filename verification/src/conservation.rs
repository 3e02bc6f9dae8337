//! Conservation of funds: what is held in custody for a proposal in a token
//! never passes what the proposal has received in that token.

use crate::error::ContractError;
use crate::execute::{
    credit_holders, credit_one, credit_tokens, credited, deposit_outcome, funded, locked_at,
    locked_for, share_of, sum_locked, CustodyTable,
};
use crate::laws::lemma_sums_distinct;
use crate::query::FundingTable;
use crate::storage::{
    lemma_share_total_concat, share_total, CustodyFundsView, GoodFeeView, LedgerView,
    ProjectFundingView,
};
use crate::table::{
    distinct_keys, has_key, lemma_position_unique, lemma_put, lemma_without, lookup, position,
    put, without,
};
use crate::utils::lemma_share_bounded;
use vstd::prelude::*;

verus! {

/// What a custody entry adds to the funds held for a proposal in a token.
pub open spec fn counts_for(
    e: ((Seq<char>, Seq<char>), CustodyFundsView),
    proposal_id: u64,
    token: Seq<char>,
) -> nat {
    if e.1.proposal_id == proposal_id && e.0.1 == token {
        e.1.amount as nat
    } else {
        0
    }
}

/// The funds held in custody for a proposal in a token, over all accounts,
/// locked or not.
pub open spec fn held_for(custody: CustodyTable, proposal_id: u64, token: Seq<char>) -> nat
    decreases custody.len(),
{
    if custody.len() == 0 {
        0
    } else {
        held_for(custody.drop_last(), proposal_id, token) + counts_for(
            custody.last(),
            proposal_id,
            token,
        )
    }
}

/// What a proposal has received in a token.
pub open spec fn received(funding: FundingTable, proposal_id: u64, token: Seq<char>) -> nat {
    match lookup(funding, (proposal_id, token)) {
        Some(f) => f.amount as nat,
        None => 0,
    }
}

/// Funds are conserved: for no proposal and token does custody hold more
/// than the proposal has received.
pub open spec fn conserved(custody: CustodyTable, funding: FundingTable) -> bool {
    forall|p: u64, t: Seq<char>| #[trigger] held_for(custody, p, t) <= received(funding, p, t)
}

/// Of the funds held for a proposal in a token, the part in entries that
/// `taken` marks.
pub open spec fn taken_for(
    custody: CustodyTable,
    taken: spec_fn(((Seq<char>, Seq<char>), CustodyFundsView)) -> bool,
    proposal_id: u64,
    token: Seq<char>,
) -> nat
    decreases custody.len(),
{
    if custody.len() == 0 {
        0
    } else {
        taken_for(custody.drop_last(), taken, proposal_id, token) + if taken(custody.last()) {
            counts_for(custody.last(), proposal_id, token)
        } else {
            0
        }
    }
}

/// A new entry adds what it counts for.
pub proof fn lemma_held_push(
    custody: CustodyTable,
    e: ((Seq<char>, Seq<char>), CustodyFundsView),
    p: u64,
    t: Seq<char>,
)
    ensures
        held_for(custody.push(e), p, t) == held_for(custody, p, t) + counts_for(e, p, t),
{
    assert(custody.push(e).drop_last() =~= custody);
}

/// A changed entry counts for what it now holds in place of what it held.
pub proof fn lemma_held_update(
    custody: CustodyTable,
    q: int,
    e: ((Seq<char>, Seq<char>), CustodyFundsView),
    p: u64,
    t: Seq<char>,
)
    requires
        0 <= q < custody.len(),
    ensures
        held_for(custody.update(q, e), p, t) + counts_for(custody[q], p, t) == held_for(
            custody,
            p,
            t,
        ) + counts_for(e, p, t),
    decreases custody.len(),
{
    let after = custody.update(q, e);
    if q == custody.len() - 1 {
        assert(after.drop_last() =~= custody.drop_last());
    } else {
        assert(after.drop_last() =~= custody.drop_last().update(q, e));
        lemma_held_update(custody.drop_last(), q, e, p, t);
    }
}

/// No entry adds more than the whole.
pub proof fn lemma_held_covers(custody: CustodyTable, q: int, p: u64, t: Seq<char>)
    requires
        0 <= q < custody.len(),
    ensures
        counts_for(custody[q], p, t) <= held_for(custody, p, t),
    decreases custody.len(),
{
    if q < custody.len() - 1 {
        lemma_held_covers(custody.drop_last(), q, p, t);
    }
}

/// The first entries of a table hold no more than the whole.
pub proof fn lemma_held_prefix(custody: CustodyTable, n: int, p: u64, t: Seq<char>)
    requires
        0 <= n <= custody.len(),
    ensures
        held_for(custody.take(n), p, t) <= held_for(custody, p, t),
    decreases custody.len(),
{
    if n == custody.len() {
        assert(custody.take(n) =~= custody);
    } else {
        assert(custody.drop_last().take(n) =~= custody.take(n));
        lemma_held_prefix(custody.drop_last(), n, p, t);
    }
}

/// Where no entry counts, nothing is held.
pub proof fn lemma_held_nothing(custody: CustodyTable, p: u64, t: Seq<char>)
    requires
        forall|i: int| 0 <= i < custody.len() ==> counts_for(#[trigger] custody[i], p, t) == 0,
    ensures
        held_for(custody, p, t) == 0,
    decreases custody.len(),
{
    if custody.len() > 0 {
        let before = custody.drop_last();
        assert forall|i: int| 0 <= i < before.len() implies counts_for(
            #[trigger] before[i],
            p,
            t,
        ) == 0 by {
            assert(before[i] == custody[i]);
        }
        lemma_held_nothing(before, p, t);
        assert(counts_for(custody[custody.len() - 1], p, t) == 0);
    }
}

/// What is held splits into what stays and what is taken out.
pub proof fn lemma_held_without(
    custody: CustodyTable,
    taken: spec_fn(((Seq<char>, Seq<char>), CustodyFundsView)) -> bool,
    p: u64,
    t: Seq<char>,
)
    ensures
        held_for(custody, p, t) == held_for(without(custody, taken), p, t) + taken_for(
            custody,
            taken,
            p,
            t,
        ),
    decreases custody.len(),
{
    if custody.len() > 0 {
        lemma_held_without(custody.drop_last(), taken, p, t);
        if !taken(custody.last()) {
            lemma_held_push(without(custody.drop_last(), taken), custody.last(), p, t);
        }
    }
}

/// What is taken, counted from the first entry on.
pub proof fn lemma_taken_from_front(
    custody: CustodyTable,
    taken: spec_fn(((Seq<char>, Seq<char>), CustodyFundsView)) -> bool,
    p: u64,
    t: Seq<char>,
)
    requires
        custody.len() > 0,
    ensures
        taken_for(custody, taken, p, t) == taken_for(custody.drop_first(), taken, p, t) + if taken(
            custody[0],
        ) {
            counts_for(custody[0], p, t)
        } else {
            0
        },
    decreases custody.len(),
{
    if custody.len() == 1 {
        assert(custody.drop_first() =~= Seq::empty());
        assert(custody.drop_last() =~= Seq::empty());
    } else {
        lemma_taken_from_front(custody.drop_last(), taken, p, t);
        assert(custody.drop_last().drop_first() =~= custody.drop_first().drop_last());
        assert(custody.drop_last()[0] == custody[0]);
        assert(custody.drop_first().last() == custody.last());
    }
}

/// Storing an entry changes what is held by what the entry counts for, less
/// what the entry under the same key counted for.
pub proof fn lemma_held_put(
    custody: CustodyTable,
    key: (Seq<char>, Seq<char>),
    v: CustodyFundsView,
    p: u64,
    t: Seq<char>,
)
    requires
        distinct_keys(custody),
    ensures
        held_for(put(custody, key, v), p, t) + (match lookup(custody, key) {
            Some(h) => counts_for((key, h), p, t),
            None => 0,
        }) == held_for(custody, p, t) + counts_for((key, v), p, t),
{
    if has_key(custody, key) {
        let q = position(custody, key);
        lemma_position_unique(custody, q);
        lemma_held_update(custody, q, (key, v), p, t);
        assert(custody[q] == (key, custody[q].1));
    } else {
        lemma_held_push(custody, (key, v), p, t);
    }
}

/// Locking an entry changes nothing of what is held.
pub proof fn lemma_held_locked_at(
    custody: CustodyTable,
    key: (Seq<char>, Seq<char>),
    p: u64,
    t: Seq<char>,
)
    requires
        distinct_keys(custody),
    ensures
        held_for(locked_at(custody, key), p, t) == held_for(custody, p, t),
{
    match lookup(custody, key) {
        Some(h) => {
            lemma_held_put(custody, key, CustodyFundsView { locked: true, ..h }, p, t);
        },
        None => {},
    }
}

/// Locking an entry keeps funds conserved.
pub proof fn lemma_conserved_locked_at(
    custody: CustodyTable,
    funding: FundingTable,
    key: (Seq<char>, Seq<char>),
)
    requires
        distinct_keys(custody),
        conserved(custody, funding),
    ensures
        conserved(locked_at(custody, key), funding),
{
    assert forall|p: u64, t: Seq<char>| #[trigger]
        held_for(locked_at(custody, key), p, t) <= received(funding, p, t) by {
        lemma_held_locked_at(custody, key, p, t);
        assert(held_for(custody, p, t) <= received(funding, p, t));
    }
}

/// Taking entries out keeps funds conserved.
pub proof fn lemma_conserved_without(
    custody: CustodyTable,
    funding: FundingTable,
    taken: spec_fn(((Seq<char>, Seq<char>), CustodyFundsView)) -> bool,
)
    requires
        conserved(custody, funding),
    ensures
        conserved(without(custody, taken), funding),
{
    assert forall|p: u64, t: Seq<char>| #[trigger]
        held_for(without(custody, taken), p, t) <= received(funding, p, t) by {
        lemma_held_without(custody, taken, p, t);
        assert(held_for(custody, p, t) <= received(funding, p, t));
    }
}

/// A credit adds its amount to what is held for its proposal in its token,
/// and to nothing else.
pub proof fn lemma_held_credited(
    custody: CustodyTable,
    key: (Seq<char>, Seq<char>),
    amount: u128,
    proposal_id: u64,
    remote: Option<Seq<char>>,
    p: u64,
    t: Seq<char>,
)
    requires
        distinct_keys(custody),
        credited(lookup(custody, key), amount, proposal_id, remote) is Ok,
    ensures
        held_for(
            put(custody, key, credited(lookup(custody, key), amount, proposal_id, remote)->Ok_0),
            p,
            t,
        ) == held_for(custody, p, t) + if p == proposal_id && t == key.1 {
            amount as nat
        } else {
            0
        },
{
    let entry = credited(lookup(custody, key), amount, proposal_id, remote)->Ok_0;
    lemma_held_put(custody, key, entry, p, t);
}

/// What a proposal has received changes, where its funding in a token is
/// stored anew, for that proposal and token only.
pub proof fn lemma_received_put(
    funding: FundingTable,
    key: (u64, Seq<char>),
    v: ProjectFundingView,
    p: u64,
    t: Seq<char>,
)
    requires
        distinct_keys(funding),
    ensures
        received(put(funding, key, v), p, t) == if (p, t) == key {
            v.amount as nat
        } else {
            received(funding, p, t)
        },
{
    lemma_put(funding, key, v);
}

/// A deposit that is taken keeps funds conserved.
pub proof fn lemma_conserved_deposit(
    l: LedgerView,
    sender: Seq<char>,
    denom: Seq<char>,
    amount: u128,
    proposal_id: u64,
    auto_agree: bool,
    remote: Option<Seq<char>>,
)
    requires
        distinct_keys(l.custody_funds),
        distinct_keys(l.proposal_funding),
        conserved(l.custody_funds, l.proposal_funding),
        deposit_outcome(
            l,
            sender,
            denom,
            amount,
            proposal_id,
            auto_agree,
            remote,
        ) is Ok,
    ensures
        conserved(
            deposit_outcome(
                l,
                sender,
                denom,
                amount,
                proposal_id,
                auto_agree,
                remote,
            )->Ok_0.custody_funds,
            deposit_outcome(
                l,
                sender,
                denom,
                amount,
                proposal_id,
                auto_agree,
                remote,
            )->Ok_0.proposal_funding,
        ),
{
    let m = deposit_outcome(
        l,
        sender,
        denom,
        amount,
        proposal_id,
        auto_agree,
        remote,
    )->Ok_0;
    if amount != 0 {
        let native = match lookup(l.proposal_funding, (proposal_id, denom)) {
            Some(f) => f.native,
            None => true,
        };
        let funding = ProjectFundingView {
            sender,
            amount: (funded(l, proposal_id, denom) + amount) as u128,
            auto_agree,
            native,
        };
        assert forall|p: u64, t: Seq<char>| #[trigger]
            held_for(m.custody_funds, p, t) <= received(m.proposal_funding, p, t) by {
            lemma_held_credited(
                l.custody_funds,
                (sender, denom),
                amount,
                proposal_id,
                remote,
                p,
                t,
            );
            lemma_received_put(l.proposal_funding, (proposal_id, denom), funding, p, t);
            assert(held_for(l.custody_funds, p, t) <= received(l.proposal_funding, p, t));
        }
    }
}

/// What one credit adds to the funds held.
pub proof fn lemma_held_credit_one(
    custody: CustodyTable,
    account: Seq<char>,
    token: Seq<char>,
    amount: u128,
    proposal_id: u64,
    p: u64,
    t: Seq<char>,
)
    requires
        distinct_keys(custody),
        credit_one(custody, account, token, amount, proposal_id) is Ok,
    ensures
        distinct_keys(credit_one(custody, account, token, amount, proposal_id)->Ok_0),
        held_for(credit_one(custody, account, token, amount, proposal_id)->Ok_0, p, t) == held_for(
            custody,
            p,
            t,
        ) + if p == proposal_id && t == token {
            amount as nat
        } else {
            0
        },
{
    if amount != 0 {
        lemma_held_credited(custody, (account, token), amount, proposal_id, None, p, t);
        lemma_put(
            custody,
            (account, token),
            credited(lookup(custody, (account, token)), amount, proposal_id, None)->Ok_0,
        );
    }
}

/// What a shareholder with a percentage is credited in a token, over the
/// totals.
pub open spec fn token_credit(sums: Seq<(Seq<char>, u128)>, percent: u8, t: Seq<char>) -> nat
    decreases sums.len(),
{
    if sums.len() == 0 {
        0
    } else {
        token_credit(sums.drop_first(), percent, t) + if sums[0].0 == t {
            share_of(sums[0].1, percent) as nat
        } else {
            0
        }
    }
}

/// What all the shareholders are credited in a token.
pub open spec fn all_credit(
    holders: Seq<GoodFeeView>,
    sums: Seq<(Seq<char>, u128)>,
    t: Seq<char>,
) -> nat
    decreases holders.len(),
{
    if holders.len() == 0 {
        0
    } else {
        all_credit(holders.drop_first(), sums, t) + token_credit(sums, holders[0].percent_share, t)
    }
}

/// Crediting one shareholder adds what it is credited to the funds held for
/// the proposal, and nothing to those of another.
pub proof fn lemma_held_credit_tokens(
    custody: CustodyTable,
    holder: GoodFeeView,
    sums: Seq<(Seq<char>, u128)>,
    proposal_id: u64,
    p: u64,
    t: Seq<char>,
)
    requires
        distinct_keys(custody),
        credit_tokens(custody, holder, sums, proposal_id) is Ok,
    ensures
        distinct_keys(credit_tokens(custody, holder, sums, proposal_id)->Ok_0),
        held_for(credit_tokens(custody, holder, sums, proposal_id)->Ok_0, p, t) == held_for(
            custody,
            p,
            t,
        ) + if p == proposal_id {
            token_credit(sums, holder.percent_share, t)
        } else {
            0
        },
    decreases sums.len(),
{
    if sums.len() > 0 {
        let amount = share_of(sums[0].1, holder.percent_share);
        let next = credit_one(custody, holder.recipient, sums[0].0, amount, proposal_id)->Ok_0;
        lemma_held_credit_one(custody, holder.recipient, sums[0].0, amount, proposal_id, p, t);
        lemma_held_credit_tokens(next, holder, sums.drop_first(), proposal_id, p, t);
    }
}

/// Crediting all shareholders adds what they are credited to the funds held
/// for the proposal, and nothing to those of another.
pub proof fn lemma_held_credit_holders(
    custody: CustodyTable,
    holders: Seq<GoodFeeView>,
    sums: Seq<(Seq<char>, u128)>,
    proposal_id: u64,
    p: u64,
    t: Seq<char>,
)
    requires
        distinct_keys(custody),
        credit_holders(custody, holders, sums, proposal_id) is Ok,
    ensures
        distinct_keys(credit_holders(custody, holders, sums, proposal_id)->Ok_0),
        held_for(credit_holders(custody, holders, sums, proposal_id)->Ok_0, p, t) == held_for(
            custody,
            p,
            t,
        ) + if p == proposal_id {
            all_credit(holders, sums, t)
        } else {
            0
        },
    decreases holders.len(),
{
    if holders.len() > 0 {
        let next = credit_tokens(custody, holders[0], sums, proposal_id)->Ok_0;
        lemma_held_credit_tokens(custody, holders[0], sums, proposal_id, p, t);
        lemma_held_credit_holders(next, holders.drop_first(), sums, proposal_id, p, t);
    }
}

/// The total of a token among the totals, counted as nothing where the
/// token has none.
pub open spec fn total_in(sums: Seq<(Seq<char>, u128)>, t: Seq<char>) -> u128 {
    match lookup(sums, t) {
        Some(a) => a,
        None => 0,
    }
}

/// What shareholders are credited of one total, added up from the first on.
pub open spec fn credited_sum(holders: Seq<GoodFeeView>, total: u128) -> nat
    decreases holders.len(),
{
    if holders.len() == 0 {
        0
    } else {
        credited_sum(holders.drop_first(), total) + share_of(total, holders[0].percent_share) as nat
    }
}

/// Among totals that hold no token twice, a shareholder is credited in a
/// token its part of that token's total.
pub proof fn lemma_token_credit(sums: Seq<(Seq<char>, u128)>, percent: u8, t: Seq<char>)
    requires
        distinct_keys(sums),
    ensures
        token_credit(sums, percent, t) == if has_key(sums, t) {
            share_of(total_in(sums, t), percent) as nat
        } else {
            0
        },
    decreases sums.len(),
{
    if sums.len() > 0 {
        let rest = sums.drop_first();
        assert forall|a: int, b: int|
            0 <= a < rest.len() && 0 <= b < rest.len() && (#[trigger] rest[a]).0 == (
            #[trigger] rest[b]).0 implies a == b by {
            assert(sums[a + 1].0 == sums[b + 1].0);
        }
        lemma_token_credit(rest, percent, t);
        if has_key(rest, t) {
            let q = position(rest, t);
            assert(sums[q + 1] == rest[q]);
            lemma_position_unique(rest, q);
            lemma_position_unique(sums, q + 1);
        }
        if sums[0].0 == t {
            lemma_position_unique(sums, 0);
        } else if has_key(sums, t) {
            let q = position(sums, t);
            assert(q > 0);
            assert(rest[q - 1] == sums[q]);
            lemma_position_unique(rest, q - 1);
            lemma_position_unique(sums, q);
        }
    }
}

/// Among totals that hold no token twice, the shareholders are credited in
/// a token their parts of that token's total.
pub proof fn lemma_all_credit(
    holders: Seq<GoodFeeView>,
    sums: Seq<(Seq<char>, u128)>,
    t: Seq<char>,
)
    requires
        distinct_keys(sums),
    ensures
        all_credit(holders, sums, t) == if has_key(sums, t) {
            credited_sum(holders, total_in(sums, t))
        } else {
            0
        },
    decreases holders.len(),
{
    if holders.len() > 0 {
        lemma_token_credit(sums, holders[0].percent_share, t);
        lemma_all_credit(holders.drop_first(), sums, t);
    }
}

/// A hundred times what shareholders with percentages of at most 100 are
/// credited of a total is at most the total times the sum of their
/// percentages.
pub proof fn lemma_credited_sum_bound(holders: Seq<GoodFeeView>, total: u128)
    requires
        forall|i: int| 0 <= i < holders.len() ==> (#[trigger] holders[i]).percent_share <= 100,
    ensures
        100 * credited_sum(holders, total) <= total * share_total(holders),
    decreases holders.len(),
{
    if holders.len() > 0 {
        let rest = holders.drop_first();
        let p = holders[0].percent_share;
        assert forall|i: int| 0 <= i < rest.len() implies (#[trigger] rest[i]).percent_share
            <= 100 by {
            assert(rest[i] == holders[i + 1]);
        }
        lemma_credited_sum_bound(rest, total);
        let first = seq![holders[0]];
        assert(holders =~= first + rest);
        lemma_share_total_concat(first, rest);
        assert(first.drop_last() =~= Seq::<GoodFeeView>::empty());
        assert(share_total(first) == p as nat) by {
            assert(share_total(first.drop_last()) == 0);
            assert(first.last() == holders[0]);
        }
        let c = total * p / 100;
        assert(0 <= c <= total && 100 * c <= total * p) by (nonlinear_arith)
            requires
                c == total * p / 100,
                0 <= p <= 100,
                0 <= total,
        ;
        assert(share_of(total, p) == c);
        assert(total * share_total(holders) == total * share_total(rest) + total * p)
            by (nonlinear_arith)
            requires
                share_total(holders) == share_total(rest) + p,
        ;
    } else {
        assert(total * share_total(holders) == 0) by (nonlinear_arith)
            requires
                share_total(holders) == 0,
        ;
    }
}

/// The totals of locked funds are what is taken out of custody: for every
/// token, the total stands for the locked funds of the proposal in it.
pub proof fn lemma_sums_are_taken(
    custody: CustodyTable,
    proposal_id: u64,
    acc: Seq<(Seq<char>, u128)>,
    t: Seq<char>,
)
    requires
        distinct_keys(acc),
        sum_locked(custody, proposal_id, acc) is Some,
    ensures
        total_in(sum_locked(custody, proposal_id, acc)->0, t) == total_in(acc, t) + taken_for(
            custody,
            locked_for(proposal_id),
            proposal_id,
            t,
        ),
    decreases custody.len(),
{
    if custody.len() > 0 {
        lemma_taken_from_front(custody, locked_for(proposal_id), proposal_id, t);
        if locked_for(proposal_id)(custody[0]) {
            let so_far = match lookup(acc, custody[0].0.1) {
                Some(a) => a,
                None => 0,
            };
            let next = put(acc, custody[0].0.1, (so_far + custody[0].1.amount) as u128);
            lemma_put(acc, custody[0].0.1, (so_far + custody[0].1.amount) as u128);
            lemma_sums_are_taken(custody.drop_first(), proposal_id, next, t);
        } else {
            lemma_sums_are_taken(custody.drop_first(), proposal_id, acc, t);
        }
    }
}

/// Where the totals so far and the locked funds still to come fit in 128
/// bits together, adding up the locked funds does not overflow.
pub proof fn lemma_sums_fit(custody: CustodyTable, proposal_id: u64, acc: Seq<(Seq<char>, u128)>)
    requires
        distinct_keys(acc),
        forall|t: Seq<char>| #[trigger]
            total_in(acc, t) + taken_for(custody, locked_for(proposal_id), proposal_id, t)
                <= u128::MAX,
    ensures
        sum_locked(custody, proposal_id, acc) is Some,
    decreases custody.len(),
{
    if custody.len() > 0 {
        let rest = custody.drop_first();
        let token = custody[0].0.1;
        lemma_taken_from_front(custody, locked_for(proposal_id), proposal_id, token);
        assert(total_in(acc, token) + taken_for(
            custody,
            locked_for(proposal_id),
            proposal_id,
            token,
        ) <= u128::MAX);
        if locked_for(proposal_id)(custody[0]) {
            let so_far = total_in(acc, token);
            let next = put(acc, token, (so_far + custody[0].1.amount) as u128);
            lemma_put(acc, token, (so_far + custody[0].1.amount) as u128);
            assert forall|t: Seq<char>| #[trigger]
                total_in(next, t) + taken_for(rest, locked_for(proposal_id), proposal_id, t)
                    <= u128::MAX by {
                lemma_taken_from_front(custody, locked_for(proposal_id), proposal_id, t);
                assert(total_in(acc, t) + taken_for(
                    custody,
                    locked_for(proposal_id),
                    proposal_id,
                    t,
                ) <= u128::MAX);
            }
            lemma_sums_fit(rest, proposal_id, next);
        } else {
            assert forall|t: Seq<char>| #[trigger]
                total_in(acc, t) + taken_for(rest, locked_for(proposal_id), proposal_id, t)
                    <= u128::MAX by {
                lemma_taken_from_front(custody, locked_for(proposal_id), proposal_id, t);
                assert(total_in(acc, t) + taken_for(
                    custody,
                    locked_for(proposal_id),
                    proposal_id,
                    t,
                ) <= u128::MAX);
            }
            lemma_sums_fit(rest, proposal_id, acc);
        }
    }
}

/// Where funds are conserved, the locked funds of a proposal add up without
/// overflow in every token.
pub proof fn lemma_locked_totals_fit(custody: CustodyTable, funding: FundingTable, proposal_id: u64)
    requires
        conserved(custody, funding),
    ensures
        sum_locked(custody, proposal_id, Seq::empty()) is Some,
{
    let none = Seq::<(Seq<char>, u128)>::empty();
    assert forall|t: Seq<char>| #[trigger]
        total_in(none, t) + taken_for(custody, locked_for(proposal_id), proposal_id, t)
            <= u128::MAX by {
        lemma_held_without(custody, locked_for(proposal_id), proposal_id, t);
        assert(held_for(custody, proposal_id, t) <= received(funding, proposal_id, t));
    }
    lemma_sums_fit(custody, proposal_id, none);
}

/// A distribution keeps funds conserved: what the shareholders are credited
/// in a token is at most what was locked and taken out in it.
pub proof fn lemma_conserved_reward(
    custody: CustodyTable,
    funding: FundingTable,
    holders: Seq<GoodFeeView>,
    proposal_id: u64,
)
    requires
        distinct_keys(custody),
        conserved(custody, funding),
        share_total(holders) == 100,
        sum_locked(custody, proposal_id, Seq::empty()) is Some,
        credit_holders(
            without(custody, locked_for(proposal_id)),
            holders,
            sum_locked(custody, proposal_id, Seq::empty())->0,
            proposal_id,
        ) is Ok,
    ensures
        distinct_keys(
            credit_holders(
                without(custody, locked_for(proposal_id)),
                holders,
                sum_locked(custody, proposal_id, Seq::empty())->0,
                proposal_id,
            )->Ok_0,
        ),
        conserved(
            credit_holders(
                without(custody, locked_for(proposal_id)),
                holders,
                sum_locked(custody, proposal_id, Seq::empty())->0,
                proposal_id,
            )->Ok_0,
            funding,
        ),
{
    let none = Seq::<(Seq<char>, u128)>::empty();
    let sums = sum_locked(custody, proposal_id, none)->0;
    let rest = without(custody, locked_for(proposal_id));
    let after = credit_holders(rest, holders, sums, proposal_id)->Ok_0;
    lemma_without(custody, locked_for(proposal_id));
    lemma_sums_distinct(custody, proposal_id, none);
    assert forall|i: int| 0 <= i < holders.len() implies (#[trigger] holders[i]).percent_share
        <= 100 by {
        lemma_share_bounded(holders, i);
    }
    assert forall|p: u64, t: Seq<char>| #[trigger]
        held_for(after, p, t) <= received(funding, p, t) by {
        lemma_held_credit_holders(rest, holders, sums, proposal_id, p, t);
        lemma_held_without(custody, locked_for(proposal_id), p, t);
        assert(held_for(custody, p, t) <= received(funding, p, t));
        if p == proposal_id {
            lemma_all_credit(holders, sums, t);
            lemma_sums_are_taken(custody, proposal_id, none, t);
            if has_key(sums, t) {
                let total = total_in(sums, t);
                lemma_credited_sum_bound(holders, total);
                assert(credited_sum(holders, total) <= total) by (nonlinear_arith)
                    requires
                        100 * credited_sum(holders, total) <= total * share_total(holders),
                        share_total(holders) == 100,
                ;
            }
        }
    }
    lemma_held_credit_holders(rest, holders, sums, proposal_id, proposal_id, Seq::empty());
}

/// Where what is held and what one shareholder is to be credited fit in
/// 128 bits together, in every token, the credits do not overflow: they
/// succeed, or one of them is refused because funds are held apart.
pub proof fn lemma_credit_tokens_fit(
    custody: CustodyTable,
    holder: GoodFeeView,
    sums: Seq<(Seq<char>, u128)>,
    proposal_id: u64,
)
    requires
        distinct_keys(custody),
        forall|t: Seq<char>| #[trigger]
            held_for(custody, proposal_id, t) + token_credit(sums, holder.percent_share, t)
                <= u128::MAX,
    ensures
        credit_tokens(custody, holder, sums, proposal_id) is Err ==> credit_tokens(
            custody,
            holder,
            sums,
            proposal_id,
        )->Err_0 == ContractError::CustodyConflict,
    decreases sums.len(),
{
    if sums.len() > 0 {
        let token = sums[0].0;
        let key = (holder.recipient, token);
        let amount = share_of(sums[0].1, holder.percent_share);
        assert(held_for(custody, proposal_id, token) + token_credit(
            sums,
            holder.percent_share,
            token,
        ) <= u128::MAX);
        if has_key(custody, key) {
            let q = position(custody, key);
            lemma_position_unique(custody, q);
            lemma_held_covers(custody, q, proposal_id, token);
        }
        let step = credit_one(custody, holder.recipient, token, amount, proposal_id);
        if step is Ok {
            let next = step->Ok_0;
            assert forall|t: Seq<char>| #[trigger]
                held_for(next, proposal_id, t) + token_credit(
                    sums.drop_first(),
                    holder.percent_share,
                    t,
                ) <= u128::MAX by {
                lemma_held_credit_one(
                    custody,
                    holder.recipient,
                    token,
                    amount,
                    proposal_id,
                    proposal_id,
                    t,
                );
                assert(held_for(custody, proposal_id, t) + token_credit(
                    sums,
                    holder.percent_share,
                    t,
                ) <= u128::MAX);
            }
            lemma_held_credit_one(
                custody,
                holder.recipient,
                token,
                amount,
                proposal_id,
                proposal_id,
                token,
            );
            lemma_credit_tokens_fit(next, holder, sums.drop_first(), proposal_id);
        }
    }
}

/// Where what is held and what the shareholders are to be credited fit in
/// 128 bits together, in every token, the credits do not overflow.
pub proof fn lemma_credit_holders_fit(
    custody: CustodyTable,
    holders: Seq<GoodFeeView>,
    sums: Seq<(Seq<char>, u128)>,
    proposal_id: u64,
)
    requires
        distinct_keys(custody),
        forall|t: Seq<char>| #[trigger]
            held_for(custody, proposal_id, t) + all_credit(holders, sums, t) <= u128::MAX,
    ensures
        credit_holders(custody, holders, sums, proposal_id) is Err ==> credit_holders(
            custody,
            holders,
            sums,
            proposal_id,
        )->Err_0 == ContractError::CustodyConflict,
    decreases holders.len(),
{
    if holders.len() > 0 {
        assert forall|t: Seq<char>| #[trigger]
            held_for(custody, proposal_id, t) + token_credit(sums, holders[0].percent_share, t)
                <= u128::MAX by {
            assert(held_for(custody, proposal_id, t) + all_credit(holders, sums, t) <= u128::MAX);
        }
        lemma_credit_tokens_fit(custody, holders[0], sums, proposal_id);
        let step = credit_tokens(custody, holders[0], sums, proposal_id);
        if step is Ok {
            let next = step->Ok_0;
            assert forall|t: Seq<char>| #[trigger]
                held_for(next, proposal_id, t) + all_credit(holders.drop_first(), sums, t)
                    <= u128::MAX by {
                lemma_held_credit_tokens(custody, holders[0], sums, proposal_id, proposal_id, t);
                assert(held_for(custody, proposal_id, t) + all_credit(holders, sums, t)
                    <= u128::MAX);
            }
            lemma_held_credit_tokens(
                custody,
                holders[0],
                sums,
                proposal_id,
                proposal_id,
                Seq::empty(),
            );
            lemma_credit_holders_fit(next, holders.drop_first(), sums, proposal_id);
        }
    }
}

/// Where funds are conserved, a distribution among shareholders whose
/// percentages add up to 100 does not overflow: the credits succeed, or one
/// of them is refused because funds are held apart.
pub proof fn lemma_reward_fits(
    custody: CustodyTable,
    funding: FundingTable,
    holders: Seq<GoodFeeView>,
    proposal_id: u64,
)
    requires
        distinct_keys(custody),
        conserved(custody, funding),
        share_total(holders) == 100,
    ensures
        sum_locked(custody, proposal_id, Seq::empty()) is Some,
        credit_holders(
            without(custody, locked_for(proposal_id)),
            holders,
            sum_locked(custody, proposal_id, Seq::empty())->0,
            proposal_id,
        ) is Err ==> credit_holders(
            without(custody, locked_for(proposal_id)),
            holders,
            sum_locked(custody, proposal_id, Seq::empty())->0,
            proposal_id,
        )->Err_0 == ContractError::CustodyConflict,
{
    let none = Seq::<(Seq<char>, u128)>::empty();
    lemma_locked_totals_fit(custody, funding, proposal_id);
    let sums = sum_locked(custody, proposal_id, none)->0;
    let rest = without(custody, locked_for(proposal_id));
    lemma_without(custody, locked_for(proposal_id));
    lemma_sums_distinct(custody, proposal_id, none);
    assert forall|i: int| 0 <= i < holders.len() implies (#[trigger] holders[i]).percent_share
        <= 100 by {
        lemma_share_bounded(holders, i);
    }
    assert forall|t: Seq<char>| #[trigger]
        held_for(rest, proposal_id, t) + all_credit(holders, sums, t) <= u128::MAX by {
        lemma_held_without(custody, locked_for(proposal_id), proposal_id, t);
        assert(held_for(custody, proposal_id, t) <= received(funding, proposal_id, t));
        lemma_all_credit(holders, sums, t);
        lemma_sums_are_taken(custody, proposal_id, none, t);
        if has_key(sums, t) {
            let total = total_in(sums, t);
            lemma_credited_sum_bound(holders, total);
            assert(credited_sum(holders, total) <= total) by (nonlinear_arith)
                requires
                    100 * credited_sum(holders, total) <= total * share_total(holders),
                    share_total(holders) == 100,
            ;
        }
    }
    lemma_credit_holders_fit(rest, holders, sums, proposal_id);
}

} // verus!
