//! Helpers shared by the handlers.

use crate::msg::{ApplicationSubmission, ApplicationSubmissionView, BlockInfo, Coin, CoinView};
use crate::storage::{
    share_total, valid_shareholders, valid_shares, Application, Expiration, GoodFee, GoodFeeView,
};
use crate::table::{Key, Stored};
use std::collections::hash_map::DefaultHasher;
use std::hash::Hasher;
use vstd::prelude::*;
use vstd::std_specs::hash::DefaultHasherAdditionalSpecFns;
use vstd::string::StringExecFns;

verus! {

/// The content digest of a byte string: what a fresh default hasher
/// returns after the bytes were written to it in one piece. Nothing but the
/// bytes is written: no length goes before them. A length written in the
/// machine's own word size and byte order, as hashing a vector through
/// `Hash` writes it, would make the digest differ from machine to machine.
pub open spec fn digest_of(data: Seq<u8>) -> u64 {
    DefaultHasher::spec_finish(seq![data])
}

/// Computes the content digest of `data`.
pub fn hash_data(data: &Vec<u8>) -> (digest: u64)
    ensures
        digest == digest_of(data@),
{
    let mut hasher = DefaultHasher::new();
    hasher.write(data.as_slice());
    hasher.finish()
}

/// Appends copies of the entries of `tail` to `out`.
fn extend_fees(out: &mut Vec<GoodFee>, tail: &Vec<GoodFee>)
    ensures
        final(out).deep_view() == old(out).deep_view() + tail.deep_view(),
{
    let ghost start = out.deep_view();
    let mut i: usize = 0;
    while i < tail.len()
        invariant
            i <= tail@.len(),
            out.deep_view() == start + tail.deep_view().take(i as int),
        decreases tail@.len() - i,
    {
        let ghost prev = out.deep_view();
        let fee = tail[i].duplicate();
        out.push(fee);
        assert(out.deep_view() =~= prev.push(fee@));
        i += 1;
    }
}

/// The shareholders of a submission in payout order: applicants, then
/// auditors.
pub fn shareholders_sub(application: &ApplicationSubmission) -> (r: Vec<GoodFee>)
    ensures
        r.deep_view() == application@.applicants + application@.auditors,
{
    let mut out: Vec<GoodFee> = Vec::new();
    extend_fees(&mut out, &application.applicants);
    extend_fees(&mut out, &application.auditors);
    out
}

/// The shareholders of an application in payout order: applicants, then
/// auditors.
pub fn shareholders(application: &Application) -> (r: Vec<GoodFee>)
    ensures
        r.deep_view() == application@.shareholders(),
{
    let mut out: Vec<GoodFee> = Vec::new();
    extend_fees(&mut out, &application.applicants);
    extend_fees(&mut out, &application.auditors);
    out
}

/// The rule on a submitted application in a block of the given height and
/// time: its shareholders keep their rule, and its deadline is set and not
/// reached yet.
pub open spec fn valid_submission(
    application: ApplicationSubmissionView,
    height: u64,
    time: u64,
) -> bool {
    &&& valid_shareholders(application.applicants, application.auditors)
    &&& application.deliver_by != Expiration::Never
    &&& !application.deliver_by.expired_at(height, time)
}

/// Whether a submitted application keeps the rule on applications.
pub fn valid_application(application: &ApplicationSubmission, block_info: &BlockInfo) -> (b: bool)
    ensures
        b == valid_submission(application@, block_info.height, block_info.time),
{
    valid_shares(&application.applicants, &application.auditors) && application.deliver_by
        != Expiration::Never && !application.deliver_by.is_expired(
        block_info.height,
        block_info.time,
    )
}

/// No shareholder's percentage is above the sum of all of them.
pub proof fn lemma_share_bounded(fees: Seq<GoodFeeView>, i: int)
    requires
        0 <= i < fees.len(),
    ensures
        fees[i].percent_share <= share_total(fees),
    decreases fees.len(),
{
    if i < fees.len() - 1 {
        lemma_share_bounded(fees.drop_last(), i);
    }
}

/// The fees of one packet: for its receipt, for its acknowledgement and for
/// its timeout.
#[derive(Clone, Debug, PartialEq, Eq)]
pub struct IbcFee {
    pub recv_fee: Vec<Coin>,
    pub ack_fee: Vec<Coin>,
    pub timeout_fee: Vec<Coin>,
}

/// The token in which fees are paid.
pub open spec fn fee_denom() -> Seq<char> {
    "untrn"@
}

/// The coins of the fee token among `coins`, in order.
pub open spec fn fee_coins(coins: Seq<CoinView>) -> Seq<CoinView>
    decreases coins.len(),
{
    if coins.len() == 0 {
        coins
    } else if coins.last().denom == fee_denom() {
        fee_coins(coins.drop_last()).push(coins.last())
    } else {
        fee_coins(coins.drop_last())
    }
}

/// Copies the coins of the fee token.
fn keep_fee_coins(coins: &Vec<Coin>) -> (kept: Vec<Coin>)
    ensures
        kept.deep_view() == fee_coins(coins.deep_view()),
{
    let denom = String::from_str("untrn");
    let mut kept: Vec<Coin> = Vec::new();
    let ghost all = coins.deep_view();
    let mut i: usize = 0;
    while i < coins.len()
        invariant
            all == coins.deep_view(),
            denom@ == fee_denom(),
            i <= coins@.len(),
            kept.deep_view() == fee_coins(all.take(i as int)),
        decreases coins@.len() - i,
    {
        assert(all.take(i + 1).drop_last() =~= all.take(i as int));
        if coins[i].denom.same_as(&denom) {
            let coin = coins[i].duplicate();
            kept.push(coin);
        }
        i += 1;
    }
    assert(all.take(all.len() as int) =~= all);
    kept
}

/// The least fee that a packet needs: the fee for receipt as it is, and of
/// the fees for acknowledgement and timeout the coins of the fee token.
pub fn min_ntrn_ibc_fee(fee: IbcFee) -> (r: IbcFee)
    ensures
        r.recv_fee.deep_view() == fee.recv_fee.deep_view(),
        r.ack_fee.deep_view() == fee_coins(fee.ack_fee.deep_view()),
        r.timeout_fee.deep_view() == fee_coins(fee.timeout_fee.deep_view()),
{
    let ack_fee = keep_fee_coins(&fee.ack_fee);
    let timeout_fee = keep_fee_coins(&fee.timeout_fee);
    IbcFee { recv_fee: fee.recv_fee, ack_fee, timeout_fee }
}

} // verus!
