//! Subscriptions to the transfers that reach an address on a remote chain.

use crate::adapters::{decimal, u64_to_string};
use vstd::prelude::*;
use vstd::string::StringExecFns;

verus! {

/// How a filter compares a transaction's field with a value.
#[derive(Clone, Copy, Debug, PartialEq, Eq, Structural)]
pub enum TransactionFilterOp {
    Eq,
    Lt,
    Gt,
    Lte,
    Gte,
}

/// The value that a filter compares with.
#[derive(Clone, Debug, PartialEq, Eq)]
pub enum TransactionFilterValue {
    String(String),
    Int(u64),
}

/// A `TransactionFilterValue` as contracts speak of it.
pub enum TransactionFilterValueView {
    String(Seq<char>),
    Int(u64),
}

impl View for TransactionFilterValue {
    type V = TransactionFilterValueView;

    open spec fn view(&self) -> TransactionFilterValueView {
        match self {
            TransactionFilterValue::String(s) => TransactionFilterValueView::String(s@),
            TransactionFilterValue::Int(n) => TransactionFilterValueView::Int(*n),
        }
    }
}

/// One condition of a transaction filter.
#[derive(Clone, Debug, PartialEq, Eq)]
pub struct TransactionFilterItem {
    pub field: String,
    pub op: TransactionFilterOp,
    pub value: TransactionFilterValue,
}

/// A `TransactionFilterItem` as contracts speak of it.
pub struct TransactionFilterItemView {
    pub field: Seq<char>,
    pub op: TransactionFilterOp,
    pub value: TransactionFilterValueView,
}

impl View for TransactionFilterItem {
    type V = TransactionFilterItemView;

    open spec fn view(&self) -> TransactionFilterItemView {
        TransactionFilterItemView { field: self.field@, op: self.op, value: self.value@ }
    }
}

impl DeepView for TransactionFilterItem {
    type V = TransactionFilterItemView;

    open spec fn deep_view(&self) -> TransactionFilterItemView {
        self@
    }
}

/// The filter field that holds a transfer's recipient.
pub open spec fn recipient_field() -> Seq<char> {
    "transfer.recipient"@
}

/// The filter field that holds a transaction's height.
pub open spec fn height_field() -> Seq<char> {
    "tx.height"@
}

/// The filter for the transfers to `recipient`, from `min_height` on where
/// one is given.
pub open spec fn transfers_filter(recipient: Seq<char>, min_height: Option<u64>) -> Seq<
    TransactionFilterItemView,
> {
    let to_recipient = TransactionFilterItemView {
        field: recipient_field(),
        op: TransactionFilterOp::Eq,
        value: TransactionFilterValueView::String(recipient),
    };
    match min_height {
        None => seq![to_recipient],
        Some(h) => seq![
            to_recipient,
            TransactionFilterItemView {
                field: height_field(),
                op: TransactionFilterOp::Gte,
                value: TransactionFilterValueView::Int(h),
            },
        ],
    }
}

/// A subscription to transactions on a remote chain.
#[derive(Clone, Debug, PartialEq, Eq)]
pub struct TransfersQuery {
    pub filter: Vec<TransactionFilterItem>,
    pub connection_id: String,
    pub update_period: u64,
}

/// A `TransfersQuery` as contracts speak of it.
pub struct TransfersQueryView {
    pub filter: Seq<TransactionFilterItemView>,
    pub connection_id: Seq<char>,
    pub update_period: u64,
}

impl View for TransfersQuery {
    type V = TransfersQueryView;

    open spec fn view(&self) -> TransfersQueryView {
        TransfersQueryView {
            filter: self.filter.deep_view(),
            connection_id: self.connection_id@,
            update_period: self.update_period,
        }
    }
}

impl DeepView for TransfersQuery {
    type V = TransfersQueryView;

    open spec fn deep_view(&self) -> TransfersQueryView {
        self@
    }
}

/// Builds the subscription to the transfers that reach `recipient` over
/// `connection_id`, from `min_height` on where one is given.
pub fn register_transfers_query_msg(
    connection_id: String,
    recipient: String,
    update_period: u64,
    min_height: Option<u64>,
) -> (query: TransfersQuery)
    ensures
        query@ == (TransfersQueryView {
            filter: transfers_filter(recipient@, min_height),
            connection_id: connection_id@,
            update_period,
        }),
{
    let mut filter: Vec<TransactionFilterItem> = Vec::new();
    let to_recipient = TransactionFilterItem {
        field: String::from_str("transfer.recipient"),
        op: TransactionFilterOp::Eq,
        value: TransactionFilterValue::String(recipient),
    };
    filter.push(to_recipient);
    match min_height {
        Some(h) => {
            let from_height = TransactionFilterItem {
                field: String::from_str("tx.height"),
                op: TransactionFilterOp::Gte,
                value: TransactionFilterValue::Int(h),
            };
            filter.push(from_height);
            assert(filter.deep_view() =~= seq![to_recipient@, from_height@]);
        },
        None => {
            assert(filter.deep_view() =~= seq![to_recipient@]);
        },
    }
    TransfersQuery { filter, connection_id, update_period }
}

/// Builds the subscription to the transfers that reach `recipient` for a
/// proposal, over the connection named by the proposal's identifier.
pub fn new_register_transfers_query_msg(
    proposal_id: u64,
    recipient: String,
    update_period: u64,
    min_height: Option<u64>,
) -> (query: TransfersQuery)
    ensures
        query@ == (TransfersQueryView {
            filter: transfers_filter(recipient@, min_height),
            connection_id: decimal(proposal_id as nat),
            update_period,
        }),
{
    register_transfers_query_msg(u64_to_string(proposal_id), recipient, update_period, min_height)
}

} // verus!
