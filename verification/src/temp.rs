//! A subscription that is registered on request.

use crate::interchain_queries::{
    register_transfers_query_msg, transfers_filter, TransfersQueryView,
};
use crate::msg::{NeutronResponse, OutboundMsg, OutboundMsgView, Response};
use vstd::prelude::*;

verus! {

/// The answer that asks for a subscription to the transfers that reach
/// `recipient` over `connection_id`, from `min_height` on where one is
/// given.
pub open spec fn transfers_query_request(
    connection_id: Seq<char>,
    recipient: Seq<char>,
    update_period: u64,
    min_height: Option<u64>,
) -> Seq<OutboundMsgView> {
    seq![
        OutboundMsgView::RegisterInterchainQuery(
            TransfersQueryView {
                filter: transfers_filter(recipient, min_height),
                connection_id,
                update_period,
            },
        ),
    ]
}

/// Asks for a subscription to the transfers that reach `recipient` over
/// `connection_id`, from `min_height` on where one is given.
pub fn register_transfers_query(
    connection_id: String,
    recipient: String,
    update_period: u64,
    min_height: Option<u64>,
) -> (r: NeutronResponse)
    ensures
        r is Ok,
        r->Ok_0@.messages == transfers_query_request(
            connection_id@,
            recipient@,
            update_period,
            min_height,
        ),
{
    let msg = OutboundMsg::RegisterInterchainQuery(
        register_transfers_query_msg(connection_id, recipient, update_period, min_height),
    );
    let mut messages: Vec<OutboundMsg> = Vec::new();
    messages.push(msg);
    let response = Response { messages };
    assert(response@.messages =~= seq![msg@]);
    Ok(response)
}

} // verus!
