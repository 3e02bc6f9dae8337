//! Calls into other crates. Verus takes the contracts in this file on trust:
//! each states what the called function's source or documentation shows.

use crate::interchain_queries::{
    TransactionFilterItem, TransactionFilterItemView, TransactionFilterOp, TransactionFilterValue,
};
use crate::tx::{Any, MsgSend, MsgSendView, SentCoin, TxBody, TxBodyView};
use cosmwasm_std::{Decimal, Uint128};
use neutron_sdk::interchain_queries::types::{
    TransactionFilterItem as FilterItem, TransactionFilterOp as FilterOp,
    TransactionFilterValue as FilterValue,
};
use prost::Message;
use vstd::prelude::*;

verus! {

/// The decimal digit for a number below ten.
pub open spec fn digit(d: nat) -> char {
    seq!['0', '1', '2', '3', '4', '5', '6', '7', '8', '9'][d as int]
}

/// A number written in decimal, without sign or leading zeros.
pub open spec fn decimal(n: nat) -> Seq<char>
    decreases n,
{
    if n < 10 {
        seq![digit(n)]
    } else {
        decimal(n / 10).push(digit(n % 10))
    }
}

/// `u64`'s `to_string`, which writes the number in decimal.
#[verifier::external_body]
pub(crate) fn u64_to_string(n: u64) -> (s: String)
    ensures
        s@ == decimal(n as nat),
{
    n.to_string()
}

/// The port of the interchain account that a contract controls under an
/// account identifier: the controller prefix, the contract's address, a dot,
/// and the identifier.
pub open spec fn port_of(contract_address: Seq<char>, interchain_account_id: Seq<char>) -> Seq<
    char,
> {
    "icacontroller-"@ + contract_address + seq!['.'] + interchain_account_id
}

/// `neutron_sdk`'s `get_port_id`, which joins the controller prefix, the
/// address, the delimiter and the identifier.
#[verifier::external_body]
pub(crate) fn get_port_id(contract_address: &String, interchain_account_id: &String) -> (port:
    String)
    ensures
        port@ == port_of(contract_address@, interchain_account_id@),
{
    neutron_sdk::interchain_txs::helpers::get_port_id(
        contract_address.as_str(),
        interchain_account_id.as_str(),
    )
}

/// `percent` hundredths of `total`, rounded down, as `cosmwasm_std` computes
/// the product of a `Uint128` and `Decimal::percent`. The product is formed
/// in 256 bits and divided exactly; the call panics where the quotient does
/// not fit in 128 bits, which `requires` rules out.
#[verifier::external_body]
pub(crate) fn percent_of(total: u128, percent: u8) -> (r: u128)
    requires
        total * percent / 100 <= u128::MAX,
    ensures
        r == total * percent / 100,
{
    (Uint128::new(total) * Decimal::percent(percent.into())).u128()
}

/// The character is one of the ten decimal digits.
pub open spec fn is_digit(c: char) -> bool {
    '0' <= c <= '9'
}

/// The number that a string of decimal digits writes; 0 for the empty
/// string.
pub open spec fn digits_value(s: Seq<char>) -> nat
    decreases s.len(),
{
    if s.len() == 0 {
        0
    } else {
        digits_value(s.drop_last()) * 10 + (s.last() as u8 - '0' as u8) as nat
    }
}

/// Every character is a decimal digit.
pub open spec fn all_digits(s: Seq<char>) -> bool {
    forall|i: int| 0 <= i < s.len() ==> is_digit(#[trigger] s[i])
}

/// A text without the plus sign that it may begin with.
pub open spec fn unsigned_part(text: Seq<char>) -> Seq<char> {
    if text.len() > 0 && text[0] == '+' {
        text.skip(1)
    } else {
        text
    }
}

/// The amount that a text writes: an optional plus sign, then one or more
/// decimal digits that give a number which 128 bits can hold. Any other
/// text writes none.
pub open spec fn parsed_number(text: Seq<char>) -> Option<u128> {
    let digits = unsigned_part(text);
    if digits.len() > 0 && all_digits(digits) && digits_value(digits) <= u128::MAX {
        Some(digits_value(digits) as u128)
    } else {
        None
    }
}

/// `str::parse` to `u128`, which reads an optional plus sign followed by
/// decimal digits and fails on an empty text, on any other character and on
/// a number too large for 128 bits.
#[verifier::external_body]
pub(crate) fn parse_u128(text: &str) -> (r: Option<u128>)
    ensures
        r == parsed_number(text@),
{
    text.parse::<u128>().ok()
}

/// The error of `prost`'s decoders. Nothing is known of its content.
#[verifier::external_type_specification]
#[verifier::external_body]
pub struct ExDecodeError(prost::DecodeError);

/// The error of `serde_json_wasm`'s readers. Nothing is known of its
/// content.
#[verifier::external_type_specification]
#[verifier::external_body]
pub struct ExJsonError(serde_json_wasm::de::Error);

/// The body bytes that `data` holds where it encodes a raw transaction;
/// `None` where it encodes none.
pub uninterp spec fn decoded_tx_raw(data: Seq<u8>) -> Option<Seq<u8>>;

/// `cosmos_sdk_proto`'s decoder of `TxRaw`; whether it succeeds and what it
/// returns is a function of the bytes alone. Of the decoded transaction the
/// body bytes are kept.
#[verifier::external_body]
pub(crate) fn decode_tx_raw(data: &Vec<u8>) -> (r: Result<Vec<u8>, prost::DecodeError>)
    ensures
        match decoded_tx_raw(data@) {
            Some(body_bytes) => r is Ok && r->Ok_0@ == body_bytes,
            None => r is Err,
        },
{
    let tx = cosmos_sdk_proto::cosmos::tx::v1beta1::TxRaw::decode(data.as_slice())?;
    Ok(tx.body_bytes)
}

/// The messages and the memo that `data` holds where it encodes a
/// transaction body; `None` where it encodes none.
pub uninterp spec fn decoded_tx_body(data: Seq<u8>) -> Option<TxBodyView>;

/// `cosmos_sdk_proto`'s decoder of `TxBody`; whether it succeeds and what it
/// returns is a function of the bytes alone. Of the decoded body the
/// messages, each with its type and content, and the memo are kept.
#[verifier::external_body]
pub(crate) fn decode_tx_body(data: &Vec<u8>) -> (r: Result<TxBody, prost::DecodeError>)
    ensures
        match decoded_tx_body(data@) {
            Some(body) => r is Ok && r->Ok_0@ == body,
            None => r is Err,
        },
{
    let body = cosmos_sdk_proto::cosmos::tx::v1beta1::TxBody::decode(data.as_slice())?;
    let message = |m: cosmos_sdk_proto::Any| Any { type_url: m.type_url, value: m.value };
    Ok(TxBody { messages: body.messages.into_iter().map(message).collect(), memo: body.memo })
}

/// The sender, the recipient and the coins that `data` holds where it
/// encodes a bank send message; `None` where it encodes none.
pub uninterp spec fn decoded_msg_send(data: Seq<u8>) -> Option<MsgSendView>;

/// `cosmos_sdk_proto`'s decoder of `MsgSend`; whether it succeeds and what
/// it returns is a function of the bytes alone.
#[verifier::external_body]
pub(crate) fn decode_msg_send(data: &Vec<u8>) -> (r: Result<MsgSend, prost::DecodeError>)
    ensures
        match decoded_msg_send(data@) {
            Some(send) => r is Ok && r->Ok_0@ == send,
            None => r is Err,
        },
{
    let send = cosmos_sdk_proto::cosmos::bank::v1beta1::MsgSend::decode(data.as_slice())?;
    let coin = |c: cosmos_sdk_proto::cosmos::base::v1beta1::Coin| SentCoin {
        denom: c.denom,
        amount: c.amount,
    };
    Ok(
        MsgSend {
            from_address: send.from_address,
            to_address: send.to_address,
            amount: send.amount.into_iter().map(coin).collect(),
        },
    )
}

/// The sequence number and the channel that `data` holds where it is the
/// JSON text of a submission response; `None` where it is none.
pub uninterp spec fn parsed_submit_tx_response(data: Seq<u8>) -> Option<(u64, Seq<char>)>;

/// `serde_json_wasm`'s `from_slice` on `neutron_sdk`'s
/// `MsgSubmitTxResponse`; whether it succeeds and what it returns is a
/// function of the bytes alone.
#[verifier::external_body]
pub(crate) fn parse_submit_tx_response(data: &Vec<u8>) -> (r: Result<
    (u64, String),
    serde_json_wasm::de::Error,
>)
    ensures
        match parsed_submit_tx_response(data@) {
            Some(response) => r is Ok && r->Ok_0.0 == response.0 && r->Ok_0.1@ == response.1,
            None => r is Err,
        },
{
    let response: neutron_sdk::bindings::msg::MsgSubmitTxResponse = serde_json_wasm::from_slice(
        data.as_slice(),
    )?;
    Ok((response.sequence_id, response.channel))
}

/// The conditions that `text` holds where it is the JSON text of a
/// transaction filter; `None` where it is none.
pub uninterp spec fn parsed_transaction_filter(text: Seq<char>) -> Option<
    Seq<TransactionFilterItemView>,
>;

/// `serde_json_wasm`'s `from_str` on a list of `neutron_sdk`'s
/// `TransactionFilterItem`; whether it succeeds and what it returns is a
/// function of the text alone. Each item is handed on field for field.
#[verifier::external_body]
pub(crate) fn parse_transaction_filter(text: &String) -> (r: Result<
    Vec<TransactionFilterItem>,
    serde_json_wasm::de::Error,
>)
    ensures
        match parsed_transaction_filter(text@) {
            Some(items) => r is Ok && r->Ok_0.deep_view() == items,
            None => r is Err,
        },
{
    let parsed = serde_json_wasm::from_str::<Vec<FilterItem>>(text.as_str())?;
    let op = |op: FilterOp| match op {
        FilterOp::Eq => TransactionFilterOp::Eq,
        FilterOp::Lt => TransactionFilterOp::Lt,
        FilterOp::Gt => TransactionFilterOp::Gt,
        FilterOp::Lte => TransactionFilterOp::Lte,
        FilterOp::Gte => TransactionFilterOp::Gte,
    };
    let value = |v: FilterValue| match v {
        FilterValue::String(s) => TransactionFilterValue::String(s),
        FilterValue::Int(n) => TransactionFilterValue::Int(n),
    };
    let item =
        |i: FilterItem| TransactionFilterItem { field: i.field, op: op(i.op), value: value(i.value) };
    Ok(parsed.into_iter().map(item).collect())
}

} // verus!
