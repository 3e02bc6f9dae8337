//! The parts of a remote transaction that the ledger reads.

use vstd::prelude::*;

verus! {

/// A message of a transaction: its type and its encoded content.
#[derive(Clone, Debug, PartialEq, Eq)]
pub struct Any {
    pub type_url: String,
    pub value: Vec<u8>,
}

/// An `Any` as contracts speak of it.
pub struct AnyView {
    pub type_url: Seq<char>,
    pub value: Seq<u8>,
}

impl View for Any {
    type V = AnyView;

    open spec fn view(&self) -> AnyView {
        AnyView { type_url: self.type_url@, value: self.value@ }
    }
}

impl DeepView for Any {
    type V = AnyView;

    open spec fn deep_view(&self) -> AnyView {
        self@
    }
}

/// The body of a transaction: its messages and its memo.
#[derive(Clone, Debug, PartialEq, Eq)]
pub struct TxBody {
    pub messages: Vec<Any>,
    pub memo: String,
}

/// A `TxBody` as contracts speak of it.
pub struct TxBodyView {
    pub messages: Seq<AnyView>,
    pub memo: Seq<char>,
}

impl View for TxBody {
    type V = TxBodyView;

    open spec fn view(&self) -> TxBodyView {
        TxBodyView { messages: self.messages.deep_view(), memo: self.memo@ }
    }
}

impl DeepView for TxBody {
    type V = TxBodyView;

    open spec fn deep_view(&self) -> TxBodyView {
        self@
    }
}

/// An amount of a token as a transaction writes it: in decimal digits.
#[derive(Clone, Debug, PartialEq, Eq)]
pub struct SentCoin {
    pub denom: String,
    pub amount: String,
}

/// A `SentCoin` as contracts speak of it.
pub struct SentCoinView {
    pub denom: Seq<char>,
    pub amount: Seq<char>,
}

impl View for SentCoin {
    type V = SentCoinView;

    open spec fn view(&self) -> SentCoinView {
        SentCoinView { denom: self.denom@, amount: self.amount@ }
    }
}

impl DeepView for SentCoin {
    type V = SentCoinView;

    open spec fn deep_view(&self) -> SentCoinView {
        self@
    }
}

/// A bank message that sends coins from one account to another.
#[derive(Clone, Debug, PartialEq, Eq)]
pub struct MsgSend {
    pub from_address: String,
    pub to_address: String,
    pub amount: Vec<SentCoin>,
}

/// A `MsgSend` as contracts speak of it.
pub struct MsgSendView {
    pub from_address: Seq<char>,
    pub to_address: Seq<char>,
    pub amount: Seq<SentCoinView>,
}

impl View for MsgSend {
    type V = MsgSendView;

    open spec fn view(&self) -> MsgSendView {
        MsgSendView {
            from_address: self.from_address@,
            to_address: self.to_address@,
            amount: self.amount.deep_view(),
        }
    }
}

impl DeepView for MsgSend {
    type V = MsgSendView;

    open spec fn deep_view(&self) -> MsgSendView {
        self@
    }
}

} // verus!
