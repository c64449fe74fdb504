//! The protobuf messages that the contract exchanges, as plain values.
//! Their wire encoding is done where the messages are sent.
use vstd::prelude::*;

verus! {

/// `cosmos.base.v1beta1.Coin`
#[derive(Clone, Debug, PartialEq, Eq)]
pub struct ProtoCoin {
    pub denom: String,
    pub amount: String,
}

/// `osmosis.gamm.v1beta1.SwapAmountInRoute`
#[derive(Clone, Debug, PartialEq, Eq)]
pub struct ProtoSwapAmountInRoute {
    pub pool_id: u64,
    pub token_out_denom: String,
}

/// `osmosis.gamm.v1beta1.MsgSwapExactAmountIn`
#[derive(Clone, Debug, PartialEq, Eq)]
pub struct ProtoMsgSwapExactAmountIn {
    pub sender: String,
    pub routes: Vec<ProtoSwapAmountInRoute>,
    pub token_in: Option<ProtoCoin>,
    pub token_out_min_amount: String,
}

/// `osmosis.gamm.v1beta1.MsgJoinPool`
#[derive(Clone, Debug, PartialEq, Eq)]
pub struct ProtoMsgJoinPool {
    pub sender: String,
    pub pool_id: u64,
    pub share_out_amount: String,
    pub token_in_maxs: Vec<ProtoCoin>,
}

/// `osmosis.gamm.v1beta1.MsgJoinSwapExternAmountIn`
#[derive(Clone, Debug, PartialEq, Eq)]
pub struct ProtoMsgJoinSwapExternAmountIn {
    pub sender: String,
    pub pool_id: u64,
    pub token_in: Option<ProtoCoin>,
    pub share_out_min_amount: String,
}

/// `cosmos.bank.v1beta1.MsgSend`
#[derive(Clone, Debug, PartialEq, Eq)]
pub struct ProtoMsgSend {
    pub from_address: String,
    pub to_address: String,
    pub amount: Vec<ProtoCoin>,
}

/// `google.protobuf.Any`: a message with the URL of its type.
#[derive(Clone, Debug, PartialEq, Eq)]
pub struct Any {
    pub type_url: String,
    pub value: Vec<u8>,
}

/// `ibc.applications.interchain_accounts.v1.CosmosTx`
#[derive(Clone, Debug, PartialEq, Eq)]
pub struct ProtoCosmosTx {
    pub messages: Vec<Any>,
}

} // verus!
