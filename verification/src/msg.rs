//! The messages the contract takes and the responses it gives.
use vstd::prelude::*;
use crate::ibc::{Attribute, Ics20Ack, Ics20Packet, InterchainAccountPacketData};
use crate::state::ChannelInfo;
use crate::proto::Any;
use crate::tx::gamm::{
    join_swap_encoding, swap_encoding, MSG_JOIN_SWAP_EXTERN_AMOUNT_IN_TYPE_URL, MSG_SWAP_EXACT_AMOUNT_IN_TYPE_URL,
};
use crate::tx::{MsgJoinSwapExternAmountIn, MsgSend, MsgSwapExactAmountIn};

verus! {

/// A native coin sent along with a message.
#[derive(Clone, Debug, PartialEq, Eq)]
pub struct NativeCoin {
    pub denom: String,
    pub amount: u128,
}

/// A starting balance of the internal ledger.
#[derive(Clone, Debug, PartialEq, Eq)]
pub struct InitBalance {
    pub address: String,
    pub amount: u128,
}

/// Instantiates the contract.
#[derive(Clone, Debug, PartialEq, Eq)]
pub struct InitMsg {
    /// Timeout of a packet, in seconds, when a message names none.
    pub default_timeout: u64,
    /// Starting balances; a later entry for an address replaces an earlier one.
    pub balances: Vec<InitBalance>,
}

/// Sends tokens of the ledger over an ICS-20 channel.
#[derive(Clone, Debug, PartialEq, Eq)]
pub struct TransferMsg {
    /// The local channel to send the packets on
    pub channel: String,
    /// The remote address to send to.
    pub remote_address: String,
    /// How long the packet lives in seconds. If not specified, use default_timeout
    pub timeout: Option<u64>,
    /// The amount to send
    pub amount: u128,
}

/// Swaps tokens on the remote chain through an interchain account.
#[derive(Clone, Debug, PartialEq, Eq)]
pub struct SwapMsg {
    pub channel: String,
    pub timeout: Option<u64>,
    pub pool_id: u64,
    pub in_denom: String,
    pub in_amount: String,
    pub out_denom: String,
    pub exact_amount_out: String,
    pub remote_address: String,
}

/// Joins a pool on the remote chain through an interchain account.
#[derive(Clone, Debug, PartialEq, Eq)]
pub struct JoinPoolMsg {
    pub channel: String,
    pub timeout: Option<u64>,
    pub pool_id: u64,
    pub in_denom: String,
    pub in_amount: String,
    pub share_out_exact_amount: String,
    pub remote_address: String,
}

/// The messages the contract executes.
#[derive(Clone, Debug, PartialEq, Eq)]
pub enum ExecuteMsg {
    Transfer(TransferMsg),
    Swap(SwapMsg),
    JoinPool(JoinPoolMsg),
}

/// The data of a packet the contract sends.
#[derive(Clone, Debug, PartialEq, Eq)]
pub enum PacketData {
    Ics20(Ics20Packet),
    Ica(InterchainAccountPacketData),
}

/// A packet to send on a channel, with its timeout in nanoseconds since the epoch.
#[derive(Clone, Debug, PartialEq, Eq)]
pub struct IbcMsg {
    pub channel_id: String,
    pub data: PacketData,
    pub timeout: u64,
}

/// What the contract answers to a message.
#[derive(Clone, Debug, PartialEq, Eq)]
pub struct Response {
    pub messages: Vec<IbcMsg>,
    pub attributes: Vec<Attribute>,
    pub data: Option<Ics20Ack>,
}

/// A send of native coins from the contract's bank account.
#[derive(Clone, Debug, PartialEq, Eq)]
pub struct BankSend {
    pub to_address: String,
    pub amount: Vec<NativeCoin>,
}

/// A submessage whose reply, with id `id`, comes only when it fails.
#[derive(Clone, Debug, PartialEq, Eq)]
pub struct SubMsg {
    pub id: u64,
    pub send: BankSend,
}

/// What the contract answers to a received packet.
#[derive(Clone, Debug, PartialEq, Eq)]
pub struct ReceiveResponse {
    pub messages: Vec<SubMsg>,
    pub acknowledgement: Ics20Ack,
    pub attributes: Vec<Attribute>,
}

/// The message an interchain account executes before it sends the result on.
#[derive(Clone, Debug, PartialEq, Eq)]
pub enum IcaMessage {
    Swap(MsgSwapExactAmountIn),
    JoinSwap(MsgJoinSwapExternAmountIn),
}

/// The URL of the type of the message an interchain account executes.
pub open spec fn ica_message_url(m: IcaMessage) -> Seq<char> {
    match m {
        IcaMessage::Swap(_) => MSG_SWAP_EXACT_AMOUNT_IN_TYPE_URL@,
        IcaMessage::JoinSwap(_) => MSG_JOIN_SWAP_EXTERN_AMOUNT_IN_TYPE_URL@,
    }
}

/// The protobuf encoding of the message an interchain account executes.
pub open spec fn ica_message_encoding(m: IcaMessage) -> Seq<u8> {
    match m {
        IcaMessage::Swap(s) => swap_encoding(s),
        IcaMessage::JoinSwap(j) => join_swap_encoding(j),
    }
}

impl IcaMessage {
    /// The message as an `Any`.
    pub fn to_any(&self) -> (r: Any)
        ensures
            r.type_url@ == ica_message_url(*self),
            r.value@ == ica_message_encoding(*self),
    {
        match self {
            IcaMessage::Swap(s) => s.to_any(),
            IcaMessage::JoinSwap(j) => j.to_any(),
        }
    }
}

/// A transaction to run through an interchain account: the message, then the send
/// of its result to the remote address; [`crate::contract::ica_send_packet`] turns
/// it into the packet that carries it.
#[derive(Clone, Debug, PartialEq, Eq)]
pub struct IcaRequest {
    pub channel_id: String,
    pub timeout: u64,
    pub message: IcaMessage,
    pub send: MsgSend,
    pub memo: String,
}

/// What a message to the contract leads to.
#[derive(Clone, Debug, PartialEq, Eq)]
pub enum ExecuteOutcome {
    /// The response is complete.
    Done(Response),
    /// A transaction for an interchain account, to be encoded and sent.
    Ica(IcaRequest),
}

/// The balance of an address in the ledger.
#[derive(Clone, Debug, PartialEq, Eq)]
pub struct BalanceResponse {
    pub amount: u128,
}

/// The voucher denomination of this chain's token over a connection.
#[derive(Clone, Debug, PartialEq, Eq)]
pub struct IbcDenomResponse {
    pub ibc_denom: String,
}

/// A channel and the amounts sent over it, by denomination.
#[derive(Clone, Debug, PartialEq, Eq)]
pub struct ChannelResponse {
    /// Information on the channel's connection
    pub info: ChannelInfo,
    /// How many tokens we currently have pending over this channel
    pub balances: Vec<NativeCoin>,
    /// The total number of tokens that have been sent over this channel
    pub total_sent: Vec<NativeCoin>,
}

/// All connected channels.
#[derive(Clone, Debug, PartialEq, Eq)]
pub struct ListChannelsResponse {
    pub channels: Vec<ChannelInfo>,
}


/// The queries the contract answers.
#[derive(Clone, Debug, PartialEq, Eq)]
pub enum QueryMsg {
    /// The port of the contract.
    Port {},
    /// All connected channels.
    ListChannels {},
    /// A channel and the amounts sent over it.
    Channel { id: String },
    /// The ledger balance of an address.
    Balance { address: String },
    /// The voucher denomination of this chain's token over a connection.
    IbcDenom { connection_id: String },
}

/// The answer to a query.
#[derive(Clone, Debug, PartialEq, Eq)]
pub enum QueryAnswer {
    /// The port is the chain's to tell: it is asked for.
    Port,
    ListChannels(ListChannelsResponse),
    Channel(ChannelResponse),
    Balance(BalanceResponse),
    IbcDenom(IbcDenomResponse),
}

} // verus!
