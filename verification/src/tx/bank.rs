//! Bank module support
use vstd::prelude::*;
use cosmos_sdk_proto::cosmos::bank::v1beta1::MsgSend as BankMsgSend;
use cosmos_sdk_proto::cosmos::base::v1beta1::Coin as BaseCoin;
use cosmos_sdk_proto::traits::Message;
use crate::base::{coins_field, Coin};
use crate::proto::{Any, ProtoMsgSend};
use crate::tx::wire::string_field;
use crate::tx::gamm::{coins_from_proto, coins_of, coins_to_proto, proto_of_coins};

verus! {

/// Sends `amount` from `from_address` to `to_address`.
#[derive(Clone, Debug, PartialEq, Eq, PartialOrd, Ord)]
pub struct MsgSend {
    /// Sender's address.
    pub from_address: String,
    /// Recipient's address.
    pub to_address: String,
    /// Amount to send
    pub amount: Vec<Coin>,
}

/// The URL of the type of [`MsgSend`].
pub const MSG_SEND_TYPE_URL: &'static str = "/cosmos.bank.v1beta1.MsgSend";

/// `m` is what protobuf message `p` reads as.
pub open spec fn send_read(p: ProtoMsgSend, m: MsgSend) -> bool {
    &&& m.from_address == p.from_address
    &&& m.to_address == p.to_address
    &&& m.amount@ == coins_of(p.amount@)
}

/// `p` is the protobuf message written for `m`.
pub open spec fn send_written(m: MsgSend, p: ProtoMsgSend) -> bool {
    &&& p.from_address == m.from_address
    &&& p.to_address == m.to_address
    &&& p.amount@ == proto_of_coins(m.amount@)
}

/// The protobuf encoding of a send (`cosmos.bank.v1beta1.MsgSend`): the sender as
/// field 1, the recipient as field 2 and the coins as the repeated field 3.
pub open spec fn send_encoding(m: MsgSend) -> Seq<u8> {
    string_field(1, m.from_address@) + string_field(2, m.to_address@) + coins_field(3, m.amount@)
}

/// cosmos-sdk-proto's `MsgSend`, encoded with prost's `Message::encode_to_vec`.
/// Trusted: the bytes are those [`send_encoding`] gives, as prost writes the
/// message's fields in order of their numbers, leaving out empty strings.
#[verifier::external_body]
fn encode_msg_send(m: &MsgSend) -> (r: Vec<u8>)
    ensures
        r@ == send_encoding(*m),
{
    let amount = m.amount.iter().map(|c| BaseCoin { denom: c.denom.clone(), amount: c.amount.clone() }).collect();
    let message = BankMsgSend { from_address: m.from_address.clone(), to_address: m.to_address.clone(), amount };
    message.encode_to_vec()
}

impl MsgSend {
    /// Reads the message from its protobuf form.
    pub fn from_proto(proto: &ProtoMsgSend) -> (r: MsgSend)
        ensures
            send_read(*proto, r),
    {
        MsgSend {
            from_address: proto.from_address.clone(),
            to_address: proto.to_address.clone(),
            amount: coins_from_proto(&proto.amount),
        }
    }

    /// The protobuf encoding of the send.
    pub fn encode(&self) -> (r: Vec<u8>)
        ensures
            r@ == send_encoding(*self),
    {
        encode_msg_send(self)
    }

    /// The send as an `Any`.
    pub fn to_any(&self) -> (r: Any)
        ensures
            r.type_url@ == MSG_SEND_TYPE_URL@,
            r.value@ == send_encoding(*self),
    {
        Any { type_url: String::from_str(MSG_SEND_TYPE_URL), value: self.encode() }
    }

    /// The protobuf form of the message.
    pub fn to_proto(&self) -> (r: ProtoMsgSend)
        ensures
            send_written(*self, r),
    {
        ProtoMsgSend {
            from_address: self.from_address.clone(),
            to_address: self.to_address.clone(),
            amount: coins_to_proto(&self.amount),
        }
    }
}

} // verus!
