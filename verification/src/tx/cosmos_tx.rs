//! The transaction an interchain account executes: a list of messages.
use vstd::prelude::*;
use crate::proto::{Any, ProtoCosmosTx};
use crate::tx::wire::{bytes_field, length_delimited, string_field};

verus! {

/// A `google.protobuf.Any` with `type_url` (field 1) and `value` (field 2) as the
/// length-delimited field `tag` of a message.
pub open spec fn any_field_encoding(tag: u32, type_url: Seq<char>, value: Seq<u8>) -> Seq<u8> {
    length_delimited(tag as nat, string_field(1, type_url) + bytes_field(2, value))
}

/// prost's `encoding::message::encode` of prost-types' `Any` as field `tag`,
/// appended to `buf`.
/// Trusted: the bytes appended are the key, the length and the message, whose
/// fields prost writes in order of their numbers, leaving out empty ones.
#[verifier::external_body]
fn encode_any_field(tag: u32, any: &Any, buf: &mut Vec<u8>)
    requires
        1 <= tag <= crate::tx::wire::MAX_TAG,
    ensures
        final(buf)@ == old(buf)@ + any_field_encoding(tag, any.type_url@, any.value@),
{
    let message = prost_types::Any { type_url: any.type_url.clone(), value: any.value.clone() };
    prost::encoding::message::encode(tag, &message, buf);
}

/// The protobuf encoding of a `CosmosTx` holding `messages`: each message in
/// turn as the repeated field 1.
pub open spec fn cosmos_tx_encoding(messages: Seq<Any>) -> Seq<u8>
    decreases messages.len(),
{
    if messages.len() == 0 {
        Seq::empty()
    } else {
        cosmos_tx_encoding(messages.drop_last()) + any_field_encoding(
            1,
            messages.last().type_url@,
            messages.last().value@,
        )
    }
}

/// A transaction of two messages: the first `Any`, then the second.
pub proof fn lemma_cosmos_tx_pair(a: Any, b: Any)
    ensures
        cosmos_tx_encoding(seq![a, b]) == any_field_encoding(1, a.type_url@, a.value@) + any_field_encoding(
            1,
            b.type_url@,
            b.value@,
        ),
{
    let s = seq![a, b];
    assert(s.drop_last() =~= seq![a]);
    assert(seq![a].drop_last() =~= Seq::<Any>::empty());
    let e0 = cosmos_tx_encoding(Seq::<Any>::empty());
    assert(e0 =~= Seq::<u8>::empty());
    let ea = any_field_encoding(1, a.type_url@, a.value@);
    assert(cosmos_tx_encoding(seq![a]) == e0 + ea);
    assert(e0 + ea =~= ea);
}

/// A transaction for an interchain account: the messages it executes, in order.
#[derive(Clone, Debug, PartialEq)]
pub struct CosmosTx {
    pub messages: Vec<Any>,
}

impl CosmosTx {
    /// A transaction of `messages`.
    pub fn new(messages: Vec<Any>) -> (r: CosmosTx)
        ensures
            r.messages == messages,
    {
        CosmosTx { messages }
    }

    /// The protobuf message of the transaction.
    pub fn into_proto(self) -> (r: ProtoCosmosTx)
        ensures
            r.messages == self.messages,
    {
        ProtoCosmosTx { messages: self.messages }
    }

    /// Reads a transaction from its protobuf message.
    pub fn from_proto(proto: ProtoCosmosTx) -> (r: CosmosTx)
        ensures
            r.messages == proto.messages,
    {
        CosmosTx { messages: proto.messages }
    }

    /// Encode this type using Protocol Buffers.
    pub fn into_bytes(self) -> (r: Vec<u8>)
        ensures
            r@ == cosmos_tx_encoding(self.messages@),
    {
        let mut buf: Vec<u8> = Vec::new();
        let mut i: usize = 0;
        while i < self.messages.len()
            invariant
                i <= self.messages@.len(),
                buf@ == cosmos_tx_encoding(self.messages@.take(i as int)),
            decreases self.messages@.len() - i,
        {
            encode_any_field(1, &self.messages[i], &mut buf);
            assert(self.messages@.take(i + 1).drop_last() =~= self.messages@.take(i as int));
            i = i + 1;
        }
        assert(self.messages@.take(self.messages@.len() as int) =~= self.messages@);
        buf
    }
}

} // verus!
