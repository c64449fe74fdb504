//! Messages of Osmosis' GAMM (pool) module.
use vstd::prelude::*;
use crate::base::{
    coin_encoding, coin_of, proto_of_coin, proto_of_route, route_of, routes_field, Coin, SwapAmountInRoute,
    put_routes_field,
};
use crate::proto::Any;
use crate::tx::wire::{
    length_delimited, put_length_delimited, put_string_field, put_uint64_field, string_field, uint64_field,
};
use crate::proto::{
    ProtoCoin, ProtoMsgJoinPool, ProtoMsgJoinSwapExternAmountIn, ProtoMsgSwapExactAmountIn,
    ProtoSwapAmountInRoute,
};

verus! {

/// Swaps an exact amount of `token_in` along `routes`.
#[derive(Clone, Debug, PartialEq, Eq, PartialOrd, Ord)]
pub struct MsgSwapExactAmountIn {
    /// Sender's address.
    pub sender: String,
    pub routes: Vec<SwapAmountInRoute>,
    pub token_in: Coin,
    pub token_out_min_amount: String,
}

/// Joins pool `pool_id` for `share_out_amount` shares, paying at most `token_in_maxs`.
#[derive(Clone, Debug, PartialEq, Eq, PartialOrd, Ord)]
pub struct MsgJoinPool {
    /// Sender's address.
    pub sender: String,
    pub pool_id: u64,
    pub share_out_amount: String,
    pub token_in_maxs: Vec<Coin>,
}

/// Joins pool `pool_id` with a single asset `token_in`.
#[derive(Clone, Debug, PartialEq, Eq, PartialOrd, Ord)]
pub struct MsgJoinSwapExternAmountIn {
    /// Sender's address.
    pub sender: String,
    pub pool_id: u64,
    pub token_in: Coin,
    pub share_out_min_amount: String,
}

/// The routes that protobuf routes stand for.
pub open spec fn routes_of(s: Seq<ProtoSwapAmountInRoute>) -> Seq<SwapAmountInRoute> {
    s.map_values(|p: ProtoSwapAmountInRoute| route_of(p))
}

/// The protobuf routes of routes.
pub open spec fn proto_of_routes(s: Seq<SwapAmountInRoute>) -> Seq<ProtoSwapAmountInRoute> {
    s.map_values(|r: SwapAmountInRoute| proto_of_route(r))
}

/// The coins that protobuf coins stand for.
pub open spec fn coins_of(s: Seq<ProtoCoin>) -> Seq<Coin> {
    s.map_values(|p: ProtoCoin| coin_of(p))
}

/// The protobuf coins of coins.
pub open spec fn proto_of_coins(s: Seq<Coin>) -> Seq<ProtoCoin> {
    s.map_values(|c: Coin| proto_of_coin(c))
}

/// Reads routes from their protobuf messages.
pub fn routes_from_proto(v: &Vec<ProtoSwapAmountInRoute>) -> (r: Vec<SwapAmountInRoute>)
    ensures
        r@ == routes_of(v@),
{
    let mut r: Vec<SwapAmountInRoute> = Vec::new();
    let mut i: usize = 0;
    while i < v.len()
        invariant
            i <= v@.len(),
            r@ =~= routes_of(v@.take(i as int)),
        decreases v@.len() - i,
    {
        r.push(SwapAmountInRoute::from_proto(&v[i]));
        assert(v@.take(i + 1) =~= v@.take(i as int).push(v@[i as int]));
        i = i + 1;
    }
    assert(v@.take(v@.len() as int) =~= v@);
    r
}

/// Writes routes as protobuf messages.
pub fn routes_to_proto(v: &Vec<SwapAmountInRoute>) -> (r: Vec<ProtoSwapAmountInRoute>)
    ensures
        r@ == proto_of_routes(v@),
{
    let mut r: Vec<ProtoSwapAmountInRoute> = Vec::new();
    let mut i: usize = 0;
    while i < v.len()
        invariant
            i <= v@.len(),
            r@ =~= proto_of_routes(v@.take(i as int)),
        decreases v@.len() - i,
    {
        r.push(v[i].to_proto());
        assert(v@.take(i + 1) =~= v@.take(i as int).push(v@[i as int]));
        i = i + 1;
    }
    assert(v@.take(v@.len() as int) =~= v@);
    r
}

/// Reads coins from their protobuf messages.
pub fn coins_from_proto(v: &Vec<ProtoCoin>) -> (r: Vec<Coin>)
    ensures
        r@ == coins_of(v@),
{
    let mut r: Vec<Coin> = Vec::new();
    let mut i: usize = 0;
    while i < v.len()
        invariant
            i <= v@.len(),
            r@ =~= coins_of(v@.take(i as int)),
        decreases v@.len() - i,
    {
        r.push(Coin::from_proto(&v[i]));
        assert(v@.take(i + 1) =~= v@.take(i as int).push(v@[i as int]));
        i = i + 1;
    }
    assert(v@.take(v@.len() as int) =~= v@);
    r
}

/// Writes coins as protobuf messages.
pub fn coins_to_proto(v: &Vec<Coin>) -> (r: Vec<ProtoCoin>)
    ensures
        r@ == proto_of_coins(v@),
{
    let mut r: Vec<ProtoCoin> = Vec::new();
    let mut i: usize = 0;
    while i < v.len()
        invariant
            i <= v@.len(),
            r@ =~= proto_of_coins(v@.take(i as int)),
        decreases v@.len() - i,
    {
        r.push(v[i].to_proto());
        assert(v@.take(i + 1) =~= v@.take(i as int).push(v@[i as int]));
        i = i + 1;
    }
    assert(v@.take(v@.len() as int) =~= v@);
    r
}

/// `m` is what protobuf message `p` reads as.
pub open spec fn swap_read(p: ProtoMsgSwapExactAmountIn, m: MsgSwapExactAmountIn) -> bool {
    &&& m.sender == p.sender
    &&& m.routes@ == routes_of(p.routes@)
    &&& m.token_in == coin_of(p.token_in.unwrap())
    &&& m.token_out_min_amount == p.token_out_min_amount
}

/// `p` is the protobuf message written for `m`.
pub open spec fn swap_written(m: MsgSwapExactAmountIn, p: ProtoMsgSwapExactAmountIn) -> bool {
    &&& p.sender == m.sender
    &&& p.routes@ == proto_of_routes(m.routes@)
    &&& p.token_in == Some(proto_of_coin(m.token_in))
    &&& p.token_out_min_amount == m.token_out_min_amount
}

/// `m` is what protobuf message `p` reads as.
pub open spec fn join_pool_read(p: ProtoMsgJoinPool, m: MsgJoinPool) -> bool {
    &&& m.sender == p.sender
    &&& m.pool_id == p.pool_id
    &&& m.share_out_amount == p.share_out_amount
    &&& m.token_in_maxs@ == coins_of(p.token_in_maxs@)
}

/// `p` is the protobuf message written for `m`.
pub open spec fn join_pool_written(m: MsgJoinPool, p: ProtoMsgJoinPool) -> bool {
    &&& p.sender == m.sender
    &&& p.pool_id == m.pool_id
    &&& p.share_out_amount == m.share_out_amount
    &&& p.token_in_maxs@ == proto_of_coins(m.token_in_maxs@)
}

/// `m` is what protobuf message `p` reads as.
pub open spec fn join_swap_read(p: ProtoMsgJoinSwapExternAmountIn, m: MsgJoinSwapExternAmountIn) -> bool {
    &&& m.sender == p.sender
    &&& m.pool_id == p.pool_id
    &&& m.token_in == coin_of(p.token_in.unwrap())
    &&& m.share_out_min_amount == p.share_out_min_amount
}

/// `p` is the protobuf message written for `m`.
pub open spec fn join_swap_written(m: MsgJoinSwapExternAmountIn, p: ProtoMsgJoinSwapExternAmountIn) -> bool {
    &&& p.sender == m.sender
    &&& p.pool_id == m.pool_id
    &&& p.token_in == Some(proto_of_coin(m.token_in))
    &&& p.share_out_min_amount == m.share_out_min_amount
}

/// The URL of the type of [`MsgSwapExactAmountIn`].
pub const MSG_SWAP_EXACT_AMOUNT_IN_TYPE_URL: &'static str = "/osmosis.gamm.v1beta1.MsgSwapExactAmountIn";

/// The URL of the type of [`MsgJoinPool`].
pub const MSG_JOIN_POOL_TYPE_URL: &'static str = "/osmosis.gamm.v1beta1.MsgJoinPool";

/// The URL of the type of [`MsgJoinSwapExternAmountIn`].
pub const MSG_JOIN_SWAP_EXTERN_AMOUNT_IN_TYPE_URL: &'static str = "/osmosis.gamm.v1beta1.MsgJoinSwapExternAmountIn";

/// The protobuf encoding of a swap (`osmosis.gamm.v1beta1.MsgSwapExactAmountIn`):
/// the sender as field 1, the routes as field 2, the coin put in as field 3 and
/// the least amount out as field 4.
pub open spec fn swap_encoding(m: MsgSwapExactAmountIn) -> Seq<u8> {
    string_field(1, m.sender@) + routes_field(2, m.routes@) + length_delimited(3, coin_encoding(m.token_in))
        + string_field(4, m.token_out_min_amount@)
}

/// The protobuf encoding of a single-asset pool join
/// (`osmosis.gamm.v1beta1.MsgJoinSwapExternAmountIn`): the sender as field 1, the
/// pool as field 2, the coin put in as field 3 and the least shares out as field 4.
pub open spec fn join_swap_encoding(m: MsgJoinSwapExternAmountIn) -> Seq<u8> {
    string_field(1, m.sender@) + uint64_field(2, m.pool_id) + length_delimited(3, coin_encoding(m.token_in))
        + string_field(4, m.share_out_min_amount@)
}

impl MsgSwapExactAmountIn {
    /// Reads the message from its protobuf form; the protobuf form must hold `token_in`.
    pub fn from_proto(proto: &ProtoMsgSwapExactAmountIn) -> (r: MsgSwapExactAmountIn)
        requires
            proto.token_in is Some,
        ensures
            swap_read(*proto, r),
    {
        let token_in = match &proto.token_in {
            Some(c) => Coin::from_proto(c),
            None => Coin::from_proto(&ProtoCoin { denom: String::new(), amount: String::new() }),
        };
        MsgSwapExactAmountIn {
            sender: proto.sender.clone(),
            routes: routes_from_proto(&proto.routes),
            token_in,
            token_out_min_amount: proto.token_out_min_amount.clone(),
        }
    }

    /// The protobuf form of the message.
    pub fn to_proto(&self) -> (r: ProtoMsgSwapExactAmountIn)
        ensures
            swap_written(*self, r),
    {
        ProtoMsgSwapExactAmountIn {
            sender: self.sender.clone(),
            routes: routes_to_proto(&self.routes),
            token_in: Some(self.token_in.to_proto()),
            token_out_min_amount: self.token_out_min_amount.clone(),
        }
    }
}

impl MsgJoinPool {
    /// Reads the message from its protobuf form.
    pub fn from_proto(proto: &ProtoMsgJoinPool) -> (r: MsgJoinPool)
        ensures
            join_pool_read(*proto, r),
    {
        MsgJoinPool {
            sender: proto.sender.clone(),
            pool_id: proto.pool_id,
            share_out_amount: proto.share_out_amount.clone(),
            token_in_maxs: coins_from_proto(&proto.token_in_maxs),
        }
    }

    /// The protobuf form of the message.
    pub fn to_proto(&self) -> (r: ProtoMsgJoinPool)
        ensures
            join_pool_written(*self, r),
    {
        ProtoMsgJoinPool {
            sender: self.sender.clone(),
            pool_id: self.pool_id,
            share_out_amount: self.share_out_amount.clone(),
            token_in_maxs: coins_to_proto(&self.token_in_maxs),
        }
    }
}

impl MsgJoinSwapExternAmountIn {
    /// Reads the message from its protobuf form; the protobuf form must hold `token_in`.
    pub fn from_proto(proto: &ProtoMsgJoinSwapExternAmountIn) -> (r: MsgJoinSwapExternAmountIn)
        requires
            proto.token_in is Some,
        ensures
            join_swap_read(*proto, r),
    {
        let token_in = match &proto.token_in {
            Some(c) => Coin::from_proto(c),
            None => Coin::from_proto(&ProtoCoin { denom: String::new(), amount: String::new() }),
        };
        MsgJoinSwapExternAmountIn {
            sender: proto.sender.clone(),
            pool_id: proto.pool_id,
            token_in,
            share_out_min_amount: proto.share_out_min_amount.clone(),
        }
    }

    /// The protobuf form of the message.
    pub fn to_proto(&self) -> (r: ProtoMsgJoinSwapExternAmountIn)
        ensures
            join_swap_written(*self, r),
    {
        ProtoMsgJoinSwapExternAmountIn {
            sender: self.sender.clone(),
            pool_id: self.pool_id,
            token_in: Some(self.token_in.to_proto()),
            share_out_min_amount: self.share_out_min_amount.clone(),
        }
    }
}

proof fn lemma_routes_round_trip(s: Seq<SwapAmountInRoute>)
    ensures
        routes_of(proto_of_routes(s)) =~= s,
{
}

proof fn lemma_proto_routes_round_trip(s: Seq<ProtoSwapAmountInRoute>)
    ensures
        proto_of_routes(routes_of(s)) =~= s,
{
}

proof fn lemma_coins_round_trip(s: Seq<Coin>)
    ensures
        coins_of(proto_of_coins(s)) =~= s,
{
}

proof fn lemma_proto_coins_round_trip(s: Seq<ProtoCoin>)
    ensures
        proto_of_coins(coins_of(s)) =~= s,
{
}

/// Reading back the protobuf form written for a swap message gives the message.
pub proof fn law_swap_round_trip(
    m: MsgSwapExactAmountIn,
    p: ProtoMsgSwapExactAmountIn,
    back: MsgSwapExactAmountIn,
)
    requires
        swap_written(m, p),
        swap_read(p, back),
    ensures
        back.sender == m.sender,
        back.routes@ == m.routes@,
        back.token_in == m.token_in,
        back.token_out_min_amount == m.token_out_min_amount,
{
    lemma_routes_round_trip(m.routes@);
}

/// Writing a swap message read from a protobuf form that holds `token_in` gives that form.
pub proof fn law_proto_swap_round_trip(
    p: ProtoMsgSwapExactAmountIn,
    m: MsgSwapExactAmountIn,
    back: ProtoMsgSwapExactAmountIn,
)
    requires
        p.token_in is Some,
        swap_read(p, m),
        swap_written(m, back),
    ensures
        back.sender == p.sender,
        back.routes@ == p.routes@,
        back.token_in == p.token_in,
        back.token_out_min_amount == p.token_out_min_amount,
{
    lemma_proto_routes_round_trip(p.routes@);
}

/// Reading back the protobuf form written for a join-pool message gives the message.
pub proof fn law_join_pool_round_trip(m: MsgJoinPool, p: ProtoMsgJoinPool, back: MsgJoinPool)
    requires
        join_pool_written(m, p),
        join_pool_read(p, back),
    ensures
        back.sender == m.sender,
        back.pool_id == m.pool_id,
        back.share_out_amount == m.share_out_amount,
        back.token_in_maxs@ == m.token_in_maxs@,
{
    lemma_coins_round_trip(m.token_in_maxs@);
}

/// Writing a join-pool message read from a protobuf form gives that form.
pub proof fn law_proto_join_pool_round_trip(p: ProtoMsgJoinPool, m: MsgJoinPool, back: ProtoMsgJoinPool)
    requires
        join_pool_read(p, m),
        join_pool_written(m, back),
    ensures
        back.sender == p.sender,
        back.pool_id == p.pool_id,
        back.share_out_amount == p.share_out_amount,
        back.token_in_maxs@ == p.token_in_maxs@,
{
    lemma_proto_coins_round_trip(p.token_in_maxs@);
}

/// Reading back the protobuf form written for a single-asset join gives the message.
pub proof fn law_join_swap_round_trip(
    m: MsgJoinSwapExternAmountIn,
    p: ProtoMsgJoinSwapExternAmountIn,
    back: MsgJoinSwapExternAmountIn,
)
    requires
        join_swap_written(m, p),
        join_swap_read(p, back),
    ensures
        back == m,
{
}

impl MsgSwapExactAmountIn {
    /// The protobuf encoding of the swap.
    pub fn encode(&self) -> (r: Vec<u8>)
        ensures
            r@ == swap_encoding(*self),
    {
        let mut buf: Vec<u8> = Vec::new();
        put_string_field(1, self.sender.as_str(), &mut buf);
        put_routes_field(2, &self.routes, &mut buf);
        let coin = self.token_in.encode();
        put_length_delimited(3, coin.as_slice(), &mut buf);
        put_string_field(4, self.token_out_min_amount.as_str(), &mut buf);
        assert(buf@ =~= swap_encoding(*self));
        buf
    }

    /// The swap as an `Any`.
    pub fn to_any(&self) -> (r: Any)
        ensures
            r.type_url@ == MSG_SWAP_EXACT_AMOUNT_IN_TYPE_URL@,
            r.value@ == swap_encoding(*self),
    {
        Any { type_url: String::from_str(MSG_SWAP_EXACT_AMOUNT_IN_TYPE_URL), value: self.encode() }
    }
}

impl MsgJoinSwapExternAmountIn {
    /// The protobuf encoding of the pool join.
    pub fn encode(&self) -> (r: Vec<u8>)
        ensures
            r@ == join_swap_encoding(*self),
    {
        let mut buf: Vec<u8> = Vec::new();
        put_string_field(1, self.sender.as_str(), &mut buf);
        put_uint64_field(2, self.pool_id, &mut buf);
        let coin = self.token_in.encode();
        put_length_delimited(3, coin.as_slice(), &mut buf);
        put_string_field(4, self.share_out_min_amount.as_str(), &mut buf);
        assert(buf@ =~= join_swap_encoding(*self));
        buf
    }

    /// The pool join as an `Any`.
    pub fn to_any(&self) -> (r: Any)
        ensures
            r.type_url@ == MSG_JOIN_SWAP_EXTERN_AMOUNT_IN_TYPE_URL@,
            r.value@ == join_swap_encoding(*self),
    {
        Any { type_url: String::from_str(MSG_JOIN_SWAP_EXTERN_AMOUNT_IN_TYPE_URL), value: self.encode() }
    }
}

} // verus!
