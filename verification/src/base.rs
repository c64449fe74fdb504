//! Base functionality.
use vstd::prelude::*;
use crate::proto::{ProtoCoin, ProtoSwapAmountInRoute};
use crate::tx::wire::{
    length_delimited, put_length_delimited, put_string_field, put_uint64_field, string_field, uint64_field,
};

verus! {

/// Coin defines a token with a denomination and an amount.
#[derive(Clone, Debug, PartialEq, Eq, PartialOrd, Ord)]
pub struct Coin {
    /// Denomination
    pub denom: String,
    /// Amount
    pub amount: String,
}

/// A hop of a swap: the pool to swap in and the denomination that comes out.
#[derive(Clone, Debug, PartialEq, Eq, PartialOrd, Ord)]
pub struct SwapAmountInRoute {
    /// Pool
    pub pool_id: u64,
    /// Denomination that comes out
    pub token_out_denom: String,
}

/// The coin that a protobuf coin stands for.
pub open spec fn coin_of(p: ProtoCoin) -> Coin {
    Coin { denom: p.denom, amount: p.amount }
}

/// The protobuf coin of a coin.
pub open spec fn proto_of_coin(c: Coin) -> ProtoCoin {
    ProtoCoin { denom: c.denom, amount: c.amount }
}

/// The route that a protobuf route stands for.
pub open spec fn route_of(p: ProtoSwapAmountInRoute) -> SwapAmountInRoute {
    SwapAmountInRoute { pool_id: p.pool_id, token_out_denom: p.token_out_denom }
}

/// The protobuf route of a route.
pub open spec fn proto_of_route(r: SwapAmountInRoute) -> ProtoSwapAmountInRoute {
    ProtoSwapAmountInRoute { pool_id: r.pool_id, token_out_denom: r.token_out_denom }
}

/// The protobuf encoding of a coin (`cosmos.base.v1beta1.Coin`): the denomination
/// as field 1, the amount as field 2.
pub open spec fn coin_encoding(c: Coin) -> Seq<u8> {
    string_field(1, c.denom@) + string_field(2, c.amount@)
}

/// The coins as the repeated message field `tag`: each coin in turn.
pub open spec fn coins_field(tag: nat, coins: Seq<Coin>) -> Seq<u8>
    decreases coins.len(),
{
    if coins.len() == 0 {
        Seq::empty()
    } else {
        coins_field(tag, coins.drop_last()) + length_delimited(tag, coin_encoding(coins.last()))
    }
}

/// The protobuf encoding of a route (`osmosis.gamm.v1beta1.SwapAmountInRoute`): the
/// pool as field 1, the denomination that comes out as field 2.
pub open spec fn route_encoding(r: SwapAmountInRoute) -> Seq<u8> {
    uint64_field(1, r.pool_id) + string_field(2, r.token_out_denom@)
}

/// The routes as the repeated message field `tag`: each route in turn.
pub open spec fn routes_field(tag: nat, routes: Seq<SwapAmountInRoute>) -> Seq<u8>
    decreases routes.len(),
{
    if routes.len() == 0 {
        Seq::empty()
    } else {
        routes_field(tag, routes.drop_last()) + length_delimited(tag, route_encoding(routes.last()))
    }
}

/// Appends `routes` as the repeated message field `tag`.
pub fn put_routes_field(tag: u32, routes: &Vec<SwapAmountInRoute>, buf: &mut Vec<u8>)
    requires
        1 <= tag <= crate::tx::wire::MAX_TAG,
    ensures
        final(buf)@ == old(buf)@ + routes_field(tag as nat, routes@),
{
    let ghost start = buf@;
    let mut i: usize = 0;
    while i < routes.len()
        invariant
            1 <= tag <= crate::tx::wire::MAX_TAG,
            i <= routes@.len(),
            buf@ == start + routes_field(tag as nat, routes@.take(i as int)),
        decreases routes@.len() - i,
    {
        let body = routes[i].encode();
        put_length_delimited(tag, body.as_slice(), buf);
        assert(routes@.take(i + 1).drop_last() =~= routes@.take(i as int));
        i = i + 1;
    }
    assert(routes@.take(routes@.len() as int) =~= routes@);
}

impl SwapAmountInRoute {
    /// The protobuf encoding of the route.
    pub fn encode(&self) -> (r: Vec<u8>)
        ensures
            r@ == route_encoding(*self),
    {
        let mut buf: Vec<u8> = Vec::new();
        put_uint64_field(1, self.pool_id, &mut buf);
        put_string_field(2, self.token_out_denom.as_str(), &mut buf);
        assert(buf@ =~= route_encoding(*self));
        buf
    }
}

impl Coin {
    /// Reads a coin from its protobuf message.
    pub fn from_proto(proto: &ProtoCoin) -> (r: Coin)
        ensures
            r == coin_of(*proto),
    {
        Coin { denom: proto.denom.clone(), amount: proto.amount.clone() }
    }

    /// The protobuf encoding of the coin.
    pub fn encode(&self) -> (r: Vec<u8>)
        ensures
            r@ == coin_encoding(*self),
    {
        let mut buf: Vec<u8> = Vec::new();
        put_string_field(1, self.denom.as_str(), &mut buf);
        put_string_field(2, self.amount.as_str(), &mut buf);
        assert(buf@ =~= coin_encoding(*self));
        buf
    }

    /// The protobuf message of the coin.
    pub fn to_proto(&self) -> (r: ProtoCoin)
        ensures
            r == proto_of_coin(*self),
    {
        ProtoCoin { denom: self.denom.clone(), amount: self.amount.clone() }
    }

    /// A copy of the coin.
    pub fn duplicate(&self) -> (r: Coin)
        ensures
            r == *self,
    {
        Coin { denom: self.denom.clone(), amount: self.amount.clone() }
    }
}

impl SwapAmountInRoute {
    /// Reads a route from its protobuf message.
    pub fn from_proto(proto: &ProtoSwapAmountInRoute) -> (r: SwapAmountInRoute)
        ensures
            r == route_of(*proto),
    {
        SwapAmountInRoute { pool_id: proto.pool_id, token_out_denom: proto.token_out_denom.clone() }
    }

    /// The protobuf message of the route.
    pub fn to_proto(&self) -> (r: ProtoSwapAmountInRoute)
        ensures
            r == proto_of_route(*self),
    {
        ProtoSwapAmountInRoute { pool_id: self.pool_id, token_out_denom: self.token_out_denom.clone() }
    }
}

/// Reading a coin back from the protobuf message written for it gives the coin.
pub proof fn law_coin_round_trip(c: Coin)
    ensures
        coin_of(proto_of_coin(c)) == c,
{
}

/// Writing the protobuf message of a coin read from one gives that message.
pub proof fn law_proto_coin_round_trip(p: ProtoCoin)
    ensures
        proto_of_coin(coin_of(p)) == p,
{
}

/// Reading a route back from the protobuf message written for it gives the route.
pub proof fn law_route_round_trip(r: SwapAmountInRoute)
    ensures
        route_of(proto_of_route(r)) == r,
{
}

/// Writing the protobuf message of a route read from one gives that message.
pub proof fn law_proto_route_round_trip(p: ProtoSwapAmountInRoute)
    ensures
        proto_of_route(route_of(p)) == p,
{
}

} // verus!
