//! Reading back the transaction of an interchain-account packet: the first
//! message of a `CosmosTx`, read as one of the messages the contract sends.
//! Fields are read in the order of their numbers, as the encoders write them; a
//! field left out reads as its default.
use vstd::prelude::*;
use vstd::utf8::{decode_utf8, encode_utf8, encode_utf8_decode_utf8, encode_utf8_valid_utf8, valid_utf8};
use crate::base::{coin_encoding, route_encoding, routes_field, Coin, SwapAmountInRoute};
use crate::msg::{ica_message_encoding, ica_message_url, IcaMessage};
use crate::tx::cosmos_tx::any_field_encoding;
use crate::tx::gamm::{
    join_swap_encoding, swap_encoding, MsgJoinSwapExternAmountIn, MsgSwapExactAmountIn,
    MSG_JOIN_SWAP_EXTERN_AMOUNT_IN_TYPE_URL, MSG_SWAP_EXACT_AMOUNT_IN_TYPE_URL,
};
use crate::text::same_text;
use crate::tx::wire::{bytes_field, length_delimited, string_field, uint64_field, varint};

verus! {

/// A varint at the start of `b`, with the number of bytes it takes; none when the
/// bytes end first or the value does not fit in 64 bits.
pub open spec fn read_varint(b: Seq<u8>) -> Option<(nat, nat)>
    decreases b.len(),
{
    if b.len() == 0 {
        None
    } else if b[0] < 128 {
        Some((b[0] as nat, 1nat))
    } else {
        match read_varint(b.drop_first()) {
            Some((v, n)) => if (b[0] - 128) + 128 * v <= u64::MAX {
                Some((((b[0] - 128) + 128 * v) as nat, n + 1))
            } else {
                None
            },
            None => None,
        }
    }
}

/// `b` starts with the one-byte key `key`.
pub open spec fn starts_with(b: Seq<u8>, key: nat) -> bool {
    b.len() > 0 && b[0] == key
}

/// The length-delimited field `tag` at the start of `b`: its body and the number
/// of bytes the field takes.
pub open spec fn read_ld(b: Seq<u8>, tag: nat) -> Option<(Seq<u8>, nat)> {
    if starts_with(b, tag * 8 + 2) {
        match read_varint(b.drop_first()) {
            Some((l, n)) => if 1 + n + l <= b.len() {
                Some((b.subrange((1 + n) as int, (1 + n + l) as int), 1 + n + l))
            } else {
                None
            },
            None => None,
        }
    } else {
        None
    }
}

/// The `bytes` field `tag` at the start of `b`, or empty and nothing taken when `b`
/// starts with another field.
pub open spec fn read_opt_bytes(b: Seq<u8>, tag: nat) -> Option<(Seq<u8>, nat)> {
    if starts_with(b, tag * 8 + 2) {
        read_ld(b, tag)
    } else {
        Some((Seq::empty(), 0nat))
    }
}

/// The `string` field `tag` at the start of `b`, as `read_opt_bytes`; its bytes
/// must be UTF-8.
pub open spec fn read_opt_string(b: Seq<u8>, tag: nat) -> Option<(Seq<char>, nat)> {
    match read_opt_bytes(b, tag) {
        Some((x, n)) => if valid_utf8(x) {
            Some((decode_utf8(x), n))
        } else {
            None
        },
        None => None,
    }
}

/// The `uint64` field `tag` at the start of `b`, or zero and nothing taken.
pub open spec fn read_opt_uint64(b: Seq<u8>, tag: nat) -> Option<(u64, nat)> {
    if starts_with(b, tag * 8) {
        match read_varint(b.drop_first()) {
            Some((v, n)) => Some((v as u64, n + 1)),
            None => None,
        }
    } else {
        Some((0u64, 0nat))
    }
}

/// A coin read as its denomination and amount.
pub open spec fn coin_view(c: Coin) -> (Seq<char>, Seq<char>) {
    (c.denom@, c.amount@)
}

/// A route read as its pool and the denomination that comes out.
pub open spec fn route_view(r: SwapAmountInRoute) -> (u64, Seq<char>) {
    (r.pool_id, r.token_out_denom@)
}

/// What is read of a message an interchain account executes.
pub enum MessageView {
    Swap {
        sender: Seq<char>,
        routes: Seq<(u64, Seq<char>)>,
        token_in: (Seq<char>, Seq<char>),
        token_out_min_amount: Seq<char>,
    },
    JoinSwap {
        sender: Seq<char>,
        pool_id: u64,
        token_in: (Seq<char>, Seq<char>),
        share_out_min_amount: Seq<char>,
    },
}

/// What a message reads as.
pub open spec fn message_view(m: IcaMessage) -> MessageView {
    match m {
        IcaMessage::Swap(s) => MessageView::Swap {
            sender: s.sender@,
            routes: s.routes@.map_values(|r: SwapAmountInRoute| route_view(r)),
            token_in: coin_view(s.token_in),
            token_out_min_amount: s.token_out_min_amount@,
        },
        IcaMessage::JoinSwap(j) => MessageView::JoinSwap {
            sender: j.sender@,
            pool_id: j.pool_id,
            token_in: coin_view(j.token_in),
            share_out_min_amount: j.share_out_min_amount@,
        },
    }
}

/// A coin that takes all of `b`.
pub open spec fn read_coin(b: Seq<u8>) -> Option<(Seq<char>, Seq<char>)> {
    match read_opt_string(b, 1) {
        Some((denom, n1)) => match read_opt_string(b.skip(n1 as int), 2) {
            Some((amount, n2)) => if n1 + n2 == b.len() {
                Some((denom, amount))
            } else {
                None
            },
            None => None,
        },
        None => None,
    }
}

/// A route that takes all of `b`.
pub open spec fn read_route(b: Seq<u8>) -> Option<(u64, Seq<char>)> {
    match read_opt_uint64(b, 1) {
        Some((pool, n1)) => match read_opt_string(b.skip(n1 as int), 2) {
            Some((denom, n2)) => if n1 + n2 == b.len() {
                Some((pool, denom))
            } else {
                None
            },
            None => None,
        },
        None => None,
    }
}

/// The routes of the repeated field `tag` at the start of `b`, with the number of
/// bytes they take.
pub open spec fn read_routes(b: Seq<u8>, tag: nat) -> Option<(Seq<(u64, Seq<char>)>, nat)>
    decreases b.len(),
{
    if starts_with(b, tag * 8 + 2) {
        match read_varint(b.drop_first()) {
            Some((l, n)) => if 1 + n + l <= b.len() {
                match read_route(b.subrange((1 + n) as int, (1 + n + l) as int)) {
                    Some(r) => match read_routes(b.skip((1 + n + l) as int), tag) {
                        Some((rs, m)) => Some((seq![r] + rs, 1 + n + l + m)),
                        None => None,
                    },
                    None => None,
                }
            } else {
                None
            },
            None => None,
        }
    } else {
        Some((Seq::empty(), 0nat))
    }
}

/// A swap that takes all of `b`.
pub open spec fn read_swap(b: Seq<u8>) -> Option<MessageView> {
    match read_opt_string(b, 1) {
        Some((sender, n1)) => {
            let b1 = b.skip(n1 as int);
            match read_routes(b1, 2) {
                Some((routes, n2)) => {
                    let b2 = b1.skip(n2 as int);
                    match read_ld(b2, 3) {
                        Some((coin, n3)) => match read_coin(coin) {
                            Some(token_in) => {
                                let b3 = b2.skip(n3 as int);
                                match read_opt_string(b3, 4) {
                                    Some((min_out, n4)) => if n4 == b3.len() {
                                        Some(
                                            MessageView::Swap {
                                                sender,
                                                routes,
                                                token_in,
                                                token_out_min_amount: min_out,
                                            },
                                        )
                                    } else {
                                        None
                                    },
                                    None => None,
                                }
                            },
                            None => None,
                        },
                        None => None,
                    }
                },
                None => None,
            }
        },
        None => None,
    }
}

/// A single-asset pool join that takes all of `b`.
pub open spec fn read_join_swap(b: Seq<u8>) -> Option<MessageView> {
    match read_opt_string(b, 1) {
        Some((sender, n1)) => {
            let b1 = b.skip(n1 as int);
            match read_opt_uint64(b1, 2) {
                Some((pool_id, n2)) => {
                    let b2 = b1.skip(n2 as int);
                    match read_ld(b2, 3) {
                        Some((coin, n3)) => match read_coin(coin) {
                            Some(token_in) => {
                                let b3 = b2.skip(n3 as int);
                                match read_opt_string(b3, 4) {
                                    Some((min_out, n4)) => if n4 == b3.len() {
                                        Some(
                                            MessageView::JoinSwap {
                                                sender,
                                                pool_id,
                                                token_in,
                                                share_out_min_amount: min_out,
                                            },
                                        )
                                    } else {
                                        None
                                    },
                                    None => None,
                                }
                            },
                            None => None,
                        },
                        None => None,
                    }
                },
                None => None,
            }
        },
        None => None,
    }
}

/// An `Any` that takes all of `b`: its type URL and value.
pub open spec fn read_any(b: Seq<u8>) -> Option<(Seq<char>, Seq<u8>)> {
    match read_opt_string(b, 1) {
        Some((url, n1)) => match read_opt_bytes(b.skip(n1 as int), 2) {
            Some((value, n2)) => if n1 + n2 == b.len() {
                Some((url, value))
            } else {
                None
            },
            None => None,
        },
        None => None,
    }
}

/// The first message of an encoded `CosmosTx`, when it is a swap or a
/// single-asset pool join; what follows it is not read.
pub open spec fn read_first_message(tx: Seq<u8>) -> Option<MessageView> {
    match read_ld(tx, 1) {
        Some((body, _)) => match read_any(body) {
            Some((url, value)) => if url == MSG_SWAP_EXACT_AMOUNT_IN_TYPE_URL@ {
                read_swap(value)
            } else if url == MSG_JOIN_SWAP_EXTERN_AMOUNT_IN_TYPE_URL@ {
                read_join_swap(value)
            } else {
                None
            },
            None => None,
        },
        None => None,
    }
}


/// A varint reads back as its value, taking all of its bytes.
pub proof fn lemma_read_varint(n: nat, rest: Seq<u8>)
    requires
        n <= u64::MAX,
    ensures
        read_varint(varint(n) + rest) == Some((n, varint(n).len())),
    decreases n,
{
    let b = varint(n) + rest;
    if n < 128 {
        assert(b[0] == n as u8);
    } else {
        assert(b[0] == (n % 128 + 128) as u8);
        assert(b.drop_first() =~= varint(n / 128) + rest);
        lemma_read_varint(n / 128, rest);
    }
}

/// A key of a field numbered below 16 is one byte.
pub proof fn lemma_small_key(tag: nat, wire_type: nat)
    requires
        tag < 16,
        wire_type < 8,
    ensures
        crate::tx::wire::field_key(tag, wire_type) == seq![(tag * 8 + wire_type) as u8],
{
    assert(tag * 8 + wire_type < 128);
}

/// A length-delimited field reads back as its body.
pub proof fn lemma_read_ld(tag: nat, body: Seq<u8>, rest: Seq<u8>)
    requires
        1 <= tag < 16,
        body.len() <= u64::MAX,
    ensures
        starts_with(length_delimited(tag, body) + rest, tag * 8 + 2),
        read_ld(length_delimited(tag, body) + rest, tag) == Some((body, length_delimited(tag, body).len())),
{
    lemma_small_key(tag, 2);
    let b = length_delimited(tag, body) + rest;
    assert(b.drop_first() =~= varint(body.len()) + (body + rest));
    lemma_read_varint(body.len(), body + rest);
    let n = varint(body.len()).len();
    assert(b.subrange((1 + n) as int, (1 + n + body.len()) as int) =~= body);
}

/// Bytes that start with another key still do after a length-delimited field `tag`
/// is put in front, or with that field's key.
pub proof fn lemma_ld_starts(tag: nat, body: Seq<u8>, rest: Seq<u8>, key: nat)
    requires
        1 <= tag < 16,
    ensures
        starts_with(length_delimited(tag, body) + rest, key) <==> key == tag * 8 + 2,
{
    lemma_small_key(tag, 2);
    assert((length_delimited(tag, body) + rest)[0] == (tag * 8 + 2) as u8);
}

/// A `bytes` field reads back as its value.
pub proof fn lemma_read_opt_bytes(tag: nat, x: Seq<u8>, rest: Seq<u8>)
    requires
        1 <= tag < 16,
        x.len() <= u64::MAX,
        !starts_with(rest, tag * 8 + 2),
    ensures
        read_opt_bytes(bytes_field(tag, x) + rest, tag) == Some((x, bytes_field(tag, x).len())),
{
    if x.len() == 0 {
        assert(bytes_field(tag, x) + rest =~= rest);
        assert(x =~= Seq::<u8>::empty());
    } else {
        lemma_read_ld(tag, x, rest);
    }
}

/// A `string` field reads back as its text.
pub proof fn lemma_read_opt_string(tag: nat, s: Seq<char>, rest: Seq<u8>)
    requires
        1 <= tag < 16,
        encode_utf8(s).len() <= u64::MAX,
        !starts_with(rest, tag * 8 + 2),
    ensures
        read_opt_string(string_field(tag, s) + rest, tag) == Some((s, string_field(tag, s).len())),
{
    lemma_read_opt_bytes(tag, encode_utf8(s), rest);
    encode_utf8_valid_utf8(s);
    encode_utf8_decode_utf8(s);
}

/// Bytes that start with another key still do after a `bytes` field `tag` is put
/// in front.
pub proof fn lemma_bytes_field_starts(tag: nat, x: Seq<u8>, rest: Seq<u8>, key: nat)
    requires
        1 <= tag < 16,
        key != tag * 8 + 2,
        !starts_with(rest, key),
    ensures
        !starts_with(bytes_field(tag, x) + rest, key),
{
    if x.len() == 0 {
        assert(bytes_field(tag, x) + rest =~= rest);
    } else {
        lemma_ld_starts(tag, x, rest, key);
    }
}

/// A `uint64` field reads back as its value.
pub proof fn lemma_read_opt_uint64(tag: nat, v: u64, rest: Seq<u8>)
    requires
        1 <= tag < 16,
        !starts_with(rest, tag * 8),
    ensures
        read_opt_uint64(uint64_field(tag, v) + rest, tag) == Some((v, uint64_field(tag, v).len())),
        forall|key: nat| key != tag * 8 && !starts_with(rest, key) ==> !starts_with(uint64_field(tag, v) + rest, key),
{
    let b = uint64_field(tag, v) + rest;
    if v == 0 {
        assert(b =~= rest);
    } else {
        lemma_small_key(tag, 0);
        assert(b[0] == (tag * 8) as u8);
        assert(b.drop_first() =~= varint(v as nat) + rest);
        lemma_read_varint(v as nat, rest);
    }
}


/// The repeated routes field starts with its first route.
pub proof fn lemma_routes_field_front(tag: nat, rs: Seq<SwapAmountInRoute>)
    requires
        rs.len() > 0,
    ensures
        routes_field(tag, rs) == length_delimited(tag, route_encoding(rs[0])) + routes_field(tag, rs.drop_first()),
    decreases rs.len(),
{
    if rs.len() == 1 {
        assert(rs.drop_last() =~= Seq::<SwapAmountInRoute>::empty());
        assert(rs.drop_first() =~= Seq::<SwapAmountInRoute>::empty());
        assert(routes_field(tag, rs.drop_last()) =~= Seq::<u8>::empty());
        assert(routes_field(tag, rs.drop_first()) =~= Seq::<u8>::empty());
        assert(rs.last() == rs[0]);
        assert(routes_field(tag, rs) =~= length_delimited(tag, route_encoding(rs[0])));
    } else {
        lemma_routes_field_front(tag, rs.drop_last());
        assert(rs.drop_last().drop_first() =~= rs.drop_first().drop_last());
        assert(rs.drop_last()[0] == rs[0]);
        assert(rs.drop_first().last() == rs.last());
        assert(routes_field(tag, rs) =~= length_delimited(tag, route_encoding(rs[0])) + routes_field(
            tag,
            rs.drop_first(),
        ));
    }
}

/// An encoded coin reads back as the coin.
pub proof fn lemma_read_coin(c: Coin)
    requires
        coin_encoding(c).len() <= u64::MAX,
    ensures
        read_coin(coin_encoding(c)) == Some(coin_view(c)),
{
    let a = string_field(1, c.denom@);
    let b = string_field(2, c.amount@);
    let e = Seq::<u8>::empty();
    assert(b =~= b + e);
    lemma_bytes_field_starts(2, encode_utf8(c.amount@), e, 10);
    lemma_read_opt_string(1, c.denom@, b);
    assert(coin_encoding(c).skip(a.len() as int) =~= b + e);
    lemma_read_opt_string(2, c.amount@, e);
}

/// An encoded route reads back as the route.
pub proof fn lemma_read_route(r: SwapAmountInRoute)
    requires
        route_encoding(r).len() <= u64::MAX,
    ensures
        read_route(route_encoding(r)) == Some(route_view(r)),
{
    let a = uint64_field(1, r.pool_id);
    let b = string_field(2, r.token_out_denom@);
    let e = Seq::<u8>::empty();
    assert(b =~= b + e);
    lemma_bytes_field_starts(2, encode_utf8(r.token_out_denom@), e, 8);
    lemma_read_opt_uint64(1, r.pool_id, b);
    assert(route_encoding(r).skip(a.len() as int) =~= b + e);
    lemma_read_opt_string(2, r.token_out_denom@, e);
}

/// Reading routes takes the first one, then the others after it.
proof fn lemma_read_routes_step(
    b: Seq<u8>,
    body: Seq<u8>,
    k: nat,
    r: (u64, Seq<char>),
    rs: Seq<(u64, Seq<char>)>,
    m: nat,
)
    requires
        read_ld(b, 2) == Some((body, k)),
        read_route(body) == Some(r),
        read_routes(b.skip(k as int), 2) == Some((rs, m)),
    ensures
        read_routes(b, 2) == Some((seq![r] + rs, k + m)),
{
}

/// Encoded routes read back as the routes, when what follows them starts with
/// another field.
#[verifier::spinoff_prover]
#[verifier::rlimit(40)]
pub proof fn lemma_read_routes(rs: Seq<SwapAmountInRoute>, rest: Seq<u8>)
    requires
        routes_field(2, rs).len() <= u64::MAX,
        !starts_with(rest, 18),
    ensures
        read_routes(routes_field(2, rs) + rest, 2) == Some(
            (rs.map_values(|r: SwapAmountInRoute| route_view(r)), routes_field(2, rs).len()),
        ),
    decreases rs.len(),
{
    if rs.len() == 0 {
        assert(routes_field(2, rs) + rest =~= rest);
        assert(rs.map_values(|r: SwapAmountInRoute| route_view(r)) =~= Seq::<(u64, Seq<char>)>::empty());
    } else {
        lemma_routes_field_front(2, rs);
        let body = route_encoding(rs[0]);
        let head = length_delimited(2, body);
        let tail = routes_field(2, rs.drop_first()) + rest;
        let b = head + tail;
        assert(routes_field(2, rs) + rest =~= b);
        lemma_read_ld(2, body, tail);
        lemma_read_route(rs[0]);
        assert(b.skip(head.len() as int) =~= tail);
        lemma_read_routes(rs.drop_first(), rest);
        lemma_read_routes_step(
            b,
            body,
            head.len(),
            route_view(rs[0]),
            rs.drop_first().map_values(|r: SwapAmountInRoute| route_view(r)),
            routes_field(2, rs.drop_first()).len(),
        );
        assert(rs.map_values(|r: SwapAmountInRoute| route_view(r)) =~= seq![route_view(rs[0])]
            + rs.drop_first().map_values(|r: SwapAmountInRoute| route_view(r)));
    }
}


/// Bytes that start with a key other than the routes' still do after the routes.
proof fn lemma_routes_starts(rs: Seq<SwapAmountInRoute>, x: Seq<u8>, key: nat)
    requires
        key != 18,
        !starts_with(x, key),
    ensures
        !starts_with(routes_field(2, rs) + x, key),
{
    if rs.len() == 0 {
        assert(routes_field(2, rs) + x =~= x);
    } else {
        lemma_routes_field_front(2, rs);
        let head = length_delimited(2, route_encoding(rs[0]));
        assert(routes_field(2, rs) + x =~= head + (routes_field(2, rs.drop_first()) + x));
        lemma_ld_starts(2, route_encoding(rs[0]), routes_field(2, rs.drop_first()) + x, key);
    }
}

/// An encoded swap reads back as the swap.
pub proof fn lemma_read_swap(m: MsgSwapExactAmountIn)
    requires
        swap_encoding(m).len() <= u64::MAX,
    ensures
        read_swap(swap_encoding(m)) == Some(message_view(IcaMessage::Swap(m))),
{
    let a = string_field(1, m.sender@);
    let r = routes_field(2, m.routes@);
    let cb = coin_encoding(m.token_in);
    let c = length_delimited(3, cb);
    let d = string_field(4, m.token_out_min_amount@);
    let e = Seq::<u8>::empty();
    let b = swap_encoding(m);
    assert(b =~= a + (r + (c + d)));
    lemma_ld_starts(3, cb, d, 10);
    lemma_ld_starts(3, cb, d, 18);
    lemma_routes_starts(m.routes@, c + d, 10);
    lemma_read_opt_string(1, m.sender@, r + (c + d));
    let b1 = b.skip(a.len() as int);
    assert(b1 =~= r + (c + d));
    lemma_read_routes(m.routes@, c + d);
    let b2 = b1.skip(r.len() as int);
    assert(b2 =~= c + d);
    lemma_read_ld(3, cb, d);
    lemma_read_coin(m.token_in);
    let b3 = b2.skip(c.len() as int);
    assert(b3 =~= d + e);
    lemma_read_opt_string(4, m.token_out_min_amount@, e);
}

/// An encoded single-asset pool join reads back as the join.
pub proof fn lemma_read_join_swap(m: MsgJoinSwapExternAmountIn)
    requires
        join_swap_encoding(m).len() <= u64::MAX,
    ensures
        read_join_swap(join_swap_encoding(m)) == Some(message_view(IcaMessage::JoinSwap(m))),
{
    let a = string_field(1, m.sender@);
    let u = uint64_field(2, m.pool_id);
    let cb = coin_encoding(m.token_in);
    let c = length_delimited(3, cb);
    let d = string_field(4, m.share_out_min_amount@);
    let e = Seq::<u8>::empty();
    let b = join_swap_encoding(m);
    assert(b =~= a + (u + (c + d)));
    lemma_ld_starts(3, cb, d, 10);
    lemma_ld_starts(3, cb, d, 16);
    lemma_read_opt_uint64(2, m.pool_id, c + d);
    lemma_read_opt_string(1, m.sender@, u + (c + d));
    let b1 = b.skip(a.len() as int);
    assert(b1 =~= u + (c + d));
    let b2 = b1.skip(u.len() as int);
    assert(b2 =~= c + d);
    lemma_read_ld(3, cb, d);
    lemma_read_coin(m.token_in);
    let b3 = b2.skip(c.len() as int);
    assert(b3 =~= d + e);
    lemma_read_opt_string(4, m.share_out_min_amount@, e);
}

/// An encoded `Any` reads back as its type URL and value.
pub proof fn lemma_read_any(url: Seq<char>, value: Seq<u8>)
    requires
        (string_field(1, url) + bytes_field(2, value)).len() <= u64::MAX,
    ensures
        read_any(string_field(1, url) + bytes_field(2, value)) == Some((url, value)),
{
    let a = string_field(1, url);
    let v = bytes_field(2, value);
    let e = Seq::<u8>::empty();
    lemma_bytes_field_starts(2, value, e, 10);
    assert(v =~= v + e);
    lemma_read_opt_string(1, url, v);
    assert((a + v).skip(a.len() as int) =~= v + e);
    lemma_read_opt_bytes(2, value, e);
}

/// What is encoded as the first message of a transaction reads back as that
/// message, whatever follows it, when the bytes fit in memory.
pub proof fn law_first_message_round_trip(m: IcaMessage, rest: Seq<u8>)
    requires
        any_field_encoding(1, ica_message_url(m), ica_message_encoding(m)).len() <= u64::MAX,
    ensures
        read_first_message(any_field_encoding(1, ica_message_url(m), ica_message_encoding(m)) + rest) == Some(
            message_view(m),
        ),
{
    let body = string_field(1, ica_message_url(m)) + bytes_field(2, ica_message_encoding(m));
    lemma_read_ld(1, body, rest);
    lemma_read_any(ica_message_url(m), ica_message_encoding(m));
    reveal_strlit("/osmosis.gamm.v1beta1.MsgSwapExactAmountIn");
    reveal_strlit("/osmosis.gamm.v1beta1.MsgJoinSwapExternAmountIn");
    match m {
        IcaMessage::Swap(s) => {
            lemma_read_swap(s);
        },
        IcaMessage::JoinSwap(j) => {
            assert(MSG_SWAP_EXACT_AMOUNT_IN_TYPE_URL@ != MSG_JOIN_SWAP_EXTERN_AMOUNT_IN_TYPE_URL@);
            lemma_read_join_swap(j);
        },
    }
}


/// std's `str::from_utf8`, the text kept as a `String`.
/// Trusted: the text is there when the bytes are UTF-8, and it is what they encode.
#[verifier::external_body]
fn utf8_text(bytes: &[u8]) -> (r: Option<String>)
    ensures
        valid_utf8(bytes@) ==> r is Some,
        r matches Some(s) ==> encode_utf8(s@) == bytes@,
{
    match std::str::from_utf8(bytes) {
        Ok(s) => Some(s.to_string()),
        Err(_) => None,
    }
}

/// The bytes of `b` from `start` to `end`.
fn copy_range(b: &[u8], start: usize, end: usize) -> (r: Vec<u8>)
    requires
        start <= end <= b@.len(),
    ensures
        r@ == b@.subrange(start as int, end as int),
{
    let mut out: Vec<u8> = Vec::new();
    let mut i: usize = start;
    while i < end
        invariant
            start <= i <= end <= b@.len(),
            out@ == b@.subrange(start as int, i as int),
        decreases end - i,
    {
        out.push(b[i]);
        assert(b@.subrange(start as int, i + 1) =~= b@.subrange(start as int, i as int).push(b@[i as int]));
        i = i + 1;
    }
    out
}

/// A varint read takes at least one byte and no more than there are.
proof fn lemma_read_varint_len(b: Seq<u8>)
    ensures
        read_varint(b) matches Some((v, n)) ==> 1 <= n <= b.len() && v <= u64::MAX,
    decreases b.len(),
{
    if b.len() > 0 && b[0] >= 128 {
        lemma_read_varint_len(b.drop_first());
    }
}

/// Reads the varint at `pos`: its value and the position after it.
fn decode_varint(b: &[u8], pos: usize) -> (r: Option<(u64, usize)>)
    requires
        pos <= b@.len(),
    ensures
        match read_varint(b@.skip(pos as int)) {
            Some((v, n)) => r == Some((v as u64, (pos + n) as usize)),
            None => r is None,
        },
    decreases b@.len() - pos,
{
    let ghost t = b@.skip(pos as int);
    if pos >= b.len() {
        return None;
    }
    let x = b[pos];
    assert(t[0] == x);
    if x < 128 {
        return Some((x as u64, pos + 1));
    }
    assert(t.drop_first() =~= b@.skip(pos + 1));
    match decode_varint(b, pos + 1) {
        Some((v, p)) => {
            let val: u128 = (x - 128) as u128 + 128u128 * (v as u128);
            if val <= u64::MAX as u128 {
                Some((val as u64, p))
            } else {
                None
            }
        },
        None => None,
    }
}

/// Reads the length-delimited field `tag` at `pos`: where its body starts and ends.
fn decode_ld(b: &[u8], pos: usize, tag: u8) -> (r: Option<(usize, usize)>)
    requires
        pos <= b@.len(),
        1 <= tag < 16,
    ensures
        match read_ld(b@.skip(pos as int), tag as nat) {
            Some((body, k)) => r matches Some((s, e)) && pos <= s <= e <= b@.len() && b@.subrange(s as int, e as int)
                == body && e == pos + k,
            None => r is None,
        },
{
    let ghost t = b@.skip(pos as int);
    if pos >= b.len() || b[pos] != tag * 8 + 2 {
        return None;
    }
    assert(t.drop_first() =~= b@.skip(pos + 1));
    proof {
        lemma_read_varint_len(b@.skip(pos + 1));
    }
    match decode_varint(b, pos + 1) {
        Some((l, p)) => {
            if l as u128 <= (b.len() - p) as u128 {
                let e = p + l as usize;
                assert(b@.subrange(p as int, e as int) =~= t.subrange(p - pos, e - pos));
                Some((p, e))
            } else {
                None
            }
        },
        None => None,
    }
}

/// Reads the `bytes` field `tag` at `pos`, or nothing: the value and the position
/// after it.
fn decode_opt_bytes(b: &[u8], pos: usize, tag: u8) -> (r: Option<(Vec<u8>, usize)>)
    requires
        pos <= b@.len(),
        1 <= tag < 16,
    ensures
        match read_opt_bytes(b@.skip(pos as int), tag as nat) {
            Some((x, k)) => r matches Some((v, e)) && v@ == x && e == pos + k,
            None => r is None,
        },
        r matches Some((_, e)) ==> pos <= e <= b@.len(),
{
    if pos < b.len() && b[pos] == tag * 8 + 2 {
        match decode_ld(b, pos, tag) {
            Some((s, e)) => Some((copy_range(b, s, e), e)),
            None => None,
        }
    } else {
        Some((Vec::new(), pos))
    }
}

/// Reads the `string` field `tag` at `pos`, or nothing: the text and the position
/// after it.
fn decode_opt_string(b: &[u8], pos: usize, tag: u8) -> (r: Option<(String, usize)>)
    requires
        pos <= b@.len(),
        1 <= tag < 16,
    ensures
        match read_opt_string(b@.skip(pos as int), tag as nat) {
            Some((x, k)) => r matches Some((v, e)) && v@ == x && e == pos + k,
            None => r is None,
        },
        r matches Some((_, e)) ==> pos <= e <= b@.len(),
{
    match decode_opt_bytes(b, pos, tag) {
        Some((x, e)) => match utf8_text(x.as_slice()) {
            Some(text) => {
                proof {
                    encode_utf8_valid_utf8(text@);
                    encode_utf8_decode_utf8(text@);
                }
                Some((text, e))
            },
            None => None,
        },
        None => None,
    }
}

/// Reads the `uint64` field `tag` at `pos`, or zero: the value and the position after it.
fn decode_opt_uint64(b: &[u8], pos: usize, tag: u8) -> (r: Option<(u64, usize)>)
    requires
        pos <= b@.len(),
        1 <= tag < 16,
    ensures
        match read_opt_uint64(b@.skip(pos as int), tag as nat) {
            Some((x, k)) => r matches Some((y, e)) && y == x && e == pos + k,
            None => r is None,
        },
        r matches Some((_, e)) ==> pos <= e <= b@.len(),
{
    if pos < b.len() && b[pos] == tag * 8 {
        assert(b@.skip(pos as int).drop_first() =~= b@.skip(pos + 1));
        proof {
            lemma_read_varint_len(b@.skip(pos + 1));
        }
        decode_varint(b, pos + 1)
    } else {
        Some((0, pos))
    }
}


/// Reads a coin that takes all of `b`.
fn decode_coin(b: &[u8]) -> (r: Option<Coin>)
    ensures
        match read_coin(b@) {
            Some(v) => r matches Some(c) && coin_view(c) == v,
            None => r is None,
        },
{
    assert(b@.skip(0) =~= b@);
    let (denom, p1) = match decode_opt_string(b, 0, 1) {
        Some(x) => x,
        None => {
            return None;
        },
    };
    let (amount, p2) = match decode_opt_string(b, p1, 2) {
        Some(x) => x,
        None => {
            return None;
        },
    };
    if p2 == b.len() {
        Some(Coin { denom, amount })
    } else {
        None
    }
}

/// Reads a route that takes all of `b`.
fn decode_route(b: &[u8]) -> (r: Option<SwapAmountInRoute>)
    ensures
        match read_route(b@) {
            Some(v) => r matches Some(x) && route_view(x) == v,
            None => r is None,
        },
{
    assert(b@.skip(0) =~= b@);
    let (pool_id, p1) = match decode_opt_uint64(b, 0, 1) {
        Some(x) => x,
        None => {
            return None;
        },
    };
    let (token_out_denom, p2) = match decode_opt_string(b, p1, 2) {
        Some(x) => x,
        None => {
            return None;
        },
    };
    if p2 == b.len() {
        Some(SwapAmountInRoute { pool_id, token_out_denom })
    } else {
        None
    }
}

/// Reads the routes of field 2 at `pos`, and the position after them.
fn decode_routes(b: &[u8], pos: usize) -> (r: Option<(Vec<SwapAmountInRoute>, usize)>)
    requires
        pos <= b@.len(),
    ensures
        match read_routes(b@.skip(pos as int), 2) {
            Some((rs, k)) => r matches Some((v, e)) && v@.map_values(|x: SwapAmountInRoute| route_view(x)) == rs
                && e == pos + k,
            None => r is None,
        },
        r matches Some((_, e)) ==> pos <= e <= b@.len(),
    decreases b@.len() - pos,
{
    let ghost t = b@.skip(pos as int);
    if !(pos < b.len() && b[pos] == 18) {
        let v: Vec<SwapAmountInRoute> = Vec::new();
        assert(v@.map_values(|x: SwapAmountInRoute| route_view(x)) =~= Seq::<(u64, Seq<char>)>::empty());
        return Some((v, pos));
    }
    assert(t.drop_first() =~= b@.skip(pos + 1));
    proof {
        lemma_read_varint_len(b@.skip(pos + 1));
    }
    let (s, e) = match decode_ld(b, pos, 2) {
        Some(x) => x,
        None => {
            return None;
        },
    };
    let body = copy_range(b, s, e);
    let route = match decode_route(body.as_slice()) {
        Some(x) => x,
        None => {
            return None;
        },
    };
    assert(t.skip(e - pos) =~= b@.skip(e as int));
    let (mut rest, end) = match decode_routes(b, e) {
        Some(x) => x,
        None => {
            return None;
        },
    };
    let ghost old_rest = rest@;
    rest.insert(0, route);
    assert(rest@ =~= seq![route] + old_rest);
    assert(rest@.map_values(|x: SwapAmountInRoute| route_view(x)) =~= seq![route_view(route)]
        + old_rest.map_values(|x: SwapAmountInRoute| route_view(x)));
    Some((rest, end))
}


/// Reads the coin in the length-delimited field 3 at `pos`, and the position after it.
fn decode_coin_field(b: &[u8], pos: usize) -> (r: Option<(Coin, usize)>)
    requires
        pos <= b@.len(),
    ensures
        match read_ld(b@.skip(pos as int), 3) {
            Some((body, k)) => match read_coin(body) {
                Some(v) => r matches Some((c, e)) && coin_view(c) == v && e == pos + k,
                None => r is None,
            },
            None => r is None,
        },
        r matches Some((_, e)) ==> pos <= e <= b@.len(),
{
    let (s, e) = match decode_ld(b, pos, 3) {
        Some(x) => x,
        None => {
            return None;
        },
    };
    let body = copy_range(b, s, e);
    match decode_coin(body.as_slice()) {
        Some(c) => Some((c, e)),
        None => None,
    }
}

/// Reads a swap that takes all of `b`.
#[verifier::spinoff_prover]
#[verifier::rlimit(80)]
fn decode_swap(b: &[u8]) -> (r: Option<MsgSwapExactAmountIn>)
    ensures
        match read_swap(b@) {
            Some(v) => r matches Some(m) && message_view(IcaMessage::Swap(m)) == v,
            None => r is None,
        },
{
    assert(b@.skip(0) =~= b@);
    let (sender, p1) = match decode_opt_string(b, 0, 1) {
        Some(x) => x,
        None => {
            return None;
        },
    };
    let (routes, p2) = match decode_routes(b, p1) {
        Some(x) => x,
        None => {
            return None;
        },
    };
    assert(b@.skip(p1 as int).skip(p2 - p1) =~= b@.skip(p2 as int));
    let (token_in, p3) = match decode_coin_field(b, p2) {
        Some(x) => x,
        None => {
            return None;
        },
    };
    assert(b@.skip(p2 as int).skip(p3 - p2) =~= b@.skip(p3 as int));
    let (token_out_min_amount, p4) = match decode_opt_string(b, p3, 4) {
        Some(x) => x,
        None => {
            return None;
        },
    };
    if p4 == b.len() {
        Some(MsgSwapExactAmountIn { sender, routes, token_in, token_out_min_amount })
    } else {
        None
    }
}

/// Reads a single-asset pool join that takes all of `b`.
#[verifier::spinoff_prover]
#[verifier::rlimit(80)]
fn decode_join_swap(b: &[u8]) -> (r: Option<MsgJoinSwapExternAmountIn>)
    ensures
        match read_join_swap(b@) {
            Some(v) => r matches Some(m) && message_view(IcaMessage::JoinSwap(m)) == v,
            None => r is None,
        },
{
    assert(b@.skip(0) =~= b@);
    let (sender, p1) = match decode_opt_string(b, 0, 1) {
        Some(x) => x,
        None => {
            return None;
        },
    };
    let (pool_id, p2) = match decode_opt_uint64(b, p1, 2) {
        Some(x) => x,
        None => {
            return None;
        },
    };
    assert(b@.skip(p1 as int).skip(p2 - p1) =~= b@.skip(p2 as int));
    let (token_in, p3) = match decode_coin_field(b, p2) {
        Some(x) => x,
        None => {
            return None;
        },
    };
    assert(b@.skip(p2 as int).skip(p3 - p2) =~= b@.skip(p3 as int));
    let (share_out_min_amount, p4) = match decode_opt_string(b, p3, 4) {
        Some(x) => x,
        None => {
            return None;
        },
    };
    if p4 == b.len() {
        Some(MsgJoinSwapExternAmountIn { sender, pool_id, token_in, share_out_min_amount })
    } else {
        None
    }
}

/// Reads an `Any` that takes all of `b`: its type URL and value.
fn decode_any(b: &[u8]) -> (r: Option<(String, Vec<u8>)>)
    ensures
        match read_any(b@) {
            Some((url, value)) => r matches Some((u, v)) && u@ == url && v@ == value,
            None => r is None,
        },
{
    assert(b@.skip(0) =~= b@);
    let (url, p1) = match decode_opt_string(b, 0, 1) {
        Some(x) => x,
        None => {
            return None;
        },
    };
    let (value, p2) = match decode_opt_bytes(b, p1, 2) {
        Some(x) => x,
        None => {
            return None;
        },
    };
    if p2 == b.len() {
        Some((url, value))
    } else {
        None
    }
}

/// Reads the first message of an encoded `CosmosTx` as one of the messages the
/// contract sends through an interchain account: what [`read_first_message`] says.
pub fn decode_first_message(tx: &[u8]) -> (r: Option<IcaMessage>)
    ensures
        match read_first_message(tx@) {
            Some(v) => r matches Some(m) && message_view(m) == v,
            None => r is None,
        },
{
    assert(tx@.skip(0) =~= tx@);
    let (s, e) = match decode_ld(tx, 0, 1) {
        Some(x) => x,
        None => {
            return None;
        },
    };
    let body = copy_range(tx, s, e);
    let (url, value) = match decode_any(body.as_slice()) {
        Some(x) => x,
        None => {
            return None;
        },
    };
    if same_text(url.as_str(), MSG_SWAP_EXACT_AMOUNT_IN_TYPE_URL) {
        match decode_swap(value.as_slice()) {
            Some(m) => Some(IcaMessage::Swap(m)),
            None => None,
        }
    } else if same_text(url.as_str(), MSG_JOIN_SWAP_EXTERN_AMOUNT_IN_TYPE_URL) {
        match decode_join_swap(value.as_slice()) {
            Some(m) => Some(IcaMessage::JoinSwap(m)),
            None => None,
        }
    } else {
        None
    }
}

} // verus!
