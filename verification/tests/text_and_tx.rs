use cw20_ics20::base::{Coin, SwapAmountInRoute};
use cw20_ics20::proto::{Any, ProtoCoin, ProtoMsgJoinPool, ProtoMsgSwapExactAmountIn, ProtoSwapAmountInRoute};
use cw20_ics20::text::{parse_u128, text_less, u128_to_decimal, u64_to_decimal};
use cw20_ics20::msg::IcaMessage;
use cw20_ics20::tx::reader::decode_first_message;
use cw20_ics20::tx::wire::{put_string_field, put_uint64_field};
use cw20_ics20::tx::{CosmosTx, MsgJoinPool, MsgJoinSwapExternAmountIn, MsgSend, MsgSwapExactAmountIn};
use prost::Message;

#[test]
fn decimal_rendering() {
    assert_eq!(u128_to_decimal(0), "0");
    assert_eq!(u128_to_decimal(987654321), "987654321");
    assert_eq!(u128_to_decimal(u128::MAX), u128::MAX.to_string());
    assert_eq!(u64_to_decimal(10), "10");
}

#[test]
fn decimal_parsing_matches_std() {
    for s in ["0", "+7", "123", "", "+", "-1", "12a", "340282366920938463463374607431768211455",
        "340282366920938463463374607431768211456", "007"] {
        assert_eq!(parse_u128(s), s.parse::<u128>().ok(), "input {:?}", s);
    }
}

#[test]
fn text_order_is_byte_order() {
    let words = ["", "a", "ab", "b", "ä", "Z", "channel-1", "channel-10", "channel-2"];
    for x in words {
        for y in words {
            assert_eq!(text_less(x, y), x.as_bytes() < y.as_bytes(), "{:?} {:?}", x, y);
        }
    }
}

#[test]
fn coin_round_trip() {
    let coin = Coin { denom: "uosmo".to_string(), amount: "100".to_string() };
    let proto = coin.to_proto();
    assert_eq!(proto, ProtoCoin { denom: "uosmo".to_string(), amount: "100".to_string() });
    assert_eq!(Coin::from_proto(&proto), coin);
    let route = SwapAmountInRoute { pool_id: 1, token_out_denom: "test".to_string() };
    assert_eq!(SwapAmountInRoute::from_proto(&route.to_proto()), route);
}

#[test]
fn swap_message_round_trip() {
    let msg = MsgSwapExactAmountIn {
        sender: "test".to_string(),
        routes: vec![SwapAmountInRoute { pool_id: 1, token_out_denom: "test".to_string() }],
        token_in: Coin { denom: "test".to_string(), amount: "1".to_string() },
        token_out_min_amount: "1".to_string(),
    };
    let proto = msg.to_proto();
    assert_eq!(
        proto,
        ProtoMsgSwapExactAmountIn {
            sender: "test".to_string(),
            routes: vec![ProtoSwapAmountInRoute { pool_id: 1, token_out_denom: "test".to_string() }],
            token_in: Some(ProtoCoin { denom: "test".to_string(), amount: "1".to_string() }),
            token_out_min_amount: "1".to_string(),
        }
    );
    assert_eq!(MsgSwapExactAmountIn::from_proto(&proto), msg);
}

#[test]
fn join_pool_round_trip() {
    let proto = ProtoMsgJoinPool {
        sender: "s".to_string(),
        pool_id: 3,
        share_out_amount: "5".to_string(),
        token_in_maxs: vec![
            ProtoCoin { denom: "a".to_string(), amount: "1".to_string() },
            ProtoCoin { denom: "b".to_string(), amount: "2".to_string() },
        ],
    };
    let msg = MsgJoinPool::from_proto(&proto);
    assert_eq!(msg.token_in_maxs.len(), 2);
    assert_eq!(msg.token_in_maxs[1], Coin { denom: "b".to_string(), amount: "2".to_string() });
    assert_eq!(msg.to_proto(), proto);
}

#[test]
fn cosmos_tx_encodes_as_repeated_any() {
    let a = Any { type_url: "/cosmos.bank.v1beta1.MsgSend".to_string(), value: vec![1, 2, 3] };
    let b = Any { type_url: "/x".to_string(), value: vec![] };
    let bytes = CosmosTx::new(vec![a.clone(), b.clone()]).into_bytes();
    let mut expected = Vec::new();
    for m in [a, b] {
        prost::encoding::message::encode(
            1,
            &prost_types::Any { type_url: m.type_url, value: m.value },
            &mut expected,
        );
    }
    assert_eq!(bytes, expected);
    assert_eq!(bytes[0], 0x0a);
    assert!(CosmosTx::new(vec![]).into_bytes().is_empty());
}

#[test]
fn wire_fields() {
    let mut buf = Vec::new();
    put_uint64_field(1, 300, &mut buf);
    assert_eq!(buf, vec![0x08, 0xac, 0x02]);
    put_uint64_field(2, 0, &mut buf);
    put_string_field(3, "", &mut buf);
    assert_eq!(buf, vec![0x08, 0xac, 0x02]);
    put_string_field(3, "hi", &mut buf);
    assert_eq!(buf, vec![0x08, 0xac, 0x02, 0x1a, 0x02, b'h', b'i']);
}

#[test]
fn bank_send_encoding() {
    let send = MsgSend {
        from_address: "a".to_string(),
        to_address: "b".to_string(),
        amount: vec![Coin { denom: "c".to_string(), amount: "1".to_string() }],
    };
    let bytes = send.encode();
    assert_eq!(bytes, vec![0x0a, 1, b'a', 0x12, 1, b'b', 0x1a, 6, 0x0a, 1, b'c', 0x12, 1, b'1']);
    let proto = cosmos_sdk_proto::cosmos::bank::v1beta1::MsgSend {
        from_address: "a".to_string(),
        to_address: "b".to_string(),
        amount: vec![cosmos_sdk_proto::cosmos::base::v1beta1::Coin { denom: "c".to_string(), amount: "1".to_string() }],
    };
    assert_eq!(bytes, proto.encode_to_vec());
    let any = send.to_any();
    assert_eq!(any.type_url, "/cosmos.bank.v1beta1.MsgSend");
    assert_eq!(any.value, bytes);
    let empty = MsgSend { from_address: String::new(), to_address: String::new(), amount: vec![] };
    assert!(empty.encode().is_empty());
}

fn coin_bytes(denom: &str, amount: &str) -> Vec<u8> {
    cosmos_sdk_proto::cosmos::base::v1beta1::Coin { denom: denom.to_string(), amount: amount.to_string() }.encode_to_vec()
}

#[test]
fn swap_encoding_matches_prost() {
    let msg = MsgSwapExactAmountIn {
        sender: "ica".to_string(),
        routes: vec![SwapAmountInRoute { pool_id: 7, token_out_denom: "uosmo".to_string() }],
        token_in: Coin { denom: "uatom".to_string(), amount: "300".to_string() },
        token_out_min_amount: "10".to_string(),
    };
    let mut expected = Vec::new();
    prost::encoding::string::encode(1, &"ica".to_string(), &mut expected);
    let mut route = Vec::new();
    prost::encoding::uint64::encode(1, &7u64, &mut route);
    prost::encoding::string::encode(2, &"uosmo".to_string(), &mut route);
    prost::encoding::bytes::encode(2, &route, &mut expected);
    prost::encoding::bytes::encode(3, &coin_bytes("uatom", "300"), &mut expected);
    prost::encoding::string::encode(4, &"10".to_string(), &mut expected);
    assert_eq!(msg.encode(), expected);
    let any = msg.to_any();
    assert_eq!(any.type_url, "/osmosis.gamm.v1beta1.MsgSwapExactAmountIn");
    assert_eq!(any.value, expected);
}

#[test]
fn join_swap_encoding_matches_prost() {
    let msg = MsgJoinSwapExternAmountIn {
        sender: "ica".to_string(),
        pool_id: 0,
        token_in: Coin { denom: String::new(), amount: String::new() },
        share_out_min_amount: "3".to_string(),
    };
    let mut expected = Vec::new();
    prost::encoding::string::encode(1, &"ica".to_string(), &mut expected);
    prost::encoding::bytes::encode(3, &Vec::new(), &mut expected);
    prost::encoding::string::encode(4, &"3".to_string(), &mut expected);
    assert_eq!(msg.encode(), expected);
    let with_pool = MsgJoinSwapExternAmountIn { pool_id: 130, ..msg };
    assert_eq!(&with_pool.encode()[5..8], &[0x10, 0x82, 0x01]);
    assert_eq!(with_pool.to_any().type_url, "/osmosis.gamm.v1beta1.MsgJoinSwapExternAmountIn");
}

#[test]
fn first_message_reads_back() {
    let swap = MsgSwapExactAmountIn {
        sender: "ica".to_string(),
        routes: vec![
            SwapAmountInRoute { pool_id: 0, token_out_denom: "a".to_string() },
            SwapAmountInRoute { pool_id: 300, token_out_denom: String::new() },
        ],
        token_in: Coin { denom: "uatom".to_string(), amount: "300".to_string() },
        token_out_min_amount: String::new(),
    };
    let send = MsgSend {
        from_address: "ica".to_string(),
        to_address: "osmo1".to_string(),
        amount: vec![Coin { denom: "a".to_string(), amount: "1".to_string() }],
    };
    let tx = CosmosTx::new(vec![swap.to_any(), send.to_any()]).into_bytes();
    assert_eq!(decode_first_message(&tx), Some(IcaMessage::Swap(swap.clone())));
    let join = MsgJoinSwapExternAmountIn {
        sender: String::new(),
        pool_id: u64::MAX,
        token_in: Coin { denom: String::new(), amount: String::new() },
        share_out_min_amount: "ü".to_string(),
    };
    let tx = CosmosTx::new(vec![join.to_any()]).into_bytes();
    assert_eq!(decode_first_message(&tx), Some(IcaMessage::JoinSwap(join)));

    // what is not one of the contract's messages reads as none
    assert_eq!(decode_first_message(&[]), None);
    assert_eq!(decode_first_message(&CosmosTx::new(vec![send.to_any()]).into_bytes()), None);
    let mut truncated = CosmosTx::new(vec![swap.to_any()]).into_bytes();
    truncated.pop();
    assert_eq!(decode_first_message(&truncated), None);
    let mut bad_utf8 = swap.to_any();
    bad_utf8.value[2] = 0xff;
    assert_eq!(decode_first_message(&CosmosTx::new(vec![bad_utf8]).into_bytes()), None);
}
