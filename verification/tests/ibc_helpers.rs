use cw20_ics20::error::ContractError;
use cw20_ics20::ibc::{
    ack_fail, ack_success, get_escrow_address, get_ibc_denom, get_ica_address,
    get_signer_and_action_from_memo, is_ica_port, parse_voucher_denom, reply, write_memo, Ics20Ack,
    Ics20Packet, InterchainAccountPacketData,
};
use cw20_ics20::state::{Addr, IbcEndpoint};
use sha2::Digest;

fn endpoint(port: &str, channel: &str) -> IbcEndpoint {
    IbcEndpoint { port_id: port.to_string(), channel_id: channel.to_string() }
}

#[test]
fn ica_port_has_four_parts() {
    assert!(is_ica_port(&"icacontroller-cosmos1abc.connection-0.connection-0.1".to_string()));
    assert!(!is_ica_port(&"wasm.contract".to_string()));
    assert!(!is_ica_port(&"transfer".to_string()));
    assert!(!is_ica_port(&"a.b.c.d.e".to_string()));
    assert!(is_ica_port(&"...".to_string()));
}

#[test]
fn memo_round_trip() {
    let memo = write_memo(&Addr::unchecked("sender".to_string()), "join_pool");
    assert_eq!(memo, "sender/join_pool");
    assert_eq!(
        get_signer_and_action_from_memo(memo),
        Ok(("sender".to_string(), "join_pool".to_string()))
    );
}

#[test]
fn memo_needs_exactly_one_slash() {
    assert_eq!(get_signer_and_action_from_memo("".to_string()), Err(ContractError::InvalidPacket {}));
    assert_eq!(get_signer_and_action_from_memo("a/b/c".to_string()), Err(ContractError::InvalidPacket {}));
    assert_eq!(
        get_signer_and_action_from_memo("/".to_string()),
        Ok((String::new(), String::new()))
    );
}

#[test]
fn escrow_address_joins_channel_and_action() {
    assert_eq!(get_escrow_address("channel-9".to_string(), "swap").as_str(), "channel-9/swap");
}

#[test]
fn voucher_denoms() {
    let remote = endpoint("transfer", "channel-1234");
    assert_eq!(parse_voucher_denom("transfer/channel-1234/test", &remote), Ok("test".to_string()));
    assert_eq!(parse_voucher_denom("transfer/channel-1234/a/b", &remote), Ok("a/b".to_string()));
    assert_eq!(parse_voucher_denom("test", &remote), Err(ContractError::NoForeignTokens {}));
    assert_eq!(parse_voucher_denom("transfer/test", &remote), Err(ContractError::NoForeignTokens {}));
    assert_eq!(
        parse_voucher_denom("other/channel-1234/test", &remote),
        Err(ContractError::FromOtherPort { port: "other".to_string() })
    );
    assert_eq!(
        parse_voucher_denom("transfer/channel-1/test", &remote),
        Err(ContractError::FromOtherChannel { channel: "channel-1".to_string() })
    );
}

#[test]
fn ibc_denom_is_hex_sha256_of_path() {
    let denom = get_ibc_denom("transfer".to_string(), "channel-0");
    let expected = format!("ibc/{}", hex::encode(sha2::Sha256::digest(b"transfer/channel-0/uatom")));
    assert_eq!(denom, expected);
    assert_eq!(denom.len(), 68);
    assert_ne!(denom, get_ibc_denom("transfer".to_string(), "channel-1"));
}

#[test]
fn ica_address_is_bech32_of_module_and_port() {
    let port = "icacontroller-x.connection-0.connection-0.1".to_string();
    let module = sha2::Sha256::digest([
        103u8, 215, 116, 116, 202, 142, 58, 88, 18, 222, 50, 58, 40, 215, 198, 218, 107, 62, 79, 41,
    ]);
    let mut input = module.to_vec();
    input.extend_from_slice(port.as_bytes());
    let expected = subtle_encoding::bech32::encode("cosmos", sha2::Sha256::digest(&input));
    let address = get_ica_address(&port);
    assert_eq!(address, expected);
    assert!(address.starts_with("cosmos1"));
}

#[test]
fn packet_validation_limits_amount_to_u64() {
    let ok = Ics20Packet::new(u64::MAX as u128, "ucosm".to_string(), "a", "b");
    assert_eq!(ok.validate(), Ok(()));
    let too_big = Ics20Packet::new(u64::MAX as u128 + 1, "ucosm".to_string(), "a", "b");
    assert_eq!(too_big.validate(), Err(ContractError::AmountOverflow {}));
}

#[test]
fn check_packet_fields() {
    let packet = Ics20Packet::new(
        12345,
        "ucosm".to_string(),
        "cosmos1zedxv25ah8fksmg2lzrndrpkvsjqgk4zt5ff7n",
        "wasm1fucynrfkrt684pm8jrt8la5h2csvs5cnldcgqc",
    );
    assert_eq!(packet.amount, 12345);
    assert_eq!(packet.denom, "ucosm");
    assert_eq!(packet.sender, "cosmos1zedxv25ah8fksmg2lzrndrpkvsjqgk4zt5ff7n");
    assert_eq!(packet.receiver, "wasm1fucynrfkrt684pm8jrt8la5h2csvs5cnldcgqc");
}

#[test]
fn interchain_account_packet_data_new() {
    let data = InterchainAccountPacketData::new(1, vec![1, 2, 3], "memo");
    assert_eq!(data.packet_type, 1);
    assert_eq!(data.data, vec![1, 2, 3]);
    assert_eq!(data.memo, "memo");
}

#[test]
fn acknowledgements() {
    assert_eq!(ack_success(), Ics20Ack::Result(b"1".to_vec()));
    assert_eq!(ack_fail("bad coin".to_string()), Ics20Ack::Error("bad coin".to_string()));
}

#[test]
fn reply_turns_errors_into_acks() {
    assert_eq!(reply(7, Ok(())), Err(ContractError::UnknownReplyId { id: 7 }));
    let ok = reply(1337, Ok(())).unwrap();
    assert_eq!(ok.data, None);
    let failed = reply(1337, Err("boom".to_string())).unwrap();
    assert_eq!(failed.data, Some(Ics20Ack::Error("boom".to_string())));
}

#[test]
fn error_messages() {
    assert_eq!(ContractError::UnknownReplyId { id: 42 }.message(), "Got a submessage reply with unknown id: 42");
    assert_eq!(
        ContractError::InsufficientFunds {}.message(),
        "Insufficient funds to redeem voucher on channel"
    );
    assert_eq!(
        ContractError::FromOtherPort { port: "p".to_string() }.message(),
        "Parsed port from denom (p) doesn't match packet"
    );
    assert_eq!(
        ContractError::Std(cw20_ics20::error::StdError::sub_overflow(5, 10)).message(),
        "Overflow: Cannot Sub with 5 and 10"
    );
}

#[test]
fn escrow_accounts_differ_by_channel_and_action() {
    let a = get_escrow_address("channel-1".to_string(), "swap");
    let b = get_escrow_address("channel-1".to_string(), "join_pool");
    let c = get_escrow_address("channel-2".to_string(), "swap");
    assert_ne!(a, b);
    assert_ne!(a, c);
    assert_ne!(b, c);
}
