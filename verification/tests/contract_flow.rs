use cw20_ics20::base::{Coin, SwapAmountInRoute};
use cw20_ics20::contract::{ica_send_packet, instantiate};
use cw20_ics20::error::{ContractError, PaymentError, StdError};
use cw20_ics20::ibc::{
    ack_success, ibc_channel_open, FailedPacket, IbcChannel, IbcOrder, IbcPacket, Ics20Ack,
    Ics20Packet,
};
use cw20_ics20::msg::{
    BankSend, ExecuteMsg, ExecuteOutcome, IcaMessage, InitBalance, InitMsg, JoinPoolMsg, NativeCoin,
    PacketData, QueryAnswer, QueryMsg, SubMsg, SwapMsg, TransferMsg,
};
use cw20_ics20::state::{Addr, ContractState, IbcEndpoint};
use cw20_ics20::tx::reader::decode_first_message;
use cw20_ics20::tx::CosmosTx;

const NOW: u64 = 1_665_321_069_000_000_000;

fn endpoint(port: &str, channel: &str) -> IbcEndpoint {
    IbcEndpoint { port_id: port.to_string(), channel_id: channel.to_string() }
}

fn funds(amount: u128) -> Vec<NativeCoin> {
    vec![NativeCoin { denom: "uatom".to_string(), amount }]
}

fn setup(balances: &[(&str, u128)]) -> ContractState {
    let msg = InitMsg {
        default_timeout: 300,
        balances: balances
            .iter()
            .map(|(a, n)| InitBalance { address: a.to_string(), amount: *n })
            .collect(),
    };
    instantiate(msg).0
}

fn connect(state: &mut ContractState, port: &str, channel: &str, connection: &str) {
    let chan = IbcChannel {
        endpoint: endpoint(port, channel),
        counterparty_endpoint: endpoint("transfer", "channel-1234"),
        order: IbcOrder::Unordered,
        version: "ics20-1".to_string(),
        connection_id: connection.to_string(),
    };
    state.ibc_channel_connect(chan, Some("ics20-1")).unwrap();
}

fn balance(state: &ContractState, addr: &str) -> u128 {
    state.balance(addr)
}

#[test]
fn instantiate_keeps_last_balance_per_address() {
    let state = setup(&[("alice", 5), ("bob", 7), ("alice", 9)]);
    assert_eq!(balance(&state, "alice"), 9);
    assert_eq!(balance(&state, "bob"), 7);
    assert_eq!(state.query(QueryMsg::Balance { address: "carol".to_string() }),
        Err(StdError::NotFound { kind: "cosmwasm_std::math::uint128::Uint128".to_string() }));
    assert_eq!(state.migrate().map(|r| r.attributes.len()), Ok(0));
}

#[test]
fn migrate_refuses_other_contracts() {
    let mut state = setup(&[]);
    state.version.contract = "other".to_string();
    assert_eq!(state.migrate(), Err(ContractError::CannotMigrate { previous_contract: "other".to_string() }));
}

#[test]
fn try_send_moves_and_refuses() {
    let mut state = setup(&[("alice", 10)]);
    let alice = Addr::unchecked("alice".to_string());
    let bob = Addr::unchecked("bob".to_string());
    let err = state.try_send(&alice, &bob, 11).unwrap_err();
    assert_eq!(err.message(), "Overflow: Cannot Sub with 10 and 11");
    assert_eq!(balance(&state, "alice"), 10);
    let resp = state.try_send(&alice, &bob, 4).unwrap();
    assert_eq!(balance(&state, "alice"), 6);
    assert_eq!(balance(&state, "bob"), 4);
    let attrs: Vec<(String, String)> = resp.attributes.into_iter().map(|a| (a.key, a.value)).collect();
    assert_eq!(attrs, vec![
        ("action".to_string(), "transfer".to_string()),
        ("from".to_string(), "alice".to_string()),
        ("to".to_string(), "bob".to_string()),
        ("amount".to_string(), "4".to_string()),
    ]);
    state.try_send(&bob, &alice, 4).unwrap();
    assert_eq!(balance(&state, "alice"), 10);
    assert_eq!(balance(&state, "bob"), 0);
}

#[test]
fn payment_errors() {
    let mut state = setup(&[("sender", 100)]);
    let msg = ExecuteMsg::Transfer(TransferMsg { channel: "c".to_string(), remote_address: "r".to_string(), timeout: None, amount: 1 });
    let sender = Addr::unchecked("sender".to_string());
    assert_eq!(state.execute(NOW, sender.clone(), vec![], msg.clone()), Err(ContractError::Payment(PaymentError::NoFunds {})));
    assert_eq!(state.execute(NOW, sender.clone(), funds(0), msg.clone()), Err(ContractError::Payment(PaymentError::NoFunds {})));
    let two = vec![NativeCoin { denom: "a".to_string(), amount: 1 }, NativeCoin { denom: "b".to_string(), amount: 1 }];
    assert_eq!(state.execute(NOW, sender.clone(), two, msg.clone()), Err(ContractError::Payment(PaymentError::MultipleDenoms {})));
    assert_eq!(state.execute(NOW, sender, funds(3), msg), Err(ContractError::NoSuchChannel { id: "c".to_string() }));
    assert_eq!(ContractError::Payment(PaymentError::MultipleDenoms {}).message(), "Sent more than one denomination");
}

#[test]
fn transfer_errors() {
    let mut state = setup(&[("sender", 100)]);
    let msg = TransferMsg { channel: "channel-9".to_string(), remote_address: "r".to_string(), timeout: None, amount: 5 };
    let sender = Addr::unchecked("sender".to_string());
    assert_eq!(state.execute(NOW, sender.clone(), vec![], ExecuteMsg::Transfer(msg.clone())),
        Err(ContractError::Payment(PaymentError::NoFunds {})));
    assert_eq!(state.execute(NOW, sender.clone(), funds(1), ExecuteMsg::Transfer(msg.clone())),
        Err(ContractError::NoSuchChannel { id: "channel-9".to_string() }));
    assert_eq!(state.execute_transfer(NOW, msg.clone(), NativeCoin { denom: "x".to_string(), amount: 0 }, sender.clone()),
        Err(ContractError::NoFunds {}));
    connect(&mut state, "wasm.contract", "channel-9", "connection-0");
    let mut huge = msg;
    huge.amount = u64::MAX as u128 + 1;
    state.balances.insert("sender".to_string(), u128::MAX);
    assert_eq!(state.execute(NOW, sender, funds(1), ExecuteMsg::Transfer(huge)), Err(ContractError::AmountOverflow {}));
    assert_eq!(balance(&state, "sender"), u128::MAX);
}

const CONTRACT_PORT: &str = "ibc:wasm1234567890abcdef";
const REMOTE_PORT: &str = "transfer";

fn setup_channels(channels: &[&str]) -> ContractState {
    let mut state = setup(&[]);
    for chan in channels {
        connect(&mut state, CONTRACT_PORT, chan, "connection-2");
    }
    state
}

fn mock_sent_packet(my_channel: &str, amount: u128, denom: &str, sender: &str) -> (IbcPacket, Ics20Packet) {
    let data = Ics20Packet {
        denom: denom.to_string(),
        amount,
        sender: sender.to_string(),
        receiver: "remote-rcpt".to_string(),
    };
    (IbcPacket { src: endpoint(CONTRACT_PORT, my_channel), dest: endpoint(REMOTE_PORT, "channel-1234") }, data)
}

fn mock_receive_packet(my_channel: &str, amount: u128, denom: &str, receiver: &str) -> (IbcPacket, Ics20Packet) {
    let data = Ics20Packet {
        denom: format!("{}/{}/{}", REMOTE_PORT, "channel-1234", denom),
        amount,
        sender: "remote-sender".to_string(),
        receiver: receiver.to_string(),
    };
    (IbcPacket { src: endpoint(REMOTE_PORT, "channel-1234"), dest: endpoint(CONTRACT_PORT, my_channel) }, data)
}

fn native_payment(amount: u128, denom: &str, recipient: &str) -> SubMsg {
    SubMsg {
        id: 1337,
        send: BankSend {
            to_address: recipient.to_string(),
            amount: vec![NativeCoin { denom: denom.to_string(), amount }],
        },
    }
}

fn channel_amounts(state: &ContractState, id: &str) -> (Vec<NativeCoin>, Vec<NativeCoin>) {
    match state.query(QueryMsg::Channel { id: id.to_string() }).unwrap() {
        QueryAnswer::Channel(c) => (c.balances, c.total_sent),
        _ => panic!("not a channel"),
    }
}

#[test]
fn send_receive_native() {
    let send_channel = "channel-9";
    let mut state = setup_channels(&["channel-1", "channel-7", send_channel]);

    let denom = "uatom";

    // prepare some mock packets
    let (sent_packet, sent_data) = mock_sent_packet(send_channel, 987654321, denom, "local-sender");
    let (recv_packet, recv_data) = mock_receive_packet(send_channel, 876543210, denom, "local-rcpt");
    let (recv_high_packet, recv_high_data) = mock_receive_packet(send_channel, 1876543210, denom, "local-rcpt");

    // cannot receive this denom yet
    let res = state.ibc_packet_receive(&recv_packet, Ok(recv_data.clone()));
    assert!(res.messages.is_empty());
    let no_funds = Ics20Ack::Error(ContractError::InsufficientFunds {}.message());
    assert_eq!(res.acknowledgement, no_funds);

    // we get a success cache (ack) for a send
    let res = state
        .ibc_packet_ack(&sent_packet, Ok(ack_success()), Ok(sent_data.clone()), FailedPacket::Ics20(Ok(sent_data)))
        .unwrap();
    assert_eq!(0, res.messages.len());

    // query channel state
    let (balances, total_sent) = channel_amounts(&state, send_channel);
    assert_eq!(balances, vec![NativeCoin { denom: denom.to_string(), amount: 987654321 }]);
    assert_eq!(total_sent, vec![NativeCoin { denom: denom.to_string(), amount: 987654321 }]);

    // cannot receive more than we sent
    let res = state.ibc_packet_receive(&recv_high_packet, Ok(recv_high_data));
    assert!(res.messages.is_empty());
    assert_eq!(res.acknowledgement, no_funds);

    // we can receive less than we sent
    let res = state.ibc_packet_receive(&recv_packet, Ok(recv_data));
    assert_eq!(1, res.messages.len());
    assert_eq!(native_payment(876543210, denom, "local-rcpt"), res.messages[0]);
    assert!(matches!(res.acknowledgement, Ics20Ack::Result(_)));

    // query channel state
    let (balances, total_sent) = channel_amounts(&state, send_channel);
    assert_eq!(balances, vec![NativeCoin { denom: denom.to_string(), amount: 111111111 }]);
    assert_eq!(total_sent, vec![NativeCoin { denom: denom.to_string(), amount: 987654321 }]);
}

#[test]
fn transfer_then_ack_records_outstanding() {
    let send_channel = "channel-9";
    let mut state = setup(&[("local-sender", 1_000_000_000)]);
    connect(&mut state, CONTRACT_PORT, send_channel, "connection-2");
    let transfer = TransferMsg { channel: send_channel.to_string(), remote_address: "remote-rcpt".to_string(), timeout: Some(10), amount: 987654321 };
    let out = state.execute(NOW, Addr::unchecked("local-sender".to_string()), funds(1), ExecuteMsg::Transfer(transfer)).unwrap();
    let resp = match out { ExecuteOutcome::Done(r) => r, _ => panic!("not a transfer") };
    assert_eq!(resp.messages.len(), 1);
    assert_eq!(resp.messages[0].timeout, NOW + 10_000_000_000);
    let sent = match &resp.messages[0].data { PacketData::Ics20(p) => p.clone(), _ => panic!("not ics20") };
    assert_eq!(sent.denom, "uatom");
    assert_eq!(sent.amount, 987654321);
    assert_eq!(balance(&state, "local-sender"), 1_000_000_000 - 987654321);
    assert_eq!(balance(&state, "channel-9/transfer"), 987654321);
    let (sent_packet, _) = mock_sent_packet(send_channel, 0, "", "");
    state.ibc_packet_ack(&sent_packet, Ok(ack_success()), Ok(sent.clone()), FailedPacket::Ics20(Ok(sent))).unwrap();
    let (balances, _) = channel_amounts(&state, send_channel);
    assert_eq!(balances, vec![NativeCoin { denom: "uatom".to_string(), amount: 987654321 }]);
}

#[test]
fn channel_open_checks_order_and_version() {
    let good = IbcChannel {
        endpoint: endpoint(CONTRACT_PORT, "channel-1"),
        counterparty_endpoint: endpoint(REMOTE_PORT, "channel-1234"),
        order: IbcOrder::Unordered,
        version: "ics20-1".to_string(),
        connection_id: "connection-2".to_string(),
    };
    assert_eq!(ibc_channel_open(&good, None), Ok(()));
    assert_eq!(ibc_channel_open(&good, Some("ics20-1")), Ok(()));
    let bad_version = IbcChannel { version: "ics20-2".to_string(), ..good.clone() };
    assert_eq!(ibc_channel_open(&bad_version, Some("ics20-1")),
        Err(ContractError::InvalidIbcVersion { version: "ics20-2".to_string() }));
    assert_eq!(ibc_channel_open(&good, Some("v7")),
        Err(ContractError::InvalidIbcVersion { version: "v7".to_string() }));
    let ordered = IbcChannel { order: IbcOrder::Ordered, ..good.clone() };
    assert_eq!(ibc_channel_open(&ordered, None), Err(ContractError::OnlyOrderedChannel {}));
    assert_eq!(ContractError::OnlyOrderedChannel {}.message(), "Only supports unordered channel");

    // connecting records the channel whatever its ordering and version
    let mut state = setup(&[]);
    let ica = IbcChannel {
        endpoint: endpoint("icacontroller-x.connection-0.connection-0.1", "channel-3"),
        order: IbcOrder::Ordered,
        version: "{\"version\":\"ics27-1\"}".to_string(),
        ..good.clone()
    };
    assert!(ibc_channel_open(&ica, None).is_err());
    let resp = state.ibc_channel_connect(ica, None).unwrap();
    assert!(resp.messages.is_empty() && resp.attributes.is_empty() && resp.data.is_none());
    assert!(state.ibc_channel_connect(ordered, Some("v7")).is_ok());
    let list = match state.query(QueryMsg::ListChannels {}).unwrap() { QueryAnswer::ListChannels(l) => l, _ => panic!() };
    assert_eq!(list.channels.iter().map(|c| c.id.clone()).collect::<Vec<_>>(), vec!["channel-1", "channel-3"]);
    assert!(list.channels[1].ica_addr.starts_with("cosmos1"));
}

#[test]
fn connect_twice_and_first_denomination_wins() {
    let mut state = setup(&[]);
    connect(&mut state, CONTRACT_PORT, "channel-1", "connection-2");
    let denom = |s: &ContractState| match s.query(QueryMsg::IbcDenom { connection_id: "connection-2".to_string() }) {
        Ok(QueryAnswer::IbcDenom(d)) => d.ibc_denom,
        _ => panic!(),
    };
    let first = denom(&state);
    let channels = |s: &ContractState| match s.query(QueryMsg::ListChannels {}).unwrap() {
        QueryAnswer::ListChannels(l) => l.channels,
        _ => panic!(),
    };
    let before = channels(&state);
    connect(&mut state, CONTRACT_PORT, "channel-1", "connection-2");
    assert_eq!(channels(&state), before);
    assert_eq!(denom(&state), first);
    // another channel on the same connection, with another counterparty
    let other = IbcChannel {
        endpoint: endpoint(CONTRACT_PORT, "channel-2"),
        counterparty_endpoint: endpoint(REMOTE_PORT, "channel-99"),
        order: IbcOrder::Unordered,
        version: "ics20-1".to_string(),
        connection_id: "connection-2".to_string(),
    };
    state.ibc_channel_connect(other, None).unwrap();
    assert_eq!(denom(&state), first);
    assert_eq!(channels(&state).len(), 2);
}

#[test]
fn ledger_transfers_keep_the_total() {
    let mut state = setup(&[("alice", 70), ("bob", 30)]);
    let names = ["alice", "bob", "carol"];
    let total = |s: &ContractState| names.iter().map(|n| s.balance(n)).sum::<u128>();
    assert_eq!(total(&state), 100);
    let alice = Addr::unchecked("alice".to_string());
    let carol = Addr::unchecked("carol".to_string());
    state.try_send(&alice, &carol, 25).unwrap();
    assert_eq!(total(&state), 100);
    state.try_send(&carol, &carol, 25).unwrap();
    assert_eq!(balance(&state, "carol"), 25);
    assert_eq!(total(&state), 100);
    assert!(state.try_send(&carol, &alice, 26).is_err());
    assert_eq!(total(&state), 100);
}

#[test]
fn receive_refusals() {
    let mut state = setup(&[]);
    let packet = IbcPacket { src: endpoint("transfer", "channel-1234"), dest: endpoint("wasm.contract", "channel-9") };
    let with_denom = |d: &str| Ics20Packet { amount: 1, denom: d.to_string(), receiver: "r".to_string(), sender: "s".to_string() };
    let res = state.ibc_packet_receive(&packet, Ok(with_denom("uatom")));
    assert_eq!(res.acknowledgement, Ics20Ack::Error("Only accepts tokens that originate on this chain, not native tokens of remote chain".to_string()));
    let res = state.ibc_packet_receive(&packet, Ok(with_denom("transfer/channel-1/test")));
    assert_eq!(res.acknowledgement, Ics20Ack::Error("Parsed channel from denom (channel-1) doesn't match packet".to_string()));
    let res = state.ibc_packet_receive(&packet, Ok(with_denom("transfer/channel-1234/other")));
    assert_eq!(res.acknowledgement, Ics20Ack::Error("Invalid coin".to_string()));
    let attrs: Vec<String> = res.attributes.iter().map(|a| a.key.clone()).collect();
    assert_eq!(attrs, vec!["action", "success", "error"]);
    let res = state.ibc_packet_receive(&packet, Err(StdError::ParseErr { target_type: "Ics20Packet".to_string(), msg: "bad".to_string() }));
    assert_eq!(res.acknowledgement, Ics20Ack::Error("Error parsing into type Ics20Packet: bad".to_string()));
}

#[test]
fn failed_transfer_is_refunded() {
    let mut state = setup(&[("local-sender", 500)]);
    connect(&mut state, "wasm.contract", "channel-9", "connection-2");
    let transfer = TransferMsg { channel: "channel-9".to_string(), remote_address: "remote".to_string(), timeout: None, amount: 200 };
    let out = state.execute(NOW, Addr::unchecked("local-sender".to_string()), funds(1), ExecuteMsg::Transfer(transfer)).unwrap();
    let resp = match out { ExecuteOutcome::Done(r) => r, _ => panic!() };
    assert_eq!(resp.messages[0].timeout, NOW + 300_000_000_000);
    let sent = match &resp.messages[0].data { PacketData::Ics20(p) => p.clone(), _ => panic!() };
    assert_eq!(balance(&state, "local-sender"), 300);
    let packet = IbcPacket { src: endpoint("wasm.contract", "channel-9"), dest: endpoint("transfer", "channel-1234") };
    let resp = state.ibc_packet_ack(&packet, Ok(Ics20Ack::Error("failed".to_string())), Ok(sent.clone()), FailedPacket::Ics20(Ok(sent))).unwrap();
    assert_eq!(balance(&state, "local-sender"), 500);
    assert_eq!(balance(&state, "channel-9/transfer"), 0);
    assert_eq!(resp.attributes.last().unwrap().value, "failed");
    assert_eq!(resp.attributes[5].value, "false");
}

#[test]
fn timeout_of_foreign_denom_refunds_nothing() {
    let mut state = setup(&[("channel-9/transfer", 50)]);
    let packet = IbcPacket { src: endpoint("wasm.contract", "channel-9"), dest: endpoint("transfer", "channel-1234") };
    let data = Ics20Packet { amount: 20, denom: "ucosm".to_string(), receiver: "r".to_string(), sender: "s".to_string() };
    let resp = state.ibc_packet_timeout(&packet, FailedPacket::Ics20(Ok(data))).unwrap();
    assert_eq!(resp.attributes.last().unwrap().value, "timeout");
    assert_eq!(balance(&state, "channel-9/transfer"), 50);
    assert_eq!(balance(&state, "s"), 0);
}

#[test]
fn ica_channel_swap_and_refund() {
    let ica_port = "icacontroller-x.connection-0.connection-0.1";
    let mut state = setup(&[("trader", 1000)]);
    let ica_channel = IbcChannel {
        endpoint: endpoint(ica_port, "channel-5"),
        counterparty_endpoint: endpoint("icahost", "channel-0"),
        order: IbcOrder::Ordered,
        version: "{\"version\":\"ics27-1\",\"encoding\":\"proto3\"}".to_string(),
        connection_id: "connection-0".to_string(),
    };
    state.ibc_channel_connect(ica_channel, None).unwrap();
    connect(&mut state, "wasm.contract", "channel-6", "connection-3");
    let list = match state.query(QueryMsg::ListChannels {}).unwrap() { QueryAnswer::ListChannels(l) => l, _ => panic!() };
    assert_eq!(list.channels.iter().map(|c| c.id.clone()).collect::<Vec<_>>(), vec!["channel-5", "channel-6"]);
    assert!(list.channels[0].ica_addr.starts_with("cosmos1"));
    assert_eq!(list.channels[1].ica_addr, "");
    assert!(matches!(state.query(QueryMsg::IbcDenom { connection_id: "connection-3".to_string() }), Ok(QueryAnswer::IbcDenom(_))));
    assert!(state.query(QueryMsg::IbcDenom { connection_id: "connection-0".to_string() }).is_err());

    let swap = SwapMsg {
        channel: "channel-5".to_string(), timeout: None, pool_id: 1, in_denom: "uatom".to_string(),
        in_amount: "300".to_string(), out_denom: "uosmo".to_string(), exact_amount_out: "10".to_string(),
        remote_address: "osmo1remote".to_string(),
    };
    let not_ica = SwapMsg { channel: "channel-6".to_string(), ..swap.clone() };
    assert_eq!(state.execute(NOW, Addr::unchecked("trader".to_string()), funds(1), ExecuteMsg::Swap(not_ica)),
        Err(ContractError::NotAnIcaChan { channel_id: "channel-6".to_string() }));
    let out = state.execute(NOW, Addr::unchecked("trader".to_string()), funds(1), ExecuteMsg::Swap(swap)).unwrap();
    let req = match out { ExecuteOutcome::Ica(r) => r, _ => panic!() };
    assert_eq!(balance(&state, "trader"), 700);
    assert_eq!(balance(&state, "channel-5/swap"), 300);
    assert_eq!(req.memo, "");
    assert_eq!(req.send.amount, vec![Coin { denom: "uosmo".to_string(), amount: "10".to_string() }]);
    let expected = CosmosTx::new(vec![req.message.to_any(), req.send.to_any()]).into_bytes();
    let swap = match &req.message { IcaMessage::Swap(m) => m.clone(), _ => panic!() };
    assert_eq!(swap.sender, list.channels[0].ica_addr);
    assert_eq!(swap.routes, vec![SwapAmountInRoute { pool_id: 1, token_out_denom: "uosmo".to_string() }]);
    let packet = ica_send_packet(req);
    assert_eq!(packet.messages[0].channel_id, "channel-5");
    assert_eq!(packet.messages[0].timeout, NOW + 300_000_000_000);
    match &packet.messages[0].data {
        PacketData::Ica(p) => {
            assert_eq!(p.packet_type, 1);
            assert_eq!(p.memo, "");
            assert_eq!(p.data, expected);
            let url = b"/osmosis.gamm.v1beta1.MsgSwapExactAmountIn";
            assert!(p.data.windows(url.len()).any(|w| w == url.as_slice()));
            assert_eq!(p.data[0], 0x0a);
        }
        _ => panic!(),
    }

    let join = JoinPoolMsg {
        channel: "channel-5".to_string(), timeout: Some(1), pool_id: 7, in_denom: "uatom".to_string(),
        in_amount: "100".to_string(), share_out_exact_amount: "3".to_string(), remote_address: "osmo1remote".to_string(),
    };
    let out = state.execute(NOW, Addr::unchecked("trader".to_string()), funds(1), ExecuteMsg::JoinPool(join)).unwrap();
    let req = match out { ExecuteOutcome::Ica(r) => r, _ => panic!() };
    assert_eq!(req.memo, "trader/join_pool");
    assert_eq!(req.send.amount[0].denom, "gamm/pool/7");
    assert_eq!(balance(&state, "channel-5/join_pool"), 100);
    let join_msg = match &req.message { IcaMessage::JoinSwap(m) => m.clone(), _ => panic!() };
    assert_eq!(decode_first_message(&CosmosTx::new(vec![req.message.to_any()]).into_bytes()), Some(req.message.clone()));

    // the pool join fails: its amount comes back to the signer of the memo, read
    // from the packet the contract sent
    let packet = ica_send_packet(req);
    let contents = match &packet.messages[0].data { PacketData::Ica(p) => p.clone(), _ => panic!() };
    assert_eq!(decode_first_message(&contents.data), Some(IcaMessage::JoinSwap(join_msg)));
    let failed = IbcPacket { src: endpoint(ica_port, "channel-5"), dest: endpoint("icahost", "channel-0") };
    state.ibc_packet_timeout(&failed, FailedPacket::Ica(Ok(contents))).unwrap();
    assert_eq!(balance(&state, "channel-5/join_pool"), 0);
    assert_eq!(balance(&state, "trader"), 700);
}

#[test]
fn full_return_clears_outstanding() {
    let mut state = setup(&[("alice", 40)]);
    connect(&mut state, "wasm.contract", "channel-2", "connection-2");
    let transfer = TransferMsg { channel: "channel-2".to_string(), remote_address: "bob".to_string(), timeout: None, amount: 40 };
    let out = state.execute(NOW, Addr::unchecked("alice".to_string()), funds(1), ExecuteMsg::Transfer(transfer)).unwrap();
    let sent = match out { ExecuteOutcome::Done(r) => match &r.messages[0].data { PacketData::Ics20(p) => p.clone(), _ => panic!() }, _ => panic!() };
    let out_packet = IbcPacket { src: endpoint("wasm.contract", "channel-2"), dest: endpoint("transfer", "channel-77") };
    state.ibc_packet_ack(&out_packet, Ok(Ics20Ack::Result(b"1".to_vec())), Ok(sent.clone()), FailedPacket::Ics20(Ok(sent))).unwrap();
    let back = Ics20Packet { amount: 40, denom: "transfer/channel-77/uatom".to_string(), receiver: "carol".to_string(), sender: "bob".to_string() };
    let in_packet = IbcPacket { src: endpoint("transfer", "channel-77"), dest: endpoint("wasm.contract", "channel-2") };
    let res = state.ibc_packet_receive(&in_packet, Ok(back));
    assert_eq!(res.acknowledgement, Ics20Ack::Result(b"1".to_vec()));
    assert_eq!(res.messages, vec![native_payment(40, "uatom", "carol")]);
    let attrs: Vec<(String, String)> = res.attributes.into_iter().map(|a| (a.key, a.value)).collect();
    assert_eq!(attrs[3], ("denom".to_string(), "uatom".to_string()));
    assert_eq!(attrs[4], ("amount".to_string(), "40".to_string()));
    let (balances, total_sent) = channel_amounts(&state, "channel-2");
    assert_eq!(balances, vec![NativeCoin { denom: "uatom".to_string(), amount: 0 }]);
    assert_eq!(total_sent, vec![NativeCoin { denom: "uatom".to_string(), amount: 40 }]);
    assert_eq!(balance(&state, "carol"), 0);
    assert_eq!(balance(&state, "channel-2/transfer"), 40);
}

#[test]
fn channel_listing_is_sorted_by_denomination() {
    let mut state = setup(&[]);
    connect(&mut state, "wasm.contract", "channel-3", "connection-3");
    let p = IbcPacket { src: endpoint("wasm.contract", "channel-3"), dest: endpoint("transfer", "channel-1") };
    for (denom, amount) in [("zeta", 3u128), ("alpha", 1), ("mid", 2), ("alpha", 4)] {
        let sent = Ics20Packet { amount, denom: denom.to_string(), receiver: "r".to_string(), sender: "s".to_string() };
        state.on_packet_success(&p, Ok(sent)).unwrap();
    }
    let chan = match state.query(QueryMsg::Channel { id: "channel-3".to_string() }).unwrap() { QueryAnswer::Channel(c) => c, _ => panic!() };
    let denoms: Vec<(String, u128)> = chan.total_sent.into_iter().map(|c| (c.denom, c.amount)).collect();
    assert_eq!(denoms, vec![("alpha".to_string(), 5), ("mid".to_string(), 2), ("zeta".to_string(), 3)]);
    assert_eq!(state.query(QueryMsg::Channel { id: "channel-4".to_string() }),
        Err(StdError::NotFound { kind: "cw20_ics20::state::ChannelInfo".to_string() }));
}
