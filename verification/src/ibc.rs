//! IBC: the packets the contract sends and receives, the addresses and
//! denominations it derives, and its answers to channel and packet events.
use vstd::prelude::*;
use vstd::pervasive::unreached;
use vstd::utf8::encode_utf8;
use crate::encoding::{bech32_encode, bech32_encoding, hex_encode, hex_lower, sha256, sha256_digest};
use crate::base::Coin;
use crate::contract::{
    empty_response, escrow_of, ica_outcome, ica_tx_encoding, ica_requires, join_request, only_balances_changed, same_state,
    send_ok, sent_balances, transfer_outcome, transfer_requires,
};
use crate::error::{contract_error_text, ContractError, StdError};
use crate::msg::{
    BankSend, IcaMessage, IcaRequest, JoinPoolMsg, NativeCoin, PacketData, ReceiveResponse, Response, SubMsg,
    TransferMsg,
};
use crate::state::{
    balance_of, Addr, ChannelInfo, ChannelState, ContractState, IbcEndpoint, DENOM, JOIN_POOL_ACTION, SWAP_ACTION,
    TRANSFER_ACTION,
};
use crate::tx::reader::{decode_first_message, read_first_message, MessageView};
use crate::tx::bank::{send_encoding, MSG_SEND_TYPE_URL};
use crate::tx::cosmos_tx::any_field_encoding;
use crate::text::{
    after_first, before_first, count_char, count_occurrences, find_first, join_slash, join_with,
    decimal, lemma_count_char_contains, lemma_count_char_split, lemma_find_first, parse_u128, same_text,
    spec_parse_u128, split_first, u128_to_decimal,
};

verus! {

/// The version of the ICS-20 protocol.
pub const ICS20_VERSION: &'static str = "ics20-1";

/// The id of the submessage whose reply carries the outcome of a token send.
pub const SEND_TOKEN_ID: u64 = 1337;

/// The ordering of an IBC channel.
#[derive(Clone, Copy, Debug, PartialEq, Eq)]
pub enum IbcOrder {
    Unordered,
    Ordered,
}

/// The ordering ICS-20 channels use.
pub const ICS20_ORDERING: IbcOrder = IbcOrder::Unordered;

/// An IBC channel as the contract sees it when it opens or connects.
#[derive(Clone, Debug, PartialEq, Eq)]
pub struct IbcChannel {
    pub endpoint: IbcEndpoint,
    pub counterparty_endpoint: IbcEndpoint,
    pub order: IbcOrder,
    pub version: String,
    pub connection_id: String,
}

/// The two ends of a packet; its data travels separately.
#[derive(Clone, Debug, PartialEq, Eq)]
pub struct IbcPacket {
    pub src: IbcEndpoint,
    pub dest: IbcEndpoint,
}

/// The data of an ICS-20 transfer packet.
#[derive(Clone, Debug, PartialEq, Eq, Default)]
pub struct Ics20Packet {
    /// amount of tokens to transfer is encoded as a string, but limited to u64 max
    pub amount: u128,
    /// the token denomination to be transferred
    pub denom: String,
    /// the recipient address on the destination chain
    pub receiver: String,
    /// the sender address
    pub sender: String,
}

/// The data of a packet to an interchain account.
#[derive(Clone, Debug, PartialEq, Eq, Default)]
pub struct InterchainAccountPacketData {
    /// the kind of packet; 1 executes a transaction
    pub packet_type: i32,
    /// the encoded transaction
    pub data: Vec<u8>,
    /// who asked for it and why, as `signer/action`
    pub memo: String,
}

/// This is a generic ICS acknowledgement format.
#[derive(Clone, Debug, PartialEq, Eq)]
pub enum Ics20Ack {
    Result(Vec<u8>),
    Error(String),
}

/// A key/value pair of an event.
#[derive(Clone, Debug, PartialEq, Eq)]
pub struct Attribute {
    pub key: String,
    pub value: String,
}

/// The attributes as pairs of texts.
pub open spec fn attrs_view(attrs: Seq<Attribute>) -> Seq<(Seq<char>, Seq<char>)> {
    attrs.map_values(|a: Attribute| (a.key@, a.value@))
}

/// An attribute `key = value`.
pub fn attr(key: &str, value: &str) -> (r: Attribute)
    ensures
        r.key@ == key@,
        r.value@ == value@,
{
    Attribute { key: String::from_str(key), value: String::from_str(value) }
}

impl InterchainAccountPacketData {
    /// The packet data of the given kind, transaction bytes and memo.
    pub fn new(packet_type: i32, data: Vec<u8>, memo: &str) -> (r: Self)
        ensures
            r.packet_type == packet_type,
            r.data == data,
            r.memo@ == memo@,
    {
        InterchainAccountPacketData { packet_type, data, memo: String::from_str(memo) }
    }
}

impl Ics20Packet {
    /// A transfer of `amount` of `denom` from `sender` to `receiver`.
    pub fn new(amount: u128, denom: String, sender: &str, receiver: &str) -> (r: Self)
        ensures
            r.amount == amount,
            r.denom == denom,
            r.sender@ == sender@,
            r.receiver@ == receiver@,
    {
        Ics20Packet {
            denom,
            amount,
            sender: String::from_str(sender),
            receiver: String::from_str(receiver),
        }
    }

    /// ICS-20 packets carry amounts of at most `u64::MAX`.
    pub fn validate(&self) -> (r: Result<(), ContractError>)
        ensures
            r is Ok <==> self.amount <= u64::MAX,
            r matches Err(e) ==> e == (ContractError::AmountOverflow {  }),
    {
        if self.amount > (u64::MAX as u128) {
            Err(ContractError::AmountOverflow {  })
        } else {
            Ok(())
        }
    }
}

/// The acknowledgement of a packet that was handled.
pub fn ack_success() -> (r: Ics20Ack)
    ensures
        (r matches Ics20Ack::Result(b) && b@ == seq![49u8]),
{
    Ics20Ack::Result(vec![49u8])
}

/// The acknowledgement of a packet that failed, with the reason.
pub fn ack_fail(err: String) -> (r: Ics20Ack)
    ensures
        r == Ics20Ack::Error(err),
{
    Ics20Ack::Error(err)
}

/// The escrow account of `action` on a channel: `channel_id/action`.
pub fn get_escrow_address(channel_id: String, action: &str) -> (r: Addr)
    ensures
        r@ == join_with(channel_id@, '/', action@),
{
    Addr::unchecked(join_slash(channel_id.as_str(), action))
}

/// The memo recording who asked for `action`: `signer/action`.
pub fn write_memo(signer: &Addr, action: &str) -> (r: String)
    ensures
        r@ == join_with(signer@, '/', action@),
{
    join_slash(signer.as_str(), action)
}

/// A slash-free first part, then the rest after the first slash.
proof fn lemma_first_slash(s: Seq<char>)
    ensures
        (find_first(s, '/') < 0) <==> !s.contains('/'),
        find_first(s, '/') < 0 ==> count_char(s, '/') == 0,
{
    lemma_find_first(s, '/');
    lemma_count_char_contains(s, '/');
    if find_first(s, '/') >= 0 {
        assert(s[find_first(s, '/')] == '/');
    }
}

/// Reads a memo `signer/action` back into the signer and the action.
pub fn get_signer_and_action_from_memo(memo: String) -> (r: Result<(String, String), ContractError>)
    ensures
        match r {
            Ok((signer, action)) => count_char(memo@, '/') == 1 && signer@ == before_first(
                memo@,
                '/',
            ) && action@ == after_first(memo@, '/'),
            Err(e) => count_char(memo@, '/') != 1 && e == (ContractError::InvalidPacket {  }),
        },
{
    proof {
        lemma_first_slash(memo@);
    }
    match split_first(memo.as_str(), '/') {
        None => Err(ContractError::InvalidPacket {  }),
        Some((signer, action)) => {
            proof {
                lemma_count_char_split(memo@, '/');
                lemma_first_slash(action@);
                lemma_count_char_contains(action@, '/');
            }
            let n = count_occurrences(action.as_str(), '/');
            if n != 0 {
                Err(ContractError::InvalidPacket {  })
            } else {
                Ok((signer, action))
            }
        },
    }
}

/// Reading back a memo gives its signer and action, when neither holds a slash.
pub proof fn law_memo_round_trip(signer: Seq<char>, action: Seq<char>)
    requires
        !signer.contains('/'),
        !action.contains('/'),
    ensures
        count_char(join_with(signer, '/', action), '/') == 1,
        before_first(join_with(signer, '/', action), '/') == signer,
        after_first(join_with(signer, '/', action), '/') == action,
{
    crate::text::lemma_find_first_join(signer, '/', action);
    lemma_count_char_split(join_with(signer, '/', action), '/');
    lemma_count_char_contains(action, '/');
}

/// An interchain-account controller port has four dot-separated parts.
pub fn is_ica_port(controller_port_id: &String) -> (r: bool)
    ensures
        r == (count_char(controller_port_id@, '.') == 3),
{
    let n = count_occurrences(controller_port_id.as_str(), '.');
    n == 3
}

/// The three parts of a voucher denomination `port/channel/denom`: the port,
/// the channel, and all after the second slash.
pub open spec fn voucher_port(s: Seq<char>) -> Seq<char> {
    before_first(s, '/')
}

/// The channel part of a voucher denomination.
pub open spec fn voucher_channel(s: Seq<char>) -> Seq<char> {
    before_first(after_first(s, '/'), '/')
}

/// The denomination part of a voucher denomination.
pub open spec fn voucher_denom(s: Seq<char>) -> Seq<char> {
    after_first(after_first(s, '/'), '/')
}

/// Returns local denom if the denom is an encoded voucher from the expected endpoint
/// Otherwise, error
pub fn parse_voucher_denom(voucher_denom: &str, remote_endpoint: &IbcEndpoint) -> (r: Result<
    String,
    ContractError,
>)
    ensures
        match r {
            Ok(d) => count_char(voucher_denom@, '/') >= 2 && voucher_port(voucher_denom@)
                == remote_endpoint.port_id@ && voucher_channel(voucher_denom@)
                == remote_endpoint.channel_id@ && d@ == crate::ibc::voucher_denom(voucher_denom@),
            Err(ContractError::NoForeignTokens {  }) => count_char(voucher_denom@, '/') < 2,
            Err(ContractError::FromOtherPort { port }) => count_char(voucher_denom@, '/') >= 2
                && voucher_port(voucher_denom@) != remote_endpoint.port_id@ && port@ == voucher_port(
                voucher_denom@,
            ),
            Err(ContractError::FromOtherChannel { channel }) => count_char(voucher_denom@, '/') >= 2
                && voucher_port(voucher_denom@) == remote_endpoint.port_id@ && voucher_channel(
                voucher_denom@,
            ) != remote_endpoint.channel_id@ && channel@ == voucher_channel(voucher_denom@),
            Err(_) => false,
        },
{
    let ghost s = voucher_denom@;
    proof {
        lemma_first_slash(s);
    }
    let (port, rest) = match split_first(voucher_denom, '/') {
        None => {
            return Err(ContractError::NoForeignTokens {  });
        },
        Some(parts) => parts,
    };
    proof {
        lemma_count_char_split(s, '/');
        lemma_first_slash(rest@);
    }
    let (channel, denom) = match split_first(rest.as_str(), '/') {
        None => {
            return Err(ContractError::NoForeignTokens {  });
        },
        Some(parts) => parts,
    };
    proof {
        lemma_count_char_split(rest@, '/');
    }
    if port != remote_endpoint.port_id {
        return Err(ContractError::FromOtherPort { port });
    }
    if channel != remote_endpoint.channel_id {
        return Err(ContractError::FromOtherChannel { channel });
    }
    Ok(denom)
}

/// A voucher denomination written as `port/channel/denom` reads back as `denom`
/// from that port and channel, when the port and channel hold no slash.
pub proof fn law_voucher_round_trip(port: Seq<char>, channel: Seq<char>, denom: Seq<char>)
    requires
        !port.contains('/'),
        !channel.contains('/'),
    ensures
        count_char(join_with(port, '/', join_with(channel, '/', denom)), '/') >= 2,
        voucher_port(join_with(port, '/', join_with(channel, '/', denom))) == port,
        voucher_channel(join_with(port, '/', join_with(channel, '/', denom))) == channel,
        voucher_denom(join_with(port, '/', join_with(channel, '/', denom))) == denom,
{
    let inner = join_with(channel, '/', denom);
    let s = join_with(port, '/', inner);
    crate::text::lemma_find_first_join(port, '/', inner);
    crate::text::lemma_find_first_join(channel, '/', denom);
    lemma_count_char_split(s, '/');
    lemma_count_char_split(inner, '/');
}

/// The 20-byte address of the interchain-accounts module account.
pub open spec fn ica_module_account() -> Seq<u8> {
    seq![103u8, 215, 116, 116, 202, 142, 58, 88, 18, 222, 50, 58, 40, 215, 198, 218, 107, 62, 79, 41]
}

/// The interchain account of a controller port: the Bech32 (`cosmos`) encoding of
/// SHA-256 over the module account's hash followed by the port's UTF-8 bytes.
pub open spec fn ica_address(port: Seq<char>) -> Seq<char> {
    bech32_encoding("cosmos"@, sha256(sha256(ica_module_account()) + encode_utf8(port)))
}

/// The interchain account address controlled through `controller_port_id`.
pub fn get_ica_address(controller_port_id: &String) -> (r: String)
    ensures
        r@ == ica_address(controller_port_id@),
        r@.len() > 6,
        r@.take(6) == "cosmos"@,
        r@[6] == '1',
{
    proof {
        reveal_strlit("cosmos");
    }
    let module_account: Vec<u8> = vec![
        103u8, 215, 116, 116, 202, 142, 58, 88, 18, 222, 50, 58, 40, 215, 198, 218, 107, 62, 79, 41,
    ];
    assert(module_account@ =~= ica_module_account());
    let module_hash = sha256_digest(module_account.as_slice());
    let port_bytes = controller_port_id.as_str().as_bytes();
    let mut input: Vec<u8> = module_hash;
    let mut i: usize = 0;
    while i < port_bytes.len()
        invariant
            i <= port_bytes@.len(),
            input@ =~= sha256(ica_module_account()) + port_bytes@.take(i as int),
        decreases port_bytes@.len() - i,
    {
        input.push(port_bytes[i]);
        i = i + 1;
    }
    assert(port_bytes@.take(port_bytes@.len() as int) =~= port_bytes@);
    let out = sha256_digest(input.as_slice());
    bech32_encode("cosmos", out.as_slice())
}

/// The voucher denomination of this chain's token over a channel:
/// `ibc/` and the hex SHA-256 of `port/channel/DENOM`.
pub open spec fn ibc_denom(port: Seq<char>, channel: Seq<char>) -> Seq<char> {
    "ibc/"@ + hex_lower(sha256(encode_utf8(join_with(join_with(port, '/', channel), '/', DENOM@))))
}

/// The voucher denomination of this chain's token on the remote end `dest_port`/`dest_chan`.
pub fn get_ibc_denom(dest_port: String, dest_chan: &str) -> (r: String)
    ensures
        r@ == ibc_denom(dest_port@, dest_chan@),
        r@.len() == 68,
{
    let path = join_slash(dest_port.as_str(), dest_chan);
    let denom_path = join_slash(path.as_str(), DENOM);
    let hash = sha256_digest(denom_path.as_str().as_bytes());
    let hex = hex_encode(hash.as_slice());
    proof {
        crate::encoding::lemma_hex_lower_len(hash@);
        reveal_strlit("ibc/");
    }
    String::from_str("ibc/").concat(hex.as_str())
}


// ---------------------------------------------------------------------------
// Channel and packet events
// ---------------------------------------------------------------------------

/// The data of a packet that failed or timed out, read as the kind of packet its
/// source port sends: an interchain-account packet from an interchain-account
/// controller port, an ICS-20 packet otherwise.
#[derive(Debug, PartialEq, Eq)]
pub enum FailedPacket {
    Ics20(Result<Ics20Packet, StdError>),
    Ica(Result<InterchainAccountPacketData, StdError>),
}

/// An ICS-20 channel: it speaks `ics20-1`, so does the counterparty when it names
/// a version, and it is unordered.
pub open spec fn order_and_version_ok(channel: IbcChannel, counterparty_version: Option<&str>) -> bool {
    &&& channel.version@ == ICS20_VERSION@
    &&& counterparty_version is Some ==> counterparty_version.unwrap()@ == ICS20_VERSION@
    &&& channel.order == ICS20_ORDERING
}

/// The error of the first ordering or version check that fails.
pub open spec fn order_and_version_error(
    channel: IbcChannel,
    counterparty_version: Option<&str>,
    e: ContractError,
) -> bool {
    if channel.version@ != ICS20_VERSION@ {
        e matches ContractError::InvalidIbcVersion { version } && version@ == channel.version@
    } else if counterparty_version is Some && counterparty_version.unwrap()@ != ICS20_VERSION@ {
        e matches ContractError::InvalidIbcVersion { version } && version@ == counterparty_version.unwrap()@
    } else {
        e == (ContractError::OnlyOrderedChannel {  })
    }
}

/// Enforces the ordering and version constraints of an ICS-20 channel.
pub fn enforce_order_and_version(channel: &IbcChannel, counterparty_version: Option<&str>) -> (r: Result<
    (),
    ContractError,
>)
    ensures
        match r {
            Ok(()) => order_and_version_ok(*channel, counterparty_version),
            Err(e) => !order_and_version_ok(*channel, counterparty_version) && order_and_version_error(
                *channel,
                counterparty_version,
                e,
            ),
        },
{
    if !same_text(channel.version.as_str(), ICS20_VERSION) {
        return Err(ContractError::InvalidIbcVersion { version: channel.version.clone() });
    }
    match counterparty_version {
        Some(version) => {
            if !same_text(version, ICS20_VERSION) {
                return Err(ContractError::InvalidIbcVersion { version: String::from_str(version) });
            }
        },
        None => {},
    }
    match channel.order {
        IbcOrder::Unordered => Ok(()),
        IbcOrder::Ordered => Err(ContractError::OnlyOrderedChannel {  }),
    }
}

/// Enforces ordering and versioning constraints on a channel being opened.
pub fn ibc_channel_open(channel: &IbcChannel, counterparty_version: Option<&str>) -> (r: Result<(), ContractError>)
    ensures
        match r {
            Ok(()) => order_and_version_ok(*channel, counterparty_version),
            Err(e) => !order_and_version_ok(*channel, counterparty_version) && order_and_version_error(
                *channel,
                counterparty_version,
                e,
            ),
        },
{
    enforce_order_and_version(channel, counterparty_version)
}

/// Answers the reply to the submessage that sent tokens: an error there becomes
/// an error acknowledgement.
pub fn reply(reply_id: u64, result: Result<(), String>) -> (r: Result<Response, ContractError>)
    ensures
        reply_id != SEND_TOKEN_ID ==> r == Err::<Response, ContractError>(ContractError::UnknownReplyId { id: reply_id }),
        reply_id == SEND_TOKEN_ID ==> (r matches Ok(resp) && resp.messages@.len() == 0
            && resp.attributes@.len() == 0 && match result {
            Ok(()) => resp.data is None,
            Err(err) => resp.data == Some(Ics20Ack::Error(err)),
        }),
{
    if reply_id != SEND_TOKEN_ID {
        return Err(ContractError::UnknownReplyId { id: reply_id });
    }
    match result {
        Ok(()) => Ok(empty_response()),
        Err(err) => Ok(Response { messages: Vec::new(), attributes: Vec::new(), data: Some(ack_fail(err)) }),
    }
}

/// The attributes of a received packet that was accepted.
pub open spec fn receive_success_attrs(msg: Ics20Packet) -> Seq<(Seq<char>, Seq<char>)> {
    seq![
        ("action"@, "receive"@),
        ("sender"@, msg.sender@),
        ("receiver"@, msg.receiver@),
        ("denom"@, voucher_denom(msg.denom@)),
        ("amount"@, decimal(msg.amount as nat)),
        ("success"@, "true"@),
    ]
}

/// The attributes of a received packet that was refused.
pub open spec fn receive_failure_attrs(e: ContractError) -> Seq<(Seq<char>, Seq<char>)> {
    seq![("action"@, "receive"@), ("success"@, "false"@), ("error"@, contract_error_text(e))]
}

/// The key of what is outstanding on the channel a packet arrives on.
pub open spec fn receive_key(packet: IbcPacket) -> (Seq<char>, Seq<char>) {
    (packet.dest.channel_id@, DENOM@)
}

/// A received packet returns this chain's token over the channel it came on, and
/// no more than is outstanding there.
pub open spec fn receive_accepts(old: ContractState, packet: IbcPacket, msg: Ics20Packet) -> bool {
    &&& count_char(msg.denom@, '/') >= 2
    &&& voucher_port(msg.denom@) == packet.src.port_id@
    &&& voucher_channel(msg.denom@) == packet.src.channel_id@
    &&& voucher_denom(msg.denom@) == DENOM@
    &&& old.channel_state@.contains_key(receive_key(packet))
    &&& old.channel_state@[receive_key(packet)].outstanding >= msg.amount
}

/// The outcome of receiving a packet with `data`.
pub open spec fn receive_outcome(
    old: ContractState,
    packet: IbcPacket,
    data: Result<Ics20Packet, StdError>,
    outcome: Result<Ics20Packet, ContractError>,
    new: ContractState,
) -> bool {
    match data {
        Err(e) => outcome == Err::<Ics20Packet, ContractError>(ContractError::Std(e)) && same_state(old, new),
        Ok(msg) => {
            let s = msg.denom@;
            if count_char(s, '/') < 2 {
                outcome == Err::<Ics20Packet, ContractError>(ContractError::NoForeignTokens {  })
                    && same_state(old, new)
            } else if voucher_port(s) != packet.src.port_id@ {
                (outcome matches Err(ContractError::FromOtherPort { port }) && port@ == voucher_port(s))
                    && same_state(old, new)
            } else if voucher_channel(s) != packet.src.channel_id@ {
                (outcome matches Err(ContractError::FromOtherChannel { channel }) && channel@
                    == voucher_channel(s)) && same_state(old, new)
            } else if voucher_denom(s) != DENOM@ {
                outcome == Err::<Ics20Packet, ContractError>(ContractError::InvalidCoin {  })
                    && same_state(old, new)
            } else if !receive_accepts(old, packet, msg) {
                outcome == Err::<Ics20Packet, ContractError>(ContractError::InsufficientFunds {  })
                    && same_state(old, new)
            } else {
                let cur = old.channel_state@[receive_key(packet)];
                &&& outcome == Ok::<Ics20Packet, ContractError>(msg)
                &&& new.config == old.config
                &&& new.version == old.version
                &&& new.channels@ == old.channels@
                &&& new.ibc_denoms@ == old.ibc_denoms@
                &&& new.channel_state@ == old.channel_state@.insert(
                    receive_key(packet),
                    ChannelState { outstanding: (cur.outstanding - msg.amount) as u128, total_sent: cur.total_sent },
                )
                &&& new.balances@ == old.balances@
            }
        },
    }
}

/// The payout of an accepted voucher: a bank send of `msg.amount` of this chain's
/// token to the receiver, answered by a reply only when it fails.
pub open spec fn is_payout(m: SubMsg, msg: Ics20Packet) -> bool {
    &&& m.id == SEND_TOKEN_ID
    &&& m.send.to_address@ == msg.receiver@
    &&& m.send.amount@.len() == 1
    &&& m.send.amount@[0].denom@ == DENOM@
    &&& m.send.amount@[0].amount == msg.amount
}

/// The payout, acknowledgement and attributes of a received packet, by outcome.
pub open spec fn receive_response(outcome: Result<Ics20Packet, ContractError>, r: ReceiveResponse) -> bool {
    match outcome {
        Ok(msg) => (r.acknowledgement matches Ics20Ack::Result(b) && b@ == seq![49u8]) && attrs_view(
            r.attributes@,
        ) == receive_success_attrs(msg) && r.messages@.len() == 1 && is_payout(r.messages@[0], msg),
        Err(e) => (r.acknowledgement matches Ics20Ack::Error(t) && t@ == contract_error_text(e))
            && attrs_view(r.attributes@) == receive_failure_attrs(e) && r.messages@.len() == 0,
    }
}

/// The key of what is sent over a channel in a packet's denomination.
pub open spec fn sent_key(packet: IbcPacket, msg: Ics20Packet) -> (Seq<char>, Seq<char>) {
    (packet.src.channel_id@, msg.denom@)
}

/// What is recorded as sent over a channel in a denomination: what is stored, or nothing.
pub open spec fn recorded(cs: Map<(Seq<char>, Seq<char>), ChannelState>, key: (Seq<char>, Seq<char>)) -> ChannelState {
    if cs.contains_key(key) {
        cs[key]
    } else {
        ChannelState { outstanding: 0, total_sent: 0 }
    }
}

/// What an acknowledged packet may demand: the amounts recorded as sent can grow by its amount.
pub open spec fn success_requires(old: ContractState, packet: IbcPacket, data: Result<Ics20Packet, StdError>) -> bool {
    data matches Ok(msg) ==> recorded(old.channel_state@, sent_key(packet, msg)).total_sent + msg.amount
        <= u128::MAX
}

/// The attributes of an acknowledged ICS-20 packet.
pub open spec fn ack_attrs(msg: Ics20Packet, success: bool, err: Seq<char>) -> Seq<(Seq<char>, Seq<char>)> {
    let common = seq![
        ("action"@, "acknowledge"@),
        ("sender"@, msg.sender@),
        ("receiver"@, msg.receiver@),
        ("denom"@, msg.denom@),
        ("amount"@, decimal(msg.amount as nat)),
    ];
    if success {
        common.push(("success"@, "true"@))
    } else {
        common.push(("success"@, "false"@)).push(("error"@, err))
    }
}

/// The outcome of a packet acknowledged as a success.
pub open spec fn success_outcome(
    old: ContractState,
    packet: IbcPacket,
    data: Result<Ics20Packet, StdError>,
    r: Result<Response, ContractError>,
    new: ContractState,
) -> bool {
    match data {
        Err(e) => r == Err::<Response, ContractError>(ContractError::Std(e)) && same_state(old, new),
        Ok(msg) => {
            let cur = recorded(old.channel_state@, sent_key(packet, msg));
            &&& new.config == old.config
            &&& new.version == old.version
            &&& new.channels@ == old.channels@
            &&& new.ibc_denoms@ == old.ibc_denoms@
            &&& new.balances@ == old.balances@
            &&& new.channel_state@ == old.channel_state@.insert(
                sent_key(packet, msg),
                ChannelState {
                    outstanding: (cur.outstanding + msg.amount) as u128,
                    total_sent: (cur.total_sent + msg.amount) as u128,
                },
            )
            &&& r matches Ok(resp) && attrs_view(resp.attributes@) == ack_attrs(msg, true, Seq::empty())
                && resp.messages@.len() == 0 && resp.data is None
        },
    }
}

/// What an ICS-20 refund gives back: the amount, when it is of this chain's token.
pub open spec fn ics20_refund(msg: Ics20Packet) -> u128 {
    if msg.denom@ == DENOM@ {
        msg.amount
    } else {
        0
    }
}

/// What an interchain-account refund gives back: the amount put in, when it is of
/// this chain's token; the coin is read as its denomination and amount.
pub open spec fn ica_refund(token_in: (Seq<char>, Seq<char>)) -> u128 {
    if token_in.0 == DENOM@ {
        spec_parse_u128(token_in.1).unwrap()
    } else {
        0
    }
}

/// The coin put in by the first message of a failed interchain-account
/// transaction, when that message is the one `action` sends.
pub open spec fn ica_token_in(first: Option<MessageView>, action: Seq<char>) -> Option<(Seq<char>, Seq<char>)> {
    if action == SWAP_ACTION@ {
        match first {
            Some(MessageView::Swap { token_in, .. }) => Some(token_in),
            _ => None,
        }
    } else {
        match first {
            Some(MessageView::JoinSwap { token_in, .. }) => Some(token_in),
            _ => None,
        }
    }
}

/// The action of a failed interchain-account packet refunds what it put in.
pub open spec fn is_refunded_action(action: Seq<char>) -> bool {
    action == SWAP_ACTION@ || action == JOIN_POOL_ACTION@
}

/// What a failed packet may demand: its data is of the kind its port sends; an
/// interchain-account packet names its signer and action in its memo and, for a
/// swap or a pool join, carries that message with an amount that parses; and the
/// escrow holds the refund and the one refunded can take it.
pub open spec fn failure_requires(old: ContractState, packet: IbcPacket, data: FailedPacket) -> bool {
    &&& (data is Ica) == (count_char(packet.src.port_id@, '.') == 3)
    &&& match data {
        FailedPacket::Ics20(Ok(msg)) => send_ok(
            old.balances@,
            escrow_of(packet.src.channel_id@, TRANSFER_ACTION@),
            msg.sender@,
            ics20_refund(msg),
        ),
        FailedPacket::Ica(Ok(c)) => {
            let action = after_first(c.memo@, '/');
            let first = read_first_message(c.data@);
            &&& count_char(c.memo@, '/') == 1
            &&& is_refunded_action(action) ==> {
                &&& ica_token_in(first, action) is Some
                &&& spec_parse_u128(ica_token_in(first, action).unwrap().1) is Some
                &&& send_ok(
                    old.balances@,
                    escrow_of(packet.src.channel_id@, action),
                    before_first(c.memo@, '/'),
                    ica_refund(ica_token_in(first, action).unwrap()),
                )
            }
        },
        _ => true,
    }
}

/// The outcome of a packet that failed with `err` or timed out: what it sent is
/// given back from the escrow.
pub open spec fn failure_outcome(
    old: ContractState,
    packet: IbcPacket,
    data: FailedPacket,
    err: Seq<char>,
    r: Result<Response, ContractError>,
    new: ContractState,
) -> bool {
    match data {
        FailedPacket::Ics20(Err(e)) => r == Err::<Response, ContractError>(ContractError::Std(e))
            && same_state(old, new),
        FailedPacket::Ica(Err(e)) => r == Err::<Response, ContractError>(ContractError::Std(e))
            && same_state(old, new),
        FailedPacket::Ics20(Ok(msg)) => {
            &&& only_balances_changed(old, new)
            &&& new.balances@ == sent_balances(
                old.balances@,
                escrow_of(packet.src.channel_id@, TRANSFER_ACTION@),
                msg.sender@,
                ics20_refund(msg),
            )
            &&& r matches Ok(resp) && attrs_view(resp.attributes@) == ack_attrs(msg, false, err)
                && resp.messages@.len() == 0 && resp.data is None
        },
        FailedPacket::Ica(Ok(c)) => {
            let action = after_first(c.memo@, '/');
            let first = read_first_message(c.data@);
            &&& only_balances_changed(old, new)
            &&& if is_refunded_action(action) {
                new.balances@ == sent_balances(
                    old.balances@,
                    escrow_of(packet.src.channel_id@, action),
                    before_first(c.memo@, '/'),
                    ica_refund(ica_token_in(first, action).unwrap()),
                )
            } else {
                new.balances@ == old.balances@
            }
            &&& r matches Ok(resp) && resp.attributes@.len() == 0 && resp.messages@.len() == 0
                && resp.data is None
        },
    }
}

/// The state after a channel is connected: the channel is recorded, an
/// interchain-account channel with its account, a transfer channel with no
/// account; for a transfer channel on a connection that has none yet, the voucher
/// denomination of this chain's token there is recorded too.
pub open spec fn connected(old: ContractState, channel: IbcChannel, new: ContractState) -> bool {
    let id = channel.endpoint.channel_id@;
    let ica = count_char(channel.endpoint.port_id@, '.') == 3;
    &&& new.config == old.config
    &&& new.version == old.version
    &&& new.balances@ == old.balances@
    &&& new.channel_state@ == old.channel_state@
    &&& new.channels@.contains_key(id)
    &&& new.channels@.remove(id) == old.channels@.remove(id)
    &&& new.channels@[id].id == channel.endpoint.channel_id
    &&& new.channels@[id].counterparty_endpoint == channel.counterparty_endpoint
    &&& new.channels@[id].connection_id@ == channel.connection_id@
    &&& ica ==> new.channels@[id].ica_addr@ == ica_address(channel.endpoint.port_id@)
    &&& !ica ==> new.channels@[id].ica_addr@.len() == 0
    &&& ica || old.ibc_denoms@.contains_key(channel.connection_id@) ==> new.ibc_denoms@ == old.ibc_denoms@
    &&& !(ica || old.ibc_denoms@.contains_key(channel.connection_id@)) ==> {
        &&& new.ibc_denoms@.contains_key(channel.connection_id@)
        &&& new.ibc_denoms@[channel.connection_id@]@ == ibc_denom(
            channel.counterparty_endpoint.port_id@,
            channel.counterparty_endpoint.channel_id@,
        )
        &&& new.ibc_denoms@.remove(channel.connection_id@) == old.ibc_denoms@
    }
}

/// Two channel records read the same: the same id and counterparty, and the same
/// connection and account texts.
pub open spec fn same_channel_info(a: ChannelInfo, b: ChannelInfo) -> bool {
    &&& a.id == b.id
    &&& a.counterparty_endpoint == b.counterparty_endpoint
    &&& a.connection_id@ == b.connection_id@
    &&& a.ica_addr@ == b.ica_addr@
}

/// Connecting the same channel a second time changes nothing: every stored value
/// reads as after the first connect.
pub proof fn law_connect_twice(s0: ContractState, s1: ContractState, s2: ContractState, channel: IbcChannel)
    requires
        connected(s0, channel, s1),
        connected(s1, channel, s2),
    ensures
        s2.config == s1.config,
        s2.version == s1.version,
        s2.balances@ == s1.balances@,
        s2.channel_state@ == s1.channel_state@,
        s2.ibc_denoms@ == s1.ibc_denoms@,
        s2.channels@.dom() == s1.channels@.dom(),
        forall|k: Seq<char>| #[trigger] s2.channels@.contains_key(k) ==> same_channel_info(
            s2.channels@[k],
            s1.channels@[k],
        ),
{
    let id = channel.endpoint.channel_id@;
    assert(s2.channels@.dom() =~= s1.channels@.dom()) by {
        assert forall|k: Seq<char>| s2.channels@.contains_key(k) <==> s1.channels@.contains_key(k) by {
            if k != id {
                assert(s2.channels@.remove(id).contains_key(k) == s2.channels@.contains_key(k));
                assert(s1.channels@.remove(id).contains_key(k) == s1.channels@.contains_key(k));
            }
        }
    }
    assert forall|k: Seq<char>| #[trigger] s2.channels@.contains_key(k) implies same_channel_info(
        s2.channels@[k],
        s1.channels@[k],
    ) by {
        if k != id {
            assert(s2.channels@.remove(id)[k] == s2.channels@[k]);
            assert(s1.channels@.remove(id)[k] == s1.channels@[k]);
        } else {
            if count_char(channel.endpoint.port_id@, '.') != 3 {
                assert(s2.channels@[k].ica_addr@ =~= s1.channels@[k].ica_addr@);
            }
        }
    }
}

/// The voucher denomination recorded for a connection is never replaced: a later
/// connect on the same connection keeps the first one.
pub proof fn law_connect_keeps_denoms(s0: ContractState, channel: IbcChannel, s1: ContractState, connection: Seq<char>)
    requires
        connected(s0, channel, s1),
        s0.ibc_denoms@.contains_key(connection),
    ensures
        s1.ibc_denoms@.contains_key(connection),
        s1.ibc_denoms@[connection] == s0.ibc_denoms@[connection],
{
    if !(count_char(channel.endpoint.port_id@, '.') == 3 || s0.ibc_denoms@.contains_key(channel.connection_id@)) {
        assert(connection != channel.connection_id@);
        assert(s1.ibc_denoms@.remove(channel.connection_id@).contains_key(connection));
        assert(s1.ibc_denoms@.remove(channel.connection_id@)[connection] == s1.ibc_denoms@[connection]);
    }
}

/// The voucher denomination recorded when a transfer channel is connected on a new
/// connection is `ibc/` and the lower-case hex SHA-256 of the counterparty's port,
/// `/`, the counterparty's channel, `/uatom`: the path this chain's token takes to
/// the other end.
pub proof fn law_connect_records_counterparty_denom(old: ContractState, channel: IbcChannel, new: ContractState)
    requires
        connected(old, channel, new),
        count_char(channel.endpoint.port_id@, '.') != 3,
        !old.ibc_denoms@.contains_key(channel.connection_id@),
    ensures
        new.ibc_denoms@.contains_key(channel.connection_id@),
        new.ibc_denoms@[channel.connection_id@]@ == "ibc/"@ + hex_lower(
            sha256(
                encode_utf8(
                    channel.counterparty_endpoint.port_id@ + "/"@ + channel.counterparty_endpoint.channel_id@
                        + "/uatom"@,
                ),
            ),
        ),
{
    reveal_strlit("/");
    reveal_strlit("/uatom");
    reveal_strlit("uatom");
    let port = channel.counterparty_endpoint.port_id@;
    let chan = channel.counterparty_endpoint.channel_id@;
    assert(join_with(join_with(port, '/', chan), '/', DENOM@) =~= port + "/"@ + chan + "/uatom"@);
}

/// A failed or timed-out swap or pool join whose coin put in is not this chain's
/// token `uatom` gives nothing back: every ledger balance is as before.
pub proof fn law_failed_ica_foreign_coin_no_refund(
    old: ContractState,
    packet: IbcPacket,
    data: InterchainAccountPacketData,
    err: Seq<char>,
    r: Result<Response, ContractError>,
    new: ContractState,
    addr: Seq<char>,
)
    requires
        failure_outcome(old, packet, FailedPacket::Ica(Ok(data)), err, r, new),
        match read_first_message(data.data@) {
            Some(MessageView::Swap { token_in, .. }) => token_in.0 != "uatom"@ && after_first(data.memo@, '/')
                != "join_pool"@,
            Some(MessageView::JoinSwap { token_in, .. }) => token_in.0 != "uatom"@ && after_first(data.memo@, '/')
                != "swap"@,
            None => false,
        },
    ensures
        balance_of(new.balances@, addr) == balance_of(old.balances@, addr),
{
    reveal_strlit("uatom");
    reveal_strlit("swap");
    reveal_strlit("join_pool");
}

/// A failed or timed-out ICS-20 transfer of a denomination other than this chain's
/// token `uatom` gives nothing back: every ledger balance is as before.
pub proof fn law_failed_transfer_foreign_coin_no_refund(
    old: ContractState,
    packet: IbcPacket,
    msg: Ics20Packet,
    err: Seq<char>,
    r: Result<Response, ContractError>,
    new: ContractState,
    addr: Seq<char>,
)
    requires
        failure_outcome(old, packet, FailedPacket::Ics20(Ok(msg)), err, r, new),
        msg.denom@ != "uatom"@,
    ensures
        balance_of(new.balances@, addr) == balance_of(old.balances@, addr),
{
    reveal_strlit("uatom");
}

/// Connecting records the channel under its own id, with its counterparty and
/// connection; an interchain-account channel (a port of four dot-separated parts)
/// with the Bech32 `cosmos` address of SHA-256 over the hash of the
/// interchain-accounts module account followed by the port's bytes, a transfer
/// channel with no account. Nothing else but voucher denominations changes.
pub proof fn law_connect_records_channel(old: ContractState, channel: IbcChannel, new: ContractState)
    requires
        connected(old, channel, new),
    ensures
        new.channels@.contains_key(channel.endpoint.channel_id@),
        new.channels@[channel.endpoint.channel_id@].id@ == channel.endpoint.channel_id@,
        new.channels@[channel.endpoint.channel_id@].counterparty_endpoint == channel.counterparty_endpoint,
        new.channels@[channel.endpoint.channel_id@].connection_id@ == channel.connection_id@,
        count_char(channel.endpoint.port_id@, '.') == 3 ==> new.channels@[channel.endpoint.channel_id@].ica_addr@
            == bech32_encoding(
            "cosmos"@,
            sha256(
                sha256(
                    seq![103u8, 215, 116, 116, 202, 142, 58, 88, 18, 222, 50, 58, 40, 215, 198, 218, 107, 62, 79, 41],
                ) + encode_utf8(channel.endpoint.port_id@),
            ),
        ),
        count_char(channel.endpoint.port_id@, '.') != 3 ==> new.channels@[channel.endpoint.channel_id@].ica_addr@
            =~= Seq::<char>::empty(),
        forall|k: Seq<char>| k != channel.endpoint.channel_id@ ==> (#[trigger] new.channels@.contains_key(k))
            == old.channels@.contains_key(k),
        new.balances@ == old.balances@,
        new.channel_state@ == old.channel_state@,
        new.config == old.config,
{
    let id = channel.endpoint.channel_id@;
    assert forall|k: Seq<char>| k != id implies (#[trigger] new.channels@.contains_key(k))
        == old.channels@.contains_key(k) by {
        assert(new.channels@.remove(id).contains_key(k) == new.channels@.contains_key(k));
        assert(old.channels@.remove(id).contains_key(k) == old.channels@.contains_key(k));
    }
}

/// A voucher that is taken back pays the receiver its amount of `uatom` by one bank
/// send (whose reply, id 1337, comes only on failure), lowers what is outstanding
/// on the channel it arrived on by that amount, and leaves the ledger as it was.
pub proof fn law_receive_pays_receiver(
    old: ContractState,
    packet: IbcPacket,
    msg: Ics20Packet,
    outcome: Result<Ics20Packet, ContractError>,
    r: ReceiveResponse,
    new: ContractState,
)
    requires
        receive_outcome(old, packet, Ok(msg), outcome, new),
        receive_response(outcome, r),
        outcome is Ok,
    ensures
        r.messages@.len() == 1,
        r.messages@[0].id == 1337,
        r.messages@[0].send.to_address@ == msg.receiver@,
        r.messages@[0].send.amount@.len() == 1,
        r.messages@[0].send.amount@[0].denom@ == "uatom"@,
        r.messages@[0].send.amount@[0].amount == msg.amount,
        r.acknowledgement matches Ics20Ack::Result(b) && b@ == seq![49u8],
        new.balances@ == old.balances@,
        old.channel_state@.contains_key((packet.dest.channel_id@, "uatom"@)),
        new.channel_state@[(packet.dest.channel_id@, "uatom"@)].outstanding == old.channel_state@[(
            packet.dest.channel_id@,
            "uatom"@,
        )].outstanding - msg.amount,
        new.channel_state@[(packet.dest.channel_id@, "uatom"@)].total_sent == old.channel_state@[(
            packet.dest.channel_id@,
            "uatom"@,
        )].total_sent,
{
}

/// A voucher that is refused is answered with an error acknowledgement and no
/// payout, and changes nothing.
pub proof fn law_refused_receive_changes_nothing(
    old: ContractState,
    packet: IbcPacket,
    data: Result<Ics20Packet, StdError>,
    outcome: Result<Ics20Packet, ContractError>,
    r: ReceiveResponse,
    new: ContractState,
)
    requires
        receive_outcome(old, packet, data, outcome, new),
        receive_response(outcome, r),
        outcome is Err,
    ensures
        r.messages@.len() == 0,
        r.acknowledgement is Error,
        new.balances@ == old.balances@,
        new.channel_state@ == old.channel_state@,
        new.channels@ == old.channels@,
{
}

/// An acknowledged transfer adds its amount to what is outstanding and to what was
/// ever sent over its source channel in its denomination, and leaves the ledger.
pub proof fn law_ack_records_amount(
    old: ContractState,
    packet: IbcPacket,
    msg: Ics20Packet,
    r: Result<Response, ContractError>,
    new: ContractState,
)
    requires
        old.wf(),
        success_requires(old, packet, Ok(msg)),
        success_outcome(old, packet, Ok(msg), r, new),
    ensures
        r is Ok,
        new.balances@ == old.balances@,
        new.channel_state@.contains_key((packet.src.channel_id@, msg.denom@)),
        new.channel_state@[(packet.src.channel_id@, msg.denom@)].outstanding == (if old.channel_state@.contains_key(
            (packet.src.channel_id@, msg.denom@),
        ) {
            old.channel_state@[(packet.src.channel_id@, msg.denom@)].outstanding as int
        } else {
            0
        }) + msg.amount,
        new.channel_state@[(packet.src.channel_id@, msg.denom@)].total_sent == (if old.channel_state@.contains_key(
            (packet.src.channel_id@, msg.denom@),
        ) {
            old.channel_state@[(packet.src.channel_id@, msg.denom@)].total_sent as int
        } else {
            0
        }) + msg.amount,
{
}

/// A failed or timed-out transfer of `uatom` gives its amount back from the
/// channel's transfer escrow (`channel/transfer`) to its sender.
pub proof fn law_failed_transfer_refunds_sender(
    old: ContractState,
    packet: IbcPacket,
    msg: Ics20Packet,
    err: Seq<char>,
    r: Result<Response, ContractError>,
    new: ContractState,
)
    requires
        failure_requires(old, packet, FailedPacket::Ics20(Ok(msg))),
        failure_outcome(old, packet, FailedPacket::Ics20(Ok(msg)), err, r, new),
        msg.denom@ == "uatom"@,
        msg.sender@ != packet.src.channel_id@ + "/transfer"@,
    ensures
        r is Ok,
        balance_of(new.balances@, msg.sender@) == balance_of(old.balances@, msg.sender@) + msg.amount,
        balance_of(new.balances@, packet.src.channel_id@ + "/transfer"@) == balance_of(
            old.balances@,
            packet.src.channel_id@ + "/transfer"@,
        ) - msg.amount,
{
    reveal_strlit("uatom");
    reveal_strlit("transfer");
    reveal_strlit("/transfer");
    let escrow = escrow_of(packet.src.channel_id@, TRANSFER_ACTION@);
    assert(escrow =~= packet.src.channel_id@ + "/transfer"@);
    crate::contract::law_send_conserves(old.balances@, escrow, msg.sender@, msg.amount, msg.sender@);
}

/// A failed or timed-out pool join paid in `uatom` gives the amount put in back
/// from the channel's pool escrow (`channel/join_pool`) to the signer of its memo.
#[verifier::spinoff_prover]
#[verifier::rlimit(40)]
pub proof fn law_failed_join_refunds_signer(
    old: ContractState,
    packet: IbcPacket,
    data: InterchainAccountPacketData,
    err: Seq<char>,
    r: Result<Response, ContractError>,
    new: ContractState,
    signer: Seq<char>,
    amount: Seq<char>,
)
    requires
        failure_requires(old, packet, FailedPacket::Ica(Ok(data))),
        failure_outcome(old, packet, FailedPacket::Ica(Ok(data)), err, r, new),
        data.memo@ == signer + "/join_pool"@,
        !signer.contains('/'),
        read_first_message(data.data@) matches Some(MessageView::JoinSwap { token_in, .. }) && token_in
            == ("uatom"@, amount),
        signer != packet.src.channel_id@ + "/join_pool"@,
    ensures
        r is Ok,
        spec_parse_u128(amount) is Some,
        balance_of(new.balances@, signer) == balance_of(old.balances@, signer) + spec_parse_u128(amount).unwrap(),
        balance_of(new.balances@, packet.src.channel_id@ + "/join_pool"@) == balance_of(
            old.balances@,
            packet.src.channel_id@ + "/join_pool"@,
        ) - spec_parse_u128(amount).unwrap(),
{
    reveal_strlit("uatom");
    reveal_strlit("swap");
    reveal_strlit("join_pool");
    reveal_strlit("/join_pool");
    assert(data.memo@ =~= join_with(signer, '/', JOIN_POOL_ACTION@));
    assert(!JOIN_POOL_ACTION@.contains('/'));
    law_memo_round_trip(signer, JOIN_POOL_ACTION@);
    let action = after_first(data.memo@, '/');
    assert(action == JOIN_POOL_ACTION@);
    assert(before_first(data.memo@, '/') == signer);
    assert(is_refunded_action(action));
    assert(ica_token_in(read_first_message(data.data@), action) == Some(("uatom"@, amount)));
    assert(ica_refund(("uatom"@, amount)) == spec_parse_u128(amount).unwrap());
    let escrow = escrow_of(packet.src.channel_id@, JOIN_POOL_ACTION@);
    assert(escrow =~= packet.src.channel_id@ + "/join_pool"@);
    crate::contract::law_send_conserves(old.balances@, escrow, signer, spec_parse_u128(amount).unwrap(), signer);
}

impl ContractState {
    /// Records a connected channel as [`connected`] says; the ordering and version
    /// are checked when the channel is opened, not here.
    pub fn ibc_channel_connect(&mut self, channel: IbcChannel, _counterparty_version: Option<&str>) -> (r:
        Result<Response, ContractError>)
        requires
            old(self).wf(),
        ensures
            final(self).wf(),
            r matches Ok(resp) && resp.messages@.len() == 0 && resp.attributes@.len() == 0 && resp.data is None,
            connected(*old(self), channel, *final(self)),
    {
        let port_id = channel.endpoint.port_id;
        let info;
        if is_ica_port(&port_id) {
            info = ChannelInfo {
                id: channel.endpoint.channel_id,
                counterparty_endpoint: channel.counterparty_endpoint,
                connection_id: channel.connection_id,
                ica_addr: get_ica_address(&port_id),
            };
        } else {
            info = ChannelInfo {
                id: channel.endpoint.channel_id,
                counterparty_endpoint: channel.counterparty_endpoint,
                connection_id: channel.connection_id.clone(),
                ica_addr: String::new(),
            };
            if !self.ibc_denoms.contains(&channel.connection_id) {
                let ibc_denom = get_ibc_denom(
                    info.counterparty_endpoint.port_id.clone(),
                    info.counterparty_endpoint.channel_id.as_str(),
                );
                self.ibc_denoms.insert(channel.connection_id, ibc_denom);
                assert(self.ibc_denoms@.remove(info.connection_id@) =~= old(self).ibc_denoms@);
            }
        }
        let key = info.id.clone();
        self.channels.insert(key, info);
        assert(self.channels@.remove(channel.endpoint.channel_id@) =~= old(self).channels@.remove(
            channel.endpoint.channel_id@,
        ));
        Ok(empty_response())
    }

    /// Takes a returning voucher: checks it is this chain's token coming back over
    /// the channel it was sent on and lowers what is outstanding there.
    pub fn do_ibc_packet_receive(&mut self, packet: &IbcPacket, data: Result<Ics20Packet, StdError>) -> (r:
        Result<Ics20Packet, ContractError>)
        requires
            old(self).wf(),
        ensures
            final(self).wf(),
            receive_outcome(*old(self), *packet, data, r, *final(self)),
    {
        let msg = match data {
            Ok(m) => m,
            Err(e) => {
                return Err(ContractError::Std(e));
            },
        };
        let denom = match parse_voucher_denom(msg.denom.as_str(), &packet.src) {
            Ok(d) => d,
            Err(e) => {
                return Err(e);
            },
        };
        if !same_text(denom.as_str(), DENOM) {
            return Err(ContractError::InvalidCoin {  });
        }
        let key = (packet.dest.channel_id.clone(), denom);
        let cur = match self.channel_state.get(&key) {
            None => {
                return Err(ContractError::InsufficientFunds {  });
            },
            Some(c) => *c,
        };
        let outstanding = match cur.outstanding.checked_sub(msg.amount) {
            None => {
                return Err(ContractError::InsufficientFunds {  });
            },
            Some(o) => o,
        };
        self.channel_state.insert(key, ChannelState { outstanding, total_sent: cur.total_sent });
        Ok(msg)
    }

    /// Answers a received packet: when the voucher was taken, a success
    /// acknowledgement and a bank send of the tokens to the receiver; an error
    /// acknowledgement with the reason otherwise.
    pub fn ibc_packet_receive(&mut self, packet: &IbcPacket, data: Result<Ics20Packet, StdError>) -> (r:
        ReceiveResponse)
        requires
            old(self).wf(),
        ensures
            final(self).wf(),
            exists|outcome: Result<Ics20Packet, ContractError>|
                #[trigger] receive_outcome(*old(self), *packet, data, outcome, *final(self))
                    && receive_response(outcome, r),
    {
        let outcome = self.do_ibc_packet_receive(packet, data);
        let r = match &outcome {
            Ok(msg) => {
                let denom = parse_voucher_denom(msg.denom.as_str(), &packet.src).unwrap();
                let amount_text = u128_to_decimal(msg.amount);
                let mut attributes: Vec<Attribute> = Vec::new();
                attributes.push(attr("action", "receive"));
                attributes.push(attr("sender", msg.sender.as_str()));
                attributes.push(attr("receiver", msg.receiver.as_str()));
                attributes.push(attr("denom", denom.as_str()));
                attributes.push(attr("amount", amount_text.as_str()));
                attributes.push(attr("success", "true"));
                proof {
                    reveal_strlit("action");
                    reveal_strlit("receive");
                    reveal_strlit("sender");
                    reveal_strlit("receiver");
                    reveal_strlit("denom");
                    reveal_strlit("amount");
                    reveal_strlit("success");
                    reveal_strlit("true");
                    assert(attrs_view(attributes@) =~= receive_success_attrs(*msg));
                }
                let mut amount: Vec<NativeCoin> = Vec::new();
                amount.push(NativeCoin { denom, amount: msg.amount });
                let mut messages: Vec<SubMsg> = Vec::new();
                messages.push(SubMsg {
                    id: SEND_TOKEN_ID,
                    send: BankSend { to_address: msg.receiver.clone(), amount },
                });
                ReceiveResponse { messages, acknowledgement: ack_success(), attributes }
            },
            Err(err) => {
                let text = err.message();
                let mut attributes: Vec<Attribute> = Vec::new();
                attributes.push(attr("action", "receive"));
                attributes.push(attr("success", "false"));
                attributes.push(attr("error", text.as_str()));
                proof {
                    reveal_strlit("action");
                    reveal_strlit("receive");
                    reveal_strlit("success");
                    reveal_strlit("false");
                    reveal_strlit("error");
                    assert(attrs_view(attributes@) =~= receive_failure_attrs(*err));
                }
                ReceiveResponse { messages: Vec::new(), acknowledgement: ack_fail(text), attributes }
            },
        };
        assert(receive_outcome(*old(self), *packet, data, outcome, *self) && receive_response(outcome, r));
        r
    }

    /// Records an acknowledged transfer: what is outstanding and what was ever sent
    /// over the channel in its denomination grow by its amount.
    pub fn on_packet_success(&mut self, packet: &IbcPacket, data: Result<Ics20Packet, StdError>) -> (r:
        Result<Response, ContractError>)
        requires
            old(self).wf(),
            success_requires(*old(self), *packet, data),
        ensures
            final(self).wf(),
            success_outcome(*old(self), *packet, data, r, *final(self)),
    {
        let msg = match data {
            Ok(m) => m,
            Err(e) => {
                return Err(ContractError::Std(e));
            },
        };
        let amount_text = u128_to_decimal(msg.amount);
        let mut attributes: Vec<Attribute> = Vec::new();
        attributes.push(attr("action", "acknowledge"));
        attributes.push(attr("sender", msg.sender.as_str()));
        attributes.push(attr("receiver", msg.receiver.as_str()));
        attributes.push(attr("denom", msg.denom.as_str()));
        attributes.push(attr("amount", amount_text.as_str()));
        attributes.push(attr("success", "true"));
        let key = (packet.src.channel_id.clone(), msg.denom.clone());
        let cur = match self.channel_state.get(&key) {
            None => ChannelState { outstanding: 0, total_sent: 0 },
            Some(c) => *c,
        };
        let next = ChannelState {
            outstanding: cur.outstanding + msg.amount,
            total_sent: cur.total_sent + msg.amount,
        };
        self.channel_state.insert(key, next);
        proof {
            reveal_strlit("action");
            reveal_strlit("acknowledge");
            reveal_strlit("sender");
            reveal_strlit("receiver");
            reveal_strlit("denom");
            reveal_strlit("amount");
            reveal_strlit("success");
            reveal_strlit("true");
            assert(attrs_view(attributes@) =~= ack_attrs(msg, true, Seq::empty()));
        }
        Ok(Response { messages: Vec::new(), attributes, data: None })
    }

    /// Gives back what a failed or timed-out packet sent: the amount of an ICS-20
    /// packet to its sender, the amount put into a swap or pool join to the signer
    /// of its memo; only this chain's token is given back.
    pub fn on_packet_failure(&mut self, packet: &IbcPacket, data: FailedPacket, err: String) -> (r:
        Result<Response, ContractError>)
        requires
            old(self).wf(),
            failure_requires(*old(self), *packet, data),
        ensures
            final(self).wf(),
            failure_outcome(*old(self), *packet, data, err@, r, *final(self)),
    {
        if is_ica_port(&packet.src.port_id) {
            let contents = match data {
                FailedPacket::Ica(Ok(c)) => c,
                FailedPacket::Ica(Err(e)) => {
                    return Err(ContractError::Std(e));
                },
                FailedPacket::Ics20(_) => unreached(),
            };
            let (signer, action) = get_signer_and_action_from_memo(contents.memo).unwrap();
            let refund_addr = Addr::unchecked(signer);
            let is_swap = same_text(action.as_str(), SWAP_ACTION);
            let is_join = same_text(action.as_str(), JOIN_POOL_ACTION);
            if is_swap || is_join {
                let first = decode_first_message(contents.data.as_slice());
                let token_in = match first {
                    Some(IcaMessage::Swap(m)) if is_swap => m.token_in,
                    Some(IcaMessage::JoinSwap(m)) if !is_swap => m.token_in,
                    _ => unreached(),
                };
                let mut refund_amount = parse_u128(token_in.amount.as_str()).unwrap();
                if !same_text(token_in.denom.as_str(), DENOM) {
                    refund_amount = 0;
                }
                let escrow_addr = get_escrow_address(packet.src.channel_id.clone(), action.as_str());
                self.try_send(&escrow_addr, &refund_addr, refund_amount).unwrap();
            }
            Ok(empty_response())
        } else {
            let msg = match data {
                FailedPacket::Ics20(Ok(m)) => m,
                FailedPacket::Ics20(Err(e)) => {
                    return Err(ContractError::Std(e));
                },
                FailedPacket::Ica(_) => unreached(),
            };
            let amount_text = u128_to_decimal(msg.amount);
            let mut attributes: Vec<Attribute> = Vec::new();
            attributes.push(attr("action", "acknowledge"));
            attributes.push(attr("sender", msg.sender.as_str()));
            attributes.push(attr("receiver", msg.receiver.as_str()));
            attributes.push(attr("denom", msg.denom.as_str()));
            attributes.push(attr("amount", amount_text.as_str()));
            attributes.push(attr("success", "false"));
            attributes.push(attr("error", err.as_str()));
            proof {
                reveal_strlit("action");
                reveal_strlit("acknowledge");
                reveal_strlit("sender");
                reveal_strlit("receiver");
                reveal_strlit("denom");
                reveal_strlit("amount");
                reveal_strlit("success");
                reveal_strlit("false");
                reveal_strlit("error");
                assert(attrs_view(attributes@) =~= ack_attrs(msg, false, err@));
            }
            let mut refund_amount = msg.amount;
            if !same_text(msg.denom.as_str(), DENOM) {
                refund_amount = 0;
            }
            let escrow_addr = get_escrow_address(packet.src.channel_id.clone(), TRANSFER_ACTION);
            let refund_addr = Addr::unchecked(msg.sender.clone());
            self.try_send(&escrow_addr, &refund_addr, refund_amount).unwrap();
            Ok(Response { messages: Vec::new(), attributes, data: None })
        }
    }

    /// Answers an acknowledgement: a success records the transfer, an error gives
    /// back what was sent. `transfer` is the packet's data read as an ICS-20 packet,
    /// `failed` as what its port sends.
    pub fn ibc_packet_ack(
        &mut self,
        packet: &IbcPacket,
        ack: Result<Ics20Ack, StdError>,
        transfer: Result<Ics20Packet, StdError>,
        failed: FailedPacket,
    ) -> (r: Result<Response, ContractError>)
        requires
            old(self).wf(),
            ack matches Ok(Ics20Ack::Result(_)) ==> success_requires(*old(self), *packet, transfer),
            ack matches Ok(Ics20Ack::Error(_)) ==> failure_requires(*old(self), *packet, failed),
        ensures
            final(self).wf(),
            match ack {
                Err(e) => r == Err::<Response, ContractError>(ContractError::Std(e)) && same_state(
                    *old(self),
                    *final(self),
                ),
                Ok(Ics20Ack::Result(_)) => success_outcome(*old(self), *packet, transfer, r, *final(self)),
                Ok(Ics20Ack::Error(err)) => failure_outcome(*old(self), *packet, failed, err@, r, *final(self)),
            },
    {
        match ack {
            Err(e) => Err(ContractError::Std(e)),
            Ok(Ics20Ack::Result(_)) => self.on_packet_success(packet, transfer),
            Ok(Ics20Ack::Error(err)) => self.on_packet_failure(packet, failed, err),
        }
    }

    /// Answers a timed-out packet: what it sent is given back.
    pub fn ibc_packet_timeout(&mut self, packet: &IbcPacket, failed: FailedPacket) -> (r: Result<
        Response,
        ContractError,
    >)
        requires
            old(self).wf(),
            failure_requires(*old(self), *packet, failed),
        ensures
            final(self).wf(),
            failure_outcome(*old(self), *packet, failed, "timeout"@, r, *final(self)),
    {
        self.on_packet_failure(packet, failed, String::from_str("timeout"))
    }
}


/// Escrow accounts of different channels or actions are different accounts, when
/// channel ids hold no slash.
pub proof fn law_escrow_accounts_distinct(c1: Seq<char>, a1: Seq<char>, c2: Seq<char>, a2: Seq<char>)
    requires
        !c1.contains('/'),
        !c2.contains('/'),
        c1 != c2 || a1 != a2,
    ensures
        escrow_of(c1, a1) != escrow_of(c2, a2),
{
    crate::text::lemma_find_first_join(c1, '/', a1);
    crate::text::lemma_find_first_join(c2, '/', a2);
}

/// A transfer that fails (or times out) gives back what it took: after the
/// transfer and the refund of its packet, every balance of the ledger is as before.
pub proof fn law_failed_transfer_refunds(
    s0: ContractState,
    s1: ContractState,
    s2: ContractState,
    now: u64,
    msg: TransferMsg,
    coin_amount: u128,
    sender: Seq<char>,
    resp: Response,
    packet: IbcPacket,
    sent: Ics20Packet,
    err: Seq<char>,
    r: Result<Response, ContractError>,
    addr: Seq<char>,
)
    requires
        transfer_requires(s0, now, msg, coin_amount, sender),
        transfer_outcome(s0, now, msg, coin_amount, sender, Ok(resp), s1),
        resp.messages@[0].data == PacketData::Ics20(sent),
        packet.src.channel_id@ == msg.channel@,
        failure_outcome(s1, packet, FailedPacket::Ics20(Ok(sent)), err, r, s2),
    ensures
        balance_of(s2.balances@, addr) == balance_of(s0.balances@, addr),
{
    crate::contract::law_send_back_restores(
        s0.balances@,
        sender,
        escrow_of(msg.channel@, TRANSFER_ACTION@),
        msg.amount,
        addr,
    );
}

/// An acknowledged transfer that comes back in full leaves what is outstanding on
/// the channel as before the acknowledgement.
pub proof fn law_return_clears_outstanding(
    s0: ContractState,
    s1: ContractState,
    s2: ContractState,
    sent_packet: IbcPacket,
    sent: Ics20Packet,
    acked: Result<Response, ContractError>,
    back_packet: IbcPacket,
    back: Ics20Packet,
    outcome: Result<Ics20Packet, ContractError>,
)
    requires
        s0.wf(),
        success_requires(s0, sent_packet, Ok(sent)),
        success_outcome(s0, sent_packet, Ok(sent), acked, s1),
        sent.denom@ == DENOM@,
        back_packet.dest.channel_id@ == sent_packet.src.channel_id@,
        back.amount == sent.amount,
        receive_outcome(s1, back_packet, Ok(back), outcome, s2),
        outcome is Ok,
    ensures
        recorded(s2.channel_state@, sent_key(sent_packet, sent)).outstanding == recorded(
            s0.channel_state@,
            sent_key(sent_packet, sent),
        ).outstanding,
        recorded(s2.channel_state@, sent_key(sent_packet, sent)).total_sent == recorded(
            s0.channel_state@,
            sent_key(sent_packet, sent),
        ).total_sent + sent.amount,
{
    assert(receive_key(back_packet) == sent_key(sent_packet, sent));
    assert(receive_accepts(s1, back_packet, back));
}


/// A pool join that fails (or times out) gives back what it took when it was paid
/// in this chain's token: after the join and the refund of the packet that carried
/// it (the transaction and memo that [`crate::contract::ica_send_packet`] puts
/// there), every balance of the ledger is as before. The memo names the sender, so
/// the sender's address must hold no slash; the packet's bytes must fit in memory.
pub proof fn law_failed_join_refunds(
    s0: ContractState,
    s1: ContractState,
    s2: ContractState,
    now: u64,
    msg: JoinPoolMsg,
    coin_amount: u128,
    sender: Seq<char>,
    req: IcaRequest,
    sent: InterchainAccountPacketData,
    packet: IbcPacket,
    err: Seq<char>,
    r: Result<Response, ContractError>,
    addr: Seq<char>,
)
    requires
        !sender.contains('/'),
        msg.in_denom@ == DENOM@,
        ica_requires(s0, now, msg.channel@, msg.timeout, msg.in_amount@, JOIN_POOL_ACTION@, coin_amount, sender),
        ica_outcome(s0, now, msg.channel@, msg.timeout, msg.in_amount@, JOIN_POOL_ACTION@, coin_amount, sender, Ok(req), s1),
        join_request(msg, s0.channels@[msg.channel@].ica_addr@, sender, req),
        sent.data@ == ica_tx_encoding(req),
        sent.data@.len() <= u64::MAX,
        sent.memo@ == req.memo@,
        packet.src.channel_id@ == msg.channel@,
        failure_outcome(s1, packet, FailedPacket::Ica(Ok(sent)), err, r, s2),
    ensures
        balance_of(s2.balances@, addr) == balance_of(s0.balances@, addr),
{
    reveal_strlit("join_pool");
    reveal_strlit("swap");
    assert(!JOIN_POOL_ACTION@.contains('/'));
    crate::text::lemma_find_first_join(sender, '/', JOIN_POOL_ACTION@);
    let action = after_first(req.memo@, '/');
    assert(action == JOIN_POOL_ACTION@);
    assert(before_first(req.memo@, '/') == sender);
    assert(is_refunded_action(action));
    let rest = any_field_encoding(1, MSG_SEND_TYPE_URL@, send_encoding(req.send));
    crate::tx::reader::law_first_message_round_trip(req.message, rest);
    assert(read_first_message(sent.data@) == Some(crate::tx::reader::message_view(req.message)));
    crate::contract::law_send_back_restores(
        s0.balances@,
        sender,
        escrow_of(msg.channel@, JOIN_POOL_ACTION@),
        spec_parse_u128(msg.in_amount@).unwrap(),
        addr,
    );
}

} // verus!
