//! The contract's messages: instantiation, the internal ledger, transfers over
//! ICS-20 and swaps and pool joins through interchain accounts, and migration.
use vstd::prelude::*;
use crate::base::{coin_encoding, coins_field, route_encoding, routes_field, Coin, SwapAmountInRoute};
use crate::error::{ContractError, PaymentError, StdError};
use crate::ibc::{
    attr, attrs_view, get_escrow_address, write_memo, Attribute, Ics20Packet,
    InterchainAccountPacketData,
};
use crate::msg::{
    BalanceResponse, ChannelResponse, ExecuteMsg, ExecuteOutcome, IbcDenomResponse, IbcMsg,
    ica_message_encoding, ica_message_url, IcaMessage, IcaRequest, InitBalance, InitMsg, JoinPoolMsg, ListChannelsResponse, NativeCoin,
    PacketData, QueryAnswer, QueryMsg, Response, SwapMsg, TransferMsg,
};
use crate::proto::Any;
use crate::state::{
    balance_of, Addr, ChannelInfo, ChannelState, Config, ContractState, ContractVersion,
    IbcEndpoint, CONTRACT_NAME, CONTRACT_VERSION, DENOM, JOIN_POOL_ACTION, SWAP_ACTION,
    TRANSFER_ACTION,
};
use crate::store::{last_for_key, KeyMap};
use crate::text::{
    decimal, join_with, lemma_text_lt_total, lemma_text_lt_transitive, parse_u128, same_text,
    spec_parse_u128, text_less, text_lt, u128_to_decimal, u64_to_decimal,
};
use crate::tx::bank::{send_encoding, MSG_SEND_TYPE_URL};
use crate::tx::gamm::{
    join_swap_encoding, swap_encoding, MSG_JOIN_SWAP_EXTERN_AMOUNT_IN_TYPE_URL, MSG_SWAP_EXACT_AMOUNT_IN_TYPE_URL,
};
use crate::tx::wire::{length_delimited, string_field, uint64_field};
use crate::tx::cosmos_tx::{any_field_encoding, cosmos_tx_encoding};
use crate::tx::{CosmosTx, MsgJoinSwapExternAmountIn, MsgSend, MsgSwapExactAmountIn};

verus! {

/// Nanoseconds in a second.
pub const NANOS_PER_SECOND: u64 = 1_000_000_000;

/// The balances after moving `amount` from `from` to `to`: `from` is debited
/// first, then `to` is credited.
pub open spec fn sent_balances(
    b: Map<Seq<char>, u128>,
    from: Seq<char>,
    to: Seq<char>,
    amount: u128,
) -> Map<Seq<char>, u128> {
    let debited = b.insert(from, (balance_of(b, from) - amount) as u128);
    debited.insert(to, (balance_of(debited, to) + amount) as u128)
}

/// The sum of all balances of a ledger.
pub open spec fn map_total(m: Map<Seq<char>, u128>) -> int
    decreases m.dom().len(),
{
    if !m.dom().finite() || m.dom().len() == 0 {
        0
    } else {
        let k = m.dom().choose();
        m[k] + map_total(m.remove(k))
    }
}

/// The sum of a ledger is any one balance plus the sum of the others.
pub proof fn lemma_total_remove(m: Map<Seq<char>, u128>, k: Seq<char>)
    requires
        m.dom().finite(),
        m.dom().contains(k),
    ensures
        map_total(m) == m[k] + map_total(m.remove(k)),
    decreases m.dom().len(),
{
    let c = m.dom().choose();
    assert(m.dom().contains(c));
    if c != k {
        lemma_total_remove(m.remove(c), k);
        lemma_total_remove(m.remove(k), c);
        assert(m.remove(c).remove(k) =~= m.remove(k).remove(c));
    }
}

/// Setting one balance changes the sum by the difference.
pub proof fn lemma_total_insert(m: Map<Seq<char>, u128>, k: Seq<char>, v: u128)
    requires
        m.dom().finite(),
    ensures
        map_total(m.insert(k, v)) == map_total(m) - balance_of(m, k) + v,
{
    let n = m.insert(k, v);
    lemma_total_remove(n, k);
    if m.dom().contains(k) {
        lemma_total_remove(m, k);
        assert(n.remove(k) =~= m.remove(k));
    } else {
        assert(n.remove(k) =~= m);
    }
}

/// A ledger transfer keeps the sum of all balances.
pub proof fn law_send_keeps_total(b: Map<Seq<char>, u128>, from: Seq<char>, to: Seq<char>, amount: u128)
    requires
        b.dom().finite(),
        send_ok(b, from, to, amount),
    ensures
        map_total(sent_balances(b, from, to, amount)) == map_total(b),
{
    let debited = b.insert(from, (balance_of(b, from) - amount) as u128);
    lemma_total_insert(b, from, (balance_of(b, from) - amount) as u128);
    lemma_total_insert(debited, to, (balance_of(debited, to) + amount) as u128);
}

/// Crediting `to` cannot overflow once `from` has been debited.
pub open spec fn credit_fits(b: Map<Seq<char>, u128>, from: Seq<char>, to: Seq<char>, amount: u128) -> bool {
    from != to ==> balance_of(b, to) + amount <= u128::MAX
}

/// `from` holds `amount` and `to` can take it.
pub open spec fn send_ok(b: Map<Seq<char>, u128>, from: Seq<char>, to: Seq<char>, amount: u128) -> bool {
    balance_of(b, from) >= amount && credit_fits(b, from, to, amount)
}

/// The timeout of a packet sent at `now` (nanoseconds) with a lifetime of `delta` seconds.
pub open spec fn timeout_at(now: u64, delta: u64) -> int {
    now + delta * NANOS_PER_SECOND
}

/// The lifetime a message asks for, or the configured default.
pub open spec fn timeout_delta(timeout: Option<u64>, config: Config) -> u64 {
    match timeout {
        Some(t) => t,
        None => config.default_timeout,
    }
}

/// The timestamp of a packet's timeout fits in 64 bits.
pub open spec fn timeout_fits(now: u64, timeout: Option<u64>, config: Config) -> bool {
    timeout_delta(timeout, config) * NANOS_PER_SECOND <= u64::MAX && timeout_at(
        now,
        timeout_delta(timeout, config),
    ) <= u64::MAX
}

/// Only the ledger's balances differ between the two states.
pub open spec fn only_balances_changed(old: ContractState, new: ContractState) -> bool {
    &&& new.config == old.config
    &&& new.version == old.version
    &&& new.channels@ == old.channels@
    &&& new.channel_state@ == old.channel_state@
    &&& new.ibc_denoms@ == old.ibc_denoms@
}

/// The two states hold the same values.
pub open spec fn same_state(old: ContractState, new: ContractState) -> bool {
    only_balances_changed(old, new) && new.balances@ == old.balances@
}

/// The attributes of a ledger transfer.
pub open spec fn transfer_attrs(from: Seq<char>, to: Seq<char>, amount: u128) -> Seq<(Seq<char>, Seq<char>)> {
    seq![
        ("action"@, "transfer"@),
        ("from"@, from),
        ("to"@, to),
        ("amount"@, decimal(amount as nat)),
    ]
}

/// The balances made at instantiation: each entry in turn, a later one for an
/// address replacing an earlier one.
pub open spec fn init_balances(s: Seq<InitBalance>) -> Map<Seq<char>, u128>
    decreases s.len(),
{
    if s.len() == 0 {
        Map::empty()
    } else {
        init_balances(s.drop_last()).insert(s.last().address@, s.last().amount)
    }
}

/// An empty response.
pub fn empty_response() -> (r: Response)
    ensures
        r.messages@.len() == 0,
        r.attributes@.len() == 0,
        r.data is None,
{
    Response { messages: Vec::new(), attributes: Vec::new(), data: None }
}

/// cw0's `one_coin`: the one coin sent with a message, if exactly one was sent and
/// its amount is not zero.
/// Trusted: states the outcome as cw0's source computes it.
#[verifier::external_body]
fn one_coin(funds: &Vec<NativeCoin>) -> (r: Result<NativeCoin, PaymentError>)
    ensures
        match r {
            Ok(c) => funds@.len() == 1 && funds@[0].amount != 0 && c.denom@ == funds@[0].denom@
                && c.amount == funds@[0].amount,
            Err(PaymentError::NoFunds {  }) => funds@.len() == 0 || (funds@.len() == 1
                && funds@[0].amount == 0),
            Err(PaymentError::MultipleDenoms {  }) => funds@.len() > 1,
            Err(_) => false,
        },
{
    let info = cosmwasm_std::MessageInfo {
        sender: cosmwasm_std::Addr::unchecked(""),
        funds: funds.iter().map(|c| cosmwasm_std::Coin::new(c.amount, c.denom.clone())).collect(),
    };
    match cw0::one_coin(&info) {
        Ok(c) => Ok(NativeCoin { denom: c.denom, amount: c.amount.u128() }),
        Err(cw0::PaymentError::MissingDenom(d)) => Err(PaymentError::MissingDenom(d)),
        Err(cw0::PaymentError::ExtraDenom(d)) => Err(PaymentError::ExtraDenom(d)),
        Err(cw0::PaymentError::MultipleDenoms {}) => Err(PaymentError::MultipleDenoms {}),
        Err(cw0::PaymentError::NoFunds {}) => Err(PaymentError::NoFunds {}),
        Err(cw0::PaymentError::NonPayable {}) => Err(PaymentError::NonPayable {}),
    }
}

/// The contract as instantiated with `msg`.
pub fn instantiate(msg: InitMsg) -> (r: (ContractState, Response))
    ensures
        r.0.wf(),
        r.0.config.default_timeout == msg.default_timeout,
        r.0.version.contract@ == CONTRACT_NAME@,
        r.0.version.version@ == CONTRACT_VERSION@,
        r.0.balances@ == init_balances(msg.balances@),
        r.0.channels@ == Map::<Seq<char>, crate::state::ChannelInfo>::empty(),
        r.0.channel_state@ == Map::<(Seq<char>, Seq<char>), crate::state::ChannelState>::empty(),
        r.0.ibc_denoms@ == Map::<Seq<char>, String>::empty(),
        r.1.messages@.len() == 0,
        r.1.attributes@.len() == 0,
        r.1.data is None,
{
    let mut balances: KeyMap<String, u128> = KeyMap::new();
    let mut i: usize = 0;
    while i < msg.balances.len()
        invariant
            i <= msg.balances@.len(),
            balances@ == init_balances(msg.balances@.take(i as int)),
        decreases msg.balances@.len() - i,
    {
        let entry = &msg.balances[i];
        balances.insert(entry.address.clone(), entry.amount);
        assert(msg.balances@.take(i + 1).drop_last() =~= msg.balances@.take(i as int));
        i = i + 1;
    }
    assert(msg.balances@.take(msg.balances@.len() as int) =~= msg.balances@);
    let state = ContractState {
        config: Config { default_timeout: msg.default_timeout },
        version: ContractVersion {
            contract: String::from_str(CONTRACT_NAME),
            version: String::from_str(CONTRACT_VERSION),
        },
        balances,
        channels: KeyMap::new(),
        channel_state: KeyMap::new(),
        ibc_denoms: KeyMap::new(),
    };
    (state, empty_response())
}

impl ContractState {
    /// The ledger balance of `addr`, zero when none is stored.
    pub fn balance(&self, addr: &str) -> (r: u128)
        ensures
            r == balance_of(self.balances@, addr@),
    {
        match self.balances.get(&String::from_str(addr)) {
            Some(v) => *v,
            None => 0,
        }
    }

    /// Moves `amount` of the ledger from `from` to `to`.
    pub fn try_send(&mut self, from: &Addr, to: &Addr, amount: u128) -> (r: Result<Response, ContractError>)
        requires
            balance_of(old(self).balances@, from@) >= amount ==> credit_fits(
                old(self).balances@,
                from@,
                to@,
                amount,
            ),
        ensures
            only_balances_changed(*old(self), *final(self)),
            match r {
                Ok(resp) => balance_of(old(self).balances@, from@) >= amount && final(self).balances@
                    == sent_balances(old(self).balances@, from@, to@, amount) && map_total(
                    final(self).balances@,
                ) == map_total(old(self).balances@) && attrs_view(
                    resp.attributes@,
                ) == transfer_attrs(from@, to@, amount) && resp.messages@.len() == 0
                    && resp.data is None,
                Err(e) => balance_of(old(self).balances@, from@) < amount && final(self).balances@
                    == old(self).balances@ && (e matches ContractError::Std(
                    StdError::Overflow { operation, operand1, operand2 },
                ) && operation == crate::error::OverflowOperation::Sub && operand1@ == decimal(
                    balance_of(old(self).balances@, from@) as nat,
                ) && operand2@ == decimal(amount as nat)),
            },
    {
        let from_balance = self.balance(from.as_str());
        if from_balance < amount {
            return Err(ContractError::Std(StdError::sub_overflow(from_balance, amount)));
        }
        self.balances.insert(String::from_str(from.as_str()), from_balance - amount);
        let to_balance = self.balance(to.as_str());
        self.balances.insert(String::from_str(to.as_str()), to_balance + amount);
        let amount_text = u128_to_decimal(amount);
        let mut attributes: Vec<Attribute> = Vec::new();
        attributes.push(attr("action", "transfer"));
        attributes.push(attr("from", from.as_str()));
        attributes.push(attr("to", to.as_str()));
        attributes.push(attr("amount", amount_text.as_str()));
        proof {
            reveal_strlit("action");
            reveal_strlit("transfer");
            reveal_strlit("from");
            reveal_strlit("to");
            reveal_strlit("amount");
            assert(attrs_view(attributes@) =~= transfer_attrs(from@, to@, amount));
            crate::store::lemma_entries_map_finite(old(self).balances.entries@);
            law_send_keeps_total(old(self).balances@, from@, to@, amount);
        }
        Ok(Response { messages: Vec::new(), attributes, data: None })
    }
}


/// The escrow account of `action` on `channel`.
pub open spec fn escrow_of(channel: Seq<char>, action: Seq<char>) -> Seq<char> {
    join_with(channel, '/', action)
}

/// What a transfer may demand: once it is past its checks, its timeout fits and
/// the sender holds the amount for the escrow.
pub open spec fn transfer_requires(
    old: ContractState,
    now: u64,
    msg: TransferMsg,
    coin_amount: u128,
    sender: Seq<char>,
) -> bool {
    coin_amount != 0 && old.channels@.contains_key(msg.channel@) ==> timeout_fits(
        now,
        msg.timeout,
        old.config,
    ) && send_ok(old.balances@, sender, escrow_of(msg.channel@, TRANSFER_ACTION@), msg.amount)
}

/// The attributes of a transfer over ICS-20.
pub open spec fn ics20_transfer_attrs(p: Ics20Packet) -> Seq<(Seq<char>, Seq<char>)> {
    seq![
        ("action"@, "transfer"@),
        ("sender"@, p.sender@),
        ("receiver"@, p.receiver@),
        ("denom"@, p.denom@),
        ("amount"@, decimal(p.amount as nat)),
    ]
}

/// The outcome of a transfer of `msg` by `sender`, who sent `coin_amount` along.
pub open spec fn transfer_outcome(
    old: ContractState,
    now: u64,
    msg: TransferMsg,
    coin_amount: u128,
    sender: Seq<char>,
    r: Result<Response, ContractError>,
    new: ContractState,
) -> bool {
    &&& only_balances_changed(old, new)
    &&& match r {
        Err(ContractError::NoFunds {  }) => coin_amount == 0 && new.balances@ == old.balances@,
        Err(ContractError::NoSuchChannel { id }) => coin_amount != 0 && !old.channels@.contains_key(
            msg.channel@,
        ) && id@ == msg.channel@ && new.balances@ == old.balances@,
        Err(ContractError::AmountOverflow {  }) => coin_amount != 0 && old.channels@.contains_key(
            msg.channel@,
        ) && msg.amount > u64::MAX && new.balances@ == old.balances@,
        Ok(resp) => {
            &&& coin_amount != 0
            &&& old.channels@.contains_key(msg.channel@)
            &&& msg.amount <= u64::MAX
            &&& new.balances@ == sent_balances(
                old.balances@,
                sender,
                escrow_of(msg.channel@, TRANSFER_ACTION@),
                msg.amount,
            )
            &&& resp.messages@.len() == 1
            &&& resp.messages@[0].channel_id@ == msg.channel@
            &&& resp.messages@[0].timeout == timeout_at(now, timeout_delta(msg.timeout, old.config))
            &&& resp.messages@[0].data matches PacketData::Ics20(p) && p.amount == msg.amount
                && p.denom@ == DENOM@ && p.sender@ == sender && p.receiver@ == msg.remote_address@
                && attrs_view(resp.attributes@) == ics20_transfer_attrs(p)
            &&& resp.data is None
        },
        Err(_) => false,
    }
}

/// What an interchain-account message may demand: once it is past its checks,
/// its timeout fits, its amount parses and the sender holds it for the escrow.
pub open spec fn ica_requires(
    old: ContractState,
    now: u64,
    channel: Seq<char>,
    timeout: Option<u64>,
    in_amount: Seq<char>,
    action: Seq<char>,
    coin_amount: u128,
    sender: Seq<char>,
) -> bool {
    coin_amount != 0 && old.channels@.contains_key(channel) && old.channels@[channel].ica_addr@.len()
        != 0 ==> {
        &&& timeout_fits(now, timeout, old.config)
        &&& spec_parse_u128(in_amount) is Some
        &&& send_ok(
            old.balances@,
            sender,
            escrow_of(channel, action),
            spec_parse_u128(in_amount).unwrap(),
        )
    }
}

/// The outcome of a message for an interchain account on `channel`, apart from the
/// transaction it asks for.
pub open spec fn ica_outcome(
    old: ContractState,
    now: u64,
    channel: Seq<char>,
    timeout: Option<u64>,
    in_amount: Seq<char>,
    action: Seq<char>,
    coin_amount: u128,
    sender: Seq<char>,
    r: Result<IcaRequest, ContractError>,
    new: ContractState,
) -> bool {
    &&& only_balances_changed(old, new)
    &&& match r {
        Err(ContractError::NoFunds {  }) => coin_amount == 0 && new.balances@ == old.balances@,
        Err(ContractError::NoSuchChannel { id }) => coin_amount != 0 && !old.channels@.contains_key(
            channel,
        ) && id@ == channel && new.balances@ == old.balances@,
        Err(ContractError::NotAnIcaChan { channel_id }) => coin_amount != 0
            && old.channels@.contains_key(channel) && old.channels@[channel].ica_addr@.len() == 0
            && channel_id@ == channel && new.balances@ == old.balances@,
        Ok(req) => {
            &&& coin_amount != 0
            &&& old.channels@.contains_key(channel)
            &&& old.channels@[channel].ica_addr@.len() != 0
            &&& new.balances@ == sent_balances(
                old.balances@,
                sender,
                escrow_of(channel, action),
                spec_parse_u128(in_amount).unwrap(),
            )
            &&& req.channel_id@ == channel
            &&& req.timeout == timeout_at(now, timeout_delta(timeout, old.config))
            &&& req.send.from_address@ == old.channels@[channel].ica_addr@
        },
        Err(_) => false,
    }
}

/// The transaction a swap asks for: swap `in_amount` of `in_denom` in pool `pool_id`
/// for at least `exact_amount_out` of `out_denom`, then send that to `remote_address`.
pub open spec fn swap_request(msg: SwapMsg, ica: Seq<char>, req: IcaRequest) -> bool {
    &&& req.message matches IcaMessage::Swap(m) && m.sender@ == ica && m.routes@.len() == 1
        && m.routes@[0].pool_id == msg.pool_id && m.routes@[0].token_out_denom@ == msg.out_denom@
        && m.token_in.denom@ == msg.in_denom@ && m.token_in.amount@ == msg.in_amount@
        && m.token_out_min_amount@ == msg.exact_amount_out@
    &&& req.send.to_address@ == msg.remote_address@
    &&& req.send.amount@.len() == 1
    &&& req.send.amount@[0].denom@ == msg.out_denom@
    &&& req.send.amount@[0].amount@ == msg.exact_amount_out@
    &&& req.memo@.len() == 0
}

/// The denomination of the shares of pool `pool_id`.
pub open spec fn gamm_denom(pool_id: u64) -> Seq<char> {
    "gamm/pool/"@ + decimal(pool_id as nat)
}

/// The transaction a pool join asks for: join pool `pool_id` with `in_amount` of
/// `in_denom` for at least `share_out_exact_amount` shares, then send the shares to
/// `remote_address`; the memo records the sender and the action.
pub open spec fn join_request(msg: JoinPoolMsg, ica: Seq<char>, sender: Seq<char>, req: IcaRequest) -> bool {
    &&& req.message matches IcaMessage::JoinSwap(m) && m.sender@ == ica && m.pool_id == msg.pool_id
        && m.token_in.denom@ == msg.in_denom@ && m.token_in.amount@ == msg.in_amount@
        && m.share_out_min_amount@ == msg.share_out_exact_amount@
    &&& req.send.to_address@ == msg.remote_address@
    &&& req.send.amount@.len() == 1
    &&& req.send.amount@[0].denom@ == gamm_denom(msg.pool_id)
    &&& req.send.amount@[0].amount@ == msg.share_out_exact_amount@
    &&& req.memo@ == join_with(sender, '/', JOIN_POOL_ACTION@)
}

impl ContractState {
    /// The lifetime of a packet: the message's, or the configured default.
    fn timeout_of(&self, now: u64, timeout: Option<u64>) -> (r: u64)
        requires
            timeout_fits(now, timeout, self.config),
        ensures
            r == timeout_at(now, timeout_delta(timeout, self.config)),
    {
        let delta = match timeout {
            Some(t) => t,
            None => self.config.default_timeout,
        };
        now + delta * NANOS_PER_SECOND
    }

    /// Sends `msg.amount` of the ledger from `sender` to the remote chain over ICS-20:
    /// the amount goes to the channel's escrow, and a packet is sent.
    pub fn execute_transfer(&mut self, now: u64, msg: TransferMsg, amount: NativeCoin, sender: Addr) -> (r:
        Result<Response, ContractError>)
        requires
            old(self).wf(),
            transfer_requires(*old(self), now, msg, amount.amount, sender@),
        ensures
            final(self).wf(),
            transfer_outcome(*old(self), now, msg, amount.amount, sender@, r, *final(self)),
            r is Ok && sender@ != msg.channel@ + "/transfer"@ ==> balance_of(final(self).balances@, sender@)
                == balance_of(old(self).balances@, sender@) - msg.amount && balance_of(
                final(self).balances@,
                msg.channel@ + "/transfer"@,
            ) == balance_of(old(self).balances@, msg.channel@ + "/transfer"@) + msg.amount,
    {
        if amount.amount == 0 {
            return Err(ContractError::NoFunds {  });
        }
        if !self.channels.contains(&msg.channel) {
            return Err(ContractError::NoSuchChannel { id: msg.channel });
        }
        let timeout = self.timeout_of(now, msg.timeout);
        let packet = Ics20Packet::new(msg.amount, String::from_str(DENOM), sender.as_str(), msg.remote_address.as_str());
        match packet.validate() {
            Err(e) => {
                return Err(e);
            },
            Ok(()) => {},
        }
        let escrow_addr = get_escrow_address(msg.channel.clone(), TRANSFER_ACTION);
        let sent = self.try_send(&sender, &escrow_addr, msg.amount);
        assert(sent is Ok);
        proof {
            reveal_strlit("transfer");
            reveal_strlit("/transfer");
            assert(escrow_addr@ =~= msg.channel@ + "/transfer"@);
            law_send_conserves(old(self).balances@, sender@, escrow_addr@, msg.amount, sender@);
        }
        let amount_text = u128_to_decimal(packet.amount);
        let mut attributes: Vec<Attribute> = Vec::new();
        attributes.push(attr("action", "transfer"));
        attributes.push(attr("sender", packet.sender.as_str()));
        attributes.push(attr("receiver", packet.receiver.as_str()));
        attributes.push(attr("denom", packet.denom.as_str()));
        attributes.push(attr("amount", amount_text.as_str()));
        proof {
            reveal_strlit("action");
            reveal_strlit("transfer");
            reveal_strlit("sender");
            reveal_strlit("receiver");
            reveal_strlit("denom");
            reveal_strlit("amount");
            assert(attrs_view(attributes@) =~= ics20_transfer_attrs(packet));
        }
        let mut messages: Vec<IbcMsg> = Vec::new();
        messages.push(IbcMsg { channel_id: msg.channel, data: PacketData::Ics20(packet), timeout });
        Ok(Response { messages, attributes, data: None })
    }
}


impl ContractState {
    /// The interchain account of a connected channel, or the error for a channel
    /// that is not connected or is not an interchain-account channel.
    fn ica_account(&self, channel: &String) -> (r: Result<String, ContractError>)
        ensures
            match r {
                Ok(ica) => self.channels@.contains_key(channel@) && ica@ == self.channels@[channel@].ica_addr@
                    && ica@.len() != 0,
                Err(ContractError::NoSuchChannel { id }) => !self.channels@.contains_key(channel@)
                    && id@ == channel@,
                Err(ContractError::NotAnIcaChan { channel_id }) => self.channels@.contains_key(channel@)
                    && self.channels@[channel@].ica_addr@.len() == 0 && channel_id@ == channel@,
                Err(_) => false,
            },
    {
        match self.channels.get(channel) {
            None => Err(ContractError::NoSuchChannel { id: channel.clone() }),
            Some(info) => {
                if info.ica_addr.as_str().is_empty() {
                    Err(ContractError::NotAnIcaChan { channel_id: channel.clone() })
                } else {
                    Ok(info.ica_addr.clone())
                }
            },
        }
    }

    /// Swaps `msg.in_amount` of `msg.in_denom` on the remote chain through the
    /// channel's interchain account: the amount goes to the channel's swap escrow,
    /// and the swap and the send of its result to `msg.remote_address` are asked for.
    pub fn execute_ibc_swap(&mut self, now: u64, msg: SwapMsg, amount: NativeCoin, sender: Addr) -> (r:
        Result<IcaRequest, ContractError>)
        requires
            old(self).wf(),
            ica_requires(
                *old(self),
                now,
                msg.channel@,
                msg.timeout,
                msg.in_amount@,
                SWAP_ACTION@,
                amount.amount,
                sender@,
            ),
        ensures
            final(self).wf(),
            ica_outcome(
                *old(self),
                now,
                msg.channel@,
                msg.timeout,
                msg.in_amount@,
                SWAP_ACTION@,
                amount.amount,
                sender@,
                r,
                *final(self),
            ),
            r matches Ok(req) ==> swap_request(msg, old(self).channels@[msg.channel@].ica_addr@, req),
            r is Ok && sender@ != msg.channel@ + "/swap"@ ==> balance_of(final(self).balances@, sender@)
                == balance_of(old(self).balances@, sender@) - spec_parse_u128(msg.in_amount@).unwrap()
                && balance_of(final(self).balances@, msg.channel@ + "/swap"@) == balance_of(
                old(self).balances@,
                msg.channel@ + "/swap"@,
            ) + spec_parse_u128(msg.in_amount@).unwrap(),
    {
        if amount.amount == 0 {
            return Err(ContractError::NoFunds {  });
        }
        let ica_addr = match self.ica_account(&msg.channel) {
            Ok(a) => a,
            Err(e) => {
                return Err(e);
            },
        };
        let timeout = self.timeout_of(now, msg.timeout);
        let escrow_addr = get_escrow_address(msg.channel.clone(), SWAP_ACTION);
        let in_amount = parse_u128(msg.in_amount.as_str()).unwrap();
        self.try_send(&sender, &escrow_addr, in_amount).unwrap();
        proof {
            reveal_strlit("swap");
            reveal_strlit("/swap");
            assert(escrow_addr@ =~= msg.channel@ + "/swap"@);
            law_send_conserves(old(self).balances@, sender@, escrow_addr@, in_amount, sender@);
        }
        let route = SwapAmountInRoute { pool_id: msg.pool_id, token_out_denom: msg.out_denom.clone() };
        let mut routes: Vec<SwapAmountInRoute> = Vec::new();
        routes.push(route);
        let token_in = Coin { denom: msg.in_denom.clone(), amount: msg.in_amount.clone() };
        let swap_msg = MsgSwapExactAmountIn {
            sender: ica_addr.clone(),
            routes,
            token_in,
            token_out_min_amount: msg.exact_amount_out.clone(),
        };
        let token_out = Coin { denom: msg.out_denom.clone(), amount: msg.exact_amount_out.clone() };
        let mut coins: Vec<Coin> = Vec::new();
        coins.push(token_out);
        let send = MsgSend { from_address: ica_addr, to_address: msg.remote_address.clone(), amount: coins };
        Ok(IcaRequest {
            channel_id: msg.channel,
            timeout,
            message: IcaMessage::Swap(swap_msg),
            send,
            memo: String::new(),
        })
    }

    /// Joins pool `msg.pool_id` on the remote chain with `msg.in_amount` of
    /// `msg.in_denom` through the channel's interchain account: the amount goes to
    /// the channel's pool escrow, and the join and the send of the shares to
    /// `msg.remote_address` are asked for.
    pub fn execute_ibc_join(&mut self, now: u64, msg: JoinPoolMsg, amount: NativeCoin, sender: Addr) -> (r:
        Result<IcaRequest, ContractError>)
        requires
            old(self).wf(),
            ica_requires(
                *old(self),
                now,
                msg.channel@,
                msg.timeout,
                msg.in_amount@,
                JOIN_POOL_ACTION@,
                amount.amount,
                sender@,
            ),
        ensures
            final(self).wf(),
            ica_outcome(
                *old(self),
                now,
                msg.channel@,
                msg.timeout,
                msg.in_amount@,
                JOIN_POOL_ACTION@,
                amount.amount,
                sender@,
                r,
                *final(self),
            ),
            r matches Ok(req) ==> join_request(
                msg,
                old(self).channels@[msg.channel@].ica_addr@,
                sender@,
                req,
            ),
            r matches Ok(req) ==> req.memo@ == sender@ + "/join_pool"@,
            r is Ok && sender@ != msg.channel@ + "/join_pool"@ ==> balance_of(final(self).balances@, sender@)
                == balance_of(old(self).balances@, sender@) - spec_parse_u128(msg.in_amount@).unwrap()
                && balance_of(final(self).balances@, msg.channel@ + "/join_pool"@) == balance_of(
                old(self).balances@,
                msg.channel@ + "/join_pool"@,
            ) + spec_parse_u128(msg.in_amount@).unwrap(),
    {
        if amount.amount == 0 {
            return Err(ContractError::NoFunds {  });
        }
        let pool_number = u64_to_decimal(msg.pool_id);
        let gamm = String::from_str("gamm/pool/").concat(pool_number.as_str());
        let ica_addr = match self.ica_account(&msg.channel) {
            Ok(a) => a,
            Err(e) => {
                return Err(e);
            },
        };
        let timeout = self.timeout_of(now, msg.timeout);
        let escrow_addr = get_escrow_address(msg.channel.clone(), JOIN_POOL_ACTION);
        let in_amount = parse_u128(msg.in_amount.as_str()).unwrap();
        self.try_send(&sender, &escrow_addr, in_amount).unwrap();
        proof {
            reveal_strlit("join_pool");
            reveal_strlit("/join_pool");
            assert(escrow_addr@ =~= msg.channel@ + "/join_pool"@);
            law_send_conserves(old(self).balances@, sender@, escrow_addr@, in_amount, sender@);
        }
        let token_in = Coin { denom: msg.in_denom.clone(), amount: msg.in_amount.clone() };
        let join_msg = MsgJoinSwapExternAmountIn {
            sender: ica_addr.clone(),
            token_in,
            share_out_min_amount: msg.share_out_exact_amount.clone(),
            pool_id: msg.pool_id,
        };
        let token_out = Coin { denom: gamm, amount: msg.share_out_exact_amount.clone() };
        let mut coins: Vec<Coin> = Vec::new();
        coins.push(token_out);
        let send = MsgSend { from_address: ica_addr, to_address: msg.remote_address.clone(), amount: coins };
        let memo = write_memo(&sender, JOIN_POOL_ACTION);
        assert(memo@ =~= sender@ + "/join_pool"@);
        Ok(IcaRequest {
            channel_id: msg.channel,
            timeout,
            message: IcaMessage::JoinSwap(join_msg),
            send,
            memo,
        })
    }
}


/// Exactly one coin with an amount that is not zero came with the message.
pub open spec fn funds_ok(funds: Seq<NativeCoin>) -> bool {
    funds.len() == 1 && funds[0].amount != 0
}

/// What a message may demand: what the message it carries demands.
pub open spec fn execute_requires(
    old: ContractState,
    now: u64,
    sender: Seq<char>,
    funds: Seq<NativeCoin>,
    msg: ExecuteMsg,
) -> bool {
    funds_ok(funds) ==> match msg {
        ExecuteMsg::Transfer(m) => transfer_requires(old, now, m, funds[0].amount, sender),
        ExecuteMsg::Swap(m) => ica_requires(
            old,
            now,
            m.channel@,
            m.timeout,
            m.in_amount@,
            SWAP_ACTION@,
            funds[0].amount,
            sender,
        ),
        ExecuteMsg::JoinPool(m) => ica_requires(
            old,
            now,
            m.channel@,
            m.timeout,
            m.in_amount@,
            JOIN_POOL_ACTION@,
            funds[0].amount,
            sender,
        ),
    }
}

/// The outcome of a message: a payment error for wrong funds, else the outcome of
/// the transfer, swap or pool join it carries.
pub open spec fn execute_outcome(
    old: ContractState,
    now: u64,
    sender: Seq<char>,
    funds: Seq<NativeCoin>,
    msg: ExecuteMsg,
    r: Result<ExecuteOutcome, ContractError>,
    new: ContractState,
) -> bool {
    if !funds_ok(funds) {
        &&& same_state(old, new)
        &&& r matches Err(ContractError::Payment(p))
        &&& (p == PaymentError::NoFunds {  }) <==> funds.len() <= 1
        &&& (p == PaymentError::MultipleDenoms {  }) <==> funds.len() > 1
    } else {
        match msg {
            ExecuteMsg::Transfer(m) => match r {
                Ok(ExecuteOutcome::Done(resp)) => transfer_outcome(old, now, m, funds[0].amount, sender, Ok(resp), new),
                Ok(_) => false,
                Err(e) => transfer_outcome(old, now, m, funds[0].amount, sender, Err(e), new),
            },
            ExecuteMsg::Swap(m) => match r {
                Ok(ExecuteOutcome::Ica(req)) => ica_outcome(
                    old,
                    now,
                    m.channel@,
                    m.timeout,
                    m.in_amount@,
                    SWAP_ACTION@,
                    funds[0].amount,
                    sender,
                    Ok(req),
                    new,
                ) && swap_request(m, old.channels@[m.channel@].ica_addr@, req),
                Ok(_) => false,
                Err(e) => ica_outcome(
                    old,
                    now,
                    m.channel@,
                    m.timeout,
                    m.in_amount@,
                    SWAP_ACTION@,
                    funds[0].amount,
                    sender,
                    Err(e),
                    new,
                ),
            },
            ExecuteMsg::JoinPool(m) => match r {
                Ok(ExecuteOutcome::Ica(req)) => ica_outcome(
                    old,
                    now,
                    m.channel@,
                    m.timeout,
                    m.in_amount@,
                    JOIN_POOL_ACTION@,
                    funds[0].amount,
                    sender,
                    Ok(req),
                    new,
                ) && join_request(m, old.channels@[m.channel@].ica_addr@, sender, req),
                Ok(_) => false,
                Err(e) => ica_outcome(
                    old,
                    now,
                    m.channel@,
                    m.timeout,
                    m.in_amount@,
                    JOIN_POOL_ACTION@,
                    funds[0].amount,
                    sender,
                    Err(e),
                    new,
                ),
            },
        }
    }
}

impl ContractState {
    /// Executes `msg` from `sender` at time `now` (nanoseconds), with `funds` sent along.
    pub fn execute(&mut self, now: u64, sender: Addr, funds: Vec<NativeCoin>, msg: ExecuteMsg) -> (r:
        Result<ExecuteOutcome, ContractError>)
        requires
            old(self).wf(),
            execute_requires(*old(self), now, sender@, funds@, msg),
        ensures
            final(self).wf(),
            execute_outcome(*old(self), now, sender@, funds@, msg, r, *final(self)),
    {
        let coin = match one_coin(&funds) {
            Ok(c) => c,
            Err(e) => {
                return Err(ContractError::Payment(e));
            },
        };
        match msg {
            ExecuteMsg::Transfer(m) => match self.execute_transfer(now, m, coin, sender) {
                Ok(resp) => Ok(ExecuteOutcome::Done(resp)),
                Err(e) => Err(e),
            },
            ExecuteMsg::Swap(m) => match self.execute_ibc_swap(now, m, coin, sender) {
                Ok(req) => Ok(ExecuteOutcome::Ica(req)),
                Err(e) => Err(e),
            },
            ExecuteMsg::JoinPool(m) => match self.execute_ibc_join(now, m, coin, sender) {
                Ok(req) => Ok(ExecuteOutcome::Ica(req)),
                Err(e) => Err(e),
            },
        }
    }

    /// Refuses to migrate a contract of another kind.
    pub fn migrate(&self) -> (r: Result<Response, ContractError>)
        ensures
            match r {
                Ok(resp) => self.version.contract@ == CONTRACT_NAME@ && resp.messages@.len() == 0
                    && resp.attributes@.len() == 0 && resp.data is None,
                Err(e) => self.version.contract@ != CONTRACT_NAME@ && (e matches ContractError::CannotMigrate { previous_contract }
                    && previous_contract@ == self.version.contract@),
            },
    {
        if !same_text(self.version.contract.as_str(), CONTRACT_NAME) {
            return Err(ContractError::CannotMigrate { previous_contract: self.version.contract.clone() });
        }
        Ok(empty_response())
    }
}

/// The encoded transaction of an interchain-account request: a `CosmosTx` of the
/// request's message, then the send of its result, each as an `Any`.
pub open spec fn ica_tx_encoding(request: IcaRequest) -> Seq<u8> {
    any_field_encoding(1, ica_message_url(request.message), ica_message_encoding(request.message))
        + any_field_encoding(1, MSG_SEND_TYPE_URL@, send_encoding(request.send))
}

/// The packet that carries an interchain-account transaction: the request's
/// messages, encoded as `Any`, as a `CosmosTx`, with the request's memo.
pub fn ica_send_packet(request: IcaRequest) -> (r: Response)
    ensures
        r.messages@.len() == 1,
        r.messages@[0].channel_id == request.channel_id,
        r.messages@[0].timeout == request.timeout,
        r.messages@[0].data matches PacketData::Ica(p) && p.packet_type == 1 && p.data@
            == ica_tx_encoding(request) && p.memo@ == request.memo@,
        r.attributes@.len() == 0,
        r.data is None,
{
    let first = request.message.to_any();
    let second = request.send.to_any();
    let ghost pair = seq![first, second];
    let messages: Vec<Any> = vec![first, second];
    proof {
        assert(messages@ =~= pair);
        crate::tx::cosmos_tx::lemma_cosmos_tx_pair(pair[0], pair[1]);
    }
    let data = CosmosTx::new(messages).into_bytes();
    let packet = InterchainAccountPacketData::new(1, data, request.memo.as_str());
    let mut out: Vec<IbcMsg> = Vec::new();
    out.push(IbcMsg { channel_id: request.channel_id, data: PacketData::Ica(packet), timeout: request.timeout });
    Response { messages: out, attributes: Vec::new(), data: None }
}


/// The encoded coin `amount` of `denom`.
pub open spec fn coin_bytes(denom: Seq<char>, amount: Seq<char>) -> Seq<u8> {
    string_field(1, denom) + string_field(2, amount)
}

/// The encoded send from the interchain account `ica` to `to` of one coin.
pub open spec fn send_bytes(ica: Seq<char>, to: Seq<char>, denom: Seq<char>, amount: Seq<char>) -> Seq<u8> {
    string_field(1, ica) + string_field(2, to) + length_delimited(3, coin_bytes(denom, amount))
}

/// The transaction a swap message asks the interchain account `ica` to run, as
/// bytes: the swap along the one route, then the send of what comes out.
pub open spec fn swap_tx_bytes(msg: SwapMsg, ica: Seq<char>) -> Seq<u8> {
    let route = uint64_field(1, msg.pool_id) + string_field(2, msg.out_denom@);
    let swap = string_field(1, ica) + length_delimited(2, route) + length_delimited(
        3,
        coin_bytes(msg.in_denom@, msg.in_amount@),
    ) + string_field(4, msg.exact_amount_out@);
    any_field_encoding(1, MSG_SWAP_EXACT_AMOUNT_IN_TYPE_URL@, swap) + any_field_encoding(
        1,
        MSG_SEND_TYPE_URL@,
        send_bytes(ica, msg.remote_address@, msg.out_denom@, msg.exact_amount_out@),
    )
}

/// The transaction a pool join message asks the interchain account `ica` to run,
/// as bytes: the join with the one coin, then the send of the shares.
pub open spec fn join_tx_bytes(msg: JoinPoolMsg, ica: Seq<char>) -> Seq<u8> {
    let join = string_field(1, ica) + uint64_field(2, msg.pool_id) + length_delimited(
        3,
        coin_bytes(msg.in_denom@, msg.in_amount@),
    ) + string_field(4, msg.share_out_exact_amount@);
    any_field_encoding(1, MSG_JOIN_SWAP_EXTERN_AMOUNT_IN_TYPE_URL@, join) + any_field_encoding(
        1,
        MSG_SEND_TYPE_URL@,
        send_bytes(ica, msg.remote_address@, gamm_denom(msg.pool_id), msg.share_out_exact_amount@),
    )
}

/// The packet of a swap carries the swap and the send that the message asks for.
pub proof fn law_swap_packet_carries_request(msg: SwapMsg, ica: Seq<char>, req: IcaRequest)
    requires
        swap_request(msg, ica, req),
        req.send.from_address@ == ica,
    ensures
        ica_tx_encoding(req) == swap_tx_bytes(msg, ica),
{
    let m = match req.message {
        IcaMessage::Swap(m) => m,
        _ => arbitrary(),
    };
    let rs = m.routes@;
    assert(rs.drop_last() =~= Seq::<SwapAmountInRoute>::empty());
    assert(routes_field(2, rs.drop_last()) =~= Seq::<u8>::empty());
    assert(routes_field(2, rs) == routes_field(2, rs.drop_last()) + length_delimited(2, route_encoding(rs.last())));
    assert(routes_field(2, rs) =~= length_delimited(2, route_encoding(rs[0])));
    let cs = req.send.amount@;
    assert(cs.drop_last() =~= Seq::<Coin>::empty());
    assert(coins_field(3, cs.drop_last()) =~= Seq::<u8>::empty());
    assert(coins_field(3, cs) == coins_field(3, cs.drop_last()) + length_delimited(3, coin_encoding(cs.last())));
    assert(coins_field(3, cs) =~= length_delimited(3, coin_encoding(cs[0])));
    assert(swap_encoding(m) =~= string_field(1, ica) + length_delimited(
        2,
        uint64_field(1, msg.pool_id) + string_field(2, msg.out_denom@),
    ) + length_delimited(3, coin_bytes(msg.in_denom@, msg.in_amount@)) + string_field(
        4,
        msg.exact_amount_out@,
    ));
    assert(send_encoding(req.send) =~= send_bytes(
        ica,
        msg.remote_address@,
        msg.out_denom@,
        msg.exact_amount_out@,
    ));
}

/// The packet of a pool join carries the join and the send that the message asks for.
pub proof fn law_join_packet_carries_request(msg: JoinPoolMsg, ica: Seq<char>, sender: Seq<char>, req: IcaRequest)
    requires
        join_request(msg, ica, sender, req),
        req.send.from_address@ == ica,
    ensures
        ica_tx_encoding(req) == join_tx_bytes(msg, ica),
{
    let m = match req.message {
        IcaMessage::JoinSwap(m) => m,
        _ => arbitrary(),
    };
    let cs = req.send.amount@;
    assert(cs.drop_last() =~= Seq::<Coin>::empty());
    assert(coins_field(3, cs.drop_last()) =~= Seq::<u8>::empty());
    assert(coins_field(3, cs) == coins_field(3, cs.drop_last()) + length_delimited(3, coin_encoding(cs.last())));
    assert(coins_field(3, cs) =~= length_delimited(3, coin_encoding(cs[0])));
    assert(join_swap_encoding(m) =~= string_field(1, ica) + uint64_field(2, msg.pool_id) + length_delimited(
        3,
        coin_bytes(msg.in_denom@, msg.in_amount@),
    ) + string_field(4, msg.share_out_exact_amount@));
    assert(send_encoding(req.send) =~= send_bytes(
        ica,
        msg.remote_address@,
        gamm_denom(msg.pool_id),
        msg.share_out_exact_amount@,
    ));
}

/// A successful transfer sends one ICS-20 packet on the channel asked for, from the
/// sender to the remote address asked for, of the amount asked for in this chain's
/// token `uatom`, timing out the asked lifetime (or the default) in seconds after
/// `now`; its event names the same sender, receiver and amount.
pub proof fn law_transfer_packet(
    old: ContractState,
    now: u64,
    msg: TransferMsg,
    coin_amount: u128,
    sender: Seq<char>,
    resp: Response,
    new: ContractState,
)
    requires
        transfer_outcome(old, now, msg, coin_amount, sender, Ok(resp), new),
    ensures
        resp.messages@.len() == 1,
        resp.messages@[0].channel_id@ == msg.channel@,
        resp.messages@[0].timeout == now + (match msg.timeout {
            Some(t) => t,
            None => old.config.default_timeout,
        }) * 1_000_000_000,
        resp.messages@[0].data matches PacketData::Ics20(p) && p.receiver@ == msg.remote_address@
            && p.sender@ == sender && p.amount == msg.amount && p.denom@ == "uatom"@,
        resp.attributes@.len() == 5,
        resp.attributes@[1].key@ == "sender"@ && resp.attributes@[1].value@ == sender,
        resp.attributes@[2].key@ == "receiver"@ && resp.attributes@[2].value@ == msg.remote_address@,
        resp.attributes@[4].key@ == "amount"@ && resp.attributes@[4].value@ == decimal(msg.amount as nat),
{
    let p = match resp.messages@[0].data {
        PacketData::Ics20(p) => p,
        _ => arbitrary(),
    };
    assert(attrs_view(resp.attributes@).len() == 5);
    assert(attrs_view(resp.attributes@)[1] == (resp.attributes@[1].key@, resp.attributes@[1].value@));
    assert(attrs_view(resp.attributes@)[2] == (resp.attributes@[2].key@, resp.attributes@[2].value@));
    assert(attrs_view(resp.attributes@)[4] == (resp.attributes@[4].key@, resp.attributes@[4].value@));
}

/// The request of a successful swap or pool join goes on the channel asked for and
/// times out the asked lifetime (or the default) in seconds after `now`.
pub proof fn law_ica_request_timeout(
    old: ContractState,
    now: u64,
    channel: Seq<char>,
    timeout: Option<u64>,
    in_amount: Seq<char>,
    action: Seq<char>,
    coin_amount: u128,
    sender: Seq<char>,
    req: IcaRequest,
    new: ContractState,
)
    requires
        ica_outcome(old, now, channel, timeout, in_amount, action, coin_amount, sender, Ok(req), new),
    ensures
        req.channel_id@ == channel,
        req.timeout == now + (match timeout {
            Some(t) => t,
            None => old.config.default_timeout,
        }) * 1_000_000_000,
{
}

/// A digit's character reads back as the digit.
proof fn lemma_digit_char(d: nat)
    requires
        d < 10,
    ensures
        crate::text::is_digit(crate::text::digit_char(d)),
        crate::text::digit_value(crate::text::digit_char(d)) == d,
{
}

/// A string of decimal digits of `n` reads back as `n`.
pub proof fn lemma_decimal_parses(n: nat)
    ensures
        decimal(n).len() > 0,
        forall|i: int| 0 <= i < decimal(n).len() ==> crate::text::is_digit(#[trigger] decimal(n)[i]),
        crate::text::digits_value(decimal(n)) == n,
    decreases n,
{
    lemma_digit_char(n % 10);
    let d = decimal(n);
    if n < 10 {
        assert(d.drop_last() =~= Seq::<char>::empty());
        assert(crate::text::digits_value(d.drop_last()) == 0);
        assert(d.last() == crate::text::digit_char(n));
    } else {
        lemma_decimal_parses(n / 10);
        assert(d.drop_last() =~= decimal(n / 10));
        assert(d.last() == crate::text::digit_char(n % 10));
        assert((n / 10) * 10 + n % 10 == n) by (nonlinear_arith);
        assert forall|i: int| 0 <= i < d.len() implies crate::text::is_digit(#[trigger] d[i]) by {
            if i < d.len() - 1 {
                assert(d[i] == decimal(n / 10)[i]);
            }
        }
    }
}

/// The shares of a pool join are sent in the pool's share denomination:
/// `gamm/pool/` and then digits that read back as the pool asked for.
pub proof fn law_join_share_denom(msg: JoinPoolMsg, ica: Seq<char>, sender: Seq<char>, req: IcaRequest)
    requires
        join_request(msg, ica, sender, req),
    ensures
        req.send.amount@.len() == 1,
        req.send.amount@[0].denom@.take(10) == "gamm/pool/"@,
        spec_parse_u128(req.send.amount@[0].denom@.skip(10)) == Some(msg.pool_id as u128),
        req.send.amount@[0].amount@ == msg.share_out_exact_amount@,
        req.send.to_address@ == msg.remote_address@,
{
    reveal_strlit("gamm/pool/");
    let d = req.send.amount@[0].denom@;
    lemma_decimal_parses(msg.pool_id as nat);
    assert(d.take(10) =~= "gamm/pool/"@);
    assert(d.skip(10) =~= decimal(msg.pool_id as nat));
    let digits = decimal(msg.pool_id as nat);
    assert(digits[0] != '+') by {
        assert(crate::text::is_digit(digits[0]));
    }
    assert(crate::text::unsigned_digits(digits) == digits);
}

/// A ledger transfer moves the amount between the two accounts and leaves every
/// other account as it was.
pub proof fn law_send_conserves(b: Map<Seq<char>, u128>, from: Seq<char>, to: Seq<char>, amount: u128, other: Seq<char>)
    requires
        send_ok(b, from, to, amount),
    ensures
        from != to ==> balance_of(sent_balances(b, from, to, amount), from) == balance_of(b, from) - amount,
        from != to ==> balance_of(sent_balances(b, from, to, amount), to) == balance_of(b, to) + amount,
        from == to ==> balance_of(sent_balances(b, from, to, amount), from) == balance_of(b, from),
        other != from && other != to ==> balance_of(sent_balances(b, from, to, amount), other)
            == balance_of(b, other),
{
}

/// Sending an amount back to where it came from restores every balance.
pub proof fn law_send_back_restores(b: Map<Seq<char>, u128>, from: Seq<char>, to: Seq<char>, amount: u128, addr: Seq<char>)
    requires
        send_ok(b, from, to, amount),
    ensures
        balance_of(sent_balances(sent_balances(b, from, to, amount), to, from, amount), addr)
            == balance_of(b, addr),
{
}


/// The entries are in strictly ascending order of their texts.
pub open spec fn sorted_by_text<V>(s: Seq<(String, V)>) -> bool {
    forall|i: int, j: int| 0 <= i < j < s.len() ==> text_lt(#[trigger] s[i].0@, #[trigger] s[j].0@)
}

/// Inserts an entry whose text is not there yet into entries in ascending order of
/// their texts, keeping the order; returns where it went.
pub fn insert_sorted<V>(sorted: &mut Vec<(String, V)>, key: String, value: V) -> (p: usize)
    requires
        sorted_by_text(old(sorted)@),
        forall|a: int| 0 <= a < old(sorted)@.len() ==> (#[trigger] old(sorted)@[a]).0@ != key@,
    ensures
        p <= old(sorted)@.len(),
        final(sorted)@ == old(sorted)@.insert(p as int, (key, value)),
        sorted_by_text(final(sorted)@),
{
    let mut p: usize = 0;
    while p < sorted.len() && text_less(sorted[p].0.as_str(), key.as_str())
        invariant
            p <= sorted@.len(),
            sorted@ == old(sorted)@,
            forall|a: int| 0 <= a < p ==> text_lt((#[trigger] sorted@[a]).0@, key@),
        decreases sorted@.len() - p,
    {
        p = p + 1;
    }
    let ghost s = sorted@;
    proof {
        if p < s.len() {
            lemma_text_lt_total(s[p as int].0@, key@);
            assert forall|a: int| p <= a < s.len() implies text_lt(key@, (#[trigger] s[a]).0@) by {
                if a > p {
                    lemma_text_lt_transitive(key@, s[p as int].0@, s[a].0@);
                }
            }
        }
    }
    sorted.insert(p, (key, value));
    proof {
        let t = sorted@;
        assert forall|i: int, j: int| 0 <= i < j < t.len() implies text_lt(#[trigger] t[i].0@, #[trigger] t[j].0@) by {
            if j < p {
                assert(t[i] == s[i] && t[j] == s[j]);
            } else if j == p {
                assert(t[i] == s[i]);
            } else if i < p {
                assert(t[i] == s[i] && t[j] == s[j - 1]);
                lemma_text_lt_transitive(s[i].0@, key@, s[j - 1].0@);
            } else if i == p {
                assert(t[j] == s[j - 1]);
            } else {
                assert(t[i] == s[i - 1] && t[j] == s[j - 1]);
            }
        }
    }
    p
}

/// The amounts sent over channel `id`: one entry per denomination recorded there,
/// by ascending denomination, with what is outstanding and what was ever sent.
pub open spec fn channel_listing(
    cs: Map<(Seq<char>, Seq<char>), ChannelState>,
    id: Seq<char>,
    balances: Seq<NativeCoin>,
    total_sent: Seq<NativeCoin>,
) -> bool {
    &&& balances.len() == total_sent.len()
    &&& forall|i: int| 0 <= i < balances.len() ==> {
        &&& (#[trigger] balances[i]).denom@ == total_sent[i].denom@
        &&& cs.contains_key((id, balances[i].denom@))
        &&& balances[i].amount == cs[(id, balances[i].denom@)].outstanding
        &&& total_sent[i].amount == cs[(id, balances[i].denom@)].total_sent
    }
    &&& forall|i: int, j: int| 0 <= i < j < balances.len() ==> text_lt(#[trigger] balances[i].denom@, #[trigger] balances[j].denom@)
    &&& forall|d: Seq<char>| #[trigger] cs.contains_key((id, d)) ==> exists|i: int| 0 <= i < balances.len() && #[trigger] balances[i].denom@ == d
}

/// The kind named when a channel is not found.
pub const CHANNEL_INFO_KIND: &'static str = "cw20_ics20::state::ChannelInfo";

/// The kind named when a balance is not found.
pub const BALANCE_KIND: &'static str = "cosmwasm_std::math::uint128::Uint128";

/// The kind named when a voucher denomination is not found.
pub const IBC_DENOM_KIND: &'static str = "alloc::string::String";

impl ChannelInfo {
    /// A copy of the channel information.
    pub fn duplicate(&self) -> (r: ChannelInfo)
        ensures
            r == *self,
    {
        ChannelInfo {
            id: self.id.clone(),
            counterparty_endpoint: IbcEndpoint {
                port_id: self.counterparty_endpoint.port_id.clone(),
                channel_id: self.counterparty_endpoint.channel_id.clone(),
            },
            connection_id: self.connection_id.clone(),
            ica_addr: self.ica_addr.clone(),
        }
    }
}

impl ContractState {
    /// The amounts recorded on channel `id`, as `(denomination, amounts)` by ascending denomination.
    fn channel_amounts(&self, id: &String) -> (r: Vec<(String, ChannelState)>)
        ensures
            sorted_by_text(r@),
            forall|a: int| 0 <= a < r@.len() ==> self.channel_state@.contains_key((id@, (#[trigger] r@[a]).0@))
                && self.channel_state@[(id@, r@[a].0@)] == r@[a].1,
            forall|d: Seq<char>| #[trigger] self.channel_state@.contains_key((id@, d)) ==> exists|a: int|
                0 <= a < r@.len() && (#[trigger] r@[a]).0@ == d,
    {
        let entries = &self.channel_state.entries;
        let mut sorted: Vec<(String, ChannelState)> = Vec::new();
        let ghost mut origin: Seq<int> = Seq::empty();
        let mut i: usize = 0;
        while i < entries.len()
            invariant
                entries == &self.channel_state.entries,
                i <= entries@.len(),
                sorted_by_text(sorted@),
                origin.len() == sorted@.len(),
                forall|a: int| 0 <= a < sorted@.len() ==> 0 <= #[trigger] origin[a] < i && last_for_key(entries@, origin[a])
                    && entries@[origin[a]].0@ == (id@, sorted@[a].0@) && entries@[origin[a]].1 == sorted@[a].1,
                forall|j: int| 0 <= j < i && #[trigger] last_for_key(entries@, j) && entries@[j].0.0@ == id@
                    ==> exists|a: int| 0 <= a < sorted@.len() && (#[trigger] sorted@[a]).0@ == entries@[j].0.1@,
            decreases entries@.len() - i,
        {
            let entry = &entries[i];
            if entry.0.0 == *id && self.channel_state.live(i) {
                proof {
                    assert forall|a: int| 0 <= a < sorted@.len() implies (#[trigger] sorted@[a]).0@ != entry.0.1@ by {
                        if sorted@[a].0@ == entry.0.1@ {
                            assert(entries@[i as int].0@ == entries@[origin[a]].0@);
                        }
                    }
                }
                let ghost before = sorted@;
                let ghost before_origin = origin;
                let p = insert_sorted(&mut sorted, entry.0.1.clone(), entry.1);
                proof {
                    origin = before_origin.insert(p as int, i as int);
                    assert forall|a: int| 0 <= a < sorted@.len() implies 0 <= #[trigger] origin[a] < i + 1
                        && last_for_key(entries@, origin[a]) && entries@[origin[a]].0@ == (id@, sorted@[a].0@)
                        && entries@[origin[a]].1 == sorted@[a].1 by {
                        if a < p {
                            assert(sorted@[a] == before[a] && origin[a] == before_origin[a]);
                        } else if a > p {
                            assert(sorted@[a] == before[a - 1] && origin[a] == before_origin[a - 1]);
                        }
                    }
                    assert forall|j: int| 0 <= j < i + 1 && #[trigger] last_for_key(entries@, j) && entries@[j].0.0@ == id@
                        implies exists|a: int| 0 <= a < sorted@.len() && (#[trigger] sorted@[a]).0@ == entries@[j].0.1@ by {
                        if j == i {
                            assert(sorted@[p as int].0@ == entries@[j].0.1@);
                        } else {
                            let a = choose|a: int| 0 <= a < before.len() && (#[trigger] before[a]).0@ == entries@[j].0.1@;
                            if a < p {
                                assert(sorted@[a] == before[a]);
                            } else {
                                assert(sorted@[a + 1] == before[a]);
                            }
                        }
                    }
                }
            } else {
                proof {
                    assert forall|j: int| 0 <= j < i + 1 && #[trigger] last_for_key(entries@, j) && entries@[j].0.0@ == id@
                        implies exists|a: int| 0 <= a < sorted@.len() && (#[trigger] sorted@[a]).0@ == entries@[j].0.1@ by {
                        assert(j != i);
                    }
                }
            }
            i = i + 1;
        }
        proof {
            assert forall|a: int| 0 <= a < sorted@.len() implies self.channel_state@.contains_key((id@, (#[trigger] sorted@[a]).0@))
                && self.channel_state@[(id@, sorted@[a].0@)] == sorted@[a].1 by {
                crate::store::lemma_entries_map_last(entries@, origin[a]);
            }
            assert forall|d: Seq<char>| #[trigger] self.channel_state@.contains_key((id@, d)) implies exists|a: int|
                0 <= a < sorted@.len() && (#[trigger] sorted@[a]).0@ == d by {
                crate::store::lemma_entries_map_has_last(entries@, (id@, d));
                let j = choose|j: int| #[trigger] last_for_key(entries@, j) && entries@[j].0@ == (id@, d);
                assert(entries@[j].0.1@ == d);
            }
        }
        sorted
    }

    /// The information of channel `id` and the amounts sent over it.
    pub fn query_channel(&self, id: String) -> (r: Result<ChannelResponse, StdError>)
        ensures
            match r {
                Ok(resp) => self.channels@.contains_key(id@) && resp.info == self.channels@[id@]
                    && channel_listing(self.channel_state@, id@, resp.balances@, resp.total_sent@),
                Err(e) => !self.channels@.contains_key(id@) && (e matches StdError::NotFound { kind }
                    && kind@ == CHANNEL_INFO_KIND@),
            },
    {
        let info = match self.channels.get(&id) {
            None => {
                return Err(StdError::not_found(CHANNEL_INFO_KIND));
            },
            Some(i) => i.duplicate(),
        };
        let amounts = self.channel_amounts(&id);
        let mut balances: Vec<NativeCoin> = Vec::new();
        let mut total_sent: Vec<NativeCoin> = Vec::new();
        let mut i: usize = 0;
        while i < amounts.len()
            invariant
                i <= amounts@.len(),
                balances@.len() == i,
                total_sent@.len() == i,
                forall|a: int| 0 <= a < i ==> (#[trigger] balances@[a]).denom@ == amounts@[a].0@
                    && total_sent@[a].denom@ == amounts@[a].0@ && balances@[a].amount == amounts@[a].1.outstanding
                    && total_sent@[a].amount == amounts@[a].1.total_sent,
            decreases amounts@.len() - i,
        {
            let (denom, state) = (&amounts[i].0, amounts[i].1);
            balances.push(NativeCoin { denom: denom.clone(), amount: state.outstanding });
            total_sent.push(NativeCoin { denom: denom.clone(), amount: state.total_sent });
            i = i + 1;
        }
        proof {
            assert forall|x: int, y: int| 0 <= x < y < balances@.len() implies text_lt(#[trigger] balances@[x].denom@, #[trigger] balances@[y].denom@) by {
                assert(text_lt(amounts@[x].0@, amounts@[y].0@));
            }
            assert forall|d: Seq<char>| #[trigger] self.channel_state@.contains_key((id@, d)) implies exists|a: int|
                0 <= a < balances@.len() && #[trigger] balances@[a].denom@ == d by {
                let a = choose|a: int| 0 <= a < amounts@.len() && (#[trigger] amounts@[a]).0@ == d;
                assert(balances@[a].denom@ == d);
            }
        }
        Ok(ChannelResponse { info, balances, total_sent })
    }

    /// The ledger balance stored for `address`.
    pub fn query_balance(&self, address: String) -> (r: Result<BalanceResponse, StdError>)
        ensures
            match r {
                Ok(resp) => self.balances@.contains_key(address@) && resp.amount == self.balances@[address@],
                Err(e) => !self.balances@.contains_key(address@) && (e matches StdError::NotFound { kind }
                    && kind@ == BALANCE_KIND@),
            },
    {
        match self.balances.get(&address) {
            None => Err(StdError::not_found(BALANCE_KIND)),
            Some(a) => Ok(BalanceResponse { amount: *a }),
        }
    }

    /// The voucher denomination of this chain's token over `connection_id`.
    pub fn query_ibc_denom(&self, connection_id: String) -> (r: Result<IbcDenomResponse, StdError>)
        ensures
            match r {
                Ok(resp) => self.ibc_denoms@.contains_key(connection_id@) && resp.ibc_denom
                    == self.ibc_denoms@[connection_id@],
                Err(e) => !self.ibc_denoms@.contains_key(connection_id@) && (e matches StdError::NotFound { kind }
                    && kind@ == IBC_DENOM_KIND@),
            },
    {
        match self.ibc_denoms.get(&connection_id) {
            None => Err(StdError::not_found(IBC_DENOM_KIND)),
            Some(d) => Ok(IbcDenomResponse { ibc_denom: d.clone() }),
        }
    }
}


/// The channels, each once, by ascending channel id.
pub open spec fn channel_list(m: Map<Seq<char>, ChannelInfo>, cs: Seq<ChannelInfo>) -> bool {
    &&& forall|a: int| 0 <= a < cs.len() ==> m.contains_key((#[trigger] cs[a]).id@) && m[cs[a].id@] == cs[a]
    &&& forall|a: int, b: int| 0 <= a < b < cs.len() ==> text_lt(#[trigger] cs[a].id@, #[trigger] cs[b].id@)
    &&& forall|k: Seq<char>| #[trigger] m.contains_key(k) ==> exists|a: int| 0 <= a < cs.len() && (#[trigger] cs[a]).id@ == k
}

impl ContractState {
    /// All connected channels, by ascending channel id.
    pub fn query_list(&self) -> (r: Result<ListChannelsResponse, StdError>)
        requires
            self.wf(),
        ensures
            r matches Ok(resp) && channel_list(self.channels@, resp.channels@),
    {
        let entries = &self.channels.entries;
        let mut sorted: Vec<(String, ChannelInfo)> = Vec::new();
        let ghost mut origin: Seq<int> = Seq::empty();
        let mut i: usize = 0;
        while i < entries.len()
            invariant
                entries == &self.channels.entries,
                i <= entries@.len(),
                sorted_by_text(sorted@),
                origin.len() == sorted@.len(),
                forall|a: int| 0 <= a < sorted@.len() ==> 0 <= #[trigger] origin[a] < i && last_for_key(entries@, origin[a])
                    && entries@[origin[a]].0@ == sorted@[a].0@ && entries@[origin[a]].1 == sorted@[a].1,
                forall|j: int| 0 <= j < i && #[trigger] last_for_key(entries@, j)
                    ==> exists|a: int| 0 <= a < sorted@.len() && (#[trigger] sorted@[a]).0@ == entries@[j].0@,
            decreases entries@.len() - i,
        {
            let entry = &entries[i];
            if self.channels.live(i) {
                proof {
                    assert forall|a: int| 0 <= a < sorted@.len() implies (#[trigger] sorted@[a]).0@ != entry.0@ by {
                        if sorted@[a].0@ == entry.0@ {
                            assert(entries@[i as int].0@ == entries@[origin[a]].0@);
                        }
                    }
                }
                let ghost before = sorted@;
                let ghost before_origin = origin;
                let p = insert_sorted(&mut sorted, entry.0.clone(), entry.1.duplicate());
                proof {
                    origin = before_origin.insert(p as int, i as int);
                    assert forall|a: int| 0 <= a < sorted@.len() implies 0 <= #[trigger] origin[a] < i + 1
                        && last_for_key(entries@, origin[a]) && entries@[origin[a]].0@ == sorted@[a].0@
                        && entries@[origin[a]].1 == sorted@[a].1 by {
                        if a < p {
                            assert(sorted@[a] == before[a] && origin[a] == before_origin[a]);
                        } else if a > p {
                            assert(sorted@[a] == before[a - 1] && origin[a] == before_origin[a - 1]);
                        }
                    }
                    assert forall|j: int| 0 <= j < i + 1 && #[trigger] last_for_key(entries@, j)
                        implies exists|a: int| 0 <= a < sorted@.len() && (#[trigger] sorted@[a]).0@ == entries@[j].0@ by {
                        if j == i {
                            assert(sorted@[p as int].0@ == entries@[j].0@);
                        } else {
                            let a = choose|a: int| 0 <= a < before.len() && (#[trigger] before[a]).0@ == entries@[j].0@;
                            if a < p {
                                assert(sorted@[a] == before[a]);
                            } else {
                                assert(sorted@[a + 1] == before[a]);
                            }
                        }
                    }
                }
            }
            i = i + 1;
        }
        let mut channels: Vec<ChannelInfo> = Vec::new();
        let mut k: usize = 0;
        while k < sorted.len()
            invariant
                k <= sorted@.len(),
                channels@.len() == k,
                forall|a: int| 0 <= a < k ==> #[trigger] channels@[a] == sorted@[a].1,
            decreases sorted@.len() - k,
        {
            channels.push(sorted[k].1.duplicate());
            k = k + 1;
        }
        proof {
            assert forall|a: int| 0 <= a < sorted@.len() implies self.channels@.contains_key((#[trigger] sorted@[a]).0@)
                && self.channels@[sorted@[a].0@] == sorted@[a].1 && sorted@[a].1.id@ == sorted@[a].0@ by {
                crate::store::lemma_entries_map_last(entries@, origin[a]);
            }
            let cs = channels@;
            assert forall|a: int| 0 <= a < cs.len() implies self.channels@.contains_key((#[trigger] cs[a]).id@)
                && self.channels@[cs[a].id@] == cs[a] by {
                assert(cs[a] == sorted@[a].1);
                assert(self.channels@.contains_key(sorted@[a].0@));
            }
            assert forall|a: int, b: int| 0 <= a < b < cs.len() implies text_lt(#[trigger] cs[a].id@, #[trigger] cs[b].id@) by {
                assert(cs[a] == sorted@[a].1 && cs[b] == sorted@[b].1);
                assert(self.channels@.contains_key(sorted@[a].0@));
                assert(self.channels@.contains_key(sorted@[b].0@));
                assert(text_lt(sorted@[a].0@, sorted@[b].0@));
            }
            assert forall|key: Seq<char>| #[trigger] self.channels@.contains_key(key) implies exists|a: int| 0 <= a < cs.len()
                && (#[trigger] cs[a]).id@ == key by {
                crate::store::lemma_entries_map_has_last(entries@, key);
                let j = choose|j: int| #[trigger] last_for_key(entries@, j) && entries@[j].0@ == key;
                let a = choose|a: int| 0 <= a < sorted@.len() && (#[trigger] sorted@[a]).0@ == entries@[j].0@;
                assert(cs[a] == sorted@[a].1);
                assert(self.channels@.contains_key(sorted@[a].0@));
            }
        }
        assert(channel_list(self.channels@, channels@));
        Ok(ListChannelsResponse { channels })
    }
}


impl ContractState {
    /// Answers a query.
    pub fn query(&self, msg: QueryMsg) -> (r: Result<QueryAnswer, StdError>)
        requires
            self.wf(),
        ensures
            match msg {
                QueryMsg::Port {  } => r == Ok::<QueryAnswer, StdError>(QueryAnswer::Port),
                QueryMsg::ListChannels {  } => r matches Ok(QueryAnswer::ListChannels(resp)) && channel_list(
                    self.channels@,
                    resp.channels@,
                ),
                QueryMsg::Channel { id } => match r {
                    Ok(QueryAnswer::Channel(resp)) => self.channels@.contains_key(id@) && resp.info
                        == self.channels@[id@] && channel_listing(
                        self.channel_state@,
                        id@,
                        resp.balances@,
                        resp.total_sent@,
                    ),
                    Err(e) => !self.channels@.contains_key(id@) && (e matches StdError::NotFound { kind }
                        && kind@ == CHANNEL_INFO_KIND@),
                    _ => false,
                },
                QueryMsg::Balance { address } => match r {
                    Ok(QueryAnswer::Balance(resp)) => self.balances@.contains_key(address@) && resp.amount
                        == self.balances@[address@],
                    Err(e) => !self.balances@.contains_key(address@) && (e matches StdError::NotFound { kind }
                        && kind@ == BALANCE_KIND@),
                    _ => false,
                },
                QueryMsg::IbcDenom { connection_id } => match r {
                    Ok(QueryAnswer::IbcDenom(resp)) => self.ibc_denoms@.contains_key(connection_id@)
                        && resp.ibc_denom == self.ibc_denoms@[connection_id@],
                    Err(e) => !self.ibc_denoms@.contains_key(connection_id@) && (e matches StdError::NotFound { kind }
                        && kind@ == IBC_DENOM_KIND@),
                    _ => false,
                },
            },
    {
        match msg {
            QueryMsg::Port {  } => Ok(QueryAnswer::Port),
            QueryMsg::ListChannels {  } => match self.query_list() {
                Ok(resp) => Ok(QueryAnswer::ListChannels(resp)),
                Err(e) => Err(e),
            },
            QueryMsg::Channel { id } => match self.query_channel(id) {
                Ok(resp) => Ok(QueryAnswer::Channel(resp)),
                Err(e) => Err(e),
            },
            QueryMsg::Balance { address } => match self.query_balance(address) {
                Ok(resp) => Ok(QueryAnswer::Balance(resp)),
                Err(e) => Err(e),
            },
            QueryMsg::IbcDenom { connection_id } => match self.query_ibc_denom(connection_id) {
                Ok(resp) => Ok(QueryAnswer::IbcDenom(resp)),
                Err(e) => Err(e),
            },
        }
    }
}

} // verus!
