//! What the contract stores: its configuration, the balances of its internal
//! ledger, the channels it knows and what is outstanding on each.
use vstd::prelude::*;
use crate::store::KeyMap;

verus! {

/// The denomination of the contract's own token.
pub const DENOM: &'static str = "uatom";

/// The action of a plain token transfer.
pub const TRANSFER_ACTION: &'static str = "transfer";

/// The action of a swap through an interchain account.
pub const SWAP_ACTION: &'static str = "swap";

/// The action of joining a pool through an interchain account.
pub const JOIN_POOL_ACTION: &'static str = "join_pool";

/// The name the contract records for migrations.
pub const CONTRACT_NAME: &'static str = "crates.io:cw20-ics20";

/// The version the contract records for migrations.
pub const CONTRACT_VERSION: &'static str = "0.1.0";

/// An address: a string that is not checked.
#[derive(Clone, Debug, PartialEq, Eq)]
pub struct Addr(String);

impl View for Addr {
    type V = Seq<char>;

    closed spec fn view(&self) -> Seq<char> {
        self.0@
    }
}

impl Addr {
    /// The address written as `input`, unchecked.
    pub fn unchecked(input: String) -> (r: Addr)
        ensures
            r@ == input@,
    {
        Addr(input)
    }

    /// The address as text.
    pub fn as_str(&self) -> (r: &str)
        ensures
            r@ == self@,
    {
        self.0.as_str()
    }
}

/// The configuration given when the contract was instantiated.
#[derive(Clone, Copy, Debug, PartialEq, Eq)]
pub struct Config {
    /// Timeout of a packet, in seconds, when a message names none.
    pub default_timeout: u64,
}

/// One end of an IBC channel.
#[derive(Clone, Debug, PartialEq, Eq)]
pub struct IbcEndpoint {
    pub port_id: String,
    pub channel_id: String,
}

/// What the contract records of a connected channel.
#[derive(Clone, Debug, PartialEq, Eq)]
pub struct ChannelInfo {
    /// id of this channel
    pub id: String,
    /// the remote channel/port we connect to
    pub counterparty_endpoint: IbcEndpoint,
    /// the connection this exists on (you can use to query client/consensus info)
    pub connection_id: String,
    /// the interchain account controlled through this channel, empty for a transfer channel
    pub ica_addr: String,
}

/// The amounts of a denomination sent over a channel.
#[derive(Clone, Copy, Debug, PartialEq, Eq, Default)]
pub struct ChannelState {
    /// sent and acknowledged, and not yet returned
    pub outstanding: u128,
    /// sent and acknowledged, ever
    pub total_sent: u128,
}

/// The name and version of the contract that wrote the state.
#[derive(Clone, Debug, PartialEq, Eq)]
pub struct ContractVersion {
    pub contract: String,
    pub version: String,
}

/// All that the contract stores.
pub struct ContractState {
    pub config: Config,
    pub version: ContractVersion,
    /// balances of the internal ledger, by address
    pub balances: KeyMap<String, u128>,
    /// connected channels, by channel id
    pub channels: KeyMap<String, ChannelInfo>,
    /// amounts sent, by channel id and denomination
    pub channel_state: KeyMap<(String, String), ChannelState>,
    /// the voucher denomination of this chain's token, by connection id
    pub ibc_denoms: KeyMap<String, String>,
}

/// The ledger balance of `addr`: what is stored, or zero.
pub open spec fn balance_of(balances: Map<Seq<char>, u128>, addr: Seq<char>) -> u128 {
    if balances.contains_key(addr) {
        balances[addr]
    } else {
        0
    }
}

impl ContractState {
    /// No denomination on any channel has more outstanding than was ever sent, and
    /// each channel is recorded under its own id.
    pub open spec fn wf(&self) -> bool {
        &&& forall|k: (Seq<char>, Seq<char>)| #[trigger]
            self.channel_state@.contains_key(k) ==> self.channel_state@[k].outstanding
                <= self.channel_state@[k].total_sent
        &&& forall|k: Seq<char>| #[trigger] self.channels@.contains_key(k) ==> self.channels@[k].id@ == k
    }
}

} // verus!
