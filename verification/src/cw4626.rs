//! Messages of a tokenized vault.
use vstd::prelude::*;
use crate::state::Addr;

verus! {

/// The messages a vault executes.
#[derive(Clone, Debug, PartialEq, Eq)]
pub enum Cw4626ExecuteMsg {
    /// This message deposits `amount` tokens into the vault and grants ownership to `receiver`.
    Deposit { receiver: Addr, amount: u128 },
    /// Mints `shares` Vault shares to `receiver` by depositing exactly `amount` of underlying tokens.
    Mint { receiver: Addr, shares: u128 },
    /// This message withdraws `amount` token from the vault and transfers them to `receiver`.
    Withdraw { receiver: Addr, amount: u128 },
    /// Redeems a specific number of `shares` for underlying tokens and transfers them to `receiver`.
    Redeem { receiver: Addr, shares: u128 },
}

/// The queries a vault answers.
#[derive(Clone, Debug, PartialEq, Eq)]
pub enum Cw4626QueryMsg {
    /// The total amount of underlying tokens held by the vault.
    TotalHoldings {},
    /// The total amount of underlying tokens held in the vault for owner.
    BalanceOfUnderlying { owner: Addr },
    /// The address of the token the vault uses for accounting, depositing, and withdrawing.
    Underlying {},
    /// The total number of unredeemed vault shares in circulation.
    TotalSupply {},
    /// The total amount of vault shares the owner currently has.
    BalanceOf { owner: Addr },
    /// The amount of underlying tokens one baseUnit of vault shares is redeemable for.
    ExchangeRate {},
    /// The decimal scalar for vault shares and operations involving exchangeRate.
    BaseUnit {},
}

} // verus!
