//! A CosmWasm contract that moves tokens of its internal ledger over IBC: plain
//! ICS-20 transfers, and swaps and pool joins on a remote chain through an
//! interchain account, with refunds of what fails.
pub mod base;
pub mod contract;
pub mod cw4626;
pub mod encoding;
pub mod error;
pub mod ibc;
pub mod msg;
pub mod proto;
pub mod state;
pub mod store;
pub mod text;
pub mod tx;
