//! Cosmos SDK transaction support: the messages that the contract sends
//! through an interchain account, and the transaction that carries them.
pub mod bank;
pub mod cosmos_tx;
pub mod gamm;
pub mod reader;
pub mod wire;

pub use self::{
    bank::MsgSend,
    cosmos_tx::CosmosTx,
    gamm::{MsgJoinPool, MsgJoinSwapExternAmountIn, MsgSwapExactAmountIn},
};
