//! The stake program: the stake account lifecycle (initialize, authorize,
//! delegate, redeem, withdraw, deactivate), warmup/cooldown of effective stake,
//! reward arithmetic, the instruction byte format, the dispatcher that applies
//! an instruction to its accounts, and builders for instructions.

pub mod account;
pub mod builder;
pub mod error;
pub mod ids;
pub mod instruction;
pub mod processor;
pub mod pubkey;
pub mod stake_state;
pub mod state;
pub mod warmup;
