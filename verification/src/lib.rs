//! A verified fungible-token ledger.
//!
//! The ledger tracks who holds how many tokens of a fixed supply, lets an
//! account move its tokens, and lets a spender move tokens of an owner as far
//! as an allowance reaches. No operation has a precondition, and in every
//! ledger the balances are proved to add up to the total supply.
//!
//! The ledger does no input or output of its own. The host that runs it names
//! the caller of each operation, forwards the emitted records to its event
//! log, and keeps the state between runs: see [`Erc20::restore`].

pub mod account;
pub mod balances;
pub mod events;
pub mod laws;
pub mod ledger;
pub mod store;
pub mod sum;

pub use crate::account::{AccountId, Balance};
pub use crate::balances::Balances;
pub use crate::events::{Approval, Transfer};
pub use crate::ledger::{Call, Erc20, LedgerState};
pub use crate::store::{Key, Store};
