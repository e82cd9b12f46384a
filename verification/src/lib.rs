//! A fungible-token ledger: a fixed total supply of indivisible units is
//! tracked across accounts, owners move units directly with `transfer`, and
//! may delegate spending rights up to an approved limit with `approve` and
//! `transfer_from`.
//!
//! The hosting environment supplies the identity of the current caller for
//! each operation; here that identity is an explicit `AccountId` parameter,
//! so the ledger is a pure function of its state and its arguments.

mod account;
mod event;
mod kvseq;
pub mod laws;
mod ledger;
mod model;
mod sums;

pub use account::AccountId;
pub use event::Transfer;
pub use ledger::Erc20;
pub use model::LedgerModel;
pub use sums::map_sum;
