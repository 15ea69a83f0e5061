//! A verified token-vesting ledger.
//!
//! The crate models a vesting contract: vaults that lock a principal per
//! beneficiary and release it over time by a linear, stepped, lockup-only or
//! milestone-gated schedule, under administrator governance, together with a
//! token ledger standing for the asset the contract accounts for. Every
//! operation carries a contract stating exactly when it succeeds, which error
//! it returns otherwise, and how it changes the state; the conservation
//! invariant (locked plus claimed plus the admin balance equals the initial
//! supply) is proved to hold in every reachable state.

pub mod engine;
pub mod errors;
pub mod governance;
pub mod index;
pub mod ledger;
pub mod lifecycle;
pub mod rng;
pub mod schedule;
pub mod state;
pub mod vault;

pub use errors::VestingError;
pub use ledger::TokenLedger;
pub use lifecycle::BatchCreateData;
pub use rng::random;
pub use state::VestingContract;
pub use vault::{Milestone, Vault};
