//! A reentrancy guard and a vault ledger whose withdrawals it protects.
//!
//! The vault's mutating operations run under a two-state guard: a call that
//! arrives while another guarded operation is still open is rejected before it
//! reads or writes any balance.

pub mod account;
pub mod amount;
pub mod ledger;
pub mod reentrancy;
pub mod vault;
