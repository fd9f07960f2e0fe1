//! Transaction-application and proof-circuit layer of an account-based
//! rollup: signed withdrawal requests that mutate an authenticated account
//! tree, and the deposit-step and deposit-batch relations whose satisfying
//! assignments prove that such mutations were performed correctly.

pub mod account;
pub mod deposit_circuit;
pub mod merkle;
pub mod offchain_withdrawal;
pub mod primitives;
pub mod tree;
