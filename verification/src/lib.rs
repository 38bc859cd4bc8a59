//! Accounting core of a pari-mutuel price-prediction market.
//!
//! Users hold an internal balance, wager on the outcome of a single active
//! round, and a price feed resolves the round so winners split the losing
//! side's stake. The host environment (clock, identity verification,
//! durable storage, notifications) lives outside this crate: every
//! operation here is a pure transition on an explicit contract state,
//! taking the current ledger sequence number as an argument wherever
//! behaviour depends on time.

pub mod contract;
pub mod laws;
pub mod payout;
pub mod resolve;
pub mod store;
pub mod types;
