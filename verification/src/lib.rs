//! A payments ledger: client accounts with available, held and total funds,
//! driven by deposits, withdrawals, disputes, resolutions and chargebacks.
//!
//! Amounts are exact decimals. Every operation of the ledger is specified over
//! a mathematical model of its state and proved against that model.

pub mod amount;
pub mod transactions;
