//! Transactions, the accounts they act on, and the ledger that applies them.

pub mod holds;
pub mod invariants;
pub mod ledger;
pub mod models;
pub mod parser;
pub mod reconciliation;
pub mod rules;
