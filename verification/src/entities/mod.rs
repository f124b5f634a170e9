//! The records the ledger works on: client accounts and transactions.

pub mod client;
pub mod text;
pub mod transaction;
