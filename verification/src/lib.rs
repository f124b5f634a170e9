//! A ledger engine: client accounts, the transactions that move their funds,
//! and the rules by which deposits, withdrawals, disputes, resolutions and
//! chargebacks change them.

pub mod amount;
pub mod entities;
pub mod parser;
