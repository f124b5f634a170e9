//! The ledger engine: the state it keeps, the step that applies one record,
//! and what holds of every ledger the steps can reach.

pub mod guarantees;
pub mod parser;
