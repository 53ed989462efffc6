//! The operations of the ledger.

pub mod create;
pub mod trading;
pub mod vote;
pub mod winners;
