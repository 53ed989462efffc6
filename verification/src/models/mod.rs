//! The records of the ledger.

pub mod block;
pub mod pool;
pub mod state;
pub mod token;
