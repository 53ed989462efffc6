//! Arithmetic and checks shared by the operations.

pub mod account;
pub mod math;
pub mod storage;
pub mod time;
pub mod validation;
pub mod wide;
