//! A fungible-token ledger: a sparse account-to-balance mapping held in
//! contract storage, a fixed total supply, and a conservation-preserving
//! transfer.

pub mod storage;
pub mod model;
pub mod token;
pub mod laws;

pub use token::{Caller, Token, TokenError};
