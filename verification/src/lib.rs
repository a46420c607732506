//! A minimal proof-of-work blockchain core: signed value-transfer
//! transactions, mined blocks, an account-balance ledger derived from the
//! chain, and longest-valid-chain replacement.
pub mod strutil;
pub mod crypto;
pub mod wallet;
pub mod transaction;
pub mod state;
pub mod block;
pub mod blockchain;
pub mod network;
