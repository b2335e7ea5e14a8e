//! The storage of accounts: pages addressed by a hash of the account's
//! address and the page's index, kept in a key-value store with checkpoints.

pub mod hasher;
pub mod keys;
pub mod kv;
