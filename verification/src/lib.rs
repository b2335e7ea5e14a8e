//! A deterministic runtime core for sandboxed apps: the nibble wire codec,
//! the paged account storage and the transaction lifecycle that ties them
//! together.

pub mod api;
pub mod bytes;
pub mod codec;
pub mod contract;
pub mod ffi;
pub mod gas;
pub mod import;
pub mod nibble;
pub mod receipt;
pub mod runtime;
pub mod sdk;
pub mod storage;
pub mod text;
pub mod types;
pub mod vault;
