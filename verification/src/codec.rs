//! The wire codec: fields, transactions and receipts, all in nibble units.

pub mod app;
pub mod error;
pub mod field;
pub mod receipt;
pub mod serialize;
pub mod template;
pub mod tx;
