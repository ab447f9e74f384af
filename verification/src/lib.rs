//! A typed record store over an embedded, ordered key-value database.
//!
//! The driver turns an untyped, byte-oriented, ordered store into a typed
//! record store with insert/get/remove, monotonic id generation, and
//! full-table and prefix-scoped iteration, all through one fixed big-endian
//! binary encoding.

pub mod codec;
pub mod driver;
pub mod errors;
pub mod laws;
pub mod models;
pub mod store;
