//! An embeddable key-value store in the shape of a log-structured facade:
//! point reads and writes, atomic multi-put batches, ordered multi-key reads,
//! a write-ahead-log durability toggle, and a flush barrier that settles the
//! whole content durably.
//!
//! Keys and values are byte sequences; a text path stores and reads them as
//! UTF-8. Every operation's effect is stated over the store's view — a map
//! from key bytes to value bytes, defined in [`model`] — and over the
//! durably settled part of it; the laws the store obeys are proved once and
//! for all in [`laws`]. The store lives in its write log: a host persists
//! that log in the store's directory and reopens the store from it.

pub mod laws;
pub mod model;
pub mod store;
mod text;

pub use store::DbError;
pub use store::RocksDB;
