//! Conflict detection and resolution for a versioned key-value store.
//!
//! A write is an optimistic compare-and-set on a key's version. When the
//! version the writer expected is behind the stored one, the database's
//! consensus strategy decides the outcome: surface the conflict, keep the
//! write with the greatest operation id, or hand the conflict to an arbiter
//! connection and record it in a ledger key until a resolution arrives.
pub mod bo;
pub mod consensus_ops;
pub mod laws;
pub mod outside;
pub mod table;
pub mod text;
pub mod watchers;
