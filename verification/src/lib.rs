//! A persistent store for task records, built on an ordered byte-keyed
//! storage engine.
//!
//! The store assigns each record a single-byte identifier, keeps the
//! serialized record under that key, and offers point lookups, updates,
//! deletions, an ordered listing, and a bulk replace-all operation that
//! discards every existing record and installs a fresh, contiguously
//! numbered set.

pub mod codec;
pub mod engine;
pub mod errors;
pub mod laws;
pub mod store;
pub mod task;
