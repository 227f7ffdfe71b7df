//! Saved shell commands: entries with stable ids, their collection, the
//! JSON document they are stored as, and the command service around a store.
pub mod entry;
pub mod json;
pub mod codec;
pub mod error;
pub mod collection;
pub mod service;
pub mod laws;
