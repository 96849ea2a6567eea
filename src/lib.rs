//! Persistence of a single authentication session over a small key-value store.
//!
//! `store` holds the in-memory mapping from string keys to structured values,
//! `value` the structured values themselves, `session` the typed facade that
//! keeps one `AuthSession` under a fixed key, and `persist` how the mapping is
//! loaded from its backing file and the crash-safe order of disk operations
//! that makes it durable.

pub mod persist;
pub mod session;
pub mod store;
pub mod value;
