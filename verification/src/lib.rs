//! Single-table-design helpers for a wide-column key-value store: a
//! declarative per-entity index schema, a composite-key composer, a record
//! codec, and pure builders for the store's request descriptions.
//!
//! Everything here is deterministic, synchronous and side-effect-free: the
//! builders only describe requests, they never talk to a store. Sending the
//! descriptions is the caller's concern.

pub mod avmap;
pub mod batch;
pub mod compose;
pub mod schema;
pub mod error;
pub mod ops;
pub mod query;
pub mod record;
pub mod strutil;
pub mod update;
pub mod value;
