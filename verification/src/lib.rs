//! Query execution layer of a multi-tenant time-series database.
//!
//! A query names a database. The layer resolves the name against the catalog,
//! admits the query under a global concurrency limit, exposes the database as a
//! single-schema catalog to the planning engine, and turns table scans into
//! chunk retrieval from a pluggable store.
pub mod admission;
pub mod catalog;
pub mod chunk;
pub mod context;
pub mod engine;
pub mod error;
pub mod query_executor;
pub mod schema;
pub mod session;
pub mod text;
pub mod write_buffer;

pub use error::Error;
pub use write_buffer::WriteBuffer;
