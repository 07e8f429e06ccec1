//! In-memory substrate-style event indexer: an event store with point and
//! filtered list queries, a bounded fan-out broadcaster with explicit lag
//! signalling, and a deduplicating batch loader for chain metadata.

pub mod config;
pub mod errors;
pub mod models;
pub mod schema;
pub mod store;
pub mod fanout;
pub mod dataloader;
pub mod indexer;
