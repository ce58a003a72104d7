//! A client-side log-shipping engine: entries are batched, sent to a remote
//! ingestion endpoint, and held in a disk-backed backlog while the endpoint
//! cannot be reached.
pub mod models;
pub mod text;
pub mod codec;
pub mod worker;
pub mod backlog;
pub mod pipeline;
pub mod ingest;
pub mod dispatch;
pub mod transforms;
pub mod levels;
pub mod memory;
