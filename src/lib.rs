//! Scoped diagnostic contexts: per-path dispatch targets, span lineage,
//! severity filtering and private or shared sinks.
pub mod context;
pub mod filter;
pub mod record;
pub mod sink;
pub mod task;
