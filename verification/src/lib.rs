//! A small ingestion library: it validates JSON-encoded sensor readings and
//! free-text log lines, and appends each accepted payload as one timestamped
//! row of a SQLite store reached through a bounded connection pool.
//!
//! The JSON grammar for the two accepted payload shapes, the mapping of
//! payload fields to table columns, and the mapping of every failure to a
//! uniform error reply are all stated in contracts and verified. The calls
//! into the storage engine and the pool stand behind a few trusted wrappers.

pub mod ext;
pub mod json;
pub mod reply;
pub mod service;
