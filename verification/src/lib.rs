//! MiniAPM: the trace ingestion and analytics engine of a small, self-hosted application
//! performance monitor.
//!
//! The library holds the logic between the wire and the store: it translates OTLP trace
//! requests into the rows that are stored, classifies spans, fingerprints and groups
//! errors, builds the waterfall of a trace, finds repeated queries, computes latency
//! statistics and plans what the periodic jobs do. It reads no clock, opens no file and
//! talks to no store: its callers hand in what was read and carry out what was decided.
//!
//! Every function states what it returns in a contract that Verus proves of its body.
//! The few calls into other crates stand behind wrappers whose contracts are trusted;
//! each of them says so in its documentation.

pub mod api;
pub mod attributes;
pub mod category;
pub mod clock;
pub mod codec;
pub mod deploy;
pub mod errors;
pub mod failure;
pub mod fingerprint;
pub mod ingest;
pub mod listing;
pub mod mcp;
pub mod nplus1;
pub mod order;
pub mod project;
pub mod retention;
pub mod routes;
pub mod series;
pub mod similarity;
pub mod sql;
pub mod stats;
pub mod summary;
pub mod text;
pub mod trace;
