//! A sans-I/O core for a gateway that lets clients of a document database
//! read and write data held behind a relational-style query engine.
//!
//! The crate holds the pure parts of such a gateway: the translation of
//! document filters and aggregation pipelines into query text, the state
//! machine of a compensating two-phase commit across two stores, and the
//! batching and replay rules of a change-feed synchroniser. Every function
//! carries a contract that Verus checks; the callers perform the I/O.

pub mod text;
pub mod error;
pub mod document;
pub mod outcome;
pub mod filter;
pub mod query;
pub mod plan;
pub mod pipeline;
pub mod aggregate;
pub mod builder;
pub mod translation_laws;
pub mod change;
pub mod sync;
pub mod batching;
pub mod retry;
pub mod transaction;
pub mod coordinator;
pub mod commit_run;
pub mod scaling;
