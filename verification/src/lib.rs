//! A verified core for a lightweight SQL benchmarking engine.
//!
//! The crate holds two pieces of logic: a lexical SQL complexity classifier
//! (normalization of comments and string literals, keyword and aggregate
//! detection, subquery counting, cost estimation) and a benchmark harness
//! core (sample construction, metric aggregation and pass/fail judgment over
//! repeated query executions).  The query engine that actually executes SQL
//! is an external collaborator: the harness core here consumes only the
//! plain measurements it reports.

pub mod analyzer;
pub mod format;
pub mod harness;
pub mod keywords;
pub mod normalize;
pub mod text;
pub mod trackers;
