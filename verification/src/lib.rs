//! A database health-check probe: one query is run against a database, the
//! returned integer columns are compared against warning and critical
//! threshold vectors, and a single status line plus an exit code is produced,
//! following the monitoring-plugin convention.
//!
//! The crate holds the whole evaluation pipeline: coercion of raw big-endian
//! column bytes into 64-bit signed integers, parsing of comma-separated
//! threshold lists, positional threshold comparison over a result row, and the
//! rendering of the final report. Connecting to the database, running the
//! query and printing the report are left to the surrounding binary, which
//! hands rows in as plain values.

pub mod status;
pub mod numeric;
pub mod thresholds;
pub mod evaluate;
