//! A security-scan result gate for CI pipelines.
//!
//! The library normalizes the raw findings of independently run scanners
//! (static analysis, dependency vulnerabilities, secrets, licenses) into
//! canonical records, deduplicates them against a persistent fingerprint
//! ledger so only genuinely new issues surface, evaluates a declarative
//! policy over the new findings to decide pass or fail, and builds a
//! portable report. Everything here is verified; running the scanners,
//! talking to the network and keeping files is the caller's job.
pub mod aggregate;
pub mod attribution;
pub mod commands;
pub mod dedup;
pub mod error;
pub mod finding;
pub mod fingerprint;
pub mod json;
pub mod normalize;
pub mod pipeline;
pub mod policy;
pub mod report;
pub mod scans;
pub mod strutil;
