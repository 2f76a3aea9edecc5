//! Session checkpoint and timeline engine.
//!
//! The crate snapshots a coding session's transcript and project file state
//! at discrete points, and later restores, diffs, or forks from those points.
//! Content-addressed blob storage deduplicates file snapshots by digest; a
//! flat, branch-capable timeline records checkpoint lineage per session.
//! Supporting modules hold the pure helpers that the surrounding application
//! shares: error-message shaping, version comparison, status parsing, and
//! small configuration records.

pub mod claude_binary;
pub mod clock;
pub mod content_store;
pub mod diff;
pub mod digest;
pub mod error;
pub mod git;
pub mod http_client;
pub mod i18n;
pub mod ids;
pub mod manager;
pub mod node_test;
pub mod node_tester;
pub mod packycode_nodes;
pub mod projects;
pub mod records;
pub mod registry;
pub mod relay_adapters;
pub mod relay_stations;
pub mod storage;
pub mod strutil;
pub mod tags;
pub mod types;
pub mod usage;
