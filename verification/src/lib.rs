//! Commit-history statistics for a single repository: per-commit churn,
//! per-contributor rollups and repository-wide totals, with the aggregation
//! rules stated as contracts and proved.

pub mod db;
pub mod error;
pub mod git;
pub mod laws;
pub mod models;
pub mod summary;
pub mod time;
