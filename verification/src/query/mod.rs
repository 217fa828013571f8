//! Queries with typed parameters and rows.

pub mod models;
pub mod types;
