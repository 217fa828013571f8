//! Schema diffing and migration reconciliation for PostgreSQL databases.
//!
//! The crate compares two snapshots of a database structure and renders the
//! DDL that turns one into the other, and it reconciles migration files with
//! the ledger of migrations a database has recorded.

pub mod change;
pub mod config;
pub mod diff;
pub mod hash;
pub mod inspection;
pub mod migration;
pub mod models;
pub mod number;
pub mod queries;
pub mod query;
pub mod scratch;
pub mod sql;
pub mod text;

pub use inspection::Inspection;
