//! Migration files, the ledger of a database, and how the two are reconciled.

pub mod commands;
pub mod db;
pub mod error;
pub mod file;
pub mod models;
