//! The entities of a database structure and their SQL.

pub mod column;
pub mod constraint;
pub mod table;
pub mod schema;
pub mod view;
