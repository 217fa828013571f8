//! What is known of a query once the database has prepared it.

use crate::hash::{sha512, sha512_digest};
use vstd::prelude::*;
use vstd::string::*;

verus! {

/// A query: the checksum of its text, the types of its parameters and the
/// columns of its rows.
#[derive(Clone, Debug)]
pub struct Query {
    /// The SHA-512 digest of the text of the query.
    pub checksum: Vec<u8>,
    /// The type of each parameter.
    pub params: Vec<String>,
    pub columns: Vec<Column>,
}

/// A column of the rows of a query.
#[derive(Clone, Debug)]
pub struct Column {
    pub name: String,
    /// The name of the type.
    pub ty: String,
    /// Whether the column takes no nulls; none where the column is not the
    /// column of a table.
    pub notnull: Option<bool>,
}

impl Query {
    /// Describes a query whose text has the checksum `checksum`.
    pub fn with_checksum(checksum: Vec<u8>, params: Vec<String>, columns: Vec<Column>) -> (r: Query)
        ensures
            r.checksum == checksum,
            r.params == params,
            r.columns == columns,
    {
        Query { checksum, params, columns }
    }

    /// Describes the query with the text `sql`: its checksum is the SHA-512
    /// digest of the bytes of the text.
    pub fn describe(sql: &str, params: Vec<String>, columns: Vec<Column>) -> (r: Query)
        ensures
            r.checksum@ == sha512_digest(sql.spec_bytes()),
            r.checksum@.len() == 64,
            r.params == params,
            r.columns == columns,
    {
        Query::with_checksum(sha512(sql.as_bytes()), params, columns)
    }
}

} // verus!
