//! Markers for the types of the database, and the Rust types that a value
//! of each can be read as.

use std::collections::HashMap;
use vstd::prelude::*;

verus! {

/// Marks that a value of the database type `T` can be read as the
/// implementing type.
pub trait FromSqlTyped<'a, T> {

}

/// BOOL
pub struct PgBool;

/// CHAR
pub struct PgI8;

/// SMALLINT, SMALLSERIAL
pub struct PgI16;

/// INT, SERIAL
pub struct PgI32;

/// OID
pub struct PgI64;

/// REAL
pub struct PgF32;

/// DOUBLE PRECISION
pub struct PgF64;

/// VARCHAR, CHAR(n), TEXT, CITEXT, NAME, UNKNOWN, LTREE, LQUERY, LTXTQUERY
pub struct PgString;

/// BYTEA
pub struct PgBytea;

/// HSTORE
pub struct PgHstore;

/// TIMESTAMP
pub struct PgTimestamp;

/// TIMESTAMP WITH TIME ZONE
pub struct PgTimestampTz;

/// INET
pub struct PgInet;

/// DATE
pub struct PgDate;

/// TIME
pub struct PgTime;

/// UUID
pub struct PgUuid;

/// JSON, JSONB
pub struct PgJson;

impl FromSqlTyped<'_, PgBool> for bool {

}

impl FromSqlTyped<'_, PgI8> for i8 {

}

impl FromSqlTyped<'_, PgI16> for i16 {

}

impl FromSqlTyped<'_, PgI32> for i32 {

}

impl FromSqlTyped<'_, PgI64> for i64 {

}

impl<'a> FromSqlTyped<'a, PgString> for &'a str {

}

impl FromSqlTyped<'_, PgString> for String {

}

impl<'a> FromSqlTyped<'a, PgBytea> for &'a [u8] {

}

impl FromSqlTyped<'_, PgBytea> for Vec<u8> {

}

impl FromSqlTyped<'_, PgHstore> for HashMap<String, Option<String>> {

}

} // verus!
