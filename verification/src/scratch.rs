//! The scratch database into which SQL files are run to be inspected: its
//! name and the statements that make, mark and drop it.

use crate::number::{digits, u64_to_string};
use vstd::prelude::*;
use vstd::string::*;

verus! {

/// The comment that marks a database as a scratch database.
pub open spec fn comment_text() -> Seq<char> {
    "CREATED BY TUSKER - If this table is left behind tusker probably crashed and was not able to clean up after itself. Either try running `tusker clean` or remove this database manually."@
}

/// The comment that marks a database as a scratch database. A database
/// with this comment that is still there was left behind.
pub fn tusker_comment() -> (r: &'static str)
    ensures
        r@ == comment_text(),
{
    "CREATED BY TUSKER - If this table is left behind tusker probably crashed and was not able to clean up after itself. Either try running `tusker clean` or remove this database manually."
}

/// The name of the scratch database for the database `dbname`. `id` tells
/// scratch databases of one database apart; the caller picks it.
pub fn scratch_name(dbname: &str, id: u64) -> (r: String)
    ensures
        r@ == dbname@ + "_diff_"@ + digits(id as nat),
{
    let mut r = String::from_str(dbname);
    r.append("_diff_");
    let n = u64_to_string(id);
    r.append(n.as_str());
    r
}

/// The statement that creates a scratch database.
pub fn create_sql(dbname: &str) -> (r: String)
    ensures
        r@ == "CREATE DATABASE "@ + dbname@,
{
    let mut r = String::from_str("CREATE DATABASE ");
    r.append(dbname);
    r
}

/// The statement that marks a database as a scratch database.
pub fn comment_sql(dbname: &str) -> (r: String)
    ensures
        r@ == "COMMENT ON DATABASE "@ + dbname@ + " IS '"@ + comment_text() + "'"@,
{
    let mut r = String::from_str("COMMENT ON DATABASE ");
    r.append(dbname);
    r.append(" IS '");
    r.append(tusker_comment());
    r.append("'");
    r
}

/// The statement that drops a database.
pub fn drop_sql(dbname: &str) -> (r: String)
    ensures
        r@ == "DROP DATABASE "@ + dbname@,
{
    let mut r = String::from_str("DROP DATABASE ");
    r.append(dbname);
    r
}

/// The query for the scratch databases that were left behind. Its
/// parameter is the comment that marks them.
pub fn leftover_sql() -> (r: &'static str)
    ensures
        r@ == "SELECT db.datname FROM pg_database db JOIN pg_shdescription dsc ON dsc.objoid = db.oid WHERE dsc.description = $1;"@,
{
    "SELECT db.datname FROM pg_database db JOIN pg_shdescription dsc ON dsc.objoid = db.oid WHERE dsc.description = $1;"
}

} // verus!
