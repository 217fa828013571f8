//! The errors of migration handling.

use vstd::prelude::*;
use vstd::string::*;

verus! {

/// What went wrong while migrations were read, reconciled or run.
#[derive(Clone, Debug)]
pub enum Error {
    /// Reading or writing failed: what was being done, and the cause.
    Io(String, String),
    /// An input breaks a rule of this library.
    Misc(String),
    /// The database refused: what was being done, and the cause.
    Pg(String, String),
    /// A statement failed; the message points at the place.
    Sql(String),
}

impl Error {
    /// The message of the error.
    pub open spec fn text(&self) -> Seq<char> {
        match self {
            Error::Io(m, e) => m@ + ": "@ + e@,
            Error::Misc(m) => m@,
            Error::Pg(m, e) => m@ + ": "@ + e@,
            Error::Sql(m) => m@,
        }
    }

    /// The message of the error.
    pub fn to_string(&self) -> (r: String)
        ensures
            r@ == self.text(),
    {
        match self {
            Error::Io(m, e) => {
                let mut r = m.clone();
                r.append(": ");
                r.append(e.as_str());
                r
            },
            Error::Misc(m) => m.clone(),
            Error::Pg(m, e) => {
                let mut r = m.clone();
                r.append(": ");
                r.append(e.as_str());
                r
            },
            Error::Sql(m) => m.clone(),
        }
    }

    /// An error of reading or writing with the general description
    /// `"I/O error"`.
    pub fn from_io(cause: String) -> (r: Error)
        ensures
            r is Io,
            r.text() == "I/O error: "@ + cause@,
    {
        let r = Error::Io(String::from_str("I/O error"), cause);
        proof {
            reveal_strlit("I/O error");
            reveal_strlit(": ");
            reveal_strlit("I/O error: ");
            assert(r.text() =~= "I/O error: "@ + cause@);
        }
        r
    }
}

} // verus!
