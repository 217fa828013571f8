//! The ledger of a database: the migrations it has recorded, its log, and
//! the message for a statement that failed.

use crate::migration::error::Error;
use crate::number::{decimal, u64_to_string};
use crate::text::{chars_eq, chars_of, first_index, last_index, lemma_first_index};
use vstd::prelude::*;
use vstd::string::*;

verus! {

/// A migration as the ledger records it.
#[derive(Clone, Debug)]
pub struct DbMigration {
    pub number: i32,
    pub name: String,
    pub hash: Vec<u8>,
}

/// A recorded migration as plain values.
pub struct DbMigrationView {
    pub number: i32,
    pub name: Seq<char>,
    pub hash: Seq<u8>,
}

impl View for DbMigration {
    type V = DbMigrationView;

    open spec fn view(&self) -> DbMigrationView {
        DbMigrationView { number: self.number, name: self.name@, hash: self.hash@ }
    }
}

/// An entry of the log of the ledger.
#[derive(Clone, Debug)]
pub struct DbMigrationLog {
    pub number: i32,
    pub name: String,
    /// When the operation took place, in nanoseconds since the Unix epoch.
    pub timestamp: i128,
    /// The tag of the operation.
    pub operation: String,
}

/// An operation on the ledger.
#[derive(Clone, Copy, Debug, PartialEq, Eq, Structural, Hash)]
pub enum LogOperation {
    /// A migration was run and recorded.
    Apply,
    /// The record of a migration was set to the name and hash of its file.
    Update,
    /// The record of a migration was removed.
    Delete,
    /// A migration was recorded without being run.
    Fake,
}

impl LogOperation {
    /// The tag of the operation in the log.
    pub open spec fn tag(self) -> Seq<char> {
        match self {
            LogOperation::Apply => "apply"@,
            LogOperation::Update => "update"@,
            LogOperation::Delete => "delete"@,
            LogOperation::Fake => "fake"@,
        }
    }

    /// The operation that a tag of the log stands for.
    pub open spec fn parsed(tag: Seq<char>) -> Option<LogOperation> {
        if tag == "apply"@ {
            Some(LogOperation::Apply)
        } else if tag == "update"@ {
            Some(LogOperation::Update)
        } else if tag == "delete"@ {
            Some(LogOperation::Delete)
        } else if tag == "fake"@ {
            Some(LogOperation::Fake)
        } else {
            None
        }
    }

    /// The tag of the operation in the log.
    pub fn as_str(self) -> (r: &'static str)
        ensures
            r@ == self.tag(),
    {
        match self {
            LogOperation::Apply => "apply",
            LogOperation::Update => "update",
            LogOperation::Delete => "delete",
            LogOperation::Fake => "fake",
        }
    }

    /// Reads a tag of the log. A tag that stands for none of the four
    /// operations gives none.
    pub fn parse(tag: &str) -> (r: Option<LogOperation>)
        ensures
            r == Self::parsed(tag@),
    {
        let chars = chars_of(tag);
        if chars_eq(&chars, "apply") {
            Some(LogOperation::Apply)
        } else if chars_eq(&chars, "update") {
            Some(LogOperation::Update)
        } else if chars_eq(&chars, "delete") {
            Some(LogOperation::Delete)
        } else if chars_eq(&chars, "fake") {
            Some(LogOperation::Fake)
        } else {
            None
        }
    }
}

impl DbMigrationLog {
    /// The operation of the entry, if its tag is one of the four known tags.
    pub fn operation(&self) -> (r: Option<LogOperation>)
        ensures
            r == LogOperation::parsed(self.operation@),
    {
        LogOperation::parse(self.operation.as_str())
    }
}

/// How often `c` stands in `s`.
pub open spec fn count_char(s: Seq<char>, c: char) -> nat
    decreases s.len(),
{
    if s.len() == 0 {
        0
    } else if s.last() == c {
        count_char(s.drop_last(), c) + 1
    } else {
        count_char(s.drop_last(), c)
    }
}

/// A run of `n` spaces.
pub open spec fn spaces(n: nat) -> Seq<char> {
    Seq::new(n, |i: int| ' ')
}

/// The place in a text that the offset `position` points at.
pub struct SourcePlace {
    /// The number of the line, from 1: one more than the line breaks before the offset.
    pub line: nat,
    /// Where the line starts: after the last line break before the offset.
    pub begin: int,
    /// Where the line ends: at the first line break at or after the offset,
    /// or at the end of the text.
    pub end: int,
}

/// The line of `sql` that holds the offset `position`.
pub open spec fn place_of(sql: Seq<char>, position: int) -> SourcePlace
    recommends
        0 <= position <= sql.len(),
{
    let rest = sql.skip(position);
    SourcePlace {
        line: count_char(sql.take(position), '\n') + 1,
        begin: last_index(sql.take(position), '\n') + 1,
        end: if first_index(rest, '\n') < 0 {
            sql.len() as int
        } else {
            position + first_index(rest, '\n')
        },
    }
}

/// The message that shows the line of `sql` that holds the offset
/// `position`, with a caret under the character before the offset: `LINE`,
/// the number of the line, a colon and the line, then as many spaces as put
/// the caret in its place.
pub open spec fn marked_line(sql: Seq<char>, position: int) -> Seq<char>
    recommends
        0 <= position <= sql.len(),
{
    let place = place_of(sql, position);
    let prefix = "LINE "@ + decimal(place.line as int) + ": "@;
    prefix + sql.subrange(place.begin, place.end) + spaces(
        (prefix.len() + (position - place.begin) - 1) as nat,
    ) + seq!['^']
}

/// The message of the error for a statement that the database refused.
/// Where the database gave an offset into the text and the offset lies
/// within it, the message shows the line; else it is the cause as the
/// database worded it.
pub open spec fn sql_error_text(sql: Seq<char>, position: Option<u32>, cause: Seq<char>) -> Seq<
    char,
> {
    match position {
        Some(p) if p <= sql.len() => marked_line(sql, p as int),
        _ => "SQL error: "@ + cause,
    }
}

/// The number of digits and other characters of the prefix is never zero.
proof fn lemma_decimal_len(n: nat)
    ensures
        crate::number::digits(n).len() >= 1,
    decreases n,
{
    if n >= 10 {
        lemma_decimal_len(n / 10);
    }
}

/// Builds the error for a statement that the database refused. `position`
/// is the offset into `sql` that the database gave, counted in characters;
/// `cause` is the error as the database worded it.
pub fn to_sql_error(sql: &str, position: Option<u32>, cause: &str) -> (e: Error)
    ensures
        e is Sql,
        e.text() == sql_error_text(sql@, position, cause@),
{
    let chars = chars_of(sql);
    let len = chars.len();
    let p: usize = match position {
        Some(p) if (p as usize) <= len => p as usize,
        _ => {
            let mut m = String::from_str("SQL error: ");
            m.append(cause);
            return Error::Sql(m);
        },
    };
    // The start of the line and the number of line breaks before the offset.
    let mut begin: usize = 0;
    let mut breaks: u64 = 0;
    let mut i: usize = 0;
    assert(chars@.take(0) =~= Seq::empty());
    while i < p
        invariant
            i <= p <= chars@.len(),
            begin <= i,
            breaks <= i,
            begin as int == last_index(chars@.take(i as int), '\n') + 1,
            breaks as nat == count_char(chars@.take(i as int), '\n'),
        decreases p - i,
    {
        proof {
            let next = chars@.take(i + 1);
            assert(next.drop_last() =~= chars@.take(i as int));
            assert(next.last() == chars@[i as int]);
        }
        if chars[i] == '\n' {
            begin = i + 1;
            breaks += 1;
        }
        i += 1;
    }
    // The end of the line.
    let mut end: usize = p;
    proof {
        lemma_first_index(chars@.skip(p as int), '\n');
    }
    while end < len && chars[end] != '\n'
        invariant
            p <= end <= len,
            len == chars@.len(),
            forall|j: int| p <= j < end ==> chars@[j] != '\n',
        decreases len - end,
    {
        end += 1;
    }
    proof {
        let rest = chars@.skip(p as int);
        lemma_first_index(rest, '\n');
        let f = first_index(rest, '\n');
        assert forall|j: int| 0 <= j < end - p implies rest[j] != '\n' by {
            assert(rest[j] == chars@[p + j]);
        }
        if end < len {
            assert(rest[end - p] == '\n');
        }
        assert(end as int == place_of(chars@, p as int).end);
    }
    let mut m = String::from_str("LINE ");
    let number = u64_to_string(breaks + 1);
    m.append(number.as_str());
    m.append(": ");
    let ghost prefix = m@;
    proof {
        reveal_strlit("LINE ");
        reveal_strlit(": ");
        lemma_decimal_len((breaks + 1) as nat);
        assert(prefix.len() == 5 + number@.len() + 2);
    }
    let prefix_len = m.as_str().unicode_len();
    let line = sql.substring_char(begin, end);
    m.append(line);
    let ghost with_line = m@;
    let count: u128 = prefix_len as u128 + (p - begin) as u128 - 1;
    let mut k: u128 = 0;
    assert(spaces(0) =~= Seq::empty());
    while k < count
        invariant
            k <= count,
            m@ == with_line + spaces(k as nat),
        decreases count - k,
    {
        proof {
            reveal_strlit(" ");
        }
        m.append(" ");
        assert(m@ =~= with_line + spaces((k + 1) as nat));
        k += 1;
    }
    proof {
        reveal_strlit("^");
    }
    m.append("^");
    assert(m@ =~= marked_line(sql@, p as int));
    Error::Sql(m)
}

} // verus!
