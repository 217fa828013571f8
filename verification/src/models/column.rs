//! Table columns.

use crate::change::{changes_of, ChangeType};
use crate::diff::{Diff, DiffSql, DiffView, Keyed, Unsupported};
use crate::sql::{quote_ident, quoted};
use crate::text::{join, joined, texts};
use vstd::prelude::*;
use vstd::std_specs::cmp::PartialEqSpecImpl;
use vstd::string::*;

verus! {

/// Whether a column is an identity column, and of which kind.
#[derive(Clone, Copy, Debug, PartialEq, Eq, Structural, Hash)]
pub enum Identity {
    No,
    Always,
    Default,
}

/// Whether the value of a column is computed from an expression.
#[derive(Clone, Debug)]
pub enum Generated {
    No,
    /// The value is stored; the variant holds the expression.
    Stored(String),
}

/// A column of a table.
#[derive(Clone, Debug)]
pub struct Column {
    /// The position of the column in its table.
    pub num: u16,
    pub name: String,
    /// The declared type.
    pub ty: String,
    pub notnull: bool,
    pub identity: Identity,
    pub generated: Generated,
    /// The default expression; for an identity column the options of its sequence.
    pub default: Option<String>,
}

/// The characters of an optional string.
pub open spec fn opt_text(s: Option<String>) -> Option<Seq<char>> {
    match s {
        Some(s) => Some(s@),
        None => None,
    }
}

/// Whether two optional strings hold the same text, or both none.
pub fn opt_eq(a: &Option<String>, b: &Option<String>) -> (r: bool)
    ensures
        r == (opt_text(*a) == opt_text(*b)),
{
    match (a, b) {
        (Some(x), Some(y)) => *x == *y,
        (None, None) => true,
        _ => false,
    }
}

impl Generated {
    /// The expression of a stored column.
    pub open spec fn expression(self) -> Option<Seq<char>> {
        match self {
            Generated::No => None,
            Generated::Stored(e) => Some(e@),
        }
    }
}

impl PartialEq for Generated {
    fn eq(&self, other: &Self) -> (r: bool) {
        match (self, other) {
            (Generated::No, Generated::No) => true,
            (Generated::Stored(a), Generated::Stored(b)) => *a == *b,
            _ => false,
        }
    }
}

impl PartialEqSpecImpl for Generated {
    open spec fn obeys_eq_spec() -> bool {
        true
    }

    open spec fn eq_spec(&self, other: &Self) -> bool {
        self.expression() == other.expression()
    }
}

/// A column as plain values.
pub struct ColumnView {
    pub num: u16,
    pub name: Seq<char>,
    pub ty: Seq<char>,
    pub notnull: bool,
    pub identity: Identity,
    /// The expression of a stored column.
    pub generated: Option<Seq<char>>,
    pub default: Option<Seq<char>>,
}

impl View for Column {
    type V = ColumnView;

    open spec fn view(&self) -> ColumnView {
        ColumnView {
            num: self.num,
            name: self.name@,
            ty: self.ty@,
            notnull: self.notnull,
            identity: self.identity,
            generated: self.generated.expression(),
            default: opt_text(self.default),
        }
    }
}

impl PartialEq for Column {
    fn eq(&self, other: &Self) -> (r: bool) {
        self.num == other.num && self.name == other.name && self.ty == other.ty && self.notnull
            == other.notnull && self.identity == other.identity && self.generated
            == other.generated && opt_eq(&self.default, &other.default)
    }
}

impl PartialEqSpecImpl for Column {
    open spec fn obeys_eq_spec() -> bool {
        true
    }

    open spec fn eq_spec(&self, other: &Self) -> bool {
        self@ == other@
    }
}

impl Keyed for Column {
    type Key = Seq<char>;

    open spec fn key(&self) -> Seq<char> {
        self.name@
    }

    open spec fn index_text(k: Seq<char>) -> Seq<char> {
        k
    }

    fn index_key(&self) -> (r: String) {
        self.name.clone()
    }

    fn same_key(&self, other: &Self) -> (r: bool) {
        self.name == other.name
    }
}

/// The words that declare an identity column of the kind `identity`.
pub open spec fn identity_words(identity: Identity) -> Seq<char> {
    match identity {
        Identity::No => Seq::empty(),
        Identity::Always => "GENERATED ALWAYS AS IDENTITY"@,
        Identity::Default => "GENERATED BY DEFAULT AS IDENTITY"@,
    }
}

impl ColumnView {
    /// The sequence options of an identity column, in parentheses.
    pub open spec fn identity_options(self) -> Seq<char> {
        match self.default {
            Some(d) => "("@ + d + ")"@,
            None => Seq::empty(),
        }
    }

    /// The parts of the definition of the column.
    pub open spec fn sql_parts(self) -> Seq<Seq<char>> {
        seq![quoted(self.name), self.ty] + (if self.notnull {
            seq!["NOT NULL"@]
        } else {
            seq![]
        }) + (match self.generated {
            Some(e) => seq!["GENERATED ALWAYS AS "@ + e + " STORED"@],
            None => seq![],
        }) + (match self.identity {
            Identity::No => seq![],
            _ => seq![identity_words(self.identity) + self.identity_options()],
        })
    }

    /// The definition of the column as it stands in `CREATE TABLE`.
    pub open spec fn sql(self) -> Seq<char> {
        joined(self.sql_parts(), " "@)
    }

    /// The clause of `ALTER TABLE` that removes the column.
    pub open spec fn drop_sql(self) -> Seq<char> {
        "DROP COLUMN "@ + quoted(self.name)
    }

    /// The clause of `ALTER TABLE` that adds the column.
    pub open spec fn add_sql(self) -> Seq<char> {
        "ADD COLUMN "@ + self.sql()
    }

    /// The start of every clause that alters the column.
    pub open spec fn alter_prefix(self) -> Seq<char> {
        "ALTER COLUMN "@ + quoted(self.name) + " "@
    }

    /// The clause that changes the type to that of `to`, if the types differ.
    pub open spec fn alter_type(self, to: ColumnView) -> Seq<Seq<char>> {
        if self.ty != to.ty {
            seq![to.alter_prefix() + "TYPE "@ + to.ty]
        } else {
            seq![]
        }
    }

    /// The clause that changes whether the column takes nulls.
    pub open spec fn alter_notnull(self, to: ColumnView) -> Seq<Seq<char>> {
        if self.notnull == to.notnull {
            seq![]
        } else if to.notnull {
            seq![to.alter_prefix() + "SET NOT NULL"@]
        } else {
            seq![to.alter_prefix() + "DROP NOT NULL"@]
        }
    }

    /// Whether the column is neither computed nor an identity column, so
    /// that `default` is its default expression.
    pub open spec fn is_plain(self) -> bool {
        self.generated is None && self.identity is No
    }

    /// The default expression of the column: none for a computed or an
    /// identity column, whose `default` says something else.
    pub open spec fn plain_default(self) -> Option<Seq<char>> {
        if self.is_plain() {
            self.default
        } else {
            None
        }
    }

    /// The clause that changes the expression the column is computed from.
    /// The `default` of a stored column is its expression as the catalog
    /// holds it, so the expression is also set where only `default` differs.
    pub open spec fn alter_generated(self, to: ColumnView) -> Seq<Seq<char>> {
        match to.generated {
            Some(e) => if self.generated == to.generated && self.default == to.default {
                seq![]
            } else {
                seq![to.alter_prefix() + "SET EXPRESSION AS ("@ + e + ")"@]
            },
            None => if self.generated is Some {
                seq![to.alter_prefix() + "DROP EXPRESSION"@]
            } else {
                seq![]
            },
        }
    }

    /// The clause that adds the identity of `self` to a column.
    pub open spec fn add_identity(self) -> Seq<char> {
        self.alter_prefix() + "ADD "@ + identity_words(self.identity) + self.identity_options()
    }

    /// The clauses that change the identity of the column. Where both
    /// columns are identity columns with the same sequence options, the kind
    /// is set; where the options differ, the identity is dropped and added
    /// again with the options of `to`.
    pub open spec fn alter_identity(self, to: ColumnView) -> Seq<Seq<char>> {
        if to.identity is No {
            if self.identity is No {
                seq![]
            } else {
                seq![to.alter_prefix() + "DROP IDENTITY"@]
            }
        } else if self.identity is No {
            seq![to.add_identity()]
        } else if self.default != to.default {
            seq![to.alter_prefix() + "DROP IDENTITY"@, to.add_identity()]
        } else if self.identity == to.identity {
            seq![]
        } else if to.identity is Always {
            seq![to.alter_prefix() + "SET GENERATED ALWAYS"@]
        } else {
            seq![to.alter_prefix() + "SET GENERATED BY DEFAULT"@]
        }
    }

    /// The clause that changes the default of a column that is neither
    /// computed nor an identity column. A column that was computed or an
    /// identity column had no default before.
    pub open spec fn alter_default(self, to: ColumnView) -> Seq<Seq<char>> {
        if !to.is_plain() || self.plain_default() == to.default {
            seq![]
        } else {
            match to.default {
                Some(d) => seq![to.alter_prefix() + "SET DEFAULT "@ + d],
                None => seq![to.alter_prefix() + "DROP DEFAULT"@],
            }
        }
    }

    /// Whether two columns agree in everything that a clause can change:
    /// type, nullability, identity, expression and default. The name
    /// identifies a column and the position cannot be altered.
    pub open spec fn same_definition(self, to: ColumnView) -> bool {
        &&& self.ty == to.ty
        &&& self.notnull == to.notnull
        &&& self.identity == to.identity
        &&& self.generated == to.generated
        &&& self.default == to.default
    }

    /// The clauses of `ALTER TABLE` that turn this column into the column
    /// `to` of the same name, in this order: type, nullability, expression,
    /// identity, default. There is a clause whenever the two differ in any
    /// of these (see [`altered_exactly_when_different`]); a column that
    /// differs only in its position has no clause.
    pub open spec fn alter_sql(self, to: ColumnView) -> Seq<Seq<char>> {
        self.alter_type(to) + self.alter_notnull(to) + self.alter_generated(to)
            + self.alter_identity(to) + self.alter_default(to)
    }
}

/// Two columns have no clause between them exactly when they agree in type,
/// nullability, identity, expression and default: no difference in any of
/// these is passed over.
pub proof fn altered_exactly_when_different(a: ColumnView, b: ColumnView)
    ensures
        a.alter_sql(b).len() == 0 <==> a.same_definition(b),
{
}

/// `"ALTER COLUMN "`, the quoted name and a space.
fn alter_prefix(name: &str) -> (r: String)
    ensures
        r@ == "ALTER COLUMN "@ + quoted(name@) + " "@,
{
    let mut r = String::from_str("ALTER COLUMN ");
    let q = quote_ident(name);
    r.append(q.as_str());
    r.append(" ");
    r
}

/// The words that declare an identity column.
fn identity_sql(identity: Identity) -> (r: String)
    ensures
        r@ == identity_words(identity),
{
    match identity {
        Identity::No => String::new(),
        Identity::Always => String::from_str("GENERATED ALWAYS AS IDENTITY"),
        Identity::Default => String::from_str("GENERATED BY DEFAULT AS IDENTITY"),
    }
}

impl Column {
    /// Whether the column is neither computed nor an identity column.
    pub fn is_plain(&self) -> (r: bool)
        ensures
            r == self@.is_plain(),
    {
        match (&self.generated, self.identity) {
            (Generated::No, Identity::No) => true,
            _ => false,
        }
    }

    /// The clause that adds the identity of this column to a column.
    fn add_identity(&self) -> (r: String)
        ensures
            r@ == self@.add_identity(),
    {
        let mut s = alter_prefix(self.name.as_str());
        s.append("ADD ");
        let words = identity_sql(self.identity);
        s.append(words.as_str());
        let options = self.identity_options();
        s.append(options.as_str());
        s
    }

    /// The sequence options of an identity column, in parentheses.
    fn identity_options(&self) -> (r: String)
        ensures
            r@ == self@.identity_options(),
    {
        match &self.default {
            Some(d) => {
                let mut r = String::from_str("(");
                r.append(d.as_str());
                r.append(")");
                r
            },
            None => String::new(),
        }
    }

    /// Renders the definition of the column as it stands in `CREATE TABLE`:
    /// the quoted name, the type, `NOT NULL`, the expression of a stored
    /// column and the identity clause, as far as the column has them, with a
    /// space between each two.
    pub fn sql(&self) -> (r: String)
        ensures
            r@ == self@.sql(),
    {
        let mut parts: Vec<String> = Vec::new();
        parts.push(quote_ident(self.name.as_str()));
        parts.push(self.ty.clone());
        assert(texts(parts@) =~= seq![quoted(self@.name), self@.ty]);
        let ghost head = texts(parts@);
        if self.notnull {
            parts.push(String::from_str("NOT NULL"));
        }
        let ghost with_null = texts(parts@);
        assert(with_null =~= head + (if self@.notnull {
            seq!["NOT NULL"@]
        } else {
            seq![]
        }));
        match &self.generated {
            Generated::Stored(e) => {
                let mut s = String::from_str("GENERATED ALWAYS AS ");
                s.append(e.as_str());
                s.append(" STORED");
                parts.push(s);
            },
            Generated::No => {},
        }
        let ghost with_generated = texts(parts@);
        assert(with_generated =~= with_null + (match self@.generated {
            Some(e) => seq!["GENERATED ALWAYS AS "@ + e + " STORED"@],
            None => seq![],
        }));
        match self.identity {
            Identity::No => {},
            _ => {
                let mut s = identity_sql(self.identity);
                let options = self.identity_options();
                s.append(options.as_str());
                parts.push(s);
            },
        }
        assert(texts(parts@) =~= with_generated + (match self@.identity {
            Identity::No => seq![],
            _ => seq![identity_words(self@.identity) + self@.identity_options()],
        }));
        join(&parts, " ")
    }

    /// Renders the clauses of `ALTER TABLE` that turn this column into `to`.
    pub fn alter_sql(&self, to: &Column) -> (r: Vec<String>)
        ensures
            texts(r@) == self@.alter_sql(to@),
    {
        let mut r: Vec<String> = Vec::new();
        assert(texts(r@) =~= Seq::empty());
        if self.ty != to.ty {
            let mut s = alter_prefix(to.name.as_str());
            s.append("TYPE ");
            s.append(to.ty.as_str());
            r.push(s);
        }
        assert(texts(r@) =~= self@.alter_type(to@));
        let ghost done = texts(r@);
        if self.notnull != to.notnull {
            let mut s = alter_prefix(to.name.as_str());
            if to.notnull {
                s.append("SET NOT NULL");
            } else {
                s.append("DROP NOT NULL");
            }
            r.push(s);
        }
        assert(texts(r@) =~= done + self@.alter_notnull(to@));
        let ghost done = texts(r@);
        match &to.generated {
            Generated::Stored(e) => {
                if self.generated != to.generated || !opt_eq(&self.default, &to.default) {
                    let mut s = alter_prefix(to.name.as_str());
                    s.append("SET EXPRESSION AS (");
                    s.append(e.as_str());
                    s.append(")");
                    r.push(s);
                }
            },
            Generated::No => {
                if let Generated::Stored(_) = &self.generated {
                    let mut s = alter_prefix(to.name.as_str());
                    s.append("DROP EXPRESSION");
                    r.push(s);
                }
            },
        }
        assert(texts(r@) =~= done + self@.alter_generated(to@));
        let ghost done = texts(r@);
        match (self.identity, to.identity) {
            (Identity::No, Identity::No) => {},
            (_, Identity::No) => {
                let mut s = alter_prefix(to.name.as_str());
                s.append("DROP IDENTITY");
                r.push(s);
            },
            (Identity::No, _) => {
                r.push(to.add_identity());
            },
            _ => {
                if !opt_eq(&self.default, &to.default) {
                    let mut s = alter_prefix(to.name.as_str());
                    s.append("DROP IDENTITY");
                    r.push(s);
                    r.push(to.add_identity());
                } else if self.identity != to.identity {
                    let mut s = alter_prefix(to.name.as_str());
                    match to.identity {
                        Identity::Always => {
                            s.append("SET GENERATED ALWAYS");
                        },
                        _ => {
                            s.append("SET GENERATED BY DEFAULT");
                        },
                    }
                    r.push(s);
                }
            },
        }
        assert(texts(r@) =~= done + self@.alter_identity(to@));
        let ghost done = texts(r@);
        let changed = to.is_plain() && if self.is_plain() {
            !opt_eq(&self.default, &to.default)
        } else {
            to.default.is_some()
        };
        if changed {
            let mut s = alter_prefix(to.name.as_str());
            match &to.default {
                Some(d) => {
                    s.append("SET DEFAULT ");
                    s.append(d.as_str());
                },
                None => {
                    s.append("DROP DEFAULT");
                },
            }
            r.push(s);
        }
        assert(texts(r@) =~= done + self@.alter_default(to@));
        r
    }
}

/// The columns of a list as plain values.
pub open spec fn column_views(columns: Seq<Column>) -> Seq<ColumnView> {
    columns.map_values(|c: Column| c@)
}

/// Whether two lists hold equal columns in the same order.
pub fn columns_eq(a: &Vec<Column>, b: &Vec<Column>) -> (r: bool)
    ensures
        r == (column_views(a@) == column_views(b@)),
{
    if a.len() != b.len() {
        assert(column_views(a@).len() != column_views(b@).len());
        return false;
    }
    let mut i: usize = 0;
    while i < a.len()
        invariant
            i <= a@.len(),
            a@.len() == b@.len(),
            forall|j: int| 0 <= j < i ==> a@[j]@ == b@[j]@,
        decreases a@.len() - i,
    {
        if a[i] != b[i] {
            assert(column_views(a@)[i as int] != column_views(b@)[i as int]);
            return false;
        }
        i += 1;
    }
    assert(column_views(a@) =~= column_views(b@));
    true
}

/// The change that removes a column.
pub open spec fn drop_column() -> spec_fn(Column) -> (ChangeType, Seq<char>) {
    |c: Column| (ChangeType::DropColumn, c@.drop_sql())
}

/// The change that adds a column.
pub open spec fn add_column() -> spec_fn(Column) -> (ChangeType, Seq<char>) {
    |c: Column| (ChangeType::CreateColumn, c@.add_sql())
}

/// A clause as a change that alters a column.
pub open spec fn alter_clause() -> spec_fn(Seq<char>) -> (ChangeType, Seq<char>) {
    |s: Seq<char>| (ChangeType::AlterColumn, s)
}

/// The changes that alter the first column of a pair into the second.
pub open spec fn alter_column() -> spec_fn((Column, Column)) -> Seq<(ChangeType, Seq<char>)> {
    |p: (Column, Column)| p.0@.alter_sql(p.1@).map_values(alter_clause())
}

/// The changes to the columns of a table: a clause that drops each column
/// that only the first side has, the clauses that alter each column that both
/// sides have, and a clause that adds each column that only the second side
/// has.
pub open spec fn column_changes(d: DiffView<Column>) -> Seq<(ChangeType, Seq<char>)> {
    d.a_only.map_values(drop_column()) + d.a_and_b.flat_map(alter_column()) + d.b_only.map_values(
        add_column(),
    )
}

impl<'a> DiffSql for Diff<'a, Column> {
    open spec fn unsupported(&self) -> Option<(ChangeType, Seq<char>)> {
        None
    }

    open spec fn changes(&self) -> Seq<(ChangeType, Seq<char>)> {
        column_changes(self@)
    }

    fn sql(&self) -> (r: Result<Vec<(ChangeType, String)>, Unsupported>) {
        let mut v: Vec<(ChangeType, String)> = Vec::new();
        let mut i: usize = 0;
        while i < self.a_only.len()
            invariant
                i <= self.a_only@.len(),
                changes_of(v@) == self@.a_only.take(i as int).map_values(drop_column()),
            decreases self.a_only@.len() - i,
        {
            let a = self.a_only[i];
            let mut s = String::from_str("DROP COLUMN ");
            let q = quote_ident(a.name.as_str());
            s.append(q.as_str());
            let ghost before = changes_of(v@);
            v.push((ChangeType::DropColumn, s));
            proof {
                let done = self@.a_only.take(i as int);
                assert(self@.a_only[i as int] == *a);
                assert(changes_of(v@) =~= before.push(drop_column()(*a)));
                assert(self@.a_only.take(i + 1) =~= done.push(*a));
                assert(done.push(*a).map_values(drop_column()) =~= done.map_values(
                    drop_column(),
                ).push(drop_column()(*a)));
            }
            i += 1;
        }
        assert(self@.a_only.take(i as int) =~= self@.a_only);
        let ghost dropped = changes_of(v@);
        let mut i: usize = 0;
        while i < self.a_and_b.len()
            invariant
                i <= self.a_and_b@.len(),
                changes_of(v@) == dropped + self@.a_and_b.take(i as int).flat_map(alter_column()),
            decreases self.a_and_b@.len() - i,
        {
            let (a, b) = self.a_and_b[i];
            let clauses = a.alter_sql(b);
            let ghost before = changes_of(v@);
            let mut k: usize = 0;
            while k < clauses.len()
                invariant
                    k <= clauses@.len(),
                    changes_of(v@) == before + texts(clauses@).take(k as int).map_values(
                        alter_clause(),
                    ),
                decreases clauses@.len() - k,
            {
                let ghost pushed = changes_of(v@);
                v.push((ChangeType::AlterColumn, clauses[k].clone()));
                proof {
                    let clause = texts(clauses@)[k as int];
                    let done = texts(clauses@).take(k as int);
                    assert(changes_of(v@) =~= pushed.push(alter_clause()(clause)));
                    assert(texts(clauses@).take(k + 1) =~= done.push(clause));
                    assert(done.push(clause).map_values(alter_clause()) =~= done.map_values(
                        alter_clause(),
                    ).push(alter_clause()(clause)));
                }
                k += 1;
            }
            proof {
                assert(texts(clauses@).take(k as int) =~= texts(clauses@));
                let done = self@.a_and_b.take(i as int);
                assert(self@.a_and_b.take(i + 1) =~= done.push(self@.a_and_b[i as int]));
                done.lemma_flat_map_push(alter_column(), self@.a_and_b[i as int]);
                assert(changes_of(v@) =~= dropped + self@.a_and_b.take(i + 1).flat_map(
                    alter_column(),
                ));
            }
            i += 1;
        }
        assert(self@.a_and_b.take(i as int) =~= self@.a_and_b);
        let ghost altered = changes_of(v@);
        let mut i: usize = 0;
        while i < self.b_only.len()
            invariant
                i <= self.b_only@.len(),
                changes_of(v@) == altered + self@.b_only.take(i as int).map_values(add_column()),
            decreases self.b_only@.len() - i,
        {
            let b = self.b_only[i];
            let mut s = String::from_str("ADD COLUMN ");
            let definition = b.sql();
            s.append(definition.as_str());
            let ghost before = changes_of(v@);
            v.push((ChangeType::CreateColumn, s));
            proof {
                let done = self@.b_only.take(i as int);
                assert(self@.b_only[i as int] == *b);
                assert(changes_of(v@) =~= before.push(add_column()(*b)));
                assert(self@.b_only.take(i + 1) =~= done.push(*b));
                assert(done.push(*b).map_values(add_column()) =~= done.map_values(
                    add_column(),
                ).push(add_column()(*b)));
            }
            i += 1;
        }
        assert(self@.b_only.take(i as int) =~= self@.b_only);
        Ok(v)
    }
}

} // verus!
