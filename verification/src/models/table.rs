//! Tables.

use crate::change::{changes_of, sort_changes, sorted_changes, sql_of, sql_texts, ChangeType};
use crate::diff::{
    diff, diff_of, lemma_flat_map_contains, lemma_flat_map_len, lemma_flat_map_nothing, Diff,
    DiffSql, DiffView, Keyed, Unsupported,
};
use crate::models::column::{
    alter_column, altered_exactly_when_different, column_changes, column_views, columns_eq, Column,
};
use crate::queries::{Class, Relkind};
use crate::sql::{quote_ident, quoted};
use crate::text::{join, joined, texts};
use vstd::prelude::*;
use vstd::std_specs::cmp::PartialEqSpecImpl;
use vstd::string::*;

verus! {

/// A table with its columns in the order of their positions.
#[derive(Clone, Debug)]
pub struct Table {
    pub schema: String,
    pub name: String,
    pub kind: Relkind,
    pub columns: Vec<Column>,
}

/// A relation of a kind that cannot be read as a table.
#[derive(Clone, Copy, Debug)]
pub struct InvalidRelkind(pub Relkind);

impl InvalidRelkind {
    /// The message of the error.
    pub fn to_string(&self) -> (r: String)
        ensures
            r@ == "Unsupported table for table: "@ + self.0.text(),
    {
        let mut r = String::from_str("Unsupported table for table: ");
        let kind = self.0.to_string();
        r.append(kind.as_str());
        r
    }
}

impl Table {
    /// Whether two tables are equal: schema, name, kind, and the columns in
    /// their order.
    pub open spec fn same(&self, other: &Table) -> bool {
        &&& self.schema@ == other.schema@
        &&& self.name@ == other.name@
        &&& self.kind == other.kind
        &&& column_views(self.columns@) == column_views(other.columns@)
    }
}

impl PartialEq for Table {
    fn eq(&self, other: &Self) -> (r: bool) {
        self.schema == other.schema && self.name == other.name && self.kind == other.kind
            && columns_eq(&self.columns, &other.columns)
    }
}

impl PartialEqSpecImpl for Table {
    open spec fn obeys_eq_spec() -> bool {
        true
    }

    open spec fn eq_spec(&self, other: &Self) -> bool {
        self.same(other)
    }
}

impl Keyed for Table {
    type Key = Seq<char>;

    open spec fn key(&self) -> Seq<char> {
        self.name@
    }

    open spec fn index_text(k: Seq<char>) -> Seq<char> {
        k
    }

    fn index_key(&self) -> (r: String) {
        self.name.clone()
    }

    fn same_key(&self, other: &Self) -> (r: bool) {
        self.name == other.name
    }
}

/// The definition of a column.
pub open spec fn column_sql() -> spec_fn(Column) -> Seq<char> {
    |c: Column| c@.sql()
}

impl Table {
    /// The quoted names of schema and table with a dot between them.
    pub open spec fn qualified_name(&self) -> Seq<char> {
        quoted(self.schema@) + "."@ + quoted(self.name@)
    }

    /// The statement that creates the table: its columns, each on a line of
    /// its own, in their order.
    pub open spec fn create_text(&self) -> Seq<char> {
        "CREATE TABLE "@ + self.qualified_name() + " (\n    "@ + joined(
            self.columns@.map_values(column_sql()),
            ",\n    "@,
        ) + "\n);\n"@
    }

    /// The statement that drops the table.
    pub open spec fn drop_text(&self) -> Seq<char> {
        "DROP TABLE "@ + self.qualified_name() + ";\n"@
    }

    /// The one statement that carries all changes to the columns of the
    /// table: the clauses in the order of a script, each on a line of its own.
    pub open spec fn alter_text(&self, clauses: Seq<(ChangeType, Seq<char>)>) -> Seq<char> {
        "ALTER TABLE "@ + self.qualified_name() + "\n    "@ + joined(
            sql_of(sorted_changes(clauses)),
            ",\n    "@,
        ) + ";\n"@
    }

    /// The quoted names of schema and table with a dot between them.
    fn qualified(&self) -> (r: String)
        ensures
            r@ == self.qualified_name(),
    {
        let mut r = quote_ident(self.schema.as_str());
        r.append(".");
        let name = quote_ident(self.name.as_str());
        r.append(name.as_str());
        r
    }

    /// Reads a relation as a table.
    pub fn try_from(cls: Class) -> (r: Result<Table, InvalidRelkind>)
        ensures
            r == Ok::<Table, InvalidRelkind>(
                Table {
                    schema: cls.schema,
                    name: cls.name,
                    kind: cls.relkind,
                    columns: cls.columns,
                },
            ),
    {
        Ok(Table { schema: cls.schema, name: cls.name, kind: cls.relkind, columns: cls.columns })
    }

    /// Renders the statement that creates the table.
    pub fn create(&self) -> (r: String)
        ensures
            r@ == self.create_text(),
    {
        let mut cols: Vec<String> = Vec::new();
        let mut i: usize = 0;
        while i < self.columns.len()
            invariant
                i <= self.columns@.len(),
                texts(cols@) == self.columns@.take(i as int).map_values(column_sql()),
            decreases self.columns@.len() - i,
        {
            let ghost before = texts(cols@);
            cols.push(self.columns[i].sql());
            proof {
                let c = self.columns@[i as int];
                let done = self.columns@.take(i as int);
                assert(texts(cols@) =~= before.push(column_sql()(c)));
                assert(self.columns@.take(i + 1) =~= done.push(c));
                assert(done.push(c).map_values(column_sql()) =~= done.map_values(
                    column_sql(),
                ).push(column_sql()(c)));
            }
            i += 1;
        }
        assert(self.columns@.take(i as int) =~= self.columns@);
        let mut r = String::from_str("CREATE TABLE ");
        let name = self.qualified();
        r.append(name.as_str());
        r.append(" (\n    ");
        let body = join(&cols, ",\n    ");
        r.append(body.as_str());
        r.append("\n);\n");
        r
    }

    /// Renders the statement that drops the table.
    pub fn drop(&self) -> (r: String)
        ensures
            r@ == self.drop_text(),
    {
        let mut r = String::from_str("DROP TABLE ");
        let name = self.qualified();
        r.append(name.as_str());
        r.append(";\n");
        r
    }

    /// Renders the one statement that carries the given changes to the
    /// columns of the table. The clauses are sorted into the order of a
    /// script first.
    pub fn alter_sql(&self, col_sql: Vec<(ChangeType, String)>) -> (r: String)
        ensures
            r@ == self.alter_text(changes_of(col_sql@)),
    {
        let sorted = sort_changes(col_sql);
        let clauses = sql_texts(&sorted);
        let mut r = String::from_str("ALTER TABLE ");
        let name = self.qualified();
        r.append(name.as_str());
        r.append("\n    ");
        let body = join(&clauses, ",\n    ");
        r.append(body.as_str());
        r.append(";\n");
        r
    }

    /// Compares the columns of two tables by name.
    pub fn diff_columns<'a>(&'a self, other: &'a Self) -> (d: Diff<'a, Column>)
        ensures
            d@ == diff_of(self.columns@, other.columns@),
    {
        diff(self.columns.as_slice(), other.columns.as_slice())
    }
}

/// The change that drops a table.
pub open spec fn drop_table() -> spec_fn(Table) -> (ChangeType, Seq<char>) {
    |t: Table| (ChangeType::DropTable, t.drop_text())
}

/// The change that creates a table.
pub open spec fn create_table() -> spec_fn(Table) -> (ChangeType, Seq<char>) {
    |t: Table| (ChangeType::CreateTable, t.create_text())
}

/// The changes that make the first table of a pair into the second: none
/// where no column changes, else one statement with all changes to the
/// columns.
pub open spec fn alter_table() -> spec_fn((Table, Table)) -> Seq<(ChangeType, Seq<char>)> {
    |p: (Table, Table)|
        {
            let clauses = column_changes(diff_of(p.0.columns@, p.1.columns@));
            if clauses.len() == 0 {
                seq![]
            } else {
                seq![(ChangeType::AlterColumn, p.1.alter_text(clauses))]
            }
        }
}

/// The changes to the tables of a schema: each table that only the first
/// side has is dropped, each table of both sides whose columns differ is
/// altered by one statement, and each table that only the second side has is
/// created.
pub open spec fn table_changes(d: DiffView<Table>) -> Seq<(ChangeType, Seq<char>)> {
    d.a_only.map_values(drop_table()) + d.a_and_b.flat_map(alter_table()) + d.b_only.map_values(
        create_table(),
    )
}

/// Whether the columns of two tables differ: one of them has a column that
/// the other lacks, or a column of both differs in type, nullability,
/// identity, expression or default.
pub open spec fn columns_differ(a: Table, b: Table) -> bool {
    let d = diff_of(a.columns@, b.columns@);
    d.a_only.len() > 0 || d.b_only.len() > 0 || exists|i: int|
        0 <= i < d.a_and_b.len() && !(#[trigger] d.a_and_b[i]).0@.same_definition(d.a_and_b[i].1@)
}

/// The test for a pair of tables that their columns differ.
pub open spec fn differing_tables() -> spec_fn((Table, Table)) -> bool {
    |p: (Table, Table)| columns_differ(p.0, p.1)
}

/// A pair of tables has one statement that alters the table where its
/// columns differ, and none where they do not.
pub proof fn altered_when_columns_differ(a: Table, b: Table)
    ensures
        alter_table()((a, b)).len() == if columns_differ(a, b) {
            1nat
        } else {
            0nat
        },
{
    let d = diff_of(a.columns@, b.columns@);
    let pairs = d.a_and_b;
    let altered = pairs.flat_map(alter_column());
    assert forall|i: int| 0 <= i < pairs.len() implies ((#[trigger] alter_column()(pairs[i])).len()
        == 0 <==> pairs[i].0@.same_definition(pairs[i].1@)) by {
        altered_exactly_when_different(pairs[i].0@, pairs[i].1@);
    }
    if exists|i: int|
        0 <= i < pairs.len() && !(#[trigger] pairs[i]).0@.same_definition(pairs[i].1@) {
        let i = choose|i: int|
            0 <= i < pairs.len() && !(#[trigger] pairs[i]).0@.same_definition(pairs[i].1@);
        let clauses = alter_column()(pairs[i]);
        assert(clauses.len() > 0);
        assert(clauses.contains(clauses[0]));
        lemma_flat_map_contains(pairs, alter_column(), i, clauses[0]);
        assert(altered.len() > 0);
    } else {
        assert forall|i: int| 0 <= i < pairs.len() implies (#[trigger] alter_column()(
            pairs[i],
        )).len() == 0 by {
            assert(pairs[i].0@.same_definition(pairs[i].1@));
        }
        lemma_flat_map_nothing(pairs, alter_column());
    }
}

/// The changes to the tables of a schema are one statement that drops for
/// each table that only the first side has, one statement that alters for
/// each pair of tables whose columns differ, and one statement that creates
/// for each table that only the second side has.
pub proof fn one_statement_for_each_changed_table(d: DiffView<Table>)
    ensures
        table_changes(d).len() == d.a_only.len() + d.a_and_b.filter(differing_tables()).len()
            + d.b_only.len(),
{
    assert forall|i: int| 0 <= i < d.a_and_b.len() implies (#[trigger] alter_table()(
        d.a_and_b[i],
    )).len() == if differing_tables()(d.a_and_b[i]) {
        1nat
    } else {
        0nat
    } by {
        altered_when_columns_differ(d.a_and_b[i].0, d.a_and_b[i].1);
    }
    lemma_flat_map_len(d.a_and_b, alter_table(), differing_tables(), 1);
}

impl<'a> DiffSql for Diff<'a, Table> {
    open spec fn unsupported(&self) -> Option<(ChangeType, Seq<char>)> {
        None
    }

    open spec fn changes(&self) -> Seq<(ChangeType, Seq<char>)> {
        table_changes(self@)
    }

    fn sql(&self) -> (r: Result<Vec<(ChangeType, String)>, Unsupported>) {
        let mut v: Vec<(ChangeType, String)> = Vec::new();
        let mut i: usize = 0;
        while i < self.a_only.len()
            invariant
                i <= self.a_only@.len(),
                changes_of(v@) == self@.a_only.take(i as int).map_values(drop_table()),
            decreases self.a_only@.len() - i,
        {
            let a = self.a_only[i];
            let ghost before = changes_of(v@);
            v.push((ChangeType::DropTable, a.drop()));
            proof {
                let done = self@.a_only.take(i as int);
                assert(self@.a_only[i as int] == *a);
                assert(changes_of(v@) =~= before.push(drop_table()(*a)));
                assert(self@.a_only.take(i + 1) =~= done.push(*a));
                assert(done.push(*a).map_values(drop_table()) =~= done.map_values(
                    drop_table(),
                ).push(drop_table()(*a)));
            }
            i += 1;
        }
        assert(self@.a_only.take(i as int) =~= self@.a_only);
        let ghost dropped = changes_of(v@);
        let mut i: usize = 0;
        while i < self.a_and_b.len()
            invariant
                i <= self.a_and_b@.len(),
                changes_of(v@) == dropped + self@.a_and_b.take(i as int).flat_map(alter_table()),
            decreases self.a_and_b@.len() - i,
        {
            let (a, b) = self.a_and_b[i];
            let ghost before = changes_of(v@);
            let columns = a.diff_columns(b);
            match columns.sql() {
                Ok(col_sql) => {
                    if col_sql.len() > 0 {
                        v.push((ChangeType::AlterColumn, b.alter_sql(col_sql)));
                    }
                },
                Err(_) => {},
            }
            proof {
                let done = self@.a_and_b.take(i as int);
                assert(self@.a_and_b[i as int] == (*a, *b));
                assert(changes_of(v@) =~= before + alter_table()((*a, *b)));
                assert(self@.a_and_b.take(i + 1) =~= done.push((*a, *b)));
                done.lemma_flat_map_push(alter_table(), (*a, *b));
            }
            i += 1;
        }
        assert(self@.a_and_b.take(i as int) =~= self@.a_and_b);
        let ghost altered = changes_of(v@);
        let mut i: usize = 0;
        while i < self.b_only.len()
            invariant
                i <= self.b_only@.len(),
                changes_of(v@) == altered + self@.b_only.take(i as int).map_values(create_table()),
            decreases self.b_only@.len() - i,
        {
            let b = self.b_only[i];
            let ghost before = changes_of(v@);
            v.push((ChangeType::CreateTable, b.create()));
            proof {
                let done = self@.b_only.take(i as int);
                assert(self@.b_only[i as int] == *b);
                assert(changes_of(v@) =~= before.push(create_table()(*b)));
                assert(self@.b_only.take(i + 1) =~= done.push(*b));
                assert(done.push(*b).map_values(create_table()) =~= done.map_values(
                    create_table(),
                ).push(create_table()(*b)));
            }
            i += 1;
        }
        assert(self@.b_only.take(i as int) =~= self@.b_only);
        Ok(v)
    }
}

} // verus!
