//! Schemas.

use crate::change::{changes_of, sort_changes, sorted_changes, sql_of, sql_texts, ChangeType};
use crate::diff::{
    diff, diff_of, has_unique_keys, items_eq, same_items, keys_unique, lemma_upserted_unique, upsert, upserted, Diff,
    DiffSql, DiffView, Keyed, Unsupported,
};
use crate::queries::{Class, Relkind};
use crate::models::constraint::{constraint_changes, Constraint};
use crate::models::table::{table_changes, Table};
use crate::models::view::DbView;
use crate::text::{join, joined};
use vstd::prelude::*;
use vstd::std_specs::cmp::PartialEqSpecImpl;
use vstd::string::*;

verus! {

/// A schema with its tables, views and constraints.
///
/// No two tables share a name, and no two constraints share the name of
/// their table and their own name: see [`Schema::wf`].
#[derive(Clone, Debug)]
pub struct Schema {
    pub name: String,
    pub tables: Vec<Table>,
    pub views: Vec<DbView>,
    pub constraints: Vec<Constraint>,
}

impl Schema {
    /// Whether two schemas are equal: they have the same name and hold
    /// equal tables, views and constraints under the same keys, in whatever
    /// order.
    pub open spec fn same(&self, other: &Schema) -> bool {
        &&& self.name@ == other.name@
        &&& same_items(self.tables@, other.tables@, |x: Table, y: Table| x.same(&y))
        &&& same_items(self.views@, other.views@, |x: DbView, y: DbView| x.same(&y))
        &&& same_items(
            self.constraints@,
            other.constraints@,
            |x: Constraint, y: Constraint| x@ == y@,
        )
    }
}

impl PartialEq for Schema {
    fn eq(&self, other: &Self) -> (r: bool) {
        self.name == other.name && items_eq(self.tables.as_slice(), other.tables.as_slice())
            && items_eq(self.views.as_slice(), other.views.as_slice()) && items_eq(
            self.constraints.as_slice(),
            other.constraints.as_slice(),
        )
    }
}

impl PartialEqSpecImpl for Schema {
    open spec fn obeys_eq_spec() -> bool {
        true
    }

    open spec fn eq_spec(&self, other: &Self) -> bool {
        self.same(other)
    }
}

impl Keyed for Schema {
    type Key = Seq<char>;

    open spec fn key(&self) -> Seq<char> {
        self.name@
    }

    open spec fn index_text(k: Seq<char>) -> Seq<char> {
        k
    }

    fn index_key(&self) -> (r: String) {
        self.name.clone()
    }

    fn same_key(&self, other: &Self) -> (r: bool) {
        self.name == other.name
    }
}

impl Schema {
    /// Whether the tables, the columns of each table and the constraints
    /// are identified by their keys.
    pub open spec fn wf(&self) -> bool {
        &&& keys_unique(self.tables@)
        &&& keys_unique(self.constraints@)
        &&& forall|i: int|
            0 <= i < self.tables@.len() ==> keys_unique((#[trigger] self.tables@[i]).columns@)
    }

    /// A schema of the given name that holds nothing.
    pub fn new(name: &str) -> (r: Schema)
        ensures
            r.name@ == name@,
            r.tables@.len() == 0,
            r.views@.len() == 0,
            r.constraints@.len() == 0,
            r.wf(),
    {
        Schema {
            name: String::from_str(name),
            tables: Vec::new(),
            views: Vec::new(),
            constraints: Vec::new(),
        }
    }

    /// Compares the tables of two schemas by name.
    pub fn diff_tables<'a>(&'a self, other: &'a Self) -> (d: Diff<'a, Table>)
        ensures
            d@ == diff_of(self.tables@, other.tables@),
    {
        diff(self.tables.as_slice(), other.tables.as_slice())
    }

    /// Compares the constraints of two schemas by the name of their table
    /// and their own name.
    pub fn diff_constraints<'a>(&'a self, other: &'a Self) -> (d: Diff<'a, Constraint>)
        ensures
            d@ == diff_of(self.constraints@, other.constraints@),
    {
        diff(self.constraints.as_slice(), other.constraints.as_slice())
    }
}

/// The table that a relation is read as.
pub open spec fn table_of(c: Class) -> Table {
    Table { schema: c.schema, name: c.name, kind: c.relkind, columns: c.columns }
}

/// The view that a relation is read as.
pub open spec fn view_of(c: Class) -> DbView {
    DbView {
        schema: c.schema,
        name: c.name,
        kind: c.relkind,
        materialized: c.relkind is MaterializedView,
        viewdef: c.viewdef->0,
    }
}

/// The tables among the relations of a schema: the ordinary tables. A
/// relation takes the place of an earlier one of the same name.
pub open spec fn tables_of(classes: Seq<Class>) -> Seq<Table>
    decreases classes.len(),
{
    if classes.len() == 0 {
        Seq::empty()
    } else if classes.last().relkind is OrdinaryTable {
        upserted(tables_of(classes.drop_last()), table_of(classes.last()))
    } else {
        tables_of(classes.drop_last())
    }
}

/// The views among the relations of a schema, plain and materialized. A
/// relation takes the place of an earlier one of the same name.
pub open spec fn views_of(classes: Seq<Class>) -> Seq<DbView>
    decreases classes.len(),
{
    if classes.len() == 0 {
        Seq::empty()
    } else if classes.last().relkind is View || classes.last().relkind is MaterializedView {
        upserted(views_of(classes.drop_last()), view_of(classes.last()))
    } else {
        views_of(classes.drop_last())
    }
}

/// The constraint that a row of the catalog describes in the schema `schema`.
pub open spec fn constraint_of(row: crate::queries::Constraint, schema: String) -> Constraint {
    Constraint { schema, table: row.table, name: row.name, ty: row.ty, definition: row.def }
}

/// The constraints that the rows of the catalog describe in the schema
/// `schema`. A row takes the place of an earlier one with the same table
/// and name.
pub open spec fn constraints_of(rows: Seq<crate::queries::Constraint>, schema: String) -> Seq<
    Constraint,
>
    decreases rows.len(),
{
    if rows.len() == 0 {
        Seq::empty()
    } else {
        upserted(constraints_of(rows.drop_last(), schema), constraint_of(rows.last(), schema))
    }
}

impl Schema {
    /// Builds a schema from the rows of the catalog: its relations and its
    /// constraints. Ordinary tables become tables, views and materialized
    /// views become views, and relations of other kinds are passed over.
    /// Where two rows have the same key the later one stays.
    ///
    /// A view must come with its body.
    pub fn from_rows(name: &str, classes: Vec<Class>, constraints: Vec<crate::queries::Constraint>) -> (r:
        Schema)
        requires
            forall|i: int| 0 <= i < classes@.len() ==> (#[trigger] classes@[i]).complete(),
        ensures
            r.name@ == name@,
            r.tables@ == tables_of(classes@),
            r.views@ == views_of(classes@),
            r.constraints@ == constraints_of(constraints@, r.name),
            keys_unique(r.tables@),
            keys_unique(r.views@),
            keys_unique(r.constraints@),
    {
        let mut schema = Schema::new(name);
        let mut tables: Vec<Table> = Vec::new();
        let mut views: Vec<DbView> = Vec::new();
        let ghost all = classes@;
        assert(all.take(0) =~= Seq::empty());
        for cls in it: classes
            invariant
                it.seq() == all,
                forall|i: int| 0 <= i < all.len() ==> (#[trigger] all[i]).complete(),
                tables@ == tables_of(all.take(it.index() as int)),
                views@ == views_of(all.take(it.index() as int)),
                keys_unique(tables@),
                keys_unique(views@),
        {
            proof {
                let next = all.take(it.index() + 1);
                assert(next.drop_last() =~= all.take(it.index() as int));
                assert(next.last() == cls);
                assert(all[it.index() as int].complete());
            }
            match cls.relkind {
                Relkind::OrdinaryTable => {
                    if let Ok(table) = Table::try_from(cls) {
                        proof {
                            lemma_upserted_unique(tables@, table);
                        }
                        upsert(&mut tables, table);
                    }
                },
                Relkind::View | Relkind::MaterializedView => {
                    if let Ok(view) = DbView::try_from(cls) {
                        proof {
                            lemma_upserted_unique(views@, view);
                        }
                        upsert(&mut views, view);
                    }
                },
                _ => {},
            }
        }
        assert(all.take(all.len() as int) =~= all);
        let mut list: Vec<Constraint> = Vec::new();
        let ghost rows = constraints@;
        assert(rows.take(0) =~= Seq::empty());
        for row in it: constraints
            invariant
                it.seq() == rows,
                list@ == constraints_of(rows.take(it.index() as int), schema.name),
                keys_unique(list@),
        {
            let c = Constraint {
                schema: schema.name.clone(),
                table: row.table,
                name: row.name,
                ty: row.ty,
                definition: row.def,
            };
            proof {
                let next = rows.take(it.index() + 1);
                assert(next.drop_last() =~= rows.take(it.index() as int));
                assert(next.last() == row);
                assert(c == constraint_of(row, schema.name));
                lemma_upserted_unique(list@, c);
            }
            upsert(&mut list, c);
        }
        assert(rows.take(rows.len() as int) =~= rows);
        schema.tables = tables;
        schema.views = views;
        schema.constraints = list;
        schema
    }

    /// Tells whether the tables, the columns of each table and the
    /// constraints are identified by their keys.
    pub fn is_wf(&self) -> (r: bool)
        ensures
            r == self.wf(),
    {
        if !has_unique_keys(self.tables.as_slice()) {
            return false;
        }
        if !has_unique_keys(self.constraints.as_slice()) {
            return false;
        }
        let mut i: usize = 0;
        while i < self.tables.len()
            invariant
                i <= self.tables@.len(),
                forall|j: int| 0 <= j < i ==> keys_unique((#[trigger] self.tables@[j]).columns@),
            decreases self.tables@.len() - i,
        {
            if !has_unique_keys(self.tables[i].columns.as_slice()) {
                return false;
            }
            i += 1;
        }
        true
    }
}

/// The changes that make the first schema of a pair into the second: the
/// changes to its tables, then the changes to its constraints.
pub open spec fn alter_schema() -> spec_fn((Schema, Schema)) -> Seq<(ChangeType, Seq<char>)> {
    |p: (Schema, Schema)|
        table_changes(diff_of(p.0.tables@, p.1.tables@)) + constraint_changes(
            diff_of(p.0.constraints@, p.1.constraints@),
        )
}

/// The changes to the schemas that both sides have.
pub open spec fn schema_changes(d: DiffView<Schema>) -> Seq<(ChangeType, Seq<char>)> {
    d.a_and_b.flat_map(alter_schema())
}

/// The first schema that only one side has, with what would have to be done
/// about it: a schema of the first side would have to be dropped, one of the
/// second side created. Neither is supported.
pub open spec fn unsupported_schema(d: DiffView<Schema>) -> Option<(ChangeType, Seq<char>)> {
    if d.a_only.len() > 0 {
        Some((ChangeType::DropSchema, d.a_only[0].name@))
    } else if d.b_only.len() > 0 {
        Some((ChangeType::CreateSchema, d.b_only[0].name@))
    } else {
        None
    }
}

impl<'a> DiffSql for Diff<'a, Schema> {
    open spec fn unsupported(&self) -> Option<(ChangeType, Seq<char>)> {
        unsupported_schema(self@)
    }

    open spec fn changes(&self) -> Seq<(ChangeType, Seq<char>)> {
        schema_changes(self@)
    }

    fn sql(&self) -> (r: Result<Vec<(ChangeType, String)>, Unsupported>) {
        if self.a_only.len() > 0 {
            let a = self.a_only[0];
            assert(self@.a_only[0] == *a);
            return Err(Unsupported { change: ChangeType::DropSchema, schema: a.name.clone() });
        }
        if self.b_only.len() > 0 {
            let b = self.b_only[0];
            assert(self@.b_only[0] == *b);
            return Err(Unsupported { change: ChangeType::CreateSchema, schema: b.name.clone() });
        }
        let mut v: Vec<(ChangeType, String)> = Vec::new();
        assert(self@.a_and_b.take(0).flat_map(alter_schema()) =~= Seq::empty()) by {
            assert(self@.a_and_b.take(0).map_values(alter_schema()) =~= Seq::empty());
        }
        let mut i: usize = 0;
        while i < self.a_and_b.len()
            invariant
                i <= self.a_and_b@.len(),
                changes_of(v@) == self@.a_and_b.take(i as int).flat_map(alter_schema()),
            decreases self.a_and_b@.len() - i,
        {
            let (a, b) = self.a_and_b[i];
            let ghost before = changes_of(v@);
            let tables = a.diff_tables(b);
            if let Ok(mut changes) = tables.sql() {
                v.append(&mut changes);
            }
            let ghost with_tables = changes_of(v@);
            assert(with_tables =~= before + table_changes(diff_of(a.tables@, b.tables@)));
            let constraints = a.diff_constraints(b);
            if let Ok(mut changes) = constraints.sql() {
                v.append(&mut changes);
            }
            proof {
                let done = self@.a_and_b.take(i as int);
                assert(self@.a_and_b[i as int] == (*a, *b));
                assert(changes_of(v@) =~= with_tables + constraint_changes(
                    diff_of(a.constraints@, b.constraints@),
                ));
                assert(changes_of(v@) =~= before + alter_schema()((*a, *b)));
                assert(self@.a_and_b.take(i + 1) =~= done.push((*a, *b)));
                done.lemma_flat_map_push(alter_schema(), (*a, *b));
            }
            i += 1;
        }
        assert(self@.a_and_b.take(i as int) =~= self@.a_and_b);
        Ok(v)
    }
}

/// The script of a list of changes: their SQL in the order of a script, with
/// an empty line between each two statements.
pub open spec fn script(changes: Seq<(ChangeType, Seq<char>)>) -> Seq<char> {
    joined(sql_of(sorted_changes(changes)), "\n"@)
}

/// Sorts the changes into the order of a script and joins their SQL. Every
/// statement ends its own line, so a line break between two statements
/// leaves one line empty.
pub fn join_sql(v: Vec<(ChangeType, String)>) -> (r: String)
    ensures
        r@ == script(changes_of(v@)),
{
    let sorted = sort_changes(v);
    let statements = sql_texts(&sorted);
    join(&statements, "\n")
}

} // verus!
