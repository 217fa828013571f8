//! Snapshots of the structure of a database.

use crate::change::{earlier_kind_stands_first, sorted_changes, ChangeType};
use crate::diff::{
    diff, diff_of, has_unique_keys, in_both, items_eq, same_items, keys_unique, lemma_diff_with_itself,
    lemma_flat_map_contains, lemma_flat_map_nothing, lemma_same_key_is_paired,
    lemma_upserted_unique, upsert, upserted, with_itself, Diff, DiffSql, Keyed, Unsupported,
};
use crate::models::column::{alter_column, column_changes, Column};
use crate::models::constraint::{
    constraint_changes, create_constraint, drop_constraint, replace_constraint, Constraint,
};
use crate::models::schema::{
    alter_schema, join_sql, schema_changes, script, unsupported_schema, Schema,
};
use crate::models::table::{alter_table, table_changes, Table};
use vstd::prelude::*;
use vstd::std_specs::cmp::PartialEqSpecImpl;

verus! {

/// The structure of a database at one point in time: its schemas.
///
/// No two schemas share a name: see [`Inspection::wf`].
#[derive(Clone, Debug)]
pub struct Inspection {
    pub schemas: Vec<Schema>,
}

/// The schemas of a snapshot built from `schemas`: a schema takes the place
/// of an earlier one of the same name.
pub open spec fn schemas_of(schemas: Seq<Schema>) -> Seq<Schema>
    decreases schemas.len(),
{
    if schemas.len() == 0 {
        Seq::empty()
    } else {
        upserted(schemas_of(schemas.drop_last()), schemas.last())
    }
}

impl Inspection {
    /// Whether two snapshots are equal: they hold equal schemas under the
    /// same names, in whatever order.
    pub open spec fn same(&self, other: &Inspection) -> bool {
        same_items(self.schemas@, other.schemas@, |x: Schema, y: Schema| x.same(&y))
    }

    /// Tells whether two snapshots are equal.
    pub fn same_as(&self, other: &Inspection) -> (r: bool)
        ensures
            r == self.same(other),
    {
        *self == *other
    }
}

impl PartialEq for Inspection {
    fn eq(&self, other: &Self) -> (r: bool) {
        items_eq(self.schemas.as_slice(), other.schemas.as_slice())
    }
}

impl PartialEqSpecImpl for Inspection {
    open spec fn obeys_eq_spec() -> bool {
        true
    }

    open spec fn eq_spec(&self, other: &Self) -> bool {
        self.same(other)
    }
}

impl Inspection {
    /// Whether every schema, table, column and constraint is identified by
    /// its key among its siblings.
    pub open spec fn wf(&self) -> bool {
        &&& keys_unique(self.schemas@)
        &&& forall|i: int| 0 <= i < self.schemas@.len() ==> (#[trigger] self.schemas@[i]).wf()
    }

    /// A snapshot without schemas.
    pub fn empty() -> (r: Inspection)
        ensures
            r.schemas@.len() == 0,
            r.wf(),
    {
        Inspection { schemas: Vec::new() }
    }

    /// Builds a snapshot from schemas. Where two schemas have the same name
    /// the later one stays.
    pub fn from_schemas(schemas: Vec<Schema>) -> (r: Inspection)
        ensures
            r.schemas@ == schemas_of(schemas@),
            keys_unique(r.schemas@),
    {
        let mut list: Vec<Schema> = Vec::new();
        let ghost all = schemas@;
        assert(all.take(0) =~= Seq::empty());
        for schema in it: schemas
            invariant
                it.seq() == all,
                list@ == schemas_of(all.take(it.index() as int)),
                keys_unique(list@),
        {
            proof {
                let next = all.take(it.index() + 1);
                assert(next.drop_last() =~= all.take(it.index() as int));
                assert(next.last() == schema);
                lemma_upserted_unique(list@, schema);
            }
            upsert(&mut list, schema);
        }
        assert(all.take(all.len() as int) =~= all);
        Inspection { schemas: list }
    }

    /// Tells whether every schema, table, column and constraint is
    /// identified by its key among its siblings.
    pub fn is_wf(&self) -> (r: bool)
        ensures
            r == self.wf(),
    {
        if !has_unique_keys(self.schemas.as_slice()) {
            return false;
        }
        let mut i: usize = 0;
        while i < self.schemas.len()
            invariant
                i <= self.schemas@.len(),
                forall|j: int| 0 <= j < i ==> (#[trigger] self.schemas@[j]).wf(),
            decreases self.schemas@.len() - i,
        {
            if !self.schemas[i].is_wf() {
                return false;
            }
            i += 1;
        }
        true
    }

    /// Compares the schemas of two snapshots by name.
    pub fn diff<'a>(&'a self, other: &'a Self) -> (d: Diff<'a, Schema>)
        ensures
            d@ == diff_of(self.schemas@, other.schemas@),
    {
        diff(self.schemas.as_slice(), other.schemas.as_slice())
    }

    /// Renders the script that turns this snapshot into `other`, or reports
    /// the schema that only one of the two has.
    pub fn diff_sql(&self, other: &Self) -> (r: Result<String, Unsupported>)
        ensures
            match r {
                Ok(s) => unsupported_schema(diff_of(self.schemas@, other.schemas@)) is None && s@
                    == script(schema_changes(diff_of(self.schemas@, other.schemas@))),
                Err(e) => unsupported_schema(diff_of(self.schemas@, other.schemas@)) == Some(
                    (e.change, e.schema@),
                ),
            },
    {
        let d = self.diff(other);
        match d.sql() {
            Ok(v) => Ok(join_sql(v)),
            Err(e) => Err(e),
        }
    }
}

/// No clause turns a column into itself.
proof fn lemma_same_columns(columns: Seq<Column>)
    requires
        keys_unique(columns),
    ensures
        column_changes(diff_of(columns, columns)) == Seq::<(ChangeType, Seq<char>)>::empty(),
{
    lemma_diff_with_itself(columns);
    let pairs = columns.map_values(with_itself());
    assert forall|i: int| 0 <= i < pairs.len() implies (#[trigger] alter_column()(pairs[i])).len()
        == 0 by {
        let c = columns[i]@;
        assert(c.alter_sql(c) =~= Seq::empty());
    }
    lemma_flat_map_nothing(pairs, alter_column());
    assert(column_changes(diff_of(columns, columns)) =~= Seq::empty());
}

/// No change turns the tables of a schema into themselves.
proof fn lemma_same_tables(tables: Seq<Table>)
    requires
        keys_unique(tables),
        forall|i: int| 0 <= i < tables.len() ==> keys_unique((#[trigger] tables[i]).columns@),
    ensures
        table_changes(diff_of(tables, tables)) == Seq::<(ChangeType, Seq<char>)>::empty(),
{
    lemma_diff_with_itself(tables);
    let pairs = tables.map_values(with_itself());
    assert forall|i: int| 0 <= i < pairs.len() implies (#[trigger] alter_table()(pairs[i])).len()
        == 0 by {
        lemma_same_columns(tables[i].columns@);
    }
    lemma_flat_map_nothing(pairs, alter_table());
    assert(table_changes(diff_of(tables, tables)) =~= Seq::empty());
}

/// No change turns the constraints of a schema into themselves.
proof fn lemma_same_constraints(constraints: Seq<Constraint>)
    requires
        keys_unique(constraints),
    ensures
        constraint_changes(diff_of(constraints, constraints)) == Seq::<
            (ChangeType, Seq<char>),
        >::empty(),
{
    lemma_diff_with_itself(constraints);
    let pairs = constraints.map_values(with_itself());
    assert forall|i: int|
        0 <= i < pairs.len() implies (#[trigger] replace_constraint()(pairs[i])).len() == 0 by {}
    lemma_flat_map_nothing(pairs, replace_constraint());
    assert(constraint_changes(diff_of(constraints, constraints)) =~= Seq::empty());
}

/// A snapshot compared with itself has no changes: every schema is paired
/// with itself, nothing is unsupported, and the script is empty.
pub proof fn diff_with_itself_is_empty(s: Inspection)
    requires
        s.wf(),
    ensures
        unsupported_schema(diff_of(s.schemas@, s.schemas@)) is None,
        schema_changes(diff_of(s.schemas@, s.schemas@)) == Seq::<(ChangeType, Seq<char>)>::empty(),
        script(schema_changes(diff_of(s.schemas@, s.schemas@))) == Seq::<char>::empty(),
{
    let schemas = s.schemas@;
    lemma_diff_with_itself(schemas);
    let pairs = schemas.map_values(with_itself());
    assert forall|i: int| 0 <= i < pairs.len() implies (#[trigger] alter_schema()(pairs[i])).len()
        == 0 by {
        assert(schemas[i].wf());
        lemma_same_tables(schemas[i].tables@);
        lemma_same_constraints(schemas[i].constraints@);
    }
    lemma_flat_map_nothing(pairs, alter_schema());
    crate::change::lemma_ranked_below(Seq::empty(), crate::change::RANKS as int);
    let sorted = crate::change::sorted_changes(Seq::<(ChangeType, Seq<char>)>::empty());
    if sorted.len() > 0 {
        assert(Seq::<(ChangeType, Seq<char>)>::empty().contains(sorted[0]));
    }
    assert(crate::change::sql_of(sorted) =~= Seq::empty());
}

/// The changes for a pair of constraints that differ are part of the script
/// of the schemas they belong to, the statement that drops before the
/// statement that creates.
proof fn lemma_replaced_in_order(a: Seq<Schema>, b: Seq<Schema>, q: int, p: int)
    requires
        0 <= q < in_both(a, b).len(),
        0 <= p < in_both(in_both(a, b)[q].0.constraints@, in_both(a, b)[q].1.constraints@).len(),
        in_both(in_both(a, b)[q].0.constraints@, in_both(a, b)[q].1.constraints@)[p].0@ != in_both(
            in_both(a, b)[q].0.constraints@,
            in_both(a, b)[q].1.constraints@,
        )[p].1@,
    ensures
        ({
            let schemas = in_both(a, b)[q];
            let pair = in_both(schemas.0.constraints@, schemas.1.constraints@)[p];
            let script = sorted_changes(schema_changes(diff_of(a, b)));
            exists|i: int, j: int|
                0 <= i < j < script.len() && script[i] == drop_constraint()(pair.0) && script[j]
                    == create_constraint()(pair.1)
        }),
{
    let schema_pairs = in_both(a, b);
    let schemas = schema_pairs[q];
    let pairs = in_both(schemas.0.constraints@, schemas.1.constraints@);
    let pair = pairs[p];
    let dropped = drop_constraint()(pair.0);
    let created = create_constraint()(pair.1);
    let replaced = replace_constraint()(pair);
    assert(replaced[0] == dropped && replaced[1] == created);
    assert(replaced.contains(dropped) && replaced.contains(created));
    lemma_flat_map_contains(pairs, replace_constraint(), p, dropped);
    lemma_flat_map_contains(pairs, replace_constraint(), p, created);
    let d = diff_of(schemas.0.constraints@, schemas.1.constraints@);
    let in_schema = alter_schema()(schemas);
    let tables = table_changes(diff_of(schemas.0.tables@, schemas.1.tables@));
    let before = d.a_only.map_values(drop_constraint());
    let middle = d.a_and_b.flat_map(replace_constraint());
    let i = choose|i: int| 0 <= i < middle.len() && middle[i] == dropped;
    let j = choose|j: int| 0 <= j < middle.len() && middle[j] == created;
    assert(in_schema[tables.len() + before.len() + i] == dropped);
    assert(in_schema[tables.len() + before.len() + j] == created);
    lemma_flat_map_contains(schema_pairs, alter_schema(), q, dropped);
    lemma_flat_map_contains(schema_pairs, alter_schema(), q, created);
    earlier_kind_stands_first(schema_changes(diff_of(a, b)), dropped, created);
}

/// Where two snapshots hold, in schemas of the same name, constraints with
/// the same table and name that differ, the script drops the constraint of
/// the first snapshot and creates that of the second, and the statement that
/// drops stands before the statement that creates.
///
/// `x` and `y` are the places of the schemas in the two snapshots, `i` and
/// `j` the places of the constraints in these schemas.
pub proof fn changed_constraint_is_dropped_then_created(
    a: Inspection,
    b: Inspection,
    x: int,
    y: int,
    i: int,
    j: int,
)
    requires
        a.wf(),
        b.wf(),
        0 <= x < a.schemas@.len(),
        0 <= y < b.schemas@.len(),
        a.schemas@[x].key() == b.schemas@[y].key(),
        0 <= i < a.schemas@[x].constraints@.len(),
        0 <= j < b.schemas@[y].constraints@.len(),
        a.schemas@[x].constraints@[i].key() == b.schemas@[y].constraints@[j].key(),
        a.schemas@[x].constraints@[i]@ != b.schemas@[y].constraints@[j]@,
    ensures
        ({
            let dropped = a.schemas@[x].constraints@[i];
            let created = b.schemas@[y].constraints@[j];
            let script = sorted_changes(schema_changes(diff_of(a.schemas@, b.schemas@)));
            exists|m: int, n: int|
                0 <= m < n < script.len() && script[m] == (
                    ChangeType::DropConstraint(dropped.ty),
                    dropped@.drop_sql(),
                ) && script[n] == (
                    ChangeType::CreateConstraint(created.ty),
                    created@.create_sql(),
                )
        }),
{
    let sa = a.schemas@[x];
    let sb = b.schemas@[y];
    assert(sa.wf() && sb.wf());
    lemma_same_key_is_paired(a.schemas@, b.schemas@, x, y);
    let schema_pairs = in_both(a.schemas@, b.schemas@);
    let q = choose|q: int| 0 <= q < schema_pairs.len() && schema_pairs[q] == (sa, sb);
    lemma_same_key_is_paired(sa.constraints@, sb.constraints@, i, j);
    let pairs = in_both(sa.constraints@, sb.constraints@);
    let p = choose|p: int|
        0 <= p < pairs.len() && pairs[p] == (sa.constraints@[i], sb.constraints@[j]);
    lemma_replaced_in_order(a.schemas@, b.schemas@, q, p);
}

} // verus!
