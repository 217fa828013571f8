//! Table constraints.

use crate::change::{changes_of, ChangeType};
use crate::diff::{lemma_flat_map_len, Diff, DiffSql, DiffView, Keyed, Unsupported};
use crate::sql::{quote_ident, quoted};
use vstd::prelude::*;
use vstd::std_specs::cmp::PartialEqSpecImpl;
use vstd::string::*;

verus! {

/// The kind of a constraint, in the order in which constraints are created.
///
/// A foreign key refers to a primary key or a unique constraint, so foreign
/// keys come last.
#[derive(Clone, Copy, Debug, PartialEq, Eq, Structural, PartialOrd, Ord, Hash)]
pub enum ConstraintType {
    Check,
    PrimaryKey,
    Unique,
    Trigger,
    Exclusion,
    ForeignKey,
}

impl ConstraintType {
    /// The place of this kind in the order of creation, from 0.
    pub open spec fn spec_rank(self) -> int {
        match self {
            ConstraintType::Check => 0,
            ConstraintType::PrimaryKey => 1,
            ConstraintType::Unique => 2,
            ConstraintType::Trigger => 3,
            ConstraintType::Exclusion => 4,
            ConstraintType::ForeignKey => 5,
        }
    }

    /// The place of this kind in the order of creation, from 0.
    pub fn rank(self) -> (r: u8)
        ensures
            r == self.spec_rank(),
            r <= 5,
    {
        match self {
            ConstraintType::Check => 0,
            ConstraintType::PrimaryKey => 1,
            ConstraintType::Unique => 2,
            ConstraintType::Trigger => 3,
            ConstraintType::Exclusion => 4,
            ConstraintType::ForeignKey => 5,
        }
    }
}

impl ConstraintType {
    /// The kind that a code of the catalog stands for.
    pub open spec fn decoded(code: Seq<char>) -> Option<ConstraintType> {
        if code == seq!['c'] {
            Some(ConstraintType::Check)
        } else if code == seq!['f'] {
            Some(ConstraintType::ForeignKey)
        } else if code == seq!['p'] {
            Some(ConstraintType::PrimaryKey)
        } else if code == seq!['u'] {
            Some(ConstraintType::Unique)
        } else if code == seq!['t'] {
            Some(ConstraintType::Trigger)
        } else if code == seq!['x'] {
            Some(ConstraintType::Exclusion)
        } else {
            None
        }
    }

    /// Decodes a code of the catalog. Any other text is refused with a
    /// message that names it.
    pub fn from_sql(code: &str) -> (r: Result<ConstraintType, String>)
        ensures
            match r {
                Ok(t) => Self::decoded(code@) == Some(t),
                Err(m) => Self::decoded(code@) is None && m@ == "Unsupported contype: "@ + code@,
            },
    {
        let chars = crate::text::chars_of(code);
        if chars.len() == 1 {
            let c = chars[0];
            assert(chars@ =~= seq![c]);
            if c == 'c' {
                return Ok(ConstraintType::Check);
            } else if c == 'f' {
                return Ok(ConstraintType::ForeignKey);
            } else if c == 'p' {
                return Ok(ConstraintType::PrimaryKey);
            } else if c == 'u' {
                return Ok(ConstraintType::Unique);
            } else if c == 't' {
                return Ok(ConstraintType::Trigger);
            } else if c == 'x' {
                return Ok(ConstraintType::Exclusion);
            }
            assert(Self::decoded(code@) is None) by {
                assert(seq![c][0] == c);
            }
        } else {
            assert(Self::decoded(code@) is None) by {
                assert(seq!['c'].len() == 1);
            }
        }
        let mut m = String::from_str("Unsupported contype: ");
        m.append(code);
        Err(m)
    }
}

/// A constraint of a table.
#[derive(Clone, Debug)]
pub struct Constraint {
    pub schema: String,
    pub table: String,
    pub name: String,
    pub ty: ConstraintType,
    /// The definition clause, as the database renders it.
    pub definition: String,
}

/// A constraint as plain values.
pub struct ConstraintView {
    pub schema: Seq<char>,
    pub table: Seq<char>,
    pub name: Seq<char>,
    pub ty: ConstraintType,
    pub definition: Seq<char>,
}

impl View for Constraint {
    type V = ConstraintView;

    open spec fn view(&self) -> ConstraintView {
        ConstraintView {
            schema: self.schema@,
            table: self.table@,
            name: self.name@,
            ty: self.ty,
            definition: self.definition@,
        }
    }
}

impl PartialEq for Constraint {
    fn eq(&self, other: &Self) -> (r: bool) {
        self.schema == other.schema && self.table == other.table && self.name == other.name
            && self.ty == other.ty && self.definition == other.definition
    }
}

impl PartialEqSpecImpl for Constraint {
    open spec fn obeys_eq_spec() -> bool {
        true
    }

    open spec fn eq_spec(&self, other: &Self) -> bool {
        self@ == other@
    }
}

impl Keyed for Constraint {
    /// The name of the table and the name of the constraint.
    type Key = (Seq<char>, Seq<char>);

    open spec fn key(&self) -> (Seq<char>, Seq<char>) {
        (self.table@, self.name@)
    }

    open spec fn index_text(k: (Seq<char>, Seq<char>)) -> Seq<char> {
        k.0 + "."@ + k.1
    }

    fn index_key(&self) -> (r: String) {
        let mut r = self.table.clone();
        r.append(".");
        r.append(self.name.as_str());
        r
    }

    fn same_key(&self, other: &Self) -> (r: bool) {
        self.table == other.table && self.name == other.name
    }
}

impl ConstraintView {
    /// `ALTER TABLE`, the quoted names of schema and table, and a space.
    pub open spec fn alter_table(self) -> Seq<char> {
        "ALTER TABLE "@ + quoted(self.schema) + "."@ + quoted(self.table) + " "@
    }

    /// The statement that adds the constraint to its table.
    pub open spec fn create_sql(self) -> Seq<char> {
        self.alter_table() + "ADD CONSTRAINT "@ + quoted(self.name) + " "@ + self.definition
            + ";\n"@
    }

    /// The statement that drops the constraint from its table.
    pub open spec fn drop_sql(self) -> Seq<char> {
        self.alter_table() + "DROP CONSTRAINT "@ + quoted(self.name) + ";\n"@
    }
}

impl Constraint {
    /// `ALTER TABLE`, the quoted names of schema and table, and a space.
    fn alter_table(&self) -> (r: String)
        ensures
            r@ == self@.alter_table(),
    {
        let mut r = String::from_str("ALTER TABLE ");
        let schema = quote_ident(self.schema.as_str());
        r.append(schema.as_str());
        r.append(".");
        let table = quote_ident(self.table.as_str());
        r.append(table.as_str());
        r.append(" ");
        r
    }

    /// Renders the statement that adds the constraint to its table.
    pub fn create_sql(&self) -> (r: String)
        ensures
            r@ == self@.create_sql(),
    {
        let mut r = self.alter_table();
        r.append("ADD CONSTRAINT ");
        let name = quote_ident(self.name.as_str());
        r.append(name.as_str());
        r.append(" ");
        r.append(self.definition.as_str());
        r.append(";\n");
        r
    }

    /// Renders the statement that drops the constraint from its table.
    pub fn drop_sql(&self) -> (r: String)
        ensures
            r@ == self@.drop_sql(),
    {
        let mut r = self.alter_table();
        r.append("DROP CONSTRAINT ");
        let name = quote_ident(self.name.as_str());
        r.append(name.as_str());
        r.append(";\n");
        r
    }
}

/// The change that drops a constraint.
pub open spec fn drop_constraint() -> spec_fn(Constraint) -> (ChangeType, Seq<char>) {
    |c: Constraint| (ChangeType::DropConstraint(c.ty), c@.drop_sql())
}

/// The change that creates a constraint.
pub open spec fn create_constraint() -> spec_fn(Constraint) -> (ChangeType, Seq<char>) {
    |c: Constraint| (ChangeType::CreateConstraint(c.ty), c@.create_sql())
}

/// The changes that make the first constraint of a pair into the second: none
/// where the two are equal, else the first is dropped and the second created.
/// A constraint is never altered in place.
pub open spec fn replace_constraint() -> spec_fn((Constraint, Constraint)) -> Seq<
    (ChangeType, Seq<char>),
> {
    |p: (Constraint, Constraint)|
        if p.0@ == p.1@ {
            seq![]
        } else {
            seq![drop_constraint()(p.0), create_constraint()(p.1)]
        }
}

/// The changes to the constraints of a schema: each constraint that only the
/// first side has is dropped, each that differs between the sides is dropped
/// and created again, and each that only the second side has is created.
pub open spec fn constraint_changes(d: DiffView<Constraint>) -> Seq<(ChangeType, Seq<char>)> {
    d.a_only.map_values(drop_constraint()) + d.a_and_b.flat_map(replace_constraint())
        + d.b_only.map_values(create_constraint())
}

/// The test for a pair of constraints that they differ.
pub open spec fn differing_constraints() -> spec_fn((Constraint, Constraint)) -> bool {
    |p: (Constraint, Constraint)| p.0@ != p.1@
}

/// The changes to the constraints of a schema are one statement for each
/// constraint that only one side has, and two statements, one that drops and
/// one that creates, for each pair of constraints that differ.
pub proof fn two_statements_for_each_changed_constraint(d: DiffView<Constraint>)
    ensures
        constraint_changes(d).len() == d.a_only.len() + 2 * d.a_and_b.filter(
            differing_constraints(),
        ).len() + d.b_only.len(),
{
    assert forall|i: int| 0 <= i < d.a_and_b.len() implies (#[trigger] replace_constraint()(
        d.a_and_b[i],
    )).len() == if differing_constraints()(d.a_and_b[i]) {
        2nat
    } else {
        0nat
    } by {}
    lemma_flat_map_len(d.a_and_b, replace_constraint(), differing_constraints(), 2);
}

impl<'a> DiffSql for Diff<'a, Constraint> {
    open spec fn unsupported(&self) -> Option<(ChangeType, Seq<char>)> {
        None
    }

    open spec fn changes(&self) -> Seq<(ChangeType, Seq<char>)> {
        constraint_changes(self@)
    }

    fn sql(&self) -> (r: Result<Vec<(ChangeType, String)>, Unsupported>) {
        let mut v: Vec<(ChangeType, String)> = Vec::new();
        let mut i: usize = 0;
        while i < self.a_only.len()
            invariant
                i <= self.a_only@.len(),
                changes_of(v@) == self@.a_only.take(i as int).map_values(drop_constraint()),
            decreases self.a_only@.len() - i,
        {
            let a = self.a_only[i];
            let ghost before = changes_of(v@);
            v.push((ChangeType::DropConstraint(a.ty), a.drop_sql()));
            proof {
                let done = self@.a_only.take(i as int);
                assert(self@.a_only[i as int] == *a);
                assert(changes_of(v@) =~= before.push(drop_constraint()(*a)));
                assert(self@.a_only.take(i + 1) =~= done.push(*a));
                assert(done.push(*a).map_values(drop_constraint()) =~= done.map_values(
                    drop_constraint(),
                ).push(drop_constraint()(*a)));
            }
            i += 1;
        }
        assert(self@.a_only.take(i as int) =~= self@.a_only);
        let ghost dropped = changes_of(v@);
        let mut i: usize = 0;
        while i < self.a_and_b.len()
            invariant
                i <= self.a_and_b@.len(),
                changes_of(v@) == dropped + self@.a_and_b.take(i as int).flat_map(
                    replace_constraint(),
                ),
            decreases self.a_and_b@.len() - i,
        {
            let (a, b) = self.a_and_b[i];
            let ghost before = changes_of(v@);
            if *a != *b {
                v.push((ChangeType::DropConstraint(a.ty), a.drop_sql()));
                v.push((ChangeType::CreateConstraint(b.ty), b.create_sql()));
            }
            proof {
                let done = self@.a_and_b.take(i as int);
                assert(self@.a_and_b[i as int] == (*a, *b));
                assert(changes_of(v@) =~= before + replace_constraint()((*a, *b)));
                assert(self@.a_and_b.take(i + 1) =~= done.push((*a, *b)));
                done.lemma_flat_map_push(replace_constraint(), (*a, *b));
            }
            i += 1;
        }
        assert(self@.a_and_b.take(i as int) =~= self@.a_and_b);
        let ghost replaced = changes_of(v@);
        let mut i: usize = 0;
        while i < self.b_only.len()
            invariant
                i <= self.b_only@.len(),
                changes_of(v@) == replaced + self@.b_only.take(i as int).map_values(
                    create_constraint(),
                ),
            decreases self.b_only@.len() - i,
        {
            let b = self.b_only[i];
            let ghost before = changes_of(v@);
            v.push((ChangeType::CreateConstraint(b.ty), b.create_sql()));
            proof {
                let done = self@.b_only.take(i as int);
                assert(self@.b_only[i as int] == *b);
                assert(changes_of(v@) =~= before.push(create_constraint()(*b)));
                assert(self@.b_only.take(i + 1) =~= done.push(*b));
                assert(done.push(*b).map_values(create_constraint()) =~= done.map_values(
                    create_constraint(),
                ).push(create_constraint()(*b)));
            }
            i += 1;
        }
        assert(self@.b_only.take(i as int) =~= self@.b_only);
        Ok(v)
    }
}

} // verus!
