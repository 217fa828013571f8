use tusker::change::{sort_changes, ChangeType};
use tusker::diff::{diff, has_unique_keys, upsert, DiffSql};
use tusker::models::column::{Column, Generated, Identity};
use tusker::models::constraint::{Constraint, ConstraintType};
use tusker::models::schema::{join_sql, Schema};
use tusker::models::table::Table;
use tusker::queries::Relkind;
use tusker::Inspection;

fn column(num: u16, name: &str, ty: &str, notnull: bool) -> Column {
    Column {
        num,
        name: name.to_string(),
        ty: ty.to_string(),
        notnull,
        identity: Identity::No,
        generated: Generated::No,
        default: None,
    }
}

fn table(name: &str, columns: Vec<Column>) -> Table {
    Table {
        schema: "public".to_string(),
        name: name.to_string(),
        kind: Relkind::OrdinaryTable,
        columns,
    }
}

fn constraint(table: &str, name: &str, ty: ConstraintType, definition: &str) -> Constraint {
    Constraint {
        schema: "public".to_string(),
        table: table.to_string(),
        name: name.to_string(),
        ty,
        definition: definition.to_string(),
    }
}

fn schema(tables: Vec<Table>, constraints: Vec<Constraint>) -> Schema {
    let mut s = Schema::new("public");
    s.tables = tables;
    s.constraints = constraints;
    s
}

fn inspection(tables: Vec<Table>, constraints: Vec<Constraint>) -> Inspection {
    Inspection { schemas: vec![schema(tables, constraints)] }
}

fn names(columns: &[&Column]) -> Vec<String> {
    columns.iter().map(|c| c.name.clone()).collect()
}

#[test]
fn diff_sorts_items_into_three_groups() {
    let a = vec![
        column(1, "a", "int", false),
        column(2, "b", "int", false),
        column(3, "c", "int", false),
    ];
    let b = vec![
        column(1, "c", "text", false),
        column(2, "d", "int", false),
        column(3, "a", "int", false),
    ];
    let d = diff(&a, &b);
    assert_eq!(names(&d.a_only), vec!["b"]);
    assert_eq!(names(&d.b_only), vec!["d"]);
    assert_eq!(d.a_and_b.len(), 2);
    assert_eq!(d.a_and_b[0].0, &a[2]);
    assert_eq!(d.a_and_b[0].1, &b[0]);
    assert_eq!(d.a_and_b[1].0, &a[0]);
    assert_eq!(d.a_and_b[1].1, &b[2]);
}

#[test]
fn diff_of_empty_collections() {
    let none: Vec<Column> = vec![];
    let some = vec![column(1, "a", "int", false)];
    let d = diff(&none, &none);
    assert!(d.a_only.is_empty() && d.a_and_b.is_empty() && d.b_only.is_empty());
    let d = diff(&some, &none);
    assert_eq!(names(&d.a_only), vec!["a"]);
    assert!(d.a_and_b.is_empty() && d.b_only.is_empty());
    let d = diff(&none, &some);
    assert_eq!(names(&d.b_only), vec!["a"]);
    assert!(d.a_and_b.is_empty() && d.a_only.is_empty());
}

#[test]
fn diff_with_repeated_keys_pairs_the_last_of_a_and_the_first_of_b() {
    let a = vec![column(1, "x", "int", false), column(2, "x", "text", false)];
    let b = vec![column(1, "x", "a", false), column(2, "x", "b", false)];
    let d = diff(&a, &b);
    assert!(d.a_only.is_empty());
    assert_eq!(d.a_and_b.len(), 1);
    assert_eq!(d.a_and_b[0].0.ty, "text");
    assert_eq!(d.a_and_b[0].1.ty, "a");
    assert_eq!(d.b_only.len(), 1);
    assert_eq!(d.b_only[0].ty, "b");
}

#[test]
fn constraints_are_keyed_by_table_and_name() {
    let a = vec![constraint("t", "c", ConstraintType::Check, "CHECK (a > 0)")];
    let b = vec![
        constraint("u", "c", ConstraintType::Check, "CHECK (a > 0)"),
        constraint("t", "c", ConstraintType::Check, "CHECK (a > 0)"),
    ];
    let d = diff(&a, &b);
    assert!(d.a_only.is_empty());
    assert_eq!(d.a_and_b.len(), 1);
    assert_eq!(d.a_and_b[0].1.table, "t");
    assert_eq!(d.b_only.len(), 1);
    assert_eq!(d.b_only[0].table, "u");
}

#[test]
fn upsert_replaces_or_appends() {
    let mut v = vec![column(1, "a", "int", false), column(2, "b", "int", false)];
    upsert(&mut v, column(3, "a", "text", true));
    assert_eq!(v.len(), 2);
    assert_eq!(v[0], column(3, "a", "text", true));
    upsert(&mut v, column(4, "c", "int", false));
    assert_eq!(v.len(), 3);
    assert_eq!(v[2].name, "c");
    assert!(has_unique_keys(&v));
    v.push(column(5, "b", "int", false));
    assert!(!has_unique_keys(&v));
}

#[test]
fn change_types_rank_in_script_order() {
    let order = [
        ChangeType::DropConstraint(ConstraintType::ForeignKey),
        ChangeType::DropConstraint(ConstraintType::Exclusion),
        ChangeType::DropConstraint(ConstraintType::Trigger),
        ChangeType::DropConstraint(ConstraintType::Unique),
        ChangeType::DropConstraint(ConstraintType::PrimaryKey),
        ChangeType::DropConstraint(ConstraintType::Check),
        ChangeType::DropColumn,
        ChangeType::DropTable,
        ChangeType::DropSchema,
        ChangeType::AlterColumn,
        ChangeType::CreateSchema,
        ChangeType::CreateTable,
        ChangeType::CreateColumn,
        ChangeType::CreateConstraint(ConstraintType::Check),
        ChangeType::CreateConstraint(ConstraintType::PrimaryKey),
        ChangeType::CreateConstraint(ConstraintType::Unique),
        ChangeType::CreateConstraint(ConstraintType::Trigger),
        ChangeType::CreateConstraint(ConstraintType::Exclusion),
        ChangeType::CreateConstraint(ConstraintType::ForeignKey),
    ];
    for (i, kind) in order.iter().enumerate() {
        assert_eq!(kind.rank() as usize, i);
    }
    assert_eq!(order.len(), tusker::change::RANKS as usize);
    for (i, x) in order.iter().enumerate() {
        for (j, y) in order.iter().enumerate() {
            assert_eq!(x < y, i < j);
            assert_eq!(x.partial_cmp(y), i.partial_cmp(&j));
            assert_eq!(x.precedes(*y), i < j);
        }
    }
    assert!(ChangeType::DropTable.precedes(ChangeType::CreateTable));
    assert!(!ChangeType::CreateTable.precedes(ChangeType::CreateTable));
    assert!(!ChangeType::CreateColumn.precedes(ChangeType::DropColumn));
}

#[test]
fn sort_changes_is_stable_within_a_kind() {
    let v = vec![
        (ChangeType::CreateTable, "z".to_string()),
        (ChangeType::DropTable, "b".to_string()),
        (ChangeType::CreateTable, "a".to_string()),
        (ChangeType::DropTable, "a".to_string()),
    ];
    let texts: Vec<String> = sort_changes(v).into_iter().map(|c| c.1).collect();
    assert_eq!(texts, vec!["b", "a", "z", "a"]);
}

#[test]
fn join_sql_orders_drops_before_creates() {
    let v = vec![
        (ChangeType::CreateConstraint(ConstraintType::ForeignKey), "create fk;\n".to_string()),
        (ChangeType::CreateTable, "create table;\n".to_string()),
        (ChangeType::CreateConstraint(ConstraintType::PrimaryKey), "create pk;\n".to_string()),
        (ChangeType::DropTable, "drop table;\n".to_string()),
        (ChangeType::DropConstraint(ConstraintType::PrimaryKey), "drop pk;\n".to_string()),
        (ChangeType::AlterColumn, "alter;\n".to_string()),
        (ChangeType::DropConstraint(ConstraintType::ForeignKey), "drop fk;\n".to_string()),
    ];
    assert_eq!(
        join_sql(v),
        "drop fk;\n\ndrop pk;\n\ndrop table;\n\nalter;\n\ncreate table;\n\ncreate pk;\n\ncreate fk;\n"
    );
}

#[test]
fn join_sql_of_nothing_and_of_one() {
    assert_eq!(join_sql(vec![]), "");
    assert_eq!(join_sql(vec![(ChangeType::DropTable, "x;\n".to_string())]), "x;\n");
}

#[test]
fn diff_of_a_snapshot_with_itself_is_empty() {
    let s = inspection(
        vec![
            table("t", vec![column(1, "id", "integer", true), column(2, "name", "text", false)]),
            table("u", vec![column(1, "id", "integer", true)]),
        ],
        vec![
            constraint("t", "t_pkey", ConstraintType::PrimaryKey, "PRIMARY KEY (id)"),
            constraint("u", "u_t_fkey", ConstraintType::ForeignKey, "FOREIGN KEY (id) REFERENCES t(id)"),
        ],
    );
    assert!(s.is_wf());
    assert!(s.diff(&s).sql().unwrap().is_empty());
    assert_eq!(s.diff_sql(&s).unwrap(), "");
    let empty = Inspection::empty();
    assert!(empty.diff(&empty).sql().unwrap().is_empty());
}

#[test]
fn changed_constraint_is_dropped_before_it_is_created() {
    let a = inspection(
        vec![table("t", vec![column(1, "id", "integer", true)])],
        vec![constraint("t", "t_check", ConstraintType::Check, "CHECK (id > 0)")],
    );
    let b = inspection(
        vec![table("t", vec![column(1, "id", "integer", true)])],
        vec![constraint("t", "t_check", ConstraintType::Check, "CHECK (id > 1)")],
    );
    let changes = a.diff(&b).sql().unwrap();
    assert_eq!(
        changes,
        vec![
            (
                ChangeType::DropConstraint(ConstraintType::Check),
                "ALTER TABLE \"public\".\"t\" DROP CONSTRAINT \"t_check\";\n".to_string()
            ),
            (
                ChangeType::CreateConstraint(ConstraintType::Check),
                "ALTER TABLE \"public\".\"t\" ADD CONSTRAINT \"t_check\" CHECK (id > 1);\n".to_string()
            ),
        ]
    );
    let script = a.diff_sql(&b).unwrap();
    let dropped = script.find("DROP CONSTRAINT \"t_check\"").unwrap();
    let created = script.find("ADD CONSTRAINT \"t_check\" CHECK (id > 1)").unwrap();
    assert!(dropped < created);
}

#[test]
fn script_with_tables_and_constraints_is_ordered() {
    let a = inspection(
        vec![
            table("old", vec![column(1, "id", "integer", true)]),
            table("keep", vec![column(1, "id", "integer", true)]),
        ],
        vec![
            constraint("old", "old_pkey", ConstraintType::PrimaryKey, "PRIMARY KEY (id)"),
            constraint("keep", "keep_old_fkey", ConstraintType::ForeignKey, "FOREIGN KEY (id) REFERENCES old(id)"),
        ],
    );
    let b = inspection(
        vec![
            table("keep", vec![column(1, "id", "integer", true)]),
            table("new", vec![column(1, "id", "integer", true)]),
        ],
        vec![
            constraint("keep", "keep_new_fkey", ConstraintType::ForeignKey, "FOREIGN KEY (id) REFERENCES new(id)"),
            constraint("new", "new_pkey", ConstraintType::PrimaryKey, "PRIMARY KEY (id)"),
        ],
    );
    assert_eq!(
        a.diff_sql(&b).unwrap(),
        "ALTER TABLE \"public\".\"keep\" DROP CONSTRAINT \"keep_old_fkey\";\n\n\
ALTER TABLE \"public\".\"old\" DROP CONSTRAINT \"old_pkey\";\n\n\
DROP TABLE \"public\".\"old\";\n\n\
CREATE TABLE \"public\".\"new\" (\n    \"id\" integer NOT NULL\n);\n\n\
ALTER TABLE \"public\".\"new\" ADD CONSTRAINT \"new_pkey\" PRIMARY KEY (id);\n\n\
ALTER TABLE \"public\".\"keep\" ADD CONSTRAINT \"keep_new_fkey\" FOREIGN KEY (id) REFERENCES new(id);\n"
    );
}

#[test]
fn changed_columns_give_one_alter_table_statement() {
    let a = inspection(
        vec![table("t", vec![column(1, "id", "int", true), column(2, "name", "text", false)])],
        vec![],
    );
    let b = inspection(
        vec![table(
            "t",
            vec![
                column(1, "id", "int", true),
                column(2, "name", "text", true),
                column(3, "age", "int", false),
            ],
        )],
        vec![],
    );
    let changes = a.diff(&b).sql().unwrap();
    assert_eq!(changes.len(), 1);
    assert_eq!(changes[0].0, ChangeType::AlterColumn);
    assert_eq!(
        changes[0].1,
        "ALTER TABLE \"public\".\"t\"\n    ALTER COLUMN \"name\" SET NOT NULL,\n    ADD COLUMN \"age\" int;\n"
    );
    assert_eq!(a.diff_sql(&b).unwrap(), changes[0].1);
    let back = b.diff_sql(&a).unwrap();
    assert_eq!(
        back,
        "ALTER TABLE \"public\".\"t\"\n    DROP COLUMN \"age\",\n    ALTER COLUMN \"name\" DROP NOT NULL;\n"
    );
}

#[test]
fn changed_identity_options_give_one_alter_table_statement() {
    let mut id = column(1, "id", "bigint", true);
    id.identity = Identity::Always;
    id.default = Some("START 1".to_string());
    let mut id5 = id.clone();
    id5.default = Some("START 5".to_string());
    let a = inspection(vec![table("t", vec![id]), table("same", vec![column(1, "x", "int", false)])], vec![]);
    let b = inspection(vec![table("t", vec![id5]), table("same", vec![column(9, "x", "int", false)])], vec![]);
    let changes = a.diff(&b).sql().unwrap();
    assert_eq!(
        changes,
        vec![(
            ChangeType::AlterColumn,
            "ALTER TABLE \"public\".\"t\"\n    ALTER COLUMN \"id\" DROP IDENTITY,\n    ALTER COLUMN \"id\" ADD GENERATED ALWAYS AS IDENTITY(START 5);\n"
                .to_string()
        )]
    );
}

#[test]
fn column_diff_sql_lists_drops_alters_and_adds() {
    let a = table("t", vec![column(1, "gone", "int", false), column(2, "kept", "int", false)]);
    let b = table("t", vec![column(1, "kept", "bigint", false), column(2, "added", "text", true)]);
    let changes = a.diff_columns(&b).sql().unwrap();
    assert_eq!(
        changes,
        vec![
            (ChangeType::DropColumn, "DROP COLUMN \"gone\"".to_string()),
            (ChangeType::AlterColumn, "ALTER COLUMN \"kept\" TYPE bigint".to_string()),
            (ChangeType::CreateColumn, "ADD COLUMN \"added\" text NOT NULL".to_string()),
        ]
    );
}

#[test]
fn schema_on_one_side_only_is_unsupported() {
    let a = inspection(vec![], vec![]);
    let none = Inspection::empty();
    let e = a.diff(&none).sql().unwrap_err();
    assert_eq!(e.change, ChangeType::DropSchema);
    assert_eq!(e.schema, "public");
    let e = none.diff(&a).sql().unwrap_err();
    assert_eq!(e.change, ChangeType::CreateSchema);
    assert_eq!(e.schema, "public");
    let e = none.diff_sql(&a).unwrap_err();
    assert_eq!(e.change, ChangeType::CreateSchema);
    let mut other = Schema::new("other");
    other.tables = vec![];
    let both = Inspection { schemas: vec![schema(vec![], vec![]), other] };
    let e = both.diff(&a).sql().unwrap_err();
    assert_eq!(e.change, ChangeType::DropSchema);
    assert_eq!(e.schema, "other");
}

#[test]
fn snapshot_with_repeated_names_is_not_well_formed() {
    let twice = inspection(
        vec![table("t", vec![]), table("t", vec![])],
        vec![],
    );
    assert!(!twice.is_wf());
    let columns = inspection(
        vec![table("t", vec![column(1, "a", "int", false), column(2, "a", "int", false)])],
        vec![],
    );
    assert!(!columns.is_wf());
    let schemas = Inspection { schemas: vec![Schema::new("s"), Schema::new("s")] };
    assert!(!schemas.is_wf());
    assert!(Inspection::empty().is_wf());
}

#[test]
fn snapshots_are_equal_whatever_the_order() {
    let a = inspection(
        vec![
            table("t", vec![column(1, "id", "int", true)]),
            table("u", vec![column(1, "id", "int", true), column(2, "n", "text", false)]),
        ],
        vec![
            constraint("t", "t_pkey", ConstraintType::PrimaryKey, "PRIMARY KEY (id)"),
            constraint("u", "u_pkey", ConstraintType::PrimaryKey, "PRIMARY KEY (id)"),
        ],
    );
    let b = inspection(
        vec![
            table("u", vec![column(1, "id", "int", true), column(2, "n", "text", false)]),
            table("t", vec![column(1, "id", "int", true)]),
        ],
        vec![
            constraint("u", "u_pkey", ConstraintType::PrimaryKey, "PRIMARY KEY (id)"),
            constraint("t", "t_pkey", ConstraintType::PrimaryKey, "PRIMARY KEY (id)"),
        ],
    );
    assert!(a.same_as(&b));
    assert!(a == b);
    assert!(a.same_as(&a));
    assert!(Inspection::empty().same_as(&Inspection::empty()));
}

#[test]
fn snapshots_differ_in_any_part() {
    let base = || {
        inspection(
            vec![table("t", vec![column(1, "id", "int", true), column(2, "n", "text", false)])],
            vec![constraint("t", "t_pkey", ConstraintType::PrimaryKey, "PRIMARY KEY (id)")],
        )
    };
    let a = base();
    assert!(!a.same_as(&Inspection::empty()));
    assert!(!Inspection::empty().same_as(&a));
    let mut b = base();
    b.schemas[0].tables[0].columns.swap(0, 1);
    assert!(!a.same_as(&b));
    let mut b = base();
    b.schemas[0].tables[0].columns[1].notnull = true;
    assert!(!a.same_as(&b));
    let mut b = base();
    b.schemas[0].constraints[0].definition = "PRIMARY KEY (n)".to_string();
    assert!(!a.same_as(&b));
    let mut b = base();
    b.schemas[0].constraints.clear();
    assert!(!a.same_as(&b));
    let mut b = base();
    b.schemas[0].tables.push(table("x", vec![]));
    assert!(!a.same_as(&b));
    let mut b = base();
    b.schemas[0].views.push(tusker::models::view::DbView {
        schema: "public".to_string(),
        name: "v".to_string(),
        kind: Relkind::View,
        materialized: false,
        viewdef: "SELECT 1".to_string(),
    });
    assert!(!a.same_as(&b));
    let mut c = base();
    c.schemas[0].views = b.schemas[0].views.clone();
    assert!(b.same_as(&c));
    c.schemas[0].views[0].viewdef = "SELECT 2".to_string();
    assert!(!b.same_as(&c));
}
