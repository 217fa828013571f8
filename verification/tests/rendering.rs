use tusker::change::ChangeType;
use tusker::models::column::{Column, Generated, Identity};
use tusker::models::constraint::{Constraint, ConstraintType};
use tusker::models::table::Table;
use tusker::models::view::DbView;
use tusker::queries::{Class, Relkind};
use tusker::sql::{quote_ident, StatementBuilder};

fn column(num: u16, name: &str, ty: &str, notnull: bool) -> Column {
    Column {
        num,
        name: name.to_string(),
        ty: ty.to_string(),
        notnull,
        identity: Identity::No,
        generated: Generated::No,
        default: None,
    }
}

fn table(name: &str, columns: Vec<Column>) -> Table {
    Table {
        schema: "public".to_string(),
        name: name.to_string(),
        kind: Relkind::OrdinaryTable,
        columns,
    }
}

fn constraint(table: &str, name: &str, ty: ConstraintType, definition: &str) -> Constraint {
    Constraint {
        schema: "public".to_string(),
        table: table.to_string(),
        name: name.to_string(),
        ty,
        definition: definition.to_string(),
    }
}

#[test]
fn quote_ident_wraps_in_double_quotes() {
    assert_eq!(quote_ident("users"), "\"users\"");
    assert_eq!(quote_ident(""), "\"\"");
}

#[test]
fn quote_ident_doubles_double_quotes() {
    assert_eq!(quote_ident("a\"b"), "\"a\"\"b\"");
    assert_eq!(quote_ident("\""), "\"\"\"\"");
    assert_eq!(quote_ident("\"\"x"), "\"\"\"\"\"x\"");
    assert_eq!(quote_ident("x\""), "\"x\"\"\"");
    assert_eq!(quote_ident("a'b c"), "\"a'b c\"");
    assert_eq!(quote_ident("é\"ü"), "\"é\"\"ü\"");
}

#[test]
fn statement_builder_joins_parts_with_spaces() {
    let mut b = StatementBuilder::new();
    assert_eq!(b.to_string(), "");
    b.part("DROP TABLE");
    assert_eq!(b.to_string(), "DROP TABLE");
    b.ident("t");
    b.part("CASCADE");
    assert_eq!(b.to_string(), "DROP TABLE \"t\" CASCADE");
    assert_eq!(StatementBuilder::default().to_string(), "");
}

#[test]
fn column_sql_plain() {
    assert_eq!(column(1, "id", "integer", true).sql(), "\"id\" integer NOT NULL");
    assert_eq!(column(2, "name", "text", false).sql(), "\"name\" text");
}

#[test]
fn column_sql_ignores_a_plain_default() {
    let mut c = column(1, "n", "integer", false);
    c.default = Some("0".to_string());
    assert_eq!(c.sql(), "\"n\" integer");
}

#[test]
fn column_sql_stored_expression() {
    let mut c = column(3, "total", "numeric", true);
    c.generated = Generated::Stored("(price * amount)".to_string());
    assert_eq!(
        c.sql(),
        "\"total\" numeric NOT NULL GENERATED ALWAYS AS (price * amount) STORED"
    );
}

#[test]
fn column_sql_identity() {
    let mut c = column(1, "id", "bigint", true);
    c.identity = Identity::Always;
    assert_eq!(c.sql(), "\"id\" bigint NOT NULL GENERATED ALWAYS AS IDENTITY");
    c.identity = Identity::Default;
    assert_eq!(c.sql(), "\"id\" bigint NOT NULL GENERATED BY DEFAULT AS IDENTITY");
    c.default = Some("START WITH 5".to_string());
    assert_eq!(
        c.sql(),
        "\"id\" bigint NOT NULL GENERATED BY DEFAULT AS IDENTITY(START WITH 5)"
    );
}

#[test]
fn column_alter_sql_of_equal_columns_is_empty() {
    let c = column(1, "id", "integer", true);
    assert!(c.alter_sql(&c.clone()).is_empty());
}

#[test]
fn column_alter_sql_position_only() {
    let a = column(1, "id", "integer", true);
    let b = column(4, "id", "integer", true);
    assert!(a != b);
    assert!(a.alter_sql(&b).is_empty());
}

#[test]
fn column_alter_sql_each_clause() {
    let a = column(1, "c", "integer", false);
    let mut b = column(1, "c", "bigint", true);
    b.default = Some("7".to_string());
    assert_eq!(
        a.alter_sql(&b),
        vec![
            "ALTER COLUMN \"c\" TYPE bigint".to_string(),
            "ALTER COLUMN \"c\" SET NOT NULL".to_string(),
            "ALTER COLUMN \"c\" SET DEFAULT 7".to_string(),
        ]
    );
    assert_eq!(
        b.alter_sql(&a),
        vec![
            "ALTER COLUMN \"c\" TYPE integer".to_string(),
            "ALTER COLUMN \"c\" DROP NOT NULL".to_string(),
            "ALTER COLUMN \"c\" DROP DEFAULT".to_string(),
        ]
    );
}

#[test]
fn column_alter_sql_expression_and_identity() {
    let plain = column(1, "c", "integer", false);
    let mut stored = plain.clone();
    stored.generated = Generated::Stored("a + b".to_string());
    assert_eq!(
        plain.alter_sql(&stored),
        vec!["ALTER COLUMN \"c\" SET EXPRESSION AS (a + b)".to_string()]
    );
    assert_eq!(
        stored.alter_sql(&plain),
        vec!["ALTER COLUMN \"c\" DROP EXPRESSION".to_string()]
    );
    let mut always = plain.clone();
    always.identity = Identity::Always;
    let mut by_default = plain.clone();
    by_default.identity = Identity::Default;
    assert_eq!(
        plain.alter_sql(&always),
        vec!["ALTER COLUMN \"c\" ADD GENERATED ALWAYS AS IDENTITY".to_string()]
    );
    assert_eq!(
        always.alter_sql(&by_default),
        vec!["ALTER COLUMN \"c\" SET GENERATED BY DEFAULT".to_string()]
    );
    assert_eq!(
        by_default.alter_sql(&always),
        vec!["ALTER COLUMN \"c\" SET GENERATED ALWAYS".to_string()]
    );
    assert_eq!(
        always.alter_sql(&plain),
        vec!["ALTER COLUMN \"c\" DROP IDENTITY".to_string()]
    );
}

#[test]
fn names_with_double_quotes_are_escaped_in_statements() {
    let c = constraint("t\"1", "c\"", ConstraintType::Check, "CHECK (true)");
    assert_eq!(
        c.drop_sql(),
        "ALTER TABLE \"public\".\"t\"\"1\" DROP CONSTRAINT \"c\"\"\";\n"
    );
    assert_eq!(column(1, "a\"b", "int", false).sql(), "\"a\"\"b\" int");
    assert_eq!(table("x\"y", vec![]).drop(), "DROP TABLE \"public\".\"x\"\"y\";\n");
    let mut b = StatementBuilder::new();
    b.ident("q\"");
    assert_eq!(b.to_string(), "\"q\"\"\"");
}

#[test]
fn column_alter_sql_when_identity_options_differ() {
    let mut a = column(1, "id", "bigint", true);
    a.identity = Identity::Always;
    a.default = Some("START 1".to_string());
    let mut b = a.clone();
    b.default = Some("START 5".to_string());
    assert_eq!(
        a.alter_sql(&b),
        vec![
            "ALTER COLUMN \"id\" DROP IDENTITY".to_string(),
            "ALTER COLUMN \"id\" ADD GENERATED ALWAYS AS IDENTITY(START 5)".to_string(),
        ]
    );
    b.identity = Identity::Default;
    assert_eq!(
        a.alter_sql(&b),
        vec![
            "ALTER COLUMN \"id\" DROP IDENTITY".to_string(),
            "ALTER COLUMN \"id\" ADD GENERATED BY DEFAULT AS IDENTITY(START 5)".to_string(),
        ]
    );
    b.default = None;
    assert_eq!(
        a.alter_sql(&b),
        vec![
            "ALTER COLUMN \"id\" DROP IDENTITY".to_string(),
            "ALTER COLUMN \"id\" ADD GENERATED BY DEFAULT AS IDENTITY".to_string(),
        ]
    );
}

#[test]
fn column_alter_sql_when_the_default_of_a_stored_column_differs() {
    let mut a = column(1, "c", "integer", false);
    a.generated = Generated::Stored("x + 1".to_string());
    a.default = Some("x + 1".to_string());
    let mut b = a.clone();
    b.default = Some("x + 2".to_string());
    assert_eq!(
        a.alter_sql(&b),
        vec!["ALTER COLUMN \"c\" SET EXPRESSION AS (x + 1)".to_string()]
    );
    b.generated = Generated::Stored("x + 2".to_string());
    assert_eq!(
        a.alter_sql(&b),
        vec!["ALTER COLUMN \"c\" SET EXPRESSION AS (x + 2)".to_string()]
    );
    assert!(b.alter_sql(&b.clone()).is_empty());
}

#[test]
fn column_alter_sql_sets_the_default_of_a_column_that_had_none() {
    let mut a = column(1, "c", "integer", false);
    a.identity = Identity::Default;
    a.default = Some("7".to_string());
    let mut b = column(1, "c", "integer", false);
    b.default = Some("7".to_string());
    assert!(!a.is_plain() && b.is_plain());
    assert_eq!(
        a.alter_sql(&b),
        vec![
            "ALTER COLUMN \"c\" DROP IDENTITY".to_string(),
            "ALTER COLUMN \"c\" SET DEFAULT 7".to_string(),
        ]
    );
    b.default = None;
    assert_eq!(a.alter_sql(&b), vec!["ALTER COLUMN \"c\" DROP IDENTITY".to_string()]);
    assert_eq!(
        b.alter_sql(&a),
        vec!["ALTER COLUMN \"c\" ADD GENERATED BY DEFAULT AS IDENTITY(7)".to_string()]
    );
}

#[test]
fn column_alter_sql_is_empty_only_for_equal_definitions() {
    let base = column(1, "c", "integer", false);
    let mut variants = vec![base.clone()];
    for ty in ["integer", "text"] {
        for notnull in [false, true] {
            for identity in [Identity::No, Identity::Always, Identity::Default] {
                for generated in [Generated::No, Generated::Stored("e".to_string())] {
                    for default in [None, Some("d".to_string()), Some("e".to_string())] {
                        let mut c = column(2, "c", ty, notnull);
                        c.identity = identity;
                        c.generated = generated.clone();
                        c.default = default;
                        variants.push(c);
                    }
                }
            }
        }
    }
    for a in &variants {
        for b in &variants {
            let same = a.ty == b.ty
                && a.notnull == b.notnull
                && a.identity == b.identity
                && a.generated == b.generated
                && a.default == b.default;
            assert_eq!(a.alter_sql(b).is_empty(), same, "{:?} -> {:?}", a, b);
        }
    }
}

#[test]
fn constraint_create_and_drop_sql() {
    let c = constraint("t", "t_pkey", ConstraintType::PrimaryKey, "PRIMARY KEY (id)");
    assert_eq!(
        c.create_sql(),
        "ALTER TABLE \"public\".\"t\" ADD CONSTRAINT \"t_pkey\" PRIMARY KEY (id);\n"
    );
    assert_eq!(
        c.drop_sql(),
        "ALTER TABLE \"public\".\"t\" DROP CONSTRAINT \"t_pkey\";\n"
    );
}

#[test]
fn table_create_lists_columns_in_order() {
    let t = table(
        "t",
        vec![column(1, "id", "integer", true), column(2, "name", "text", false)],
    );
    assert_eq!(
        t.create(),
        "CREATE TABLE \"public\".\"t\" (\n    \"id\" integer NOT NULL,\n    \"name\" text\n);\n"
    );
}

#[test]
fn table_create_without_columns() {
    assert_eq!(table("t", vec![]).create(), "CREATE TABLE \"public\".\"t\" (\n    \n);\n");
}

#[test]
fn table_drop() {
    assert_eq!(table("t", vec![]).drop(), "DROP TABLE \"public\".\"t\";\n");
}

#[test]
fn table_alter_sql_sorts_clauses_by_kind() {
    let t = table("t", vec![]);
    let clauses = vec![
        (ChangeType::CreateColumn, "ADD COLUMN \"b\" text".to_string()),
        (ChangeType::AlterColumn, "ALTER COLUMN \"a\" SET NOT NULL".to_string()),
        (ChangeType::DropColumn, "DROP COLUMN \"z\"".to_string()),
        (ChangeType::CreateColumn, "ADD COLUMN \"a2\" text".to_string()),
        (ChangeType::DropColumn, "DROP COLUMN \"y\"".to_string()),
    ];
    assert_eq!(
        t.alter_sql(clauses),
        "ALTER TABLE \"public\".\"t\"\n    DROP COLUMN \"z\",\n    DROP COLUMN \"y\",\n    ALTER COLUMN \"a\" SET NOT NULL,\n    ADD COLUMN \"b\" text,\n    ADD COLUMN \"a2\" text;\n"
    );
}

#[test]
fn view_create_plain_and_materialized() {
    let mut v = DbView {
        schema: "public".to_string(),
        name: "v".to_string(),
        kind: Relkind::View,
        materialized: false,
        viewdef: " SELECT 1;".to_string(),
    };
    assert_eq!(v.create(), "CREATE OR REPLACE VIEW \"public\".\"v\" AS\n SELECT 1;");
    v.kind = Relkind::MaterializedView;
    v.materialized = true;
    assert_eq!(
        v.create(),
        "CREATE OR REPLACE MATERIALIZED VIEW \"public\".\"v\" AS\n SELECT 1;"
    );
}

fn class(name: &str, relkind: Relkind, viewdef: Option<&str>) -> Class {
    Class {
        schema: "public".to_string(),
        name: name.to_string(),
        relkind,
        columns: vec![column(1, "id", "integer", true)],
        viewdef: viewdef.map(|s| s.to_string()),
    }
}

#[test]
fn table_try_from_class_keeps_the_fields() {
    let t = Table::try_from(class("t", Relkind::OrdinaryTable, None)).unwrap();
    assert_eq!(t.schema, "public");
    assert_eq!(t.name, "t");
    assert_eq!(t.kind, Relkind::OrdinaryTable);
    assert_eq!(t.columns, vec![column(1, "id", "integer", true)]);
}

#[test]
fn view_try_from_class() {
    let v = DbView::try_from(class("v", Relkind::View, Some("SELECT 1"))).unwrap();
    assert!(!v.materialized);
    assert_eq!(v.viewdef, "SELECT 1");
    assert_eq!(v.name, "v");
    let m = DbView::try_from(class("m", Relkind::MaterializedView, Some("SELECT 2"))).unwrap();
    assert!(m.materialized);
    assert_eq!(m.kind, Relkind::MaterializedView);
}

#[test]
fn view_try_from_refuses_other_kinds() {
    let e = DbView::try_from(class("t", Relkind::OrdinaryTable, None)).unwrap_err();
    assert_eq!(e.0, Relkind::OrdinaryTable);
    assert_eq!(e.to_string(), "Unsupported table for view: \"r\"");
    let e = tusker::models::table::InvalidRelkind(Relkind::Index);
    assert_eq!(e.to_string(), "Unsupported table for table: \"i\"");
}

#[test]
fn relkind_codes() {
    assert_eq!(Relkind::from_sql(b"r").unwrap(), Relkind::OrdinaryTable);
    assert_eq!(Relkind::from_sql(b"i").unwrap(), Relkind::Index);
    assert_eq!(Relkind::from_sql(b"S").unwrap(), Relkind::Sequence);
    assert_eq!(Relkind::from_sql(b"t").unwrap(), Relkind::ToastTable);
    assert_eq!(Relkind::from_sql(b"v").unwrap(), Relkind::View);
    assert_eq!(Relkind::from_sql(b"m").unwrap(), Relkind::MaterializedView);
    assert_eq!(Relkind::from_sql(b"c").unwrap(), Relkind::CompositeType);
    assert_eq!(Relkind::from_sql(b"p").unwrap(), Relkind::PartitionedTable);
    assert_eq!(Relkind::from_sql(b"I").unwrap(), Relkind::PartitionedIndex);
    assert_eq!(Relkind::ForeignTable.code(), 'f');
    assert_eq!(Relkind::Sequence.to_string(), "\"S\"");
}

#[test]
fn relkind_refuses_unknown_codes() {
    for raw in [&b"f"[..], &b""[..], &b"rr"[..], &b"x"[..], &b"R"[..]] {
        let e = Relkind::from_sql(raw).unwrap_err();
        assert_eq!(e.0, raw.to_vec());
        assert_eq!(e.to_string(), "Unsupported relkind value");
    }
}

#[test]
fn constraint_type_codes() {
    assert_eq!(ConstraintType::from_sql("c"), Ok(ConstraintType::Check));
    assert_eq!(ConstraintType::from_sql("f"), Ok(ConstraintType::ForeignKey));
    assert_eq!(ConstraintType::from_sql("p"), Ok(ConstraintType::PrimaryKey));
    assert_eq!(ConstraintType::from_sql("u"), Ok(ConstraintType::Unique));
    assert_eq!(ConstraintType::from_sql("t"), Ok(ConstraintType::Trigger));
    assert_eq!(ConstraintType::from_sql("x"), Ok(ConstraintType::Exclusion));
    assert_eq!(
        ConstraintType::from_sql("n"),
        Err("Unsupported contype: n".to_string())
    );
    assert_eq!(ConstraintType::from_sql(""), Err("Unsupported contype: ".to_string()));
    assert_eq!(
        ConstraintType::from_sql("cc"),
        Err("Unsupported contype: cc".to_string())
    );
}

#[test]
fn constraint_types_are_ordered_for_creation() {
    let order = [
        ConstraintType::Check,
        ConstraintType::PrimaryKey,
        ConstraintType::Unique,
        ConstraintType::Trigger,
        ConstraintType::Exclusion,
        ConstraintType::ForeignKey,
    ];
    for (i, t) in order.iter().enumerate() {
        assert_eq!(t.rank() as usize, i);
    }
    assert!(ConstraintType::PrimaryKey < ConstraintType::ForeignKey);
}
