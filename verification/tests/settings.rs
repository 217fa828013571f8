use tusker::config::{
    default_diff_privileges, default_diff_safe, default_migrations_filename,
    default_queries_filename, default_schema_filename, diff_direction, Backend, Config,
    DatabaseConfig, DiffConfig, Host, MigrationsConfig, QueriesConfig, SchemaConfig, Source,
};
use tusker::number::{i32_to_string, u64_to_string};
use tusker::query::models::{Column, Query};
use tusker::scratch::{comment_sql, create_sql, drop_sql, leftover_sql, scratch_name, tusker_comment};

#[test]
fn defaults() {
    assert!(!default_diff_safe());
    assert!(default_diff_privileges());
    assert_eq!(default_schema_filename(), "db/schema/**/*.sql");
    assert_eq!(default_migrations_filename(), "db/migrations/**/*.sql");
    assert_eq!(default_queries_filename(), "db/queries/**/*.sql");
    assert_eq!(DiffConfig::default(), DiffConfig { safe: false, privileges: true });
    assert_eq!(SchemaConfig::default().filename, "db/schema/**/*.sql");
    assert_eq!(MigrationsConfig::default().filename, "db/migrations/**/*.sql");
    assert_eq!(QueriesConfig::default().filename, "db/queries/**/*.sql");
    let c = Config::default();
    assert!(c.database.url.is_none() && c.database.host.is_none() && c.database.port.is_none());
    assert!(c.database.user.is_none() && c.database.password.is_none());
    assert_eq!(c.database.dbname, "");
    assert_eq!(c.schema.filename, "db/schema/**/*.sql");
}

#[test]
fn template_names_every_setting() {
    let c = Config::template();
    assert_eq!(c.database.url.as_deref(), Some(""));
    assert_eq!(c.database.host.as_deref(), Some(""));
    assert_eq!(c.database.port, Some(5432));
    assert_eq!(c.database.user.as_deref(), Some(""));
    assert_eq!(c.database.password.as_deref(), Some(""));
    assert_eq!(c.database.dbname, "");
    assert_eq!(c.schema.filename, "db/schema/**/*.sql");
    assert_eq!(c.migrations.filename, "db/migrations/**/*.sql");
    assert_eq!(c.queries.filename, "db/queries/**/*.sql");
    assert_eq!(c.diff, DiffConfig { safe: false, privileges: true });
}

fn database() -> DatabaseConfig {
    DatabaseConfig {
        url: None,
        host: None,
        port: None,
        user: None,
        password: None,
        dbname: "app".to_string(),
    }
}

#[test]
fn connection_falls_back_to_socket_and_system_user() {
    let c = database().connection(Some("alice")).unwrap();
    assert!(matches!(&c.host, Host::SocketDir(d) if d == "/var/run/postgresql"));
    assert_eq!(c.user, "alice");
    assert_eq!(c.dbname, "app");
    assert!(c.url.is_none() && c.port.is_none() && c.password.is_none());
}

#[test]
fn connection_takes_what_is_configured() {
    let mut d = database();
    d.url = Some("postgres://db".to_string());
    d.host = Some("localhost".to_string());
    d.port = Some(5433);
    d.user = Some("bob".to_string());
    d.password = Some("SECRET-REDACTED".to_string());
    let c = d.connection(Some("alice")).unwrap();
    assert!(matches!(&c.host, Host::Name(h) if h == "localhost"));
    assert_eq!(c.user, "bob");
    assert_eq!(c.port, Some(5433));
    assert_eq!(c.url.as_deref(), Some("postgres://db"));
    assert_eq!(c.password.as_deref(), Some("SECRET-REDACTED"));
    assert_eq!(d.connection(None).unwrap().user, "bob");
}

#[test]
fn connection_without_any_user_fails() {
    let e = database().connection(None).unwrap_err();
    assert_eq!(
        e.to_string(),
        "No database user specified. Fallback to system user name failed."
    );
}

#[test]
fn with_dbname_changes_the_database_only() {
    let mut d = database();
    d.host = Some("h".to_string());
    d.port = Some(1);
    let t = d.with_dbname("template1");
    assert_eq!(t.dbname, "template1");
    assert_eq!(t.host.as_deref(), Some("h"));
    assert_eq!(t.port, Some(1));
    assert!(t.user.is_none());
}

#[test]
fn backends() {
    assert_eq!(Backend::Migrations.name(), "migrations");
    assert_eq!(Backend::Schema.name(), "schema");
    assert_eq!(Backend::Database.name(), "database");
    let c = Config::template();
    assert!(matches!(c.source(Backend::Migrations), Source::Files(p) if p == "db/migrations/**/*.sql"));
    assert!(matches!(c.source(Backend::Schema), Source::Files(p) if p == "db/schema/**/*.sql"));
    assert!(matches!(c.source(Backend::Database), Source::Database));
    assert_eq!(
        diff_direction(Backend::Migrations, Backend::Schema, false),
        (Backend::Migrations, Backend::Schema)
    );
    assert_eq!(
        diff_direction(Backend::Migrations, Backend::Schema, true),
        (Backend::Schema, Backend::Migrations)
    );
}

#[test]
fn numbers_in_decimal() {
    assert_eq!(u64_to_string(0), "0");
    assert_eq!(u64_to_string(9), "9");
    assert_eq!(u64_to_string(10), "10");
    assert_eq!(u64_to_string(1234567890), "1234567890");
    assert_eq!(u64_to_string(u64::MAX), "18446744073709551615");
    assert_eq!(i32_to_string(0), "0");
    assert_eq!(i32_to_string(-1), "-1");
    assert_eq!(i32_to_string(i32::MAX), "2147483647");
    assert_eq!(i32_to_string(i32::MIN), "-2147483648");
}

#[test]
fn scratch_database() {
    assert_eq!(scratch_name("app", 1700000000), "app_diff_1700000000");
    assert_eq!(scratch_name("", 0), "_diff_0");
    assert_eq!(create_sql("app_diff_1"), "CREATE DATABASE app_diff_1");
    assert_eq!(drop_sql("app_diff_1"), "DROP DATABASE app_diff_1");
    assert!(tusker_comment().starts_with("CREATED BY TUSKER - "));
    assert!(tusker_comment().ends_with("remove this database manually."));
    assert_eq!(
        comment_sql("x"),
        format!("COMMENT ON DATABASE x IS '{}'", tusker_comment())
    );
    assert!(leftover_sql().ends_with("WHERE dsc.description = $1;"));
}

#[test]
fn query_checksum_is_the_digest_of_the_text() {
    let columns = vec![Column { name: "id".to_string(), ty: "int4".to_string(), notnull: Some(true) }];
    let q = Query::describe("abc", vec!["int4".to_string()], columns);
    assert_eq!(q.checksum.len(), 64);
    assert_eq!(&q.checksum[..8], &[221, 175, 53, 161, 147, 97, 122, 186]);
    assert_eq!(q.params, vec!["int4".to_string()]);
    assert_eq!(q.columns.len(), 1);
    assert_eq!(q.columns[0].notnull, Some(true));
    let q = Query::with_checksum(vec![1], vec![], vec![]);
    assert_eq!(q.checksum, vec![1]);
}
