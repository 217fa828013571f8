use tusker::migration::commands::{
    all_applied, fix_action, is_reconciled, ledger_sql, operation_highlight, run_plan, status_row,
    FixAction, Highlight,
};
use tusker::migration::db::{to_sql_error, DbMigration, DbMigrationLog, LogOperation};
use tusker::migration::error::Error;
use tusker::migration::file::{
    invalid_filename, is_sql_file, load_migration_files, parse_filename,
    MigrationFile, SourceFile,
};
use tusker::migration::models::{
    bytes_eq, combine_migrations, find_migration, Migration, MigrationStatus,
};

const H1: [u8; 3] = [1, 2, 3];
const H2: [u8; 3] = [9, 9, 9];

fn file(number: i32, name: &str, hash: &[u8]) -> MigrationFile {
    MigrationFile {
        path: format!("db/migrations/{:04}.{}.sql", number, name),
        number,
        name: name.to_string(),
        hash: hash.to_vec(),
    }
}

fn record(number: i32, name: &str, hash: &[u8]) -> DbMigration {
    DbMigration { number, name: name.to_string(), hash: hash.to_vec() }
}

fn source(path: &str, content: &str) -> SourceFile {
    SourceFile { path: path.to_string(), content: content.as_bytes().to_vec() }
}

fn hex(bytes: &[u8]) -> String {
    bytes.iter().map(|b| format!("{:02x}", b)).collect()
}

fn message(e: &Error) -> String {
    assert!(matches!(e, Error::Misc(_)));
    e.to_string()
}

#[test]
fn parse_filename_number_and_name() {
    assert_eq!(parse_filename("0001.init".to_string()), Ok((1, "init".to_string())));
    assert_eq!(parse_filename("42.add.col".to_string()), Ok((42, "add.col".to_string())));
    assert_eq!(parse_filename("7".to_string()), Ok((7, "".to_string())));
    assert_eq!(parse_filename("7.".to_string()), Ok((7, "".to_string())));
    assert_eq!(parse_filename("-3.down".to_string()), Ok((-3, "down".to_string())));
    assert_eq!(parse_filename("+3.up".to_string()), Ok((3, "up".to_string())));
    assert_eq!(
        parse_filename("2147483647.max".to_string()),
        Ok((i32::MAX, "max".to_string()))
    );
    assert_eq!(
        parse_filename("-2147483648.min".to_string()),
        Ok((i32::MIN, "min".to_string()))
    );
}

#[test]
fn parse_filename_errors() {
    assert_eq!(
        parse_filename("".to_string()),
        Err("Invalid number: cannot parse integer from empty string".to_string())
    );
    assert_eq!(
        parse_filename(".init".to_string()),
        Err("Invalid number: cannot parse integer from empty string".to_string())
    );
    assert_eq!(
        parse_filename("init".to_string()),
        Err("Invalid number: invalid digit found in string".to_string())
    );
    assert_eq!(
        parse_filename("12a.init".to_string()),
        Err("Invalid number: invalid digit found in string".to_string())
    );
    assert_eq!(
        parse_filename("-.init".to_string()),
        Err("Invalid number: invalid digit found in string".to_string())
    );
    assert_eq!(
        parse_filename("2147483648.big".to_string()),
        Err("Invalid number: number too large to fit in target type".to_string())
    );
    assert_eq!(
        parse_filename("-2147483649.small".to_string()),
        Err("Invalid number: number too small to fit in target type".to_string())
    );
    assert_eq!(
        parse_filename("99999999999x.big".to_string()),
        Err("Invalid number: number too large to fit in target type".to_string())
    );
}

#[test]
fn parse_filename_agrees_with_std() {
    for text in ["0", "007", "+0", "-0", "1x", "x1", "٣", "--1", "+-1", " 1", "1 ", "4294967296"] {
        let expected = text.parse::<i32>().map_err(|e| format!("Invalid number: {}", e));
        let got = parse_filename(text.to_string()).map(|(n, _)| n);
        assert_eq!(got, expected, "{:?}", text);
    }
}

#[test]
fn is_sql_file_looks_at_the_extension() {
    assert!(is_sql_file("db/migrations/0001.init.sql"));
    assert!(is_sql_file("0001.sql"));
    assert!(is_sql_file("a.b/c.sql"));
    assert!(!is_sql_file("db/migrations/README.md"));
    assert!(!is_sql_file("db/migrations/0001.init.SQL"));
    assert!(!is_sql_file("db/migrations/sql"));
    assert!(!is_sql_file("db/migrations/.sql"));
    assert!(!is_sql_file("db.sql/file"));
    assert!(!is_sql_file(""));
    assert!(!is_sql_file("dir/"));
    assert!(!is_sql_file(".."));
}

#[test]
fn migration_file_from_path_hashes_the_content() {
    let f = MigrationFile::from_path("db/migrations/0001.init.sql", b"abc").unwrap();
    assert_eq!(f.path, "db/migrations/0001.init.sql");
    assert_eq!(f.number, 1);
    assert_eq!(f.name, "init");
    assert_eq!(
        hex(&f.hash),
        "ddaf35a193617abacc417349ae20413112e6fa4e89a97ea20a9eeee64b55d39a2192992a274fc1a836ba3c23a3feebbd454d4423643ce80e2a9ac94fa54ca49f"
    );
    assert_eq!(f.hash.len(), 64);
    let empty = MigrationFile::from_path("2.x.sql", b"").unwrap();
    assert_eq!(
        hex(&empty.hash),
        "cf83e1357eefb8bdf1542850d66d8007d620e4050b5715dc83f4a921d36ce9ce47d0d13c5d85f2b0ff8318d2877eec2f63b931bd47417a81a538327af927da3e"
    );
}

#[test]
fn migration_file_with_hash_reads_the_name() {
    let f = MigrationFile::with_hash("0012.add_col.sql", vec![7, 8]).unwrap();
    assert_eq!((f.number, f.name.as_str(), f.hash.as_slice()), (12, "add_col", &[7u8, 8][..]));
    let f = MigrationFile::with_hash("/abs/dir.d/3.sql", vec![]).unwrap();
    assert_eq!((f.number, f.name.as_str()), (3, ""));
    let f = MigrationFile::with_hash("5", vec![]).unwrap();
    assert_eq!((f.number, f.name.as_str()), (5, ""));
}

#[test]
fn migration_file_with_bad_name() {
    let e = MigrationFile::with_hash("db/migrations/init.sql", vec![]).unwrap_err();
    assert_eq!(
        message(&e),
        "Invalid filename \"db/migrations/init.sql\": Invalid number: invalid digit found in string"
    );
    let e = MigrationFile::with_hash("db/a\"b\\c.sql", vec![]).unwrap_err();
    assert_eq!(
        message(&e),
        "Invalid filename \"db/a\\\"b\\\\c.sql\": Invalid number: invalid digit found in string"
    );
    let e = MigrationFile::with_hash("db/migrations/", vec![]).unwrap_err();
    assert_eq!(message(&e), "Invalid filename: db/migrations/");
    let e = MigrationFile::with_hash("db/..", vec![]).unwrap_err();
    assert_eq!(message(&e), "Invalid filename: db/..");
    let e = invalid_filename("\"x\"", "why");
    assert_eq!(message(&e), "Invalid filename \"x\": why");
}

#[test]
fn load_migration_files_skips_other_files_and_keeps_the_order() {
    let entries = vec![
        source("m/0002.b.sql", "b"),
        source("m/README.md", "text"),
        source("m/0001.a.sql", "a"),
    ];
    let files = load_migration_files(&entries).unwrap();
    assert_eq!(files.len(), 2);
    assert_eq!((files[0].number, files[0].name.as_str()), (2, "b"));
    assert_eq!((files[1].number, files[1].name.as_str()), (1, "a"));
    assert!(!bytes_eq(&files[0].hash, &files[1].hash));
    assert!(load_migration_files(&vec![]).unwrap().is_empty());
}

#[test]
fn load_migration_files_fails_on_a_repeated_number() {
    let entries = vec![
        source("m/0001.a.sql", "a"),
        source("m/0002.b.sql", "b"),
        source("m/1.again.sql", "c"),
        source("m/oops.sql", "d"),
    ];
    let e = load_migration_files(&entries).unwrap_err();
    assert_eq!(message(&e), "Migration folder contains multiple files for number 1");
}

#[test]
fn load_migration_files_fails_on_the_first_bad_name() {
    let entries = vec![
        source("m/0001.a.sql", "a"),
        source("m/oops.sql", "d"),
        source("m/1.again.sql", "c"),
    ];
    let e = load_migration_files(&entries).unwrap_err();
    assert_eq!(
        message(&e),
        "Invalid filename \"m/oops.sql\": Invalid number: invalid digit found in string"
    );
}

#[test]
fn load_migration_files_names_the_repeated_number() {
    let entries = vec![
        source("m/-2147483648.a.sql", "a"),
        source("m/7.b.sql", "b"),
        source("m/-2147483648.c.sql", "c"),
    ];
    let e = load_migration_files(&entries).unwrap_err();
    assert_eq!(
        message(&e),
        "Migration folder contains multiple files for number -2147483648"
    );
    let e = load_migration_files(&vec![source("007.a.sql", "a"), source("7.b.sql", "a")]).unwrap_err();
    assert_eq!(message(&e), "Migration folder contains multiple files for number 7");
}

#[test]
fn file_without_record_is_not_applied() {
    let files = load_migration_files(&vec![source("0001.init.sql", "create table t();\n")]).unwrap();
    let migrations = combine_migrations(&files, &[]);
    assert_eq!(migrations.len(), 1);
    assert_eq!(migrations[0].number, 1);
    assert!(matches!(migrations[0].get_status(), MigrationStatus::NotApplied(f) if f.name == "init"));
}

#[test]
fn file_with_equal_record_is_ok() {
    let migrations = combine_migrations(&[file(1, "init", &H1)], &[record(1, "init", &H1)]);
    assert_eq!(migrations.len(), 1);
    assert!(matches!(migrations[0].get_status(), MigrationStatus::Okay(_, _)));
    assert!(all_applied(&migrations));
    let e = fix_action(&migrations, 1).unwrap_err();
    assert_eq!(message(&e), "Migration does not require fixing: 1");
    let plan = run_plan(&migrations);
    assert!(plan.apply.is_empty() && plan.error.is_none());
}

#[test]
fn file_with_other_hash_is_a_mismatch() {
    let migrations = combine_migrations(&[file(1, "init", &H2)], &[record(1, "init", &H1)]);
    assert!(matches!(migrations[0].get_status(), MigrationStatus::Mismatch(_, _)));
    assert!(!all_applied(&migrations));
    let action = fix_action(&migrations, 1).unwrap();
    assert!(matches!(action, FixAction::Update(f) if f.hash == H2.to_vec() && f.name == "init"));
    assert_eq!(action.operation(), LogOperation::Update);
    assert_eq!(action.operation().as_str(), "update");
    assert_eq!(ledger_sql(action.operation()), "SELECT migration_update($1, $2, $3)");
    let plan = run_plan(&migrations);
    assert!(plan.apply.is_empty());
    assert_eq!(
        message(&plan.error.unwrap()),
        "Migration file mismatch found. See `status` for more details"
    );
}

#[test]
fn file_with_other_name_is_a_mismatch() {
    let migrations = combine_migrations(&[file(1, "init", &H1)], &[record(1, "start", &H1)]);
    assert!(matches!(migrations[0].get_status(), MigrationStatus::Mismatch(_, _)));
    let row = status_row(&migrations[0]);
    assert_eq!(row.label, "Mismatch: name");
}

#[test]
fn record_without_file_is_file_missing() {
    let migrations = combine_migrations(&[], &[record(2, "add_col", &H1)]);
    assert_eq!(migrations.len(), 1);
    assert_eq!(migrations[0].number, 2);
    assert!(matches!(migrations[0].get_status(), MigrationStatus::FileMissing(d) if d.name == "add_col"));
    let action = fix_action(&migrations, 2).unwrap();
    assert!(matches!(action, FixAction::Remove(2)));
    assert_eq!(action.operation(), LogOperation::Delete);
    assert_eq!(action.operation().as_str(), "delete");
    assert_eq!(ledger_sql(LogOperation::Delete), "SELECT migration_delete($1)");
    let plan = run_plan(&migrations);
    assert!(plan.apply.is_empty());
    assert_eq!(
        message(&plan.error.unwrap()),
        "Migration file missing. See `status` for more details"
    );
}

#[test]
fn fix_of_a_new_file_fakes_it() {
    let migrations = combine_migrations(&[file(3, "c", &H1)], &[]);
    let action = fix_action(&migrations, 3).unwrap();
    assert!(matches!(action, FixAction::Fake(f) if f.number == 3));
    assert_eq!(action.operation().as_str(), "fake");
    assert_eq!(ledger_sql(LogOperation::Fake), "SELECT migration_fake($1, $2, $3)");
    assert_eq!(ledger_sql(LogOperation::Apply), "SELECT migration_insert($1, $2, $3)");
}

#[test]
fn fix_of_an_unknown_number_fails() {
    let migrations = combine_migrations(&[file(1, "a", &H1), file(3, "c", &H1)], &[]);
    for n in [0, 2, 4, -1] {
        let e = fix_action(&migrations, n).unwrap_err();
        assert_eq!(message(&e), format!("Migration number does not exist: {}", n));
    }
    let e = fix_action(&vec![], 1).unwrap_err();
    assert_eq!(message(&e), "Migration number does not exist: 1");
}

#[test]
fn combine_migrations_merges_by_number_in_ascending_order() {
    let files = [file(5, "e", &H1), file(1, "a", &H1), file(3, "c", &H2)];
    let records = [record(3, "c", &H1), record(2, "b", &H1), record(1, "a", &H1), record(10, "j", &H1)];
    let migrations = combine_migrations(&files, &records);
    let numbers: Vec<i32> = migrations.iter().map(|m| m.number).collect();
    assert_eq!(numbers, vec![1, 2, 3, 5, 10]);
    assert!(is_reconciled(&migrations));
    assert!(matches!(migrations[0].get_status(), MigrationStatus::Okay(_, _)));
    assert!(matches!(migrations[1].get_status(), MigrationStatus::FileMissing(_)));
    assert!(matches!(migrations[2].get_status(), MigrationStatus::Mismatch(_, _)));
    assert!(matches!(migrations[3].get_status(), MigrationStatus::NotApplied(_)));
    assert!(matches!(migrations[4].get_status(), MigrationStatus::FileMissing(_)));
    assert_eq!(find_migration(&migrations, 5), Some(3));
    assert_eq!(find_migration(&migrations, 4), None);
    assert!(combine_migrations(&[], &[]).is_empty());
}

#[test]
fn combine_migrations_keeps_the_last_of_a_repeated_number() {
    let files = [file(1, "first", &H1), file(1, "second", &H2)];
    let records = [record(1, "x", &H1), record(1, "second", &H2)];
    let migrations = combine_migrations(&files, &records);
    assert_eq!(migrations.len(), 1);
    assert_eq!(migrations[0].file.as_ref().unwrap().name, "second");
    assert_eq!(migrations[0].db.as_ref().unwrap().name, "second");
    assert!(matches!(migrations[0].get_status(), MigrationStatus::Okay(_, _)));
}

#[test]
fn run_applies_new_files_up_to_the_first_drift() {
    let files = [file(1, "a", &H1), file(2, "b", &H1), file(3, "c", &H1), file(5, "e", &H1)];
    let records = [record(1, "a", &H1), record(4, "d", &H1)];
    let migrations = combine_migrations(&files, &records);
    let plan = run_plan(&migrations);
    let applied: Vec<i32> = plan.apply.iter().map(|f| f.number).collect();
    assert_eq!(applied, vec![2, 3]);
    assert_eq!(
        message(&plan.error.unwrap()),
        "Migration file missing. See `status` for more details"
    );
    let migrations = combine_migrations(&files, &records[..1]);
    let plan = run_plan(&migrations);
    let applied: Vec<i32> = plan.apply.iter().map(|f| f.number).collect();
    assert_eq!(applied, vec![2, 3, 5]);
    assert!(plan.error.is_none());
    assert!(!all_applied(&migrations));
}

#[test]
fn is_reconciled_checks_order_and_content() {
    let good = combine_migrations(&[file(1, "a", &H1), file(2, "b", &H1)], &[]);
    assert!(is_reconciled(&good));
    let empty = Migration { number: 3, file: None, db: None };
    assert!(!is_reconciled(&vec![empty]));
    let unordered = vec![
        Migration { number: 2, file: Some(file(2, "b", &H1)), db: None },
        Migration { number: 1, file: Some(file(1, "a", &H1)), db: None },
    ];
    assert!(!is_reconciled(&unordered));
    let twice = vec![
        Migration { number: 1, file: Some(file(1, "b", &H1)), db: None },
        Migration { number: 1, file: Some(file(1, "a", &H1)), db: None },
    ];
    assert!(!is_reconciled(&twice));
}

#[test]
fn status_rows() {
    let files = [file(1, "a", &H1), file(2, "b", &H2), file(3, "c", &H1)];
    let records = [record(1, "a", &H1), record(2, "bee", &H1), record(4, "d", &H1)];
    let migrations = combine_migrations(&files, &records);
    let rows: Vec<_> = migrations.iter().map(status_row).collect();
    let shown: Vec<(i32, &str, &str, Highlight)> = rows
        .iter()
        .map(|r| (r.number, r.name.as_str(), r.label.as_str(), r.highlight))
        .collect();
    assert_eq!(
        shown,
        vec![
            (1, "a", "Ok", Highlight::Good),
            (2, "b", "Mismatch: name hash", Highlight::Modified),
            (3, "c", "New", Highlight::New),
            (4, "d", "Migration file missing", Highlight::Error),
        ]
    );
    let hash_only = combine_migrations(&[file(1, "a", &H1)], &[record(1, "a", &H2)]);
    assert_eq!(status_row(&hash_only[0]).label, "Mismatch: hash");
}

#[test]
fn log_operations() {
    assert_eq!(LogOperation::parse("apply"), Some(LogOperation::Apply));
    assert_eq!(LogOperation::parse("update"), Some(LogOperation::Update));
    assert_eq!(LogOperation::parse("delete"), Some(LogOperation::Delete));
    assert_eq!(LogOperation::parse("fake"), Some(LogOperation::Fake));
    assert_eq!(LogOperation::parse("Apply"), None);
    assert_eq!(LogOperation::parse(""), None);
    assert_eq!(operation_highlight(LogOperation::Apply), Highlight::Good);
    assert_eq!(operation_highlight(LogOperation::Update), Highlight::Modified);
    assert_eq!(operation_highlight(LogOperation::Delete), Highlight::Error);
    assert_eq!(operation_highlight(LogOperation::Fake), Highlight::Modified);
    let entry = DbMigrationLog {
        number: 1,
        name: "init".to_string(),
        timestamp: 1_700_000_000_000_000_000,
        operation: "fake".to_string(),
    };
    assert_eq!(entry.operation(), Some(LogOperation::Fake));
    assert_eq!(LogOperation::Apply.as_str(), "apply");
}

#[test]
fn error_messages() {
    assert_eq!(Error::Misc("m".to_string()).to_string(), "m");
    assert_eq!(Error::Sql("s".to_string()).to_string(), "s");
    assert_eq!(Error::Io("open".to_string(), "denied".to_string()).to_string(), "open: denied");
    assert_eq!(Error::Pg("query".to_string(), "closed".to_string()).to_string(), "query: closed");
    assert_eq!(Error::from_io("eof".to_string()).to_string(), "I/O error: eof");
}

#[test]
fn sql_error_marks_the_place() {
    let sql = "select 1;\nselect x from t;\nselect 2;\n";
    // The offset of `x` in the second line, counted from 1.
    let e = to_sql_error(sql, Some(18), "column \"x\" does not exist");
    assert!(matches!(e, Error::Sql(_)));
    assert_eq!(e.to_string(), "LINE 2: select x from t;               ^");
    let e = to_sql_error(sql, Some(1), "boom");
    assert_eq!(e.to_string(), "LINE 1: select 1;        ^");
    let e = to_sql_error(sql, Some(0), "boom");
    assert_eq!(e.to_string(), "LINE 1: select 1;       ^");
}

#[test]
fn sql_error_in_a_text_without_line_break() {
    let e = to_sql_error("selec 1", Some(1), "syntax error");
    assert_eq!(e.to_string(), "LINE 1: selec 1        ^");
    let e = to_sql_error("selec 1", Some(7), "syntax error");
    assert_eq!(e.to_string(), "LINE 1: selec 1              ^");
    let e = to_sql_error("", Some(0), "syntax error");
    assert_eq!(e.to_string(), "LINE 1:        ^");
}

#[test]
fn sql_error_counts_characters() {
    let e = to_sql_error("select 'é', x;\n", Some(13), "no x");
    assert_eq!(e.to_string(), "LINE 1: select 'é', x;                    ^");
}

#[test]
fn sql_error_without_a_place() {
    let e = to_sql_error("select 1", None, "db error: out of memory");
    assert_eq!(e.to_string(), "SQL error: db error: out of memory");
    let e = to_sql_error("select 1", Some(9), "cause");
    assert_eq!(e.to_string(), "SQL error: cause");
    let e = to_sql_error("select 1", Some(u32::MAX), "cause");
    assert_eq!(e.to_string(), "SQL error: cause");
}
