//! What the migration commands decide: which migrations a run applies, how
//! a migration is fixed, and how the state of a migration is shown.
//!
//! Nothing here touches a database: a function takes the reconciled
//! migrations and returns what is to be done.

use crate::migration::db::LogOperation;
use crate::migration::error::Error;
use crate::migration::file::MigrationFile;
use crate::migration::models::{
    ascending, bytes_eq, find_migration, has_migration, Migration, MigrationStatus, MigrationView,
};
use crate::number::{decimal, i32_to_string};
use vstd::prelude::*;
use vstd::string::*;

verus! {

/// Whether every migration of a list has a file, a record, or both.
pub open spec fn all_wf(migrations: Seq<Migration>) -> bool {
    forall|i: int| 0 <= i < migrations.len() ==> (#[trigger] migrations[i])@.wf()
}

/// Tells whether a list of migrations is as a merge of files and records
/// leaves it: the numbers ascend, no number twice, and every migration has a
/// file, a record, or both.
pub fn is_reconciled(migrations: &Vec<Migration>) -> (r: bool)
    ensures
        r == (all_wf(migrations@) && ascending(migrations@)),
{
    let mut i: usize = 0;
    while i < migrations.len()
        invariant
            i <= migrations@.len(),
            forall|j: int| 0 <= j < i ==> (#[trigger] migrations@[j])@.wf(),
            forall|j: int| 0 < j < i ==> (#[trigger] migrations@[j - 1]).number < migrations@[j].number,
        decreases migrations@.len() - i,
    {
        let m = &migrations[i];
        if m.file.is_none() && m.db.is_none() {
            return false;
        }
        if i > 0 && migrations[i - 1].number >= m.number {
            assert(!(migrations@[i - 1].number < migrations@[i as int].number));
            return false;
        }
        i += 1;
    }
    proof {
        assert forall|a: int, b: int| 0 <= a < b < migrations@.len() implies (
        #[trigger] migrations@[a]).number < (#[trigger] migrations@[b]).number by {
            lemma_steps_ascend(migrations@, a, b);
        }
    }
    true
}

/// Numbers that grow from each migration to the next grow along the list.
proof fn lemma_steps_ascend(migrations: Seq<Migration>, a: int, b: int)
    requires
        0 <= a < b < migrations.len(),
        forall|j: int|
            0 < j < migrations.len() ==> (#[trigger] migrations[j - 1]).number < migrations[j].number,
    ensures
        migrations[a].number < migrations[b].number,
    decreases b - a,
{
    assert(migrations[b - 1].number < migrations[b].number);
    if a < b - 1 {
        lemma_steps_ascend(migrations, a, b - 1);
    }
}

/// How the ledger is brought in line with the files for one migration. No
/// SQL of a migration is run for any of them.
#[derive(Debug)]
pub enum FixAction<'a> {
    /// The record takes the name and the hash of the file.
    Update(&'a MigrationFile),
    /// The file is recorded as if it had been run.
    Fake(&'a MigrationFile),
    /// The record of the number is removed.
    Remove(i32),
}

impl<'a> FixAction<'a> {
    /// The operation that the ledger logs for the action.
    pub open spec fn logged(self) -> LogOperation {
        match self {
            FixAction::Update(_) => LogOperation::Update,
            FixAction::Fake(_) => LogOperation::Fake,
            FixAction::Remove(_) => LogOperation::Delete,
        }
    }

    /// The operation that the ledger logs for the action.
    pub fn operation(&self) -> (r: LogOperation)
        ensures
            r == self.logged(),
    {
        match self {
            FixAction::Update(_) => LogOperation::Update,
            FixAction::Fake(_) => LogOperation::Fake,
            FixAction::Remove(_) => LogOperation::Delete,
        }
    }
}

/// The statement that asks the ledger for an operation. Its parameters are
/// the number, the name and the hash of the migration; to delete takes the
/// number alone.
pub fn ledger_sql(operation: LogOperation) -> (r: &'static str)
    ensures
        r@ == match operation {
            LogOperation::Apply => "SELECT migration_insert($1, $2, $3)"@,
            LogOperation::Update => "SELECT migration_update($1, $2, $3)"@,
            LogOperation::Fake => "SELECT migration_fake($1, $2, $3)"@,
            LogOperation::Delete => "SELECT migration_delete($1)"@,
        },
{
    match operation {
        LogOperation::Apply => "SELECT migration_insert($1, $2, $3)",
        LogOperation::Update => "SELECT migration_update($1, $2, $3)",
        LogOperation::Fake => "SELECT migration_fake($1, $2, $3)",
        LogOperation::Delete => "SELECT migration_delete($1)",
    }
}

/// The message for a number that no migration has.
pub open spec fn no_such_number(number: i32) -> Seq<char> {
    "Migration number does not exist: "@ + decimal(number as int)
}

/// The message for a migration that is in order.
pub open spec fn nothing_to_fix(number: i32) -> Seq<char> {
    "Migration does not require fixing: "@ + decimal(number as int)
}

/// Decides how the migration with the given number is fixed.
///
/// A file that differs from its record has the record updated. A file
/// without a record is recorded without being run. A record without a file
/// is removed. A number that no migration has is an error, and so is a
/// migration that is in order.
pub fn fix_action<'a>(migrations: &'a Vec<Migration>, number: i32) -> (r: Result<
    FixAction<'a>,
    Error,
>)
    requires
        ascending(migrations@),
        all_wf(migrations@),
    ensures
        match r {
            Ok(action) => exists|i: int|
                0 <= i < migrations@.len() && (#[trigger] migrations@[i]).number == number
                    && match action {
                    FixAction::Update(f) => migrations@[i].file == Some(*f)
                        && migrations@[i]@.is_mismatch(),
                    FixAction::Fake(f) => migrations@[i].file == Some(*f)
                        && migrations@[i]@.is_not_applied(),
                    FixAction::Remove(n) => migrations@[i]@.is_file_missing() && n
                        == migrations@[i].db->0.number,
                },
            Err(e) => e is Misc && if has_migration(migrations@, number) {
                e.text() == nothing_to_fix(number) && exists|i: int|
                    0 <= i < migrations@.len() && (#[trigger] migrations@[i]).number == number
                        && migrations@[i]@.is_ok()
            } else {
                e.text() == no_such_number(number)
            },
        },
{
    let index = match find_migration(migrations, number) {
        Some(index) => index,
        None => {
            let mut m = String::from_str("Migration number does not exist: ");
            let n = i32_to_string(number);
            m.append(n.as_str());
            return Err(Error::Misc(m));
        },
    };
    let migration = &migrations[index];
    assert(migrations@[index as int].number == number);
    assert(migrations@[index as int]@.wf());
    assert(has_migration(migrations@, number));
    match migration.get_status() {
        MigrationStatus::Okay(_, _) => {
            let mut m = String::from_str("Migration does not require fixing: ");
            let n = i32_to_string(number);
            m.append(n.as_str());
            Err(Error::Misc(m))
        },
        MigrationStatus::Mismatch(file, _) => Ok(FixAction::Update(file)),
        MigrationStatus::NotApplied(file) => Ok(FixAction::Fake(file)),
        MigrationStatus::FileMissing(record) => Ok(FixAction::Remove(record.number)),
    }
}

/// The message of a run that meets a file that differs from its record.
pub open spec fn mismatch_found() -> Seq<char> {
    "Migration file mismatch found. See `status` for more details"@
}

/// The message of a run that meets a record without a file.
pub open spec fn file_missing() -> Seq<char> {
    "Migration file missing. See `status` for more details"@
}

/// What a run does, read along the migrations in ascending order: the files
/// it applies, and the message of the error that ends it, if one does. A
/// migration that is in order is passed, a file without a record is
/// applied, and the first file that differs from its record, or record
/// without a file, ends the run; nothing after it is applied.
pub open spec fn run_of(migrations: Seq<Migration>) -> (Seq<MigrationFile>, Option<Seq<char>>)
    decreases migrations.len(),
{
    if migrations.len() == 0 {
        (Seq::empty(), None)
    } else {
        let (files, error) = run_of(migrations.drop_last());
        let m = migrations.last();
        if error is Some {
            (files, error)
        } else if m@.is_not_applied() {
            (files.push(m.file->0), None)
        } else if m@.is_mismatch() {
            (files, Some(mismatch_found()))
        } else if m@.is_file_missing() {
            (files, Some(file_missing()))
        } else {
            (files, None)
        }
    }
}

/// What a run does: the files to apply, in their order, and the error that
/// ends the run after them, if one does.
#[derive(Debug)]
pub struct RunPlan<'a> {
    /// The files whose SQL is run and which are then recorded, one after the other.
    pub apply: Vec<&'a MigrationFile>,
    /// The error with which the run ends once the files are applied.
    pub error: Option<Error>,
}

/// A run that has ended stays as it is, whatever follows.
proof fn lemma_run_ended(migrations: Seq<Migration>, n: int)
    requires
        0 <= n <= migrations.len(),
        run_of(migrations.take(n)).1 is Some,
    ensures
        run_of(migrations) == run_of(migrations.take(n)),
    decreases migrations.len() - n,
{
    if n < migrations.len() {
        assert(migrations.take(n + 1).drop_last() =~= migrations.take(n));
        lemma_run_ended(migrations, n + 1);
    } else {
        assert(migrations.take(n) =~= migrations);
    }
}

/// Plans a run over the reconciled migrations.
pub fn run_plan<'a>(migrations: &'a Vec<Migration>) -> (r: RunPlan<'a>)
    requires
        all_wf(migrations@),
    ensures
        r.apply@.map_values(|f: &MigrationFile| *f) == run_of(migrations@).0,
        match r.error {
            Some(e) => e is Misc && run_of(migrations@).1 == Some(e.text()),
            None => run_of(migrations@).1 is None,
        },
{
    let mut apply: Vec<&'a MigrationFile> = Vec::new();
    let mut i: usize = 0;
    assert(migrations@.take(0) =~= Seq::empty());
    assert(apply@.map_values(|f: &MigrationFile| *f) =~= Seq::empty());
    while i < migrations.len()
        invariant
            i <= migrations@.len(),
            all_wf(migrations@),
            apply@.map_values(|f: &MigrationFile| *f) == run_of(migrations@.take(i as int)).0,
            run_of(migrations@.take(i as int)).1 is None,
        decreases migrations@.len() - i,
    {
        let m = &migrations[i];
        proof {
            let next = migrations@.take(i + 1);
            assert(next.drop_last() =~= migrations@.take(i as int));
            assert(next.last() == *m);
            assert(migrations@[i as int]@.wf());
        }
        let ghost before = apply@.map_values(|f: &MigrationFile| *f);
        match m.get_status() {
            MigrationStatus::Okay(_, _) => {},
            MigrationStatus::Mismatch(_, _) => {
                proof {
                    lemma_run_ended(migrations@, i + 1);
                }
                let e = Error::Misc(
                    String::from_str("Migration file mismatch found. See `status` for more details"),
                );
                return RunPlan { apply, error: Some(e) };
            },
            MigrationStatus::NotApplied(file) => {
                apply.push(file);
                assert(apply@.map_values(|f: &MigrationFile| *f) =~= before.push(*file));
            },
            MigrationStatus::FileMissing(_) => {
                proof {
                    lemma_run_ended(migrations@, i + 1);
                }
                let e = Error::Misc(
                    String::from_str("Migration file missing. See `status` for more details"),
                );
                return RunPlan { apply, error: Some(e) };
            },
        }
        i += 1;
    }
    assert(migrations@.take(i as int) =~= migrations@);
    RunPlan { apply, error: None }
}

/// Whether every migration is in order: each has a file and a record that agree.
pub fn all_applied(migrations: &Vec<Migration>) -> (r: bool)
    requires
        all_wf(migrations@),
    ensures
        r == forall|i: int| 0 <= i < migrations@.len() ==> (#[trigger] migrations@[i])@.is_ok(),
{
    let mut i: usize = 0;
    while i < migrations.len()
        invariant
            i <= migrations@.len(),
            all_wf(migrations@),
            forall|j: int| 0 <= j < i ==> (#[trigger] migrations@[j])@.is_ok(),
        decreases migrations@.len() - i,
    {
        assert(migrations@[i as int]@.wf());
        match migrations[i].get_status() {
            MigrationStatus::Okay(_, _) => {},
            _ => {
                assert(!migrations@[i as int]@.is_ok());
                return false;
            },
        }
        i += 1;
    }
    true
}

/// The emphasis with which a state is shown.
#[derive(Clone, Copy, Debug, PartialEq, Eq, Structural, Hash)]
pub enum Highlight {
    /// All is well.
    Good,
    /// Something is wrong.
    Error,
    /// Something is new.
    New,
    /// Something has changed.
    Modified,
}

/// The emphasis of an operation in the log.
pub fn operation_highlight(operation: LogOperation) -> (r: Highlight)
    ensures
        r == match operation {
            LogOperation::Apply => Highlight::Good,
            LogOperation::Update => Highlight::Modified,
            LogOperation::Delete => Highlight::Error,
            LogOperation::Fake => Highlight::Modified,
        },
{
    match operation {
        LogOperation::Apply => Highlight::Good,
        LogOperation::Update => Highlight::Modified,
        LogOperation::Delete => Highlight::Error,
        LogOperation::Fake => Highlight::Modified,
    }
}

/// A line of the list of migrations.
#[derive(Clone, Debug)]
pub struct StatusRow {
    pub number: i32,
    /// The name of the file, or of the record where there is no file.
    pub name: String,
    /// The state in words.
    pub label: String,
    pub highlight: Highlight,
}

impl MigrationView {
    /// The name under which the migration is listed.
    pub open spec fn listed_name(self) -> Seq<char> {
        if self.file is Some {
            self.file->0.name
        } else {
            self.db->0.name
        }
    }

    /// The state of the migration in words. A mismatch names what differs.
    pub open spec fn label(self) -> Seq<char> {
        if self.is_ok() {
            "Ok"@
        } else if self.is_mismatch() {
            "Mismatch:"@ + (if self.file->0.name != self.db->0.name {
                " name"@
            } else {
                Seq::empty()
            }) + (if self.file->0.hash != self.db->0.hash {
                " hash"@
            } else {
                Seq::empty()
            })
        } else if self.is_not_applied() {
            "New"@
        } else {
            "Migration file missing"@
        }
    }

    /// The emphasis of the state.
    pub open spec fn highlight(self) -> Highlight {
        if self.is_ok() {
            Highlight::Good
        } else if self.is_mismatch() {
            Highlight::Modified
        } else if self.is_not_applied() {
            Highlight::New
        } else {
            Highlight::Error
        }
    }
}

/// Describes the state of a migration for the list of migrations.
pub fn status_row(migration: &Migration) -> (r: StatusRow)
    requires
        migration@.wf(),
    ensures
        r.number == migration.number,
        r.name@ == migration@.listed_name(),
        r.label@ == migration@.label(),
        r.highlight == migration@.highlight(),
{
    match migration.get_status() {
        MigrationStatus::Okay(file, _) => StatusRow {
            number: migration.number,
            name: file.name.clone(),
            label: String::from_str("Ok"),
            highlight: Highlight::Good,
        },
        MigrationStatus::Mismatch(file, record) => {
            let mut label = String::from_str("Mismatch:");
            if file.name != record.name {
                label.append(" name");
            }
            if !bytes_eq(&file.hash, &record.hash) {
                label.append(" hash");
            }
            assert(label@ =~= migration@.label());
            StatusRow {
                number: migration.number,
                name: file.name.clone(),
                label,
                highlight: Highlight::Modified,
            }
        },
        MigrationStatus::NotApplied(file) => StatusRow {
            number: migration.number,
            name: file.name.clone(),
            label: String::from_str("New"),
            highlight: Highlight::New,
        },
        MigrationStatus::FileMissing(record) => StatusRow {
            number: migration.number,
            name: record.name.clone(),
            label: String::from_str("Migration file missing"),
            highlight: Highlight::Error,
        },
    }
}

} // verus!
