//! Migrations as the files and the ledger together describe them.

use crate::migration::db::{DbMigration, DbMigrationView};
use crate::migration::file::{MigrationFile, MigrationFileView};
use std::collections::BTreeMap;
use vstd::prelude::*;
use vstd::std_specs::btree::{increasing_seq, spec_btree_map_iter};
use vstd::std_specs::cmp::OrdSpec;
use vstd::std_specs::iter::IteratorSpec;

verus! {

/// How the file of a migration and its record in the ledger agree.
#[derive(Debug)]
pub enum MigrationStatus<'a> {
    /// File and record have the same name and hash.
    Okay(&'a MigrationFile, &'a DbMigration),
    /// File and record differ in name or hash.
    Mismatch(&'a MigrationFile, &'a DbMigration),
    /// There is a file and no record.
    NotApplied(&'a MigrationFile),
    /// There is a record and no file.
    FileMissing(&'a DbMigration),
}

/// A migration number with its file and its record in the ledger, as far as
/// there is one. A migration has at least one of the two.
#[derive(Clone, Debug)]
pub struct Migration {
    pub number: i32,
    pub file: Option<MigrationFile>,
    pub db: Option<DbMigration>,
}

/// A migration as plain values.
pub struct MigrationView {
    pub number: i32,
    pub file: Option<MigrationFileView>,
    pub db: Option<DbMigrationView>,
}

impl View for Migration {
    type V = MigrationView;

    open spec fn view(&self) -> MigrationView {
        MigrationView {
            number: self.number,
            file: match self.file {
                Some(f) => Some(f@),
                None => None,
            },
            db: match self.db {
                Some(d) => Some(d@),
                None => None,
            },
        }
    }
}

/// Whether two byte strings are equal.
pub fn bytes_eq(a: &Vec<u8>, b: &Vec<u8>) -> (r: bool)
    ensures
        r == (a@ == b@),
{
    if a.len() != b.len() {
        return false;
    }
    let mut i: usize = 0;
    while i < a.len()
        invariant
            i <= a@.len(),
            a@.len() == b@.len(),
            forall|j: int| 0 <= j < i ==> a@[j] == b@[j],
        decreases a@.len() - i,
    {
        if a[i] != b[i] {
            return false;
        }
        i += 1;
    }
    assert(a@ =~= b@);
    true
}

/// A copy of a byte string.
fn copy_bytes(a: &Vec<u8>) -> (r: Vec<u8>)
    ensures
        r@ == a@,
{
    let mut r: Vec<u8> = Vec::new();
    let mut i: usize = 0;
    while i < a.len()
        invariant
            i <= a@.len(),
            r@ == a@.take(i as int),
        decreases a@.len() - i,
    {
        r.push(a[i]);
        assert(r@ =~= a@.take(i + 1));
        i += 1;
    }
    assert(a@.take(i as int) =~= a@);
    r
}

/// A copy of a migration file.
fn copy_file(f: &MigrationFile) -> (r: MigrationFile)
    ensures
        r@ == f@,
{
    MigrationFile {
        path: f.path.clone(),
        number: f.number,
        name: f.name.clone(),
        hash: copy_bytes(&f.hash),
    }
}

/// A copy of a record of the ledger.
fn copy_db(d: &DbMigration) -> (r: DbMigration)
    ensures
        r@ == d@,
{
    DbMigration { number: d.number, name: d.name.clone(), hash: copy_bytes(&d.hash) }
}

impl MigrationView {
    /// Whether file and record have the same name and hash.
    pub open spec fn agrees(f: MigrationFileView, d: DbMigrationView) -> bool {
        f.name == d.name && f.hash == d.hash
    }

    /// Whether the migration has a file, a record, or both.
    pub open spec fn wf(self) -> bool {
        self.file is Some || self.db is Some
    }

    /// Whether file and record are both there and agree.
    pub open spec fn is_ok(self) -> bool {
        self.file is Some && self.db is Some && Self::agrees(self.file->0, self.db->0)
    }

    /// Whether file and record are both there and differ.
    pub open spec fn is_mismatch(self) -> bool {
        self.file is Some && self.db is Some && !Self::agrees(self.file->0, self.db->0)
    }

    /// Whether there is a file and no record.
    pub open spec fn is_not_applied(self) -> bool {
        self.file is Some && self.db is None
    }

    /// Whether there is a record and no file.
    pub open spec fn is_file_missing(self) -> bool {
        self.file is None && self.db is Some
    }
}

impl Migration {
    /// Tells how the file and the record of the migration agree.
    ///
    /// A migration with neither file nor record does not come out of
    /// [`combine_migrations`] and has no status.
    pub fn get_status(&self) -> (r: MigrationStatus<'_>)
        requires
            self@.wf(),
        ensures
            match r {
                MigrationStatus::Okay(f, d) => self.file == Some(*f) && self.db == Some(*d)
                    && self@.is_ok(),
                MigrationStatus::Mismatch(f, d) => self.file == Some(*f) && self.db == Some(*d)
                    && self@.is_mismatch(),
                MigrationStatus::NotApplied(f) => self.file == Some(*f) && self@.is_not_applied(),
                MigrationStatus::FileMissing(d) => self.db == Some(*d) && self@.is_file_missing(),
            },
    {
        match (&self.file, &self.db) {
            (Some(file), Some(db)) => {
                if file.name == db.name && bytes_eq(&file.hash, &db.hash) {
                    MigrationStatus::Okay(file, db)
                } else {
                    MigrationStatus::Mismatch(file, db)
                }
            },
            (Some(file), None) => MigrationStatus::NotApplied(file),
            (None, Some(db)) => MigrationStatus::FileMissing(db),
            (None, None) => vstd::pervasive::unreached(),
        }
    }
}

/// The last of the files with the number `n`.
pub open spec fn file_for(files: Seq<MigrationFile>, n: i32) -> Option<MigrationFileView>
    decreases files.len(),
{
    if files.len() == 0 {
        None
    } else if files.last().number == n {
        Some(files.last()@)
    } else {
        file_for(files.drop_last(), n)
    }
}

/// The last of the records with the number `n`.
pub open spec fn record_for(records: Seq<DbMigration>, n: i32) -> Option<DbMigrationView>
    decreases records.len(),
{
    if records.len() == 0 {
        None
    } else if records.last().number == n {
        Some(records.last()@)
    } else {
        record_for(records.drop_last(), n)
    }
}

/// The migration with the number `n` as files and records describe it.
pub open spec fn reconciled(files: Seq<MigrationFile>, records: Seq<DbMigration>, n: i32) -> MigrationView {
    MigrationView { number: n, file: file_for(files, n), db: record_for(records, n) }
}

/// Whether the numbers of the migrations ascend, no number twice.
pub open spec fn ascending(migrations: Seq<Migration>) -> bool {
    forall|i: int, j: int|
        0 <= i < j < migrations.len() ==> (#[trigger] migrations[i]).number
            < (#[trigger] migrations[j]).number
}

/// Whether one of the migrations has the number `n`.
pub open spec fn has_migration(migrations: Seq<Migration>, n: i32) -> bool {
    exists|i: int| 0 <= i < migrations.len() && (#[trigger] migrations[i]).number == n
}

/// Whether `migrations` is what files and records together describe: one
/// migration for each number that a file or a record has, in ascending
/// order, each with the file and the record of its number.
pub open spec fn combined(
    migrations: Seq<Migration>,
    files: Seq<MigrationFile>,
    records: Seq<DbMigration>,
) -> bool {
    &&& ascending(migrations)
    &&& forall|i: int|
        0 <= i < migrations.len() ==> (#[trigger] migrations[i])@ == reconciled(
            files,
            records,
            migrations[i].number,
        ) && migrations[i]@.wf()
    &&& forall|n: i32|
        (file_for(files, n) is Some || record_for(records, n) is Some) ==> #[trigger] has_migration(
            migrations,
            n,
        )
}

/// The place of the number `n` among ascending migrations: the first place
/// whose migration has a number that is not below `n`.
fn lower_bound(migrations: &Vec<Migration>, n: i32) -> (p: usize)
    requires
        ascending(migrations@),
    ensures
        p <= migrations@.len(),
        forall|i: int| 0 <= i < p ==> (#[trigger] migrations@[i]).number < n,
        forall|i: int| p <= i < migrations@.len() ==> (#[trigger] migrations@[i]).number >= n,
{
    let mut lo: usize = 0;
    let mut hi: usize = migrations.len();
    while lo < hi
        invariant
            lo <= hi <= migrations@.len(),
            ascending(migrations@),
            forall|i: int| 0 <= i < lo ==> (#[trigger] migrations@[i]).number < n,
            forall|i: int| hi <= i < migrations@.len() ==> (#[trigger] migrations@[i]).number >= n,
        decreases hi - lo,
    {
        let mid = lo + (hi - lo) / 2;
        if migrations[mid].number < n {
            assert forall|i: int| 0 <= i < mid + 1 implies (#[trigger] migrations@[i]).number
                < n by {
                if i < mid {
                    assert(migrations@[i].number < migrations@[mid as int].number);
                }
            }
            lo = mid + 1;
        } else {
            assert forall|i: int| mid <= i < migrations@.len() implies (
            #[trigger] migrations@[i]).number >= n by {
                if i > mid {
                    assert(migrations@[mid as int].number < migrations@[i].number);
                }
            }
            hi = mid;
        }
    }
    lo
}

/// Finds the migration with the number `n` among ascending migrations.
pub fn find_migration(migrations: &Vec<Migration>, n: i32) -> (r: Option<usize>)
    requires
        ascending(migrations@),
    ensures
        match r {
            Some(i) => i < migrations@.len() && migrations@[i as int].number == n,
            None => !has_migration(migrations@, n),
        },
{
    let p = lower_bound(migrations, n);
    if p < migrations.len() && migrations[p].number == n {
        Some(p)
    } else {
        assert forall|i: int| 0 <= i < migrations@.len() implies (#[trigger] migrations@[i]).number
            != n by {
            if i > p {
                assert(migrations@[p as int].number < migrations@[i].number);
            }
        }
        None
    }
}

/// Whether `map` holds, under each number that a file or a record has, the
/// migration of that number as files and records describe it, and nothing
/// under any other number.
pub open spec fn merged(
    map: Map<i32, Migration>,
    files: Seq<MigrationFile>,
    records: Seq<DbMigration>,
) -> bool {
    forall|n: i32|
        #![trigger map.contains_key(n)]
        (map.contains_key(n) <==> file_for(files, n) is Some || record_for(records, n) is Some)
            && (map.contains_key(n) ==> map[n]@ == reconciled(files, records, n))
}

/// Numbers in increasing order grow from each to the next.
proof fn lemma_increasing_numbers(s: Seq<i32>)
    requires
        increasing_seq(s),
    ensures
        forall|i: int, j: int| 0 <= i < j < s.len() ==> s[i] < s[j],
{
    assert forall|i: int, j: int| 0 <= i < j < s.len() implies s[i] < s[j] by {
        assert(s[i].cmp_spec(&s[j]) is Less);
    }
}

/// A copy of a migration.
fn copy_migration(m: &Migration) -> (r: Migration)
    ensures
        r@ == m@,
        r.number == m.number,
{
    Migration {
        number: m.number,
        file: match &m.file {
            Some(f) => Some(copy_file(f)),
            None => None,
        },
        db: match &m.db {
            Some(d) => Some(copy_db(d)),
            None => None,
        },
    }
}

/// Merges the migration files and the records of the ledger by number.
///
/// Numbers need not follow each other without gaps. Where several files
/// have one number the last of them counts, and likewise for records.
pub fn combine_migrations(migration_files: &[MigrationFile], db_migrations: &[DbMigration]) -> (r:
    Vec<Migration>)
    ensures
        combined(r@, migration_files@, db_migrations@),
{
    let mut map: BTreeMap<i32, Migration> = BTreeMap::new();
    let ghost none = Seq::<DbMigration>::empty();
    let mut k: usize = 0;
    assert(migration_files@.take(0) =~= Seq::empty());
    while k < migration_files.len()
        invariant
            k <= migration_files@.len(),
            none.len() == 0,
            merged(map@, migration_files@.take(k as int), none),
        decreases migration_files@.len() - k,
    {
        let f = &migration_files[k];
        let ghost before = map@;
        let ghost done = migration_files@.take(k as int);
        let ghost next = migration_files@.take(k + 1);
        proof {
            assert(next.drop_last() =~= done);
            assert(next.last() == *f);
        }
        map.insert(f.number, Migration { number: f.number, file: Some(copy_file(f)), db: None });
        proof {
            assert forall|n: i32|
                #![trigger map@.contains_key(n)]
                (map@.contains_key(n) <==> file_for(next, n) is Some || record_for(none, n) is Some)
                    && (map@.contains_key(n) ==> map@[n]@ == reconciled(next, none, n)) by {
                assert(before.contains_key(n) <==> file_for(done, n) is Some || record_for(none, n)
                    is Some);
            }
        }
        k += 1;
    }
    let ghost files = migration_files@;
    assert(migration_files@.take(k as int) =~= files);
    let mut k: usize = 0;
    assert(db_migrations@.take(0) =~= none);
    while k < db_migrations.len()
        invariant
            k <= db_migrations@.len(),
            files == migration_files@,
            merged(map@, files, db_migrations@.take(k as int)),
        decreases db_migrations@.len() - k,
    {
        let d = &db_migrations[k];
        let ghost before = map@;
        let ghost done = db_migrations@.take(k as int);
        let ghost next = db_migrations@.take(k + 1);
        proof {
            assert(next.drop_last() =~= done);
            assert(next.last() == *d);
            assert(before.contains_key(d.number) <==> file_for(files, d.number) is Some
                || record_for(done, d.number) is Some);
        }
        let migration = match map.remove(&d.number) {
            Some(m) => Migration { number: m.number, file: m.file, db: Some(copy_db(d)) },
            None => Migration { number: d.number, file: None, db: Some(copy_db(d)) },
        };
        map.insert(d.number, migration);
        proof {
            assert forall|n: i32|
                #![trigger map@.contains_key(n)]
                (map@.contains_key(n) <==> file_for(files, n) is Some || record_for(next, n)
                    is Some) && (map@.contains_key(n) ==> map@[n]@ == reconciled(
                    files,
                    next,
                    n,
                )) by {
                assert(before.contains_key(n) <==> file_for(files, n) is Some || record_for(done, n)
                    is Some);
            }
        }
        k += 1;
    }
    assert(db_migrations@.take(k as int) =~= db_migrations@);
    let ghost records = db_migrations@;
    let mut out: Vec<Migration> = Vec::new();
    let entries = map.iter();
    let ghost items = entries.remaining();
    let ghost numbers = items.map_values(|kv: (&i32, &Migration)| *kv.0);
    proof {
        lemma_increasing_numbers(numbers);
    }
    for entry in it: entries
        invariant
            it.seq() == items,
            items == spec_btree_map_iter(&map).remaining(),
            numbers == items.map_values(|kv: (&i32, &Migration)| *kv.0),
            forall|i: int, j: int| 0 <= i < j < numbers.len() ==> numbers[i] < numbers[j],
            merged(map@, files, records),
            out@.len() == it.index(),
            forall|i: int|
                0 <= i < out@.len() ==> (#[trigger] out@[i]).number == *items[i].0 && out@[i]@
                    == items[i].1@,
    {
        proof {
            let n = *items[it.index()].0;
            assert(map@.contains_key(n) && map@[n] == *items[it.index()].1);
            assert(map@[n]@ == reconciled(files, records, n));
        }
        out.push(copy_migration(entry.1));
    }
    proof {
        assert forall|i: int, j: int| 0 <= i < j < out@.len() implies (#[trigger] out@[i]).number
            < (#[trigger] out@[j]).number by {
            assert(numbers[i] < numbers[j]);
        }
        assert forall|i: int| 0 <= i < out@.len() implies (#[trigger] out@[i])@ == reconciled(
            files,
            records,
            out@[i].number,
        ) && out@[i]@.wf() by {
            let n = *items[i].0;
            assert(map@.contains_key(n) && map@[n] == *items[i].1);
        }
        assert forall|n: i32|
            (file_for(files, n) is Some || record_for(records, n) is Some) implies #[trigger] has_migration(
            out@,
            n,
        ) by {
            assert(map@.contains_key(n));
            assert(items.contains((&n, &map@[n])));
            let i = choose|i: int| 0 <= i < items.len() && items[i] == (&n, &map@[n]);
            assert(out@[i].number == n);
        }
    }
    out
}

} // verus!
