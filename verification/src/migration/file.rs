//! Migration files: their names, their hashes, and the scan of a directory.

use crate::migration::error::Error;
use crate::number::{decimal, i32_to_string, parse_i32, parse_int};
use crate::text::{
    chars_eq, chars_of, find_first, find_last, first_index, last_index, lemma_first_index,
    lemma_last_index, slice_chars,
};
use crate::hash::{sha512, sha512_digest};
use std::collections::HashSet;
use vstd::prelude::*;
use vstd::string::*;

verus! {

/// A migration file: where it lies, the number and the name that its file
/// name gives, and the hash of its content.
#[derive(Clone, Debug)]
pub struct MigrationFile {
    pub path: String,
    pub number: i32,
    pub name: String,
    pub hash: Vec<u8>,
}

/// A migration file as plain values.
pub struct MigrationFileView {
    pub path: Seq<char>,
    pub number: i32,
    pub name: Seq<char>,
    pub hash: Seq<u8>,
}

impl View for MigrationFile {
    type V = MigrationFileView;

    open spec fn view(&self) -> MigrationFileView {
        MigrationFileView {
            path: self.path@,
            number: self.number,
            name: self.name@,
            hash: self.hash@,
        }
    }
}

/// A file of a directory: its path and its content.
#[derive(Clone, Debug)]
pub struct SourceFile {
    pub path: String,
    pub content: Vec<u8>,
}

/// The text that `{:?}` renders for a string: the string between double
/// quotes, with the characters escaped that Rust escapes.
pub uninterp spec fn debug_quoted(s: Seq<char>) -> Seq<char>;

/// Renders a string as `{:?}` does.
///
/// Trusted: formats `s` with `{:?}`, that is with the impl of `Debug` for
/// `str`. What it renders depends on the characters alone.
#[verifier::external_body]
fn debug_string(s: &str) -> (r: String)
    ensures
        r@ == debug_quoted(s@),
{
    format!("{:?}", s)
}

/// The last part of a path: what follows its last `/`.
///
/// A path is read as text, and `/` alone divides its parts. This is not how
/// `std::path::Path` reads a path. `Path::file_name` passes over a `/` at the
/// end and over a last part `.`, so that `dir/` and `dir/.` name `dir`; here
/// the last part of `dir/` is empty and that of `dir/.` is `.`, and neither
/// names a file (see [`names_file`]). `Path` also divides at `\` on Windows;
/// here `\` is a character of a name like any other. Paths that come from
/// listing a directory end in the name of an entry and read the same either
/// way on systems with `/`.
pub open spec fn file_name(path: Seq<char>) -> Seq<char> {
    path.skip(last_index(path, '/') + 1)
}

/// Whether a last part of a path names a file: it is not empty and is
/// neither `.` nor `..`.
pub open spec fn names_file(name: Seq<char>) -> bool {
    name.len() > 0 && name != seq!['.'] && name != seq!['.', '.']
}

/// The position of the dot that starts the extension of a file name, or -1:
/// the last dot, unless it is the first character. For a last part that
/// names a file this is where `Path::file_stem` and `Path::extension` divide
/// the name.
pub open spec fn extension_dot(name: Seq<char>) -> int {
    if last_index(name, '.') <= 0 {
        -1
    } else {
        last_index(name, '.')
    }
}

/// A file name without its extension.
pub open spec fn file_stem(name: Seq<char>) -> Seq<char> {
    if extension_dot(name) < 0 {
        name
    } else {
        name.take(extension_dot(name))
    }
}

/// The extension of a file name: what follows the dot that starts it.
pub open spec fn extension(name: Seq<char>) -> Option<Seq<char>> {
    if extension_dot(name) < 0 {
        None
    } else {
        Some(name.skip(extension_dot(name) + 1))
    }
}

/// Whether a path names a file with the extension `sql`.
pub open spec fn is_sql_path(path: Seq<char>) -> bool {
    names_file(file_name(path)) && extension(file_name(path)) == Some("sql"@)
}

/// What a file name without its extension says: the number before its first
/// dot and the name after it. Without a dot the whole is the number and the
/// name is empty. Where the number cannot be read, the reason.
pub open spec fn parsed_filename(stem: Seq<char>) -> Result<(i32, Seq<char>), Seq<char>> {
    let dot = first_index(stem, '.');
    let number = if dot < 0 {
        stem
    } else {
        stem.take(dot)
    };
    let name = if dot < 0 {
        Seq::empty()
    } else {
        stem.skip(dot + 1)
    };
    match parse_int(number) {
        Ok(n) => Ok((n as i32, name)),
        Err(e) => Err("Invalid number: "@ + e.text()),
    }
}

/// Reads the number and the name from a file name without its extension,
/// `<number>.<name>`.
pub fn parse_filename(filename: String) -> (r: Result<(i32, String), String>)
    ensures
        match r {
            Ok((n, name)) => parsed_filename(filename@) == Ok::<(i32, Seq<char>), Seq<char>>(
                (n, name@),
            ),
            Err(m) => parsed_filename(filename@) == Err::<(i32, Seq<char>), Seq<char>>(m@),
        },
{
    let chars = chars_of(filename.as_str());
    let dot = find_first(&chars, '.');
    let (end, rest) = match dot {
        Some(i) => (i, i + 1),
        None => (chars.len(), chars.len()),
    };
    proof {
        lemma_first_index(chars@, '.');
        assert(chars@.subrange(0, end as int) =~= if first_index(chars@, '.') < 0 {
            chars@
        } else {
            chars@.take(first_index(chars@, '.'))
        });
    }
    match parse_i32(&chars, 0, end) {
        Ok(n) => {
            let name = filename.as_str().substring_char(rest, chars.len());
            assert(name@ =~= if first_index(chars@, '.') < 0 {
                Seq::empty()
            } else {
                chars@.skip(first_index(chars@, '.') + 1)
            });
            Ok((n, String::from_str(name)))
        },
        Err(e) => {
            let mut m = String::from_str("Invalid number: ");
            let reason = e.to_string();
            m.append(reason.as_str());
            Err(m)
        },
    }
}

/// The message for a path that names no file.
pub open spec fn no_file_name(path: Seq<char>) -> Seq<char> {
    "Invalid filename: "@ + path
}

/// The message for a file whose name cannot be read: the path as `{:?}`
/// renders it, and the reason.
pub open spec fn bad_file_name(quoted_path: Seq<char>, reason: Seq<char>) -> Seq<char> {
    "Invalid filename "@ + quoted_path + ": "@ + reason
}

/// The message for a number that more than one file has.
pub open spec fn repeated_number(number: i32) -> Seq<char> {
    "Migration folder contains multiple files for number "@ + decimal(number as int)
}

/// The error for a file whose name cannot be read.
pub fn invalid_filename(quoted_path: &str, reason: &str) -> (e: Error)
    ensures
        e is Misc,
        e.text() == bad_file_name(quoted_path@, reason@),
{
    let mut m = String::from_str("Invalid filename ");
    m.append(quoted_path);
    m.append(": ");
    m.append(reason);
    Error::Misc(m)
}

/// The positions in a path where its file name starts and where the
/// extension of the file name starts, the latter counted within the file name.
fn split_path(chars: &Vec<char>) -> (r: (usize, Vec<char>, Option<usize>))
    ensures
        r.0 as int == last_index(chars@, '/') + 1,
        r.0 + r.1@.len() == chars@.len(),
        r.1@ == file_name(chars@),
        match r.2 {
            Some(d) => d as int == extension_dot(r.1@) && 0 < d < r.1@.len(),
            None => extension_dot(r.1@) == -1,
        },
{
    proof {
        lemma_last_index(chars@, '/');
    }
    let len = chars.len();
    let start = match find_last(chars, '/') {
        Some(i) => i + 1,
        None => 0,
    };
    let name = slice_chars(chars, start, chars.len());
    proof {
        lemma_last_index(name@, '.');
    }
    let dot = match find_last(&name, '.') {
        Some(d) => if d == 0 {
            None
        } else {
            Some(d)
        },
        None => None,
    };
    (start, name, dot)
}

/// Whether a last part of a path names a file.
fn names_a_file(name: &Vec<char>) -> (r: bool)
    ensures
        r == names_file(name@),
{
    proof {
        reveal_strlit(".");
        reveal_strlit("..");
        assert("."@ =~= seq!['.']);
        assert(".."@ =~= seq!['.', '.']);
    }
    name.len() > 0 && !chars_eq(name, ".") && !chars_eq(name, "..")
}

/// Whether a path names a file with the extension `sql`. The parts of a path
/// are divided by `/`.
pub fn is_sql_file(path: &str) -> (r: bool)
    ensures
        r == is_sql_path(path@),
{
    let chars = chars_of(path);
    let (_, name, dot) = split_path(&chars);
    if !names_a_file(&name) {
        return false;
    }
    match dot {
        Some(d) => {
            let len = name.len();
            let ext = slice_chars(&name, d + 1, len);
            assert(ext@ =~= name@.skip(d + 1));
            chars_eq(&ext, "sql")
        },
        None => false,
    }
}

impl MigrationFileView {
    /// What [`MigrationFile::with_hash`] returns for a path and a hash: the
    /// file, or the message of the error.
    pub open spec fn described(path: Seq<char>, hash: Seq<u8>) -> Result<MigrationFileView, Seq<char>> {
        if !names_file(file_name(path)) {
            Err(no_file_name(path))
        } else {
            match parsed_filename(file_stem(file_name(path))) {
                Ok((number, name)) => Ok(MigrationFileView { path, number, name, hash }),
                Err(m) => Err(bad_file_name(debug_quoted(path), m)),
            }
        }
    }
}

impl MigrationFile {
    /// Describes the migration file at `path` whose content has the hash
    /// `hash`. The name of the file without its extension must read
    /// `<number>.<name>`.
    pub fn with_hash(path: &str, hash: Vec<u8>) -> (r: Result<MigrationFile, Error>)
        ensures
            match r {
                Ok(f) => MigrationFileView::described(path@, hash@) == Ok::<
                    MigrationFileView,
                    Seq<char>,
                >(f@),
                Err(e) => e is Misc && MigrationFileView::described(path@, hash@) == Err::<
                    MigrationFileView,
                    Seq<char>,
                >(e.text()),
            },
    {
        let chars = chars_of(path);
        let (start, name, dot) = split_path(&chars);
        if !names_a_file(&name) {
            let mut m = String::from_str("Invalid filename: ");
            m.append(path);
            return Err(Error::Misc(m));
        }
        let stem_len = match dot {
            Some(d) => d,
            None => name.len(),
        };
        let stem = path.substring_char(start, start + stem_len);
        assert(stem@ =~= file_stem(file_name(path@)));
        match parse_filename(String::from_str(stem)) {
            Ok((number, name)) => Ok(MigrationFile { path: String::from_str(path), number, name, hash }),
            Err(m) => {
                let quoted = debug_string(path);
                Err(invalid_filename(quoted.as_str(), m.as_str()))
            },
        }
    }

    /// Describes the migration file at `path` with the content `content`:
    /// its hash is the SHA-512 digest of the content.
    pub fn from_path(path: &str, content: &[u8]) -> (r: Result<MigrationFile, Error>)
        ensures
            match r {
                Ok(f) => MigrationFileView::described(path@, sha512_digest(content@)) == Ok::<
                    MigrationFileView,
                    Seq<char>,
                >(f@) && f.hash@.len() == 64,
                Err(e) => e is Misc && MigrationFileView::described(path@, sha512_digest(content@))
                    == Err::<MigrationFileView, Seq<char>>(e.text()),
            },
    {
        Self::with_hash(path, sha512(content))
    }
}

/// The number that the name of the file at `path` gives, if the name reads
/// `<number>.<name>` with an extension or without.
pub open spec fn migration_number(path: Seq<char>) -> Option<i32> {
    if !names_file(file_name(path)) {
        None
    } else {
        match parsed_filename(file_stem(file_name(path))) {
            Ok((number, _)) => Some(number),
            Err(_) => None,
        }
    }
}

/// The files of a list as plain values.
pub open spec fn file_views(files: Seq<MigrationFile>) -> Seq<MigrationFileView> {
    files.map_values(|f: MigrationFile| f@)
}

/// Whether one of the files has the number `n`.
pub open spec fn has_number(files: Seq<MigrationFileView>, n: i32) -> bool {
    exists|i: int| 0 <= i < files.len() && (#[trigger] files[i]).number == n
}

/// What a file of a directory reads as, if it is a migration file.
pub open spec fn described_source(e: SourceFile) -> Result<MigrationFileView, Seq<char>> {
    MigrationFileView::described(e.path@, sha512_digest(e.content@))
}

/// The migration files among the files of a directory, in their order, or
/// the message of the first error. Files without the extension `sql` are
/// passed over. A file whose name cannot be read is an error, and so is a
/// file whose number an earlier file has.
pub open spec fn scanned(entries: Seq<SourceFile>) -> Result<Seq<MigrationFileView>, Seq<char>>
    decreases entries.len(),
{
    if entries.len() == 0 {
        Ok(Seq::empty())
    } else {
        match scanned(entries.drop_last()) {
            Err(m) => Err(m),
            Ok(files) => if !is_sql_path(entries.last().path@) {
                Ok(files)
            } else {
                match described_source(entries.last()) {
                    Err(m) => Err(m),
                    Ok(f) => if has_number(files, f.number) {
                        Err(repeated_number(f.number))
                    } else {
                        Ok(files.push(f))
                    },
                }
            },
        }
    }
}

/// An error among the first `n` files is the error of the scan.
pub proof fn lemma_scan_error_stays(entries: Seq<SourceFile>, n: int)
    requires
        0 <= n <= entries.len(),
    ensures
        scanned(entries.take(n)) matches Err(m) ==> scanned(entries) == Err::<
            Seq<MigrationFileView>,
            Seq<char>,
        >(m),
    decreases entries.len() - n,
{
    if n < entries.len() {
        lemma_scan_error_stays(entries, n + 1);
        assert(entries.take(n + 1).drop_last() =~= entries.take(n));
    } else {
        assert(entries.take(n) =~= entries);
    }
}

/// Scans the files of a migration directory in their order. Files without
/// the extension `sql` are passed over. The scan ends at the first file
/// whose name cannot be read or whose number an earlier file has.
pub fn load_migration_files(entries: &Vec<SourceFile>) -> (r: Result<Vec<MigrationFile>, Error>)
    ensures
        match r {
            Ok(v) => scanned(entries@) == Ok::<Seq<MigrationFileView>, Seq<char>>(file_views(v@)),
            Err(e) => e is Misc && scanned(entries@) == Err::<Seq<MigrationFileView>, Seq<char>>(
                e.text(),
            ),
        },
{
    let mut migrations: Vec<MigrationFile> = Vec::new();
    let mut number_set: HashSet<i32> = HashSet::new();
    let mut i: usize = 0;
    assert(file_views(migrations@) =~= Seq::empty());
    assert(entries@.take(0) =~= Seq::empty());
    while i < entries.len()
        invariant
            i <= entries@.len(),
            scanned(entries@.take(i as int)) == Ok::<Seq<MigrationFileView>, Seq<char>>(
                file_views(migrations@),
            ),
            forall|n: i32|
                number_set@.contains(n) <==> #[trigger] has_number(file_views(migrations@), n),
        decreases entries@.len() - i,
    {
        let entry = &entries[i];
        proof {
            let next = entries@.take(i + 1);
            assert(next.drop_last() =~= entries@.take(i as int));
            assert(next.last() == *entry);
            lemma_scan_error_stays(entries@, i + 1);
        }
        if is_sql_file(entry.path.as_str()) {
            let file = match MigrationFile::from_path(entry.path.as_str(), entry.content.as_slice()) {
                Ok(file) => file,
                Err(e) => {
                    return Err(e);
                },
            };
            let ghost before = file_views(migrations@);
            assert(number_set@.contains(file.number) <==> has_number(before, file.number));
            if number_set.contains(&file.number) {
                let mut m = String::from_str(
                    "Migration folder contains multiple files for number ",
                );
                let n = i32_to_string(file.number);
                m.append(n.as_str());
                return Err(Error::Misc(m));
            }
            number_set.insert(file.number);
            migrations.push(file);
            proof {
                let after = file_views(migrations@);
                assert(after =~= before.push(file@));
                assert forall|n: i32|
                    number_set@.contains(n) <==> #[trigger] has_number(after, n) by {
                    assert(number_set@.contains(n) <==> has_number(before, n) || n == file.number);
                    if has_number(after, n) {
                        let k = choose|k: int| 0 <= k < after.len() && (#[trigger] after[k]).number == n;
                        if k < before.len() {
                            assert(before[k].number == n);
                        }
                    }
                    if has_number(before, n) {
                        let k = choose|k: int|
                            0 <= k < before.len() && (#[trigger] before[k]).number == n;
                        assert(after[k].number == n);
                    }
                    if n == file.number {
                        assert(after[before.len() as int].number == n);
                    }
                }
            }
        }
        i += 1;
    }
    assert(entries@.take(i as int) =~= entries@);
    Ok(migrations)
}

/// While the scan goes well, it holds the number of every migration file it
/// has passed.
proof fn lemma_scan_holds_numbers(entries: Seq<SourceFile>, k: int)
    requires
        0 <= k < entries.len(),
        is_sql_path(entries[k].path@),
        migration_number(entries[k].path@) is Some,
        scanned(entries) is Ok,
    ensures
        has_number(scanned(entries)->Ok_0, migration_number(entries[k].path@)->0),
    decreases entries.len(),
{
    let rest = entries.drop_last();
    let files = scanned(rest)->Ok_0;
    let out = scanned(entries)->Ok_0;
    let n = migration_number(entries[k].path@)->0;
    if k == entries.len() - 1 {
        assert(out.last().number == n);
    } else {
        assert(rest[k] == entries[k]);
        lemma_scan_holds_numbers(rest, k);
        let i = choose|i: int| 0 <= i < files.len() && (#[trigger] files[i]).number == n;
        assert(out[i] == files[i]);
    }
}

/// A directory in which the names of two migration files give the same
/// number fails the scan.
pub proof fn repeated_number_fails(entries: Seq<SourceFile>, i: int, j: int)
    requires
        0 <= i < j < entries.len(),
        is_sql_path(entries[i].path@),
        is_sql_path(entries[j].path@),
        migration_number(entries[i].path@) is Some,
        migration_number(entries[i].path@) == migration_number(entries[j].path@),
    ensures
        scanned(entries) is Err,
{
    let upto = entries.take(j + 1);
    let before = entries.take(j);
    assert(upto.drop_last() =~= before);
    assert(upto.last() == entries[j]);
    if scanned(before) is Ok {
        assert(before[i] == entries[i]);
        lemma_scan_holds_numbers(before, i);
    }
    lemma_scan_error_stays(entries, j + 1);
}

} // verus!
