//! How the store records where the file of an address is kept, and how
//! records of an earlier form are brought to the current one.
//!
//! A record is the portable form of the path, in UTF-8, after the two
//! bytes `@/`.

use vstd::prelude::*;
use vstd::utf8::{decode_utf8, encode_utf8, valid_utf8};

verus! {

/// Why a record of a path cannot be read or brought to the current form.
#[derive(Debug, Clone, Copy, PartialEq, Eq, Structural)]
pub enum UrlFileError {
    /// The record does not begin with `@/`.
    InvalidUrlFilePath,
    /// The path is not UTF-8.
    InvalidUtf8,
}

/// `std::str::from_utf8`: the text that the bytes encode, where they are
/// UTF-8, and nothing where they are not.
#[verifier::external_body]
fn text_of_utf8(bytes: &[u8]) -> (r: Option<String>)
    ensures
        match r {
            Some(text) => valid_utf8(bytes@) && text@ == decode_utf8(bytes@),
            None => !valid_utf8(bytes@),
        },
{
    match std::str::from_utf8(bytes) {
        Ok(text) => Some(text.to_string()),
        Err(_) => None,
    }
}

/// The two bytes that a record begins with.
pub open spec fn sentinel() -> Seq<u8> {
    seq![64u8, 47u8]
}

/// Whether a record begins with `@/`.
pub open spec fn has_sentinel(record: Seq<u8>) -> bool {
    record.len() >= 2 && record[0] == 64 && record[1] == 47
}

/// The record of a path.
pub open spec fn record_of(path: Seq<char>) -> Seq<u8> {
    sentinel() + encode_utf8(path)
}

/// The path that a record holds.
pub open spec fn path_of(record: Seq<u8>) -> Result<Seq<char>, UrlFileError> {
    if !has_sentinel(record) {
        Err(UrlFileError::InvalidUrlFilePath)
    } else if !valid_utf8(record.skip(2)) {
        Err(UrlFileError::InvalidUtf8)
    } else {
        Ok(decode_utf8(record.skip(2)))
    }
}

/// A record in the current form: as it is where it begins with `@/` and
/// holds UTF-8 behind that; and else, where it is UTF-8, after `@/`.
/// A record that is neither cannot be brought to the current form.
pub open spec fn migrated(record: Seq<u8>) -> Result<Seq<u8>, UrlFileError> {
    if has_sentinel(record) && valid_utf8(record.skip(2)) {
        Ok(record)
    } else if valid_utf8(record) {
        Ok(sentinel() + record)
    } else {
        Err(UrlFileError::InvalidUtf8)
    }
}

/// The record of a path in its portable form.
pub fn url_file_record(path: &str) -> (r: Vec<u8>)
    ensures
        r@ == record_of(path@),
{
    let mut out: Vec<u8> = Vec::new();
    out.push(64);
    out.push(47);
    let bytes = path.as_bytes();
    let mut i: usize = 0;
    while i < bytes.len()
        invariant
            i <= bytes.len(),
            bytes@ == encode_utf8(path@),
            out@ == sentinel() + bytes@.take(i as int),
        decreases bytes.len() - i,
    {
        out.push(bytes[i]);
        assert(bytes@.take(i + 1) == bytes@.take(i as int).push(bytes@[i as int]));
        i = i + 1;
    }
    assert(bytes@.take(bytes.len() as int) == bytes@);
    out
}

fn tail(record: &Vec<u8>, from: usize) -> (r: Vec<u8>)
    requires
        from <= record.len(),
    ensures
        r@ == record@.skip(from as int),
{
    let mut out: Vec<u8> = Vec::new();
    let mut i: usize = from;
    while i < record.len()
        invariant
            from <= i <= record.len(),
            out@ == record@.subrange(from as int, i as int),
        decreases record.len() - i,
    {
        out.push(record[i]);
        i = i + 1;
    }
    assert(record@.subrange(from as int, record.len() as int) == record@.skip(from as int));
    out
}

/// The path that a record holds, in its portable form.
pub fn read_url_file_path(record: &Vec<u8>) -> (r: Result<String, UrlFileError>)
    ensures
        match r {
            Ok(path) => path_of(record@) == Ok::<Seq<char>, UrlFileError>(path@),
            Err(e) => path_of(record@) == Err::<Seq<char>, UrlFileError>(e),
        },
{
    if record.len() < 2 || record[0] != 64 || record[1] != 47 {
        return Err(UrlFileError::InvalidUrlFilePath);
    }
    let rest = tail(record, 2);
    match text_of_utf8(rest.as_slice()) {
        Some(path) => Ok(path),
        None => Err(UrlFileError::InvalidUtf8),
    }
}

/// A record in the current form, given one that may be of the earlier
/// form, in which the path stood alone.
pub fn migrate_old_url_file(record: Vec<u8>) -> (r: Result<Vec<u8>, UrlFileError>)
    ensures
        match r {
            Ok(new) => migrated(record@) == Ok::<Seq<u8>, UrlFileError>(new@),
            Err(e) => migrated(record@) == Err::<Seq<u8>, UrlFileError>(e),
        },
{
    if record.len() >= 2 && record[0] == 64 && record[1] == 47 {
        let rest = tail(&record, 2);
        if text_of_utf8(rest.as_slice()).is_some() {
            return Ok(record);
        }
    }
    if text_of_utf8(record.as_slice()).is_none() {
        return Err(UrlFileError::InvalidUtf8);
    }
    let mut out: Vec<u8> = Vec::new();
    out.push(64);
    out.push(47);
    let mut rest = record;
    let ghost old_rest = rest@;
    out.append(&mut rest);
    assert(out@ == sentinel() + old_rest);
    Ok(out)
}

/// What is recorded for a path reads back as the path.
pub proof fn lemma_record_reads_back(path: Seq<char>)
    ensures
        path_of(record_of(path)) == Ok::<Seq<char>, UrlFileError>(path),
{
    vstd::utf8::encode_utf8_valid_utf8(path);
    vstd::utf8::encode_utf8_decode_utf8(path);
    assert(record_of(path).skip(2) == encode_utf8(path));
}

/// Bringing a record to the current form a second time changes nothing.
pub proof fn lemma_migration_is_idempotent(record: Seq<u8>)
    ensures
        migrated(record) matches Ok(new) ==> migrated(new) == Ok::<Seq<u8>, UrlFileError>(new),
{
    if !(has_sentinel(record) && valid_utf8(record.skip(2))) && valid_utf8(record) {
        assert((sentinel() + record).skip(2) == record);
    }
}

/// A record that was brought to the current form can be read: it begins
/// with `@/` and holds UTF-8 behind that. It is the record itself where
/// that could be read already, and else the record after `@/`, whose path
/// is what the record held.
pub proof fn lemma_migrated_reads_back(record: Seq<u8>)
    ensures
        migrated(record) matches Ok(new) ==> {
            &&& has_sentinel(new)
            &&& path_of(new) is Ok
            &&& path_of(record) is Ok ==> new == record
            &&& !(path_of(record) is Ok) ==> new == sentinel() + record && path_of(new) == Ok::<
                Seq<char>,
                UrlFileError,
            >(decode_utf8(record))
        },
        migrated(record) is Err <==> !valid_utf8(record) && !(path_of(record) is Ok),
{
    assert((sentinel() + record).skip(2) == record);
}

/// Whether the records of paths are still to be brought to the current
/// form: they are unless the store says that this was done.
pub fn url_files_migration_is_due(done: Option<&str>) -> (r: bool)
    ensures
        r == (match done {
            Some(v) => v@ != "1"@,
            None => true,
        }),
{
    match done {
        Some(v) => !crate::text::same_text(v, "1"),
        None => true,
    }
}

/// Why the store cannot be used.
#[derive(Debug, Clone, PartialEq, Eq)]
pub enum MigrationError {
    /// The store says that its posts are of a version that is not known.
    InvalidPostsVersion(String),
}

/// Whether the data of posts is still to be brought to the second
/// version: it is where the store names no version, it is not where the
/// store names the second, and any other version is an error.
pub fn posts_migration_is_due(version: Option<&str>) -> (r: Result<bool, MigrationError>)
    ensures
        match version {
            None => r == Ok::<bool, MigrationError>(true),
            Some(v) => if v@ == "2"@ {
                r == Ok::<bool, MigrationError>(false)
            } else {
                r matches Err(MigrationError::InvalidPostsVersion(text)) && text@ == v@
            },
        },
{
    match version {
        None => Ok(true),
        Some(v) => {
            if crate::text::same_text(v, "2") {
                Ok(false)
            } else {
                Err(MigrationError::InvalidPostsVersion(v.to_owned()))
            }
        },
    }
}

} // verus!
