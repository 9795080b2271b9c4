use vstd::prelude::*;
use crate::errors::{BlackError, ErrorKind};
use std::io::Write;

verus! {

#[verifier::external_type_specification]
#[verifier::external_body]
pub struct ExIoError(std::io::Error);

/// A temporary file on its way to becoming the target file. Verus
/// cannot look at `NamedTempFile` itself (its type parameter defaults
/// to a file handle type it does not support), so the handle sits in an
/// opaque struct and `temp_contents` names what it holds.
#[verifier::external_body]
pub struct TempSink {
    inner: tempfile::NamedTempFile,
}

/// The bytes a temporary file holds so far.
pub uninterp spec fn temp_contents(t: TempSink) -> Seq<u8>;

/// Relies on `NamedTempFile::new_in`: on success a fresh, empty
/// temporary file exists in the given directory, on the same filesystem
/// as anything else in that directory.
#[verifier::external_body]
fn create_temp_in(dir: &str) -> (r: Result<TempSink, std::io::Error>)
    ensures
        (r matches Ok(t) ==> temp_contents(t) == Seq::<u8>::empty()),
{
    match tempfile::NamedTempFile::new_in(dir) {
        Ok(t) => Ok(TempSink { inner: t }),
        Err(e) => Err(e),
    }
}

/// Relies on `Write::write_all` on `NamedTempFile`: on success every
/// byte of the buffer has been appended to the temporary file; on
/// failure nothing is promised of its contents.
#[verifier::external_body]
fn write_all_temp(t: &mut TempSink, data: &Vec<u8>) -> (r: Result<(), std::io::Error>)
    ensures
        (r is Ok ==> temp_contents(*final(t)) == temp_contents(*old(t)) + data@),
{
    t.inner.write_all(data.as_slice())
}

/// Relies on `NamedTempFile::as_file` and `File::sync_all`: flushes the
/// written bytes to disk without changing them.
#[verifier::external_body]
fn sync_temp(t: &TempSink) -> (r: Result<(), std::io::Error>) {
    t.inner.as_file().sync_all()
}

/// Relies on `NamedTempFile::persist`: on success the temporary file is
/// renamed over the target path in a single step; on failure the target
/// keeps its prior state and the temporary file is cleaned up when the
/// returned error is dropped.
#[verifier::external_body]
fn persist_temp(t: TempSink, path: &str) -> (r: Result<(), std::io::Error>) {
    match t.inner.persist(path) {
        Ok(_) => Ok(()),
        Err(e) => Err(e.error),
    }
}

/// The directory part of a path's text, when it has one that is valid
/// UTF-8: a function of the text alone.
pub uninterp spec fn parent_of(path: Seq<char>) -> Option<Seq<char>>;

/// Relies on `Path::parent` (plus UTF-8 conversion of the result): it
/// computes from the path text alone, so the result is the one
/// `parent_of` names, and the temporary file below is created in the
/// target's own directory.
#[verifier::external_body]
fn parent_dir(path: &str) -> (r: Option<String>)
    ensures
        (r matches Some(d) ==> parent_of(path@) == Some(d@)),
        (r is None ==> parent_of(path@) is None),
{
    match std::path::Path::new(path).parent() {
        Some(d) => match d.to_str() {
            Some(s) => Some(s.to_owned()),
            None => None,
        },
        None => None,
    }
}

/// Replaces the file at `filepath` with `data`, all at once: the bytes
/// go to a fresh temporary file in the target's own directory, are
/// synced, and the temporary file is renamed over the target. On any
/// failure before the rename the target file is left untouched.
pub fn write_pyfile(filepath: &str, data: Vec<u8>) -> (r: Result<bool, BlackError>)
    ensures
        (r matches Ok(b) ==> b),
        (r matches Err(e) ==> e.kind == ErrorKind::Persist),
{
    let dir = match parent_dir(filepath) {
        Some(d) => {
            if d.as_str().unicode_len() > 0 {
                d
            } else {
                String::from_str(".")
            }
        },
        None => String::from_str("."),
    };
    let mut temp = match create_temp_in(dir.as_str()) {
        Ok(t) => t,
        Err(e) => {
            return Err(BlackError::from_debug(ErrorKind::Persist, e));
        },
    };
    if write_all_temp(&mut temp, &data).is_err() {
        return Err(
            BlackError {
                kind: ErrorKind::Persist,
                what_happened: String::from_str("Could not persist reformatted code to disk!"),
            },
        );
    }
    proof {
        assert(temp_contents(temp) =~= data@);
    }
    if sync_temp(&temp).is_err() {
        return Err(
            BlackError {
                kind: ErrorKind::Persist,
                what_happened: String::from_str("Could not persist reformatted code to disk!"),
            },
        );
    }
    match persist_temp(temp, filepath) {
        Ok(_) => Ok(true),
        Err(e) => Err(BlackError::from_debug(ErrorKind::Persist, e)),
    }
}

} // verus!
