//! The bulk payload loader: a path argument denotes a regular file (read as
//! a JSON document), a directory (walked for regular files), or something
//! else. The classification is resolved once, and this module turns what was
//! read into a normalized entry list or the exact error the kind calls for.

use vstd::prelude::*;

use crate::entries::{b64_of, entries_model, DirFile, KeyValuePair, KvModel, RelPath};
use crate::errors::KvError;
use crate::json::{parse_delete_doc, parse_write_doc};

verus! {

/// What a path argument for a bulk write turned out to denote, with what
/// was read from it.
pub enum WriteSource {
    /// A regular file, with its text.
    JsonText(String),
    /// A directory, with its regular files.
    Directory(Vec<DirFile>),
    /// A path of another kind, notably a symbolic link; carries the path's
    /// display form.
    Unsupported(String),
    /// A missing or unreadable path; carries the cause's text.
    Inaccessible(String),
}

/// What a path argument for a bulk delete turned out to denote, with what
/// was read from it.
pub enum DeleteSource {
    /// A regular file, with its text.
    JsonText(String),
    /// A directory, with the relative paths of its regular files.
    Directory(Vec<RelPath>),
    /// A path of another kind, notably a symbolic link; carries the path's
    /// display form.
    Unsupported(String),
    /// A missing or unreadable path; carries the cause's text.
    Inaccessible(String),
}

/// The loader's contract for a bulk write: exactly which entries a source
/// yields, or exactly which error.
pub open spec fn write_load_result(
    source: WriteSource,
    r: Result<Vec<KeyValuePair>, KvError>,
) -> bool {
    match source {
        WriteSource::JsonText(t) => match parse_write_doc(t@) {
            Some(es) => r matches Ok(v) && entries_model(v@) == es,
            None => r matches Err(e) && e is JsonFormatError,
        },
        WriteSource::Directory(files) => {
            &&& r is Ok <==> (forall|i: int|
                0 <= i < files@.len() ==> (#[trigger] files@[i]).path.encodable())
            &&& r matches Ok(es) ==> {
                &&& es@.len() == files@.len()
                &&& forall|i: int|
                    0 <= i < es@.len() ==> (#[trigger] es@[i]).model() == (KvModel {
                        key: files@[i].path.key(),
                        value: b64_of(files@[i].contents@),
                        base64: true,
                    })
            }
            &&& r matches Err(e) ==> e is EncodingError
        },
        WriteSource::Unsupported(p) => r matches Err(e) && e matches KvError::InputKindError(q)
            && q@ == p@,
        WriteSource::Inaccessible(m) => r matches Err(e) && e matches KvError::IoError(q) && q@
            == m@,
    }
}

/// The loader's contract for a bulk delete: exactly which keys a source
/// yields, or exactly which error.
pub open spec fn delete_load_result(source: DeleteSource, r: Result<Vec<String>, KvError>) -> bool {
    match source {
        DeleteSource::JsonText(t) => match parse_delete_doc(t@) {
            Some(ks) => r matches Ok(v) && v.deep_view() == ks,
            None => r matches Err(e) && e is JsonFormatError,
        },
        DeleteSource::Directory(paths) => {
            &&& r is Ok <==> (forall|i: int|
                0 <= i < paths@.len() ==> (#[trigger] paths@[i]).encodable())
            &&& r matches Ok(ks) ==> {
                &&& ks@.len() == paths@.len()
                &&& forall|i: int|
                    0 <= i < ks@.len() ==> (#[trigger] ks@[i])@ == paths@[i].key()
            }
            &&& r matches Err(e) ==> e is EncodingError
        },
        DeleteSource::Unsupported(p) => r matches Err(e) && e matches KvError::InputKindError(q)
            && q@ == p@,
        DeleteSource::Inaccessible(m) => r matches Err(e) && e matches KvError::IoError(q) && q@
            == m@,
    }
}

/// Normalize a bulk-write source into its entry list: a file's text is
/// parsed as JSON, a directory's files become percent-encoded keys with
/// base64-encoded values, and any other kind of path is the error the
/// taxonomy names, before any request is planned.
pub fn load_write_entries(source: &WriteSource) -> (r: Result<Vec<KeyValuePair>, KvError>)
    ensures
        write_load_result(*source, r),
{
    match source {
        WriteSource::JsonText(t) => crate::json::parse_write_entries(t.as_str()),
        WriteSource::Directory(files) => crate::entries::collect_write_entries(files),
        WriteSource::Unsupported(p) => Err(KvError::InputKindError(p.clone())),
        WriteSource::Inaccessible(m) => Err(KvError::IoError(m.clone())),
    }
}

/// Normalize a bulk-delete source into its key list, as
/// [`load_write_entries`] does for writes.
pub fn load_delete_keys(source: &DeleteSource) -> (r: Result<Vec<String>, KvError>)
    ensures
        delete_load_result(*source, r),
{
    match source {
        DeleteSource::JsonText(t) => crate::json::parse_delete_keys(t.as_str()),
        DeleteSource::Directory(paths) => crate::entries::collect_delete_keys(paths),
        DeleteSource::Unsupported(p) => Err(KvError::InputKindError(p.clone())),
        DeleteSource::Inaccessible(m) => Err(KvError::IoError(m.clone())),
    }
}

} // verus!
