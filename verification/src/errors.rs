use vstd::prelude::*;

verus! {

/// Why a bulk payload could not be prepared locally. Every variant is
/// reported before any request is issued to the remote store.
#[derive(Debug)]
pub enum KvError {
    /// The input path could not be read at all; carries the cause's text.
    IoError(String),
    /// The input file was not a JSON document of the expected shape.
    JsonFormatError,
    /// The input path is neither a regular file nor a directory (for
    /// example, a symbolic link); carries the offending path.
    InputKindError(String),
    /// A traversed path was not valid UTF-8.
    EncodingError,
}

} // verus!
