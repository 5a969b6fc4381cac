//! The entries a bulk operation carries: key-value pairs for writes, plain
//! keys for deletes, and their construction from a directory listing.

use vstd::prelude::*;
use vstd::utf8::valid_utf8;

use crate::errors::KvError;
use crate::keys::{generate_key, join_slash, key_of};

verus! {

/// One key-value entry of a bulk write, as the remote store takes it.
pub struct KeyValuePair {
    pub key: String,
    pub value: String,
    /// When true, the store decodes `value` from base64 before saving it.
    pub base64: bool,
}

/// The mathematical content of a [`KeyValuePair`].
pub struct KvModel {
    pub key: Seq<char>,
    pub value: Seq<char>,
    pub base64: bool,
}

impl KeyValuePair {
    /// The content this entry carries.
    pub open spec fn model(&self) -> KvModel {
        KvModel { key: self.key@, value: self.value@, base64: self.base64 }
    }
}

/// The content carried by a list of entries, in order.
pub open spec fn entries_model(v: Seq<KeyValuePair>) -> Seq<KvModel> {
    v.map_values(|p: KeyValuePair| p.model())
}

/// A file's path relative to the traversal root, one byte string per
/// component, in order.
pub struct RelPath {
    pub components: Vec<Vec<u8>>,
}

impl RelPath {
    /// The component sequence this path stands for.
    pub open spec fn model(&self) -> Seq<Seq<u8>> {
        self.components.deep_view()
    }

    /// Whether this path's joined form is valid UTF-8, so that it can become
    /// a storage key.
    pub open spec fn encodable(&self) -> bool {
        valid_utf8(join_slash(self.model()))
    }

    /// The storage key this path encodes to.
    pub open spec fn key(&self) -> Seq<char> {
        key_of(self.model())
    }
}

/// One regular file found under a traversal root: its path relative to the
/// root and its raw contents.
pub struct DirFile {
    pub path: RelPath,
    pub contents: Vec<u8>,
}

/// The name of what base64's standard-alphabet encoder with padding returns
/// for a byte sequence; the result is a function of the bytes alone.
pub uninterp spec fn b64_of(bytes: Seq<u8>) -> Seq<char>;

/// Relies on base64's `Engine::encode` with the `STANDARD` engine: the
/// encoding is a function of the input bytes alone, four characters for
/// every started group of three bytes (the last group padded with `=`).
#[verifier::external_body]
fn base64_encode(bytes: &Vec<u8>) -> (r: String)
    ensures
        r@ == b64_of(bytes@),
        r@.len() == 4 * ((bytes@.len() + 2) / 3),
{
    base64::Engine::encode(&base64::engine::general_purpose::STANDARD, bytes.as_slice())
}

/// Turn a directory listing into bulk-write entries: each regular file
/// becomes one entry whose key is the percent-encoded relative path and
/// whose value is the base64 encoding of the file's contents, with the
/// base64 flag always set. Fails exactly when some path is not valid UTF-8.
pub fn collect_write_entries(files: &Vec<DirFile>) -> (r: Result<Vec<KeyValuePair>, KvError>)
    ensures
        r is Ok <==> (forall|i: int| 0 <= i < files@.len() ==> (#[trigger] files@[i]).path.encodable()),
        r matches Ok(es) ==> {
            &&& es@.len() == files@.len()
            &&& forall|i: int| 0 <= i < es@.len() ==> (#[trigger] es@[i]).model() == (KvModel {
                key: files@[i].path.key(),
                value: b64_of(files@[i].contents@),
                base64: true,
            })
        },
        r matches Err(e) ==> e is EncodingError,
{
    let mut es: Vec<KeyValuePair> = Vec::new();
    let mut i: usize = 0;
    while i < files.len()
        invariant
            i <= files@.len(),
            es@.len() == i,
            forall|j: int| 0 <= j < i ==> (#[trigger] files@[j]).path.encodable(),
            forall|j: int| 0 <= j < i ==> (#[trigger] es@[j]).model() == (KvModel {
                key: files@[j].path.key(),
                value: b64_of(files@[j].contents@),
                base64: true,
            }),
        decreases files@.len() - i,
    {
        let file = &files[i];
        let key = match generate_key(&file.path.components) {
            Ok(k) => k,
            Err(e) => {
                return Err(e);
            },
        };
        let value = base64_encode(&file.contents);
        es.push(KeyValuePair { key, value, base64: true });
        i = i + 1;
    }
    Ok(es)
}

/// Turn a directory listing into bulk-delete keys: each regular file's
/// percent-encoded relative path, in order. Fails exactly when some path is
/// not valid UTF-8.
pub fn collect_delete_keys(paths: &Vec<RelPath>) -> (r: Result<Vec<String>, KvError>)
    ensures
        r is Ok <==> (forall|i: int| 0 <= i < paths@.len() ==> (#[trigger] paths@[i]).encodable()),
        r matches Ok(ks) ==> {
            &&& ks@.len() == paths@.len()
            &&& forall|i: int| 0 <= i < ks@.len() ==> (#[trigger] ks@[i])@ == paths@[i].key()
        },
        r matches Err(e) ==> e is EncodingError,
{
    let mut ks: Vec<String> = Vec::new();
    let mut i: usize = 0;
    while i < paths.len()
        invariant
            i <= paths@.len(),
            ks@.len() == i,
            forall|j: int| 0 <= j < i ==> (#[trigger] paths@[j]).encodable(),
            forall|j: int| 0 <= j < i ==> (#[trigger] ks@[j])@ == paths@[j].key(),
        decreases paths@.len() - i,
    {
        let key = match generate_key(&paths[i].components) {
            Ok(k) => k,
            Err(e) => {
                return Err(e);
            },
        };
        ks.push(key);
        i = i + 1;
    }
    Ok(ks)
}

} // verus!
