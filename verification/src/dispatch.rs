//! Planning of the single request each KV operation issues against the
//! remote store. Every field passes through unchanged: the planner applies
//! no local validation to expirations or time-to-live values.

use vstd::prelude::*;

use crate::entries::KeyValuePair;
use crate::errors::KvError;
use crate::loader::{
    delete_load_result, load_delete_keys, load_write_entries, write_load_result, DeleteSource,
    WriteSource,
};

verus! {

/// Request-level metadata of a bulk write: an optional absolute expiration
/// (UNIX seconds) and an optional time-to-live (seconds). Both pass through
/// to the API unchanged, whatever their values.
pub struct BulkWriteParams {
    pub expiration: Option<u64>,
    pub expiration_ttl: Option<u64>,
}

/// The one bulk-write request an operation issues: everything the remote
/// call needs beyond credentials.
pub struct WriteBulkRequest {
    pub account_id: String,
    pub namespace_id: String,
    pub pairs: Vec<KeyValuePair>,
    pub params: BulkWriteParams,
}

/// The one bulk-delete request an operation issues.
pub struct DeleteBulkRequest {
    pub account_id: String,
    pub namespace_id: String,
    pub keys: Vec<String>,
}

/// The one single-key-delete request an operation issues.
pub struct DeleteKeyRequest {
    pub account_id: String,
    pub namespace_id: String,
    pub key: String,
}

/// Plan a bulk write: one request carrying all entries and the expiration
/// metadata exactly as given. A time-to-live below 60 seconds is passed
/// through like any other value; the API, not the client, judges it.
pub fn plan_write_bulk(
    account_id: String,
    namespace_id: String,
    pairs: Vec<KeyValuePair>,
    params: BulkWriteParams,
) -> (r: WriteBulkRequest)
    ensures
        r.account_id == account_id,
        r.namespace_id == namespace_id,
        r.pairs == pairs,
        r.params == params,
{
    WriteBulkRequest { account_id, namespace_id, pairs, params }
}

/// Plan a bulk delete: one request carrying the full key list exactly as
/// given, in order.
pub fn plan_delete_bulk(account_id: String, namespace_id: String, keys: Vec<String>) -> (r:
    DeleteBulkRequest)
    ensures
        r.account_id == account_id,
        r.namespace_id == namespace_id,
        r.keys == keys,
{
    DeleteBulkRequest { account_id, namespace_id, keys }
}

/// The whole local side of a bulk write: load the entries from the source
/// and plan the one request that carries them all, with the expiration
/// metadata passed through unchanged. Fails with the loader's exact error
/// before any request exists.
pub fn write_bulk_plan(
    account_id: String,
    namespace_id: String,
    source: &WriteSource,
    params: BulkWriteParams,
) -> (r: Result<WriteBulkRequest, KvError>)
    ensures
        match r {
            Ok(req) => {
                &&& req.account_id == account_id
                &&& req.namespace_id == namespace_id
                &&& req.params == params
                &&& write_load_result(*source, Ok(req.pairs))
            },
            Err(e) => write_load_result(*source, Err(e)),
        },
{
    let pairs = match load_write_entries(source) {
        Ok(v) => v,
        Err(e) => {
            return Err(e);
        },
    };
    Ok(plan_write_bulk(account_id, namespace_id, pairs, params))
}

/// The whole local side of a bulk delete: load the keys from the source and
/// plan the one request that carries the full list exactly. Fails with the
/// loader's exact error before any request exists.
pub fn delete_bulk_plan(account_id: String, namespace_id: String, source: &DeleteSource) -> (r:
    Result<DeleteBulkRequest, KvError>)
    ensures
        match r {
            Ok(req) => {
                &&& req.account_id == account_id
                &&& req.namespace_id == namespace_id
                &&& delete_load_result(*source, Ok(req.keys))
            },
            Err(e) => delete_load_result(*source, Err(e)),
        },
{
    let keys = match load_delete_keys(source) {
        Ok(v) => v,
        Err(e) => {
            return Err(e);
        },
    };
    Ok(plan_delete_bulk(account_id, namespace_id, keys))
}

/// Plan a single-key delete: one request carrying the key exactly as given.
pub fn plan_delete_key(account_id: String, namespace_id: String, key: String) -> (r:
    DeleteKeyRequest)
    ensures
        r.account_id == account_id,
        r.namespace_id == namespace_id,
        r.key == key,
{
    DeleteKeyRequest { account_id, namespace_id, key }
}

} // verus!
