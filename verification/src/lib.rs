//! Local logic of a Workers KV command-line client: turning filesystem paths
//! into storage keys, loading bulk payloads from JSON files or directory
//! listings, and planning the write and delete requests that are sent to the
//! remote store.

pub mod dispatch;
pub mod entries;
pub mod errors;
pub mod json;
pub mod loader;
pub mod roundtrip;
pub mod keys;
