//! A minimal key/value store interface and an in-memory implementation.

use vstd::prelude::*;

pub mod hashmap_kv;

verus! {

/// A key/value store, as the runner's handler functions consume it:
/// synchronous put, get, prefix scan and remove.
pub trait KV<K, V> {
    fn put(&mut self, key: &K, value: &V) -> Result<(), String>;

    fn get(&self, key: &K) -> Result<Option<V>, String>;

    fn get_prefix(&self, key: &K) -> Vec<(K, V)>;

    fn remove(&mut self, key: &K) -> Result<(), String>;
}

} // verus!
