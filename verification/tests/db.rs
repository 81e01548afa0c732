use std::fmt::Debug;

use rootmos_bot::db::hashmap_kv::HashMapKV;
use rootmos_bot::db::KV;

fn get_nonexistent_key_test<K: Eq + Debug, V: Eq + Debug, T: KV<K, V>>(db: T, k: K) {
    assert_eq!(db.get(&k), Ok(None))
}

fn put_and_get_key_test<K: Eq + Debug, V: Eq + Debug, T: KV<K, V>>(mut db: T, k: K, v: V) {
    assert_eq!(db.get(&k), Ok(None));
    assert_eq!(db.put(&k, &v), Ok(()));
    assert_eq!(db.get(&k), Ok(Some(v)))
}

fn overwrite_key_test<K: Eq + Debug, V: Eq + Debug, T: KV<K, V>>(mut db: T, k: K, v1: V, v2: V) {
    assert_eq!(db.put(&k, &v1), Ok(()));
    assert_eq!(db.get(&k), Ok(Some(v1)));
    assert_eq!(db.put(&k, &v2), Ok(()));
    assert_eq!(db.get(&k), Ok(Some(v2)))
}

fn remove_key_test_helper<K: Eq + Debug, V: Eq + Debug, T: KV<K, V>>(mut db: T, k: K, v: V) {
    assert_eq!(db.put(&k, &v), Ok(()));
    assert_eq!(db.get(&k), Ok(Some(v)));
    assert_eq!(db.remove(&k), Ok(()));
    assert_eq!(db.get(&k), Ok(None))
}

fn fetch_keys_by_prefix_test<K, V, DB, KGen, PKGen, VGen>(
    mut db: DB,
    prefix: K,
    non_prefixed_key: KGen,
    prefixed_key: PKGen,
    value: VGen,
) where
    K: Eq + Debug + Ord,
    V: Eq + Debug + Ord,
    KGen: Fn() -> K,
    PKGen: Fn() -> K,
    VGen: Fn() -> V,
    DB: KV<K, V>,
{
    let (k1, v1) = (non_prefixed_key(), value());
    let (k2, v2) = (prefixed_key(), value());
    let (k3, v3) = (non_prefixed_key(), value());
    let (k4, v4) = (prefixed_key(), value());

    assert_eq!(db.put(&k1, &v1), Ok(()));
    assert_eq!(db.put(&k2, &v2), Ok(()));
    assert_eq!(db.put(&k3, &v3), Ok(()));
    assert_eq!(db.put(&k4, &v4), Ok(()));

    let mut got = db.get_prefix(&prefix);
    got.sort();
    let mut expected = vec![(k2, v2), (k4, v4)];
    expected.sort();
    assert_eq!(got, expected)
}

fn fresh_key(counter: &std::cell::Cell<u32>) -> String {
    let n = counter.get();
    counter.set(n + 1);
    format!("key{}", n)
}

fn fresh_value(counter: &std::cell::Cell<u32>) -> String {
    let n = counter.get();
    counter.set(n + 1);
    format!("value{}", n)
}

#[test]
fn hashmap_kv_get_nonexistent_key_test() {
    let db = HashMapKV::new();
    get_nonexistent_key_test(db, "key0".to_owned())
}

#[test]
fn hashmap_kv_put_and_get_key_test() {
    let db = HashMapKV::new();
    put_and_get_key_test(db, "key0".to_owned(), "value0".to_owned())
}

#[test]
fn hashmap_kv_overwrite_key_test() {
    let db = HashMapKV::new();
    overwrite_key_test(db, "key0".to_owned(), "value0".to_owned(), "value1".to_owned())
}

#[test]
fn remove_key_test() {
    let db = HashMapKV::new();
    remove_key_test_helper(db, "key0".to_owned(), "value0".to_owned())
}

#[test]
fn hashmap_kv_fetch_keys_by_prefix_test() {
    let db = HashMapKV::new();
    let keys = std::cell::Cell::new(0);
    let values = std::cell::Cell::new(0);
    let prefix = "prefix".to_owned();
    fetch_keys_by_prefix_test(
        db,
        prefix,
        || fresh_key(&keys),
        || format!("prefix-{}", fresh_key(&keys)),
        || fresh_value(&values),
    )
}

#[test]
fn empty_prefix_matches_every_key() {
    let mut db = HashMapKV::new();
    assert_eq!(db.put(&"a".to_owned(), &"1".to_owned()), Ok(()));
    assert_eq!(db.put(&"b".to_owned(), &"2".to_owned()), Ok(()));
    let mut got = db.get_prefix(&String::new());
    got.sort();
    assert_eq!(
        got,
        vec![("a".to_owned(), "1".to_owned()), ("b".to_owned(), "2".to_owned())]
    );
}

#[test]
fn remove_of_missing_key_is_ok() {
    let mut db = HashMapKV::new();
    assert_eq!(db.remove(&"missing".to_owned()), Ok(()));
}
