//! The store's own contract, exercised directly.

use mini_redis_base::store::Store;

#[test]
fn new_store_is_empty() {
    let store = Store::new();
    assert!(store.get(&"a".to_string()).is_none());
}

#[test]
fn set_overwrites_and_get_reads_back() {
    let mut store = Store::new();
    store.set("k".to_string(), b"one".to_vec());
    assert_eq!(store.get(&"k".to_string()), Some(&b"one".to_vec()));
    store.set("k".to_string(), b"two".to_vec());
    assert_eq!(store.get(&"k".to_string()), Some(&b"two".to_vec()));
}

#[test]
fn delete_removes_only_its_key() {
    let mut store = Store::new();
    store.set("a".to_string(), b"1".to_vec());
    store.set("b".to_string(), b"2".to_vec());
    store.delete(&"a".to_string());
    assert!(store.get(&"a".to_string()).is_none());
    assert_eq!(store.get(&"b".to_string()), Some(&b"2".to_vec()));
}

#[test]
fn delete_of_absent_key_is_a_no_op() {
    let mut store = Store::new();
    store.set("a".to_string(), b"1".to_vec());
    store.delete(&"ghost".to_string());
    assert_eq!(store.get(&"a".to_string()), Some(&b"1".to_vec()));
}
