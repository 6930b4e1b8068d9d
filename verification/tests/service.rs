//! End-to-end exercises of the store and dispatcher through their public
//! API, one scenario per test.

use mini_redis_base::dispatch::dispatch;
use mini_redis_base::protocol::{Command, KvError, Operation, Reply};
use mini_redis_base::store::Store;

#[test]
fn set_then_get_returns_value() {
    let mut store = Store::new();
    let r = dispatch(&mut store, &Command::new_set("a".to_string(), b"1".to_vec()));
    assert_eq!(r, Ok(Reply::Ack));
    let r = dispatch(&mut store, &Command::new_get("a".to_string()));
    assert_eq!(r, Ok(Reply::Value(b"1".to_vec())));
}

#[test]
fn get_missing_is_not_found() {
    let mut store = Store::new();
    let r = dispatch(&mut store, &Command::new_get("missing".to_string()));
    assert_eq!(r, Err(KvError::NotFound));
}

#[test]
fn set_delete_get_is_not_found() {
    let mut store = Store::new();
    let r = dispatch(&mut store, &Command::new_set("a".to_string(), b"1".to_vec()));
    assert_eq!(r, Ok(Reply::Ack));
    let r = dispatch(&mut store, &Command::new_delete("a".to_string()));
    assert_eq!(r, Ok(Reply::Ack));
    let r = dispatch(&mut store, &Command::new_get("a".to_string()));
    assert_eq!(r, Err(KvError::NotFound));
}

#[test]
fn delete_never_set_is_acknowledged() {
    let mut store = Store::new();
    let r = dispatch(&mut store, &Command::new_delete("never-set".to_string()));
    assert_eq!(r, Ok(Reply::Ack));
}

#[test]
fn delete_is_idempotent() {
    let mut store = Store::new();
    dispatch(&mut store, &Command::new_set("a".to_string(), b"1".to_vec())).unwrap();
    let first = dispatch(&mut store, &Command::new_delete("a".to_string()));
    let second = dispatch(&mut store, &Command::new_delete("a".to_string()));
    assert_eq!(first, Ok(Reply::Ack));
    assert_eq!(second, Ok(Reply::Ack));
    let r = dispatch(&mut store, &Command::new_get("a".to_string()));
    assert_eq!(r, Err(KvError::NotFound));
}

#[test]
fn set_persists_until_overwritten() {
    let mut store = Store::new();
    dispatch(&mut store, &Command::new_set("a".to_string(), b"1".to_vec())).unwrap();
    dispatch(&mut store, &Command::new_set("b".to_string(), b"2".to_vec())).unwrap();
    dispatch(&mut store, &Command::new_delete("b".to_string())).unwrap();
    let r = dispatch(&mut store, &Command::new_get("a".to_string()));
    assert_eq!(r, Ok(Reply::Value(b"1".to_vec())));
    dispatch(&mut store, &Command::new_set("a".to_string(), b"9".to_vec())).unwrap();
    let r = dispatch(&mut store, &Command::new_get("a".to_string()));
    assert_eq!(r, Ok(Reply::Value(b"9".to_vec())));
}

#[test]
fn either_serial_order_of_two_sets_leaves_one_whole_value() {
    let orders: [[&[u8]; 2]; 2] = [[b"v1", b"v2"], [b"v2", b"v1"]];
    for order in orders {
        let mut store = Store::new();
        for value in order {
            let c = Command::new_set("k".to_string(), value.to_vec());
            assert_eq!(dispatch(&mut store, &c), Ok(Reply::Ack));
        }
        let r = dispatch(&mut store, &Command::new_get("k".to_string()));
        match r {
            Ok(Reply::Value(v)) => {
                assert!(v == b"v1".to_vec() || v == b"v2".to_vec());
                assert_eq!(v, order[1].to_vec());
            }
            other => panic!("expected a value, got {:?}", other),
        }
    }
}

#[test]
fn unknown_operation_is_unsupported() {
    let mut store = Store::new();
    let c = Command {
        operation: Operation::Unknown,
        keys: vec!["a".to_string()],
        value: None,
    };
    assert_eq!(dispatch(&mut store, &c), Err(KvError::Unsupported));
}

#[test]
fn set_without_value_is_malformed_and_changes_nothing() {
    let mut store = Store::new();
    dispatch(&mut store, &Command::new_set("a".to_string(), b"1".to_vec())).unwrap();
    let c = Command {
        operation: Operation::Put,
        keys: vec!["a".to_string()],
        value: None,
    };
    assert_eq!(dispatch(&mut store, &c), Err(KvError::Malformed));
    let r = dispatch(&mut store, &Command::new_get("a".to_string()));
    assert_eq!(r, Ok(Reply::Value(b"1".to_vec())));
}

#[test]
fn command_without_keys_is_malformed() {
    let mut store = Store::new();
    for operation in [Operation::Get, Operation::Put, Operation::Delete] {
        let value = if matches!(operation, Operation::Put) {
            Some(b"1".to_vec())
        } else {
            None
        };
        let c = Command { operation, keys: vec![], value };
        assert_eq!(dispatch(&mut store, &c), Err(KvError::Malformed));
    }
}

#[test]
fn only_the_first_key_is_honored() {
    let mut store = Store::new();
    dispatch(&mut store, &Command::new_set("a".to_string(), b"1".to_vec())).unwrap();
    let c = Command {
        operation: Operation::Delete,
        keys: vec!["b".to_string(), "a".to_string()],
        value: None,
    };
    assert_eq!(dispatch(&mut store, &c), Ok(Reply::Ack));
    let r = dispatch(&mut store, &Command::new_get("a".to_string()));
    assert_eq!(r, Ok(Reply::Value(b"1".to_vec())));
}

#[test]
fn get_has_no_side_effect() {
    let mut store = Store::new();
    dispatch(&mut store, &Command::new_set("a".to_string(), b"1".to_vec())).unwrap();
    dispatch(&mut store, &Command::new_get("a".to_string())).unwrap();
    let r = dispatch(&mut store, &Command::new_get("a".to_string()));
    assert_eq!(r, Ok(Reply::Value(b"1".to_vec())));
}

#[test]
fn empty_key_and_empty_value_are_ordinary_data() {
    let mut store = Store::new();
    dispatch(&mut store, &Command::new_set("".to_string(), b"".to_vec())).unwrap();
    let r = dispatch(&mut store, &Command::new_get("".to_string()));
    assert_eq!(r, Ok(Reply::Value(Vec::new())));
}
