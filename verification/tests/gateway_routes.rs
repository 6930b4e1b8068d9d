//! The gateway-facing answers: the fixed liveness payload and the mapping
//! from dispatch results to HTTP statuses.

use mini_redis_base::dispatch::dispatch;
use mini_redis_base::gateway::{del_route_reply, get_route_reply, ping_reply, set_route_reply};
use mini_redis_base::protocol::Command;
use mini_redis_base::store::Store;

#[test]
fn ping_is_a_fixed_ok() {
    assert_eq!(ping_reply(), (200, "pong"));
}

#[test]
fn get_route_is_200_when_found_404_when_missing() {
    let mut store = Store::new();
    dispatch(&mut store, &Command::new_set("a".to_string(), b"1".to_vec())).unwrap();
    let found = dispatch(&mut store, &Command::new_get("a".to_string()));
    assert_eq!(get_route_reply(&found), (200, "found"));
    let missing = dispatch(&mut store, &Command::new_get("zzz".to_string()));
    assert_eq!(get_route_reply(&missing), (404, "not found"));
}

#[test]
fn set_and_del_routes_acknowledge() {
    assert_eq!(set_route_reply(), (200, "set ok"));
    assert_eq!(del_route_reply(), (200, "del ok"));
}
