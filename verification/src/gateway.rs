//! The compute half of the HTTP gateway: what each route answers, given the
//! dispatcher's result. Routing, forms and the transport itself live outside
//! the library; these functions pin down the one observable mapping the
//! gateway must honor — 404 for a failed `Get`, 200 otherwise.

use vstd::prelude::*;

use crate::protocol::{KvError, Reply};

verus! {

/// The liveness route's fixed answer: it bypasses the store entirely.
pub fn ping_reply() -> (r: (u16, &'static str))
    ensures
        r.0 == 200,
        r.1@ == "pong"@,
{
    (200, "pong")
}

/// The `Get` route's answer: HTTP 200 when the key was found, HTTP 404
/// otherwise.
pub fn get_route_reply(r: &Result<Reply, KvError>) -> (resp: (u16, &'static str))
    ensures
        r is Ok ==> resp.0 == 200 && resp.1@ == "found"@,
        r is Err ==> resp.0 == 404 && resp.1@ == "not found"@,
{
    match r {
        Ok(_) => (200, "found"),
        Err(_) => (404, "not found"),
    }
}

/// The `Set` route's answer on a completed request.
pub fn set_route_reply() -> (r: (u16, &'static str))
    ensures
        r.0 == 200,
        r.1@ == "set ok"@,
{
    (200, "set ok")
}

/// The `Delete` route's answer on a completed request.
pub fn del_route_reply() -> (r: (u16, &'static str))
    ensures
        r.0 == 200,
        r.1@ == "del ok"@,
{
    (200, "del ok")
}

} // verus!
