//! The command dispatcher: validates one command, applies it to the store
//! under a single critical section, and produces exactly one result.
//!
//! `step_map` and `step_err` are the mathematical account of a dispatch:
//! what the store's mapping becomes and which error, if any, comes back.
//! The executable `dispatch` is proved to follow them exactly.

use vstd::prelude::*;

use crate::protocol::{Command, KvError, Operation, Reply};
use crate::store::Store;

verus! {

/// The one key a command acts on: the current contract honors only the
/// first entry of the key list.
pub open spec fn first_key(c: Command) -> Seq<char> {
    c.keys@[0]@
}

/// The store's mapping after one command is dispatched against mapping `m`.
/// Only a well-shaped `Set` or a keyed `Delete` changes the mapping; every
/// rejected command leaves the store untouched.
pub open spec fn step_map(m: Map<Seq<char>, Seq<u8>>, c: Command) -> Map<Seq<char>, Seq<u8>> {
    if c.operation is Put && c.keys@.len() > 0 && c.value is Some {
        m.insert(first_key(c), c.value->Some_0@)
    } else if c.operation is Delete && c.keys@.len() > 0 {
        m.remove(first_key(c))
    } else {
        m
    }
}

/// The error, if any, that dispatching `c` against mapping `m` reports:
/// `Unsupported` for an unrecognized operation tag, `Malformed` for a
/// command with no key or a `Set` without a value, `NotFound` for a `Get`
/// on an absent key, and no error otherwise.
pub open spec fn step_err(m: Map<Seq<char>, Seq<u8>>, c: Command) -> Option<KvError> {
    if c.operation is Unknown {
        Some(KvError::Unsupported)
    } else if c.keys@.len() == 0 {
        Some(KvError::Malformed)
    } else if c.operation is Put && c.value is None {
        Some(KvError::Malformed)
    } else if c.operation is Get && !m.contains_key(first_key(c)) {
        Some(KvError::NotFound)
    } else {
        None
    }
}

/// Byte-for-byte copy of a value, so a `Get` can hand the caller the stored
/// bytes without giving up the store's own buffer.
fn clone_bytes(v: &Vec<u8>) -> (r: Vec<u8>)
    ensures
        r@ == v@,
{
    let n = v.len();
    let mut r: Vec<u8> = Vec::new();
    let mut i: usize = 0;
    while i < n
        invariant
            n == v@.len(),
            i <= n,
            r@ == v@.subrange(0, i as int),
        decreases n - i,
    {
        r.push(v[i]);
        proof {
            assert(r@ =~= v@.subrange(0, i + 1));
        }
        i = i + 1;
    }
    proof {
        assert(r@ =~= v@);
    }
    r
}

/// Execute one command against the store: the store's mapping becomes
/// `step_map` of the old one, and the result is the error `step_err` names,
/// or on success the retrieved value for `Get` and an acknowledgement for
/// `Set` and `Delete`.
pub fn dispatch(store: &mut Store, cmd: &Command) -> (r: Result<Reply, KvError>)
    ensures
        final(store)@ == step_map(old(store)@, *cmd),
        match step_err(old(store)@, *cmd) {
            Some(e) => r == Err::<Reply, KvError>(e),
            None => if cmd.operation is Get {
                r matches Ok(Reply::Value(v)) && v@ == old(store)@[first_key(*cmd)]
            } else {
                r == Ok::<Reply, KvError>(Reply::Ack)
            },
        },
{
    match cmd.operation {
        Operation::Unknown => Err(KvError::Unsupported),
        Operation::Get => {
            if cmd.keys.len() == 0 {
                return Err(KvError::Malformed);
            }
            match store.get(&cmd.keys[0]) {
                Some(v) => Ok(Reply::Value(clone_bytes(v))),
                None => Err(KvError::NotFound),
            }
        },
        Operation::Put => {
            if cmd.keys.len() == 0 {
                return Err(KvError::Malformed);
            }
            match &cmd.value {
                Some(v) => {
                    let bytes = clone_bytes(v);
                    store.set(cmd.keys[0].clone(), bytes);
                    Ok(Reply::Ack)
                },
                None => Err(KvError::Malformed),
            }
        },
        Operation::Delete => {
            if cmd.keys.len() == 0 {
                return Err(KvError::Malformed);
            }
            store.delete(&cmd.keys[0]);
            Ok(Reply::Ack)
        },
    }
}

} // verus!
