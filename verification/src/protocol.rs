//! The request/response contract: the command shape the dispatcher
//! understands and the result shape it produces.

use vstd::prelude::*;

verus! {

/// The operation tag carried by a command. The wire shape can carry tags
/// this service does not implement; those arrive as `Unknown` and are
/// rejected by the dispatcher, never silently dropped.
#[derive(Clone, Copy, Debug, PartialEq, Eq)]
pub enum Operation {
    /// Read the value bound to a key.
    Get,
    /// Insert or overwrite the value bound to a key: the protocol's set
    /// operation. (`Set` itself would shadow vstd's set type.)
    Put,
    /// Remove the binding for a key.
    Delete,
    /// An operation tag outside the supported set.
    Unknown,
}

/// One request: an operation, its key operands, and, for `Set`, the value
/// to write. Only the first key is honored by the current contract, though
/// the shape allows several.
#[derive(Debug)]
pub struct Command {
    pub operation: Operation,
    pub keys: Vec<String>,
    pub value: Option<Vec<u8>>,
}

/// A success payload: the retrieved value for `Get`, a bare acknowledgement
/// for `Set` and `Delete`.
#[derive(Debug, PartialEq, Eq)]
pub enum Reply {
    Value(Vec<u8>),
    Ack,
}

/// A per-request failure, reported inside the result payload, never as a
/// transport fault.
#[derive(Clone, Copy, Debug, PartialEq, Eq)]
pub enum KvError {
    /// `Get` on an absent key.
    NotFound,
    /// An operation tag outside the supported set.
    Unsupported,
    /// A request the dispatcher cannot honor: no key, or `Set` without a
    /// value. The store is left untouched.
    Malformed,
}

impl Command {
    /// A command's shape is as the contract demands: at least one key, and
    /// a value exactly when the operation is `Set`.
    pub open spec fn wf(self) -> bool {
        self.keys@.len() > 0 && (self.value is Some <==> self.operation is Put)
    }

    /// Build the `Get` command for one key.
    pub fn new_get(key: String) -> (c: Command)
        ensures
            c.operation is Get,
            c.keys@.len() == 1,
            c.keys@[0]@ == key@,
            c.value is None,
            c.wf(),
    {
        Command { operation: Operation::Get, keys: vec![key], value: None }
    }

    /// Build the `Set` command for one key and the value to write.
    pub fn new_set(key: String, value: Vec<u8>) -> (c: Command)
        ensures
            c.operation is Put,
            c.keys@.len() == 1,
            c.keys@[0]@ == key@,
            c.value matches Some(v) && v@ == value@,
            c.wf(),
    {
        Command { operation: Operation::Put, keys: vec![key], value: Some(value) }
    }

    /// Build the `Delete` command for one key.
    pub fn new_delete(key: String) -> (c: Command)
        ensures
            c.operation is Delete,
            c.keys@.len() == 1,
            c.keys@[0]@ == key@,
            c.value is None,
            c.wf(),
    {
        Command { operation: Operation::Delete, keys: vec![key], value: None }
    }
}

} // verus!
