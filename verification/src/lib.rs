//! A minimal in-memory key-value service: a store mapping string keys to
//! byte-string values, and a dispatcher that applies `Get`/`Set`/`Delete`
//! commands to it, one critical section per command.

pub mod dispatch;
pub mod gateway;
pub mod laws;
pub mod protocol;
pub mod store;
