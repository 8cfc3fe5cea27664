//! What the operations of the library are for, in terms of what goes in and what comes out.
//!
//! Each law speaks of calls: `call_ensures` of a function, its arguments and a result says that the
//! function may give that result. A mutable argument stands for the value before the call, and
//! `final` of it for the value after. Where several calls follow one another, the value before a
//! call is the value after the one before it.
//!
//! The laws speak of the fields of messages and of the node's data, and of how the results of calls
//! relate, rather than of the functions with which the contracts are written.

pub mod access;
pub mod client;
pub mod dedup;
pub mod encoding;
pub mod events;
pub mod identifiers;
pub mod matching;
pub mod measuring;
pub mod messages;
pub mod protocol;
pub mod publishing;
pub mod reconnect;
pub mod replay;
pub mod requests;
pub mod scope;
pub mod sessions;
pub mod wire;
