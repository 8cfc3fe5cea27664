//! Yellowstone-style gRPC streaming for Zakura: the rules of the server plugin and of its client.
//!
//! The library holds what is decided and computed; sockets, threads and generated services stay
//! around it.
//!
//! * Node events ([`node`]) are turned into protocol updates ([`proto`]) by [`event`] and
//!   [`transparent`], compared by [`equality`], and measured by [`wire`].
//! * [`plugin`] numbers and publishes updates, and [`replay`] keeps a bounded window of them.
//! * [`filter`] validates and compiles subscription requests, [`matching`] says which updates they
//!   select, and [`rejection`] what is wrong with them.
//! * [`service`] answers calls, [`auth`] checks and counts callers, and [`session`] drives one
//!   subscription.
//! * On the client's side, [`builder`] collects settings, [`reconnect`] follows a stream across
//!   outages, [`dedup`] suppresses what was delivered before, and [`latency`] measures.
//! * [`laws`] says what calls give back, and how they relate, in terms of the messages themselves.

pub mod auth;
pub mod buffer;
pub mod builder;
pub mod chain;
pub mod clock;
pub mod config;
pub mod dedup;
pub mod equality;
pub mod event;
pub mod filter;
pub mod latency;
pub mod laws;
pub mod matching;
pub mod metadata;
pub mod node;
pub mod plugin;
pub mod proto;
pub mod reconnect;
pub mod rejection;
pub mod replay;
pub mod service;
pub mod session;
pub mod status;
pub mod text;
pub mod transparent;
pub mod wire;
