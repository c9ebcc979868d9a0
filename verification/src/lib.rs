//! A small verified core for a line-oriented chat relay.
//!
//! Connected clients are tracked in a [`directory::InMemoryDB`]; every
//! join, leave and chat message becomes an [`types::Activity`] that is
//! fanned out through a bounded broadcast [`bus::Bus`] to each live
//! subscriber, with explicit lag signalling when a slow subscriber
//! overruns its buffer. The per-connection behaviour is captured by the
//! [`session`] state machine; the surrounding I/O lives outside this
//! library.

pub mod bus;
pub mod directory;
pub mod message;
pub mod session;
pub mod text;
pub mod types;
pub mod user;
