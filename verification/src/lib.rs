//! Backend session engine of a secure-messaging desktop client.
//!
//! The crate owns the decision logic of a single-connection session: a cache
//! that resolves conversation identities, a decoder that turns protocol
//! envelopes into history actions, a timestamp-ordered per-thread message
//! store, a bounded-backoff retry helper, and the command dispatch of the
//! session actor. All backend I/O (network, storage, clocks) is performed by
//! the embedding program, which feeds its results back into these functions
//! as plain values.

pub mod backoff;
pub mod cache;
pub mod dialog;
pub mod ids;
pub mod message;
pub mod parse;
pub mod proto;
pub mod selection;
pub mod session;
pub mod span;
pub mod store;
