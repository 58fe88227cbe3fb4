//! Core of a resilient streaming-subscription client.
//!
//! The crate models, and verifies, the decision logic of a client that keeps
//! a long-lived subscription to a remote event feed alive: an exponential
//! backoff schedule for reconnect attempts ([`backoff`]), the classification
//! of inbound messages and the keepalive replies they trigger ([`session`]),
//! and the supervisor cycle that ties connect attempts, sessions and backoff
//! together ([`supervisor`]). Transport, asynchrony and logging stay outside;
//! they hand plain values in and carry the produced records out.

pub mod backoff;
pub mod base58;
pub mod message;
pub mod record;
pub mod request;
pub mod session;
pub mod supervisor;
