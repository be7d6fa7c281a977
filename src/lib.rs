//! Connection registry and fan-out engine of a real-time chat gateway.
//!
//! Live connections (`session`) are tracked per user identity in a
//! `registry`; inbound frames are validated into events (`event`), whose
//! target set is resolved and delivered by the `router`; the `gateway`
//! admits a verified identity and registers its new session. Sockets,
//! tasks, locks and the relational store live outside this library: it
//! receives their results as plain values.

pub mod event;
pub mod gateway;
pub mod models;
pub mod registry;
pub mod router;
pub mod session;
