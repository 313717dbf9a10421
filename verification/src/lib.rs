//! Verified core of a desktop backend that observes and controls a local
//! container engine.
//!
//! The backend translates UI command requests into engine calls, manages
//! long-lived streaming sessions (container logs, interactive shells, image
//! pulls), and mediates the lifecycle of the underlying container runtime.
//! This crate holds the decision logic of that backend — identifier
//! validation, the response envelope, size parsing, the session registries,
//! the runtime lifecycle state machine, and the connection-slot discipline —
//! each with a verified contract. The asynchronous engine calls, process
//! spawning and event delivery live in the unverified shell around it, which
//! hands this crate plain values and obeys the decisions it returns.

pub mod commands;
pub mod connection;
pub mod envelope;
pub mod lifecycle;
pub mod registry;
pub mod sessions;
pub mod size;
pub mod text;
pub mod validate;
pub mod volumes;
