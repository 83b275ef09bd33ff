//! Verified core of a local chat relay server.
//!
//! The server relays chat turns between protocol clients and a locally
//! hosted inference backend.  This crate holds the verified logic: the
//! wire-protocol data model and history bookkeeping ([`protocol`]), the
//! model configuration table ([`config`]), the backend process lifecycle
//! state machine ([`process`]), the streaming-response decoder
//! ([`adapter`]), and the per-connection session state machine
//! ([`session`]).  All I/O (sockets, HTTP, child processes, disk) lives
//! outside this crate and feeds these functions plain values.

pub mod adapter;
pub mod config;
pub mod process;
pub mod protocol;
pub mod session;
