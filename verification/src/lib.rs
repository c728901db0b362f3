//! Verified core of a generic HTTP webhook trigger backend.
//!
//! Every inbound POST becomes one trigger event. This crate holds the
//! decisions behind that: how a route names the event kind, how a bearer
//! token is checked, how a body becomes a payload, how configuration is
//! resolved, and how the backend's single-watcher lifecycle behaves.

pub mod text;
pub mod server;
pub mod config;
pub mod event;
pub mod backend;
