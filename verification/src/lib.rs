//! A per-user daemon runtime and a bounded on-disk response cache, with the
//! rules that decide what they do stated and proved.
//!
//! The daemon half: one connection carries one request and one response,
//! each a newline-delimited JSON frame under [`Limits::max_frame_bytes`];
//! the server serves only a peer of its own user, answers another major with
//! `unsupported_version`, and exits after a drain started by a signal, a
//! shutdown request or the idle timeout. The cache half: each entry has two
//! horizons, fresh and stale; a write that crosses a hard cap prunes the
//! cache to its targets, least recently used first.
//!
//! The modules here hold the decisions; the sockets, files, processes and
//! the async runtime that carry them out stand outside this library.

pub mod text;
pub mod naming;
pub mod order;
pub mod error;
pub mod key;
pub mod policy;
pub mod cache;
pub mod config;
pub mod limits;
pub mod serve;
pub mod secrets;
pub mod envelope;
pub mod client;
pub mod server;
pub mod install;
pub mod clock;
pub mod single_flight;
pub mod laws;

pub use client::{Client, ClientError};
pub use envelope::{Fault, Outcome, Request, Response, Version};
pub use install::{InstallError, Service};
pub use limits::Limits;
pub use serve::Lifecycle;
pub use secrets::SecretLimits;
pub use single_flight::FlightError;
