//! An opportunistic HTTP/3 upgrade cache for an HTTP client.
//!
//! The heart of the crate is [`alt_svc`]: a parser for `Alt-Svc`
//! advertisement headers, an expiring per-origin cache of upgrade state,
//! and the request/response bookkeeping that decides when a request may
//! try the faster transport and how the real outcome feeds back into the
//! cache. [`integrity`] checks response bodies against subresource
//! integrity strings. The remaining modules hold the plain data types the
//! surrounding client is configured with.

pub mod agent;
pub mod alt_svc;
pub mod conn_tracker;
pub mod error;
pub mod integrity;
pub mod options;
pub mod text;
