//! A bitmask-driven interceptor pipeline for an HTTP reverse-proxy gateway.
//!
//! The crate models the fixed lifecycle points of a proxied request
//! ([`phase::Phase`]), the finer-grained events next to them
//! ([`hook::Hook`]), and the pluggable interceptors that subscribe to
//! subsets of both through bitmasks.  A per-request [`session::Session`]
//! stages header and status mutations in buffers and commits them with
//! phase-dependent flushing rules; the executor runs the configured
//! interceptor list in order with short-circuit semantics.

pub mod config;
pub mod error;
pub mod ext_headers;
pub mod headers;
pub mod hook;
pub mod interceptor;
pub mod interceptor_name;
pub mod interceptors;
pub mod phase;
pub mod proxy;
pub mod query;
pub mod rewrite;
pub mod router;
pub mod session;
pub mod strutil;
