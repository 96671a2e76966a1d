//! Request-gatekeeping layer of a paste-sharing backend: a per-client
//! admission-control (rate-limiting) state machine, a client-address
//! resolver that picks one trusted client IP out of a request's proxy
//! headers, and a cache-aside bearer-token identity resolver.
//!
//! All shared state is owned and dependency-injected; the surrounding
//! HTTP server, durable store and hashing live outside this crate and
//! hand it plain values.

pub mod assoc;
pub mod auth;
pub mod cache;
pub mod config;
pub mod errors;
pub mod ip;
pub mod languages;
pub mod oauth;
pub mod pastes;
pub mod ratelimit;
pub mod resolver;
pub mod text;
pub mod users;
