//! A CORS proxy core: origin validation, target-URL extraction from the
//! request path, preflight handling, header filtering, and CORS annotation.
//!
//! The library decides; the surrounding binary performs the network I/O.

pub mod config;
pub mod cors;
pub mod headers;
pub mod pipeline;
pub mod target;
pub mod text;
