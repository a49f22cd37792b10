//! Cached random-access inputs for remote media.
//!
//! Container and codec layers remain transport-independent. This layer decides
//! which byte ranges of a remote object are asked for, kept and forgotten, and
//! which answers of an HTTP server are taken.

pub mod cache;
pub mod content_range;
pub mod error;
pub mod http;
pub mod laws;
pub mod range;
