//! The daemon's local API: JSON lines over a Unix socket.
//!
//! The wire shapes are in [`protocol`], byte framing in [`framing`], and what
//! one connection does with a frame in [`server`].

pub mod error_code;
pub mod framing;
pub mod protocol;
pub mod server;
