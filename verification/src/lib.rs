//! Verified core of a clock-synchronization engine.
//!
//! The library estimates the clock offset between a local host and a remote
//! HTTP server to sub-second precision, using only the whole-second timestamp
//! that the server's `Date` response header exposes.  All protocol time is
//! measured in integer microseconds.

pub mod clock;
pub mod engine;
pub mod errors;
pub mod extractor;
pub mod models;
pub mod profile;
pub mod sim;
pub mod sync_env;
pub mod text;
pub mod timing;
