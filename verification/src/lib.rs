//! Client-side session engine for the boop presence protocol.
//!
//! The crate verifies the logic of a client that keeps one authenticated,
//! long-lived session with a presence server: the newline-delimited wire
//! codec, the login handshake, the single-session registry, the multiplexed
//! event-loop state machine, and the partner presence tracker.  Network,
//! disk and UI plumbing live outside the library and drive it with plain
//! values.

pub mod codec;
pub mod config;
pub mod engine;
pub mod errors;
pub mod handshake;
pub mod partners;
pub mod registry;
