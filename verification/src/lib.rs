//! Time-bounded, disk-backed memoization of expensive operations.
//!
//! The crate is the cache engine itself: key/location resolution, staleness
//! evaluation, the JSON entry format, and the read/compute/write protocol.
//! Durable storage and the clock are supplied by the caller as plain values,
//! so every decision the engine makes is verified here; an async runner
//! performs the actual I/O around it.

pub mod codec;
pub mod engine;
pub mod laws;
pub mod path;
pub mod staleness;
pub mod store;
