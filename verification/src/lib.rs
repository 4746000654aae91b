//! A disk-backed, TTL-gated response cache for a command-line dictionary
//! lookup tool, with the lookup orchestration around it.
//!
//! The library owns every decision — path resolution, freshness, parsing,
//! serialization, the consult-else-fetch-and-repopulate flow, word
//! extraction — and none of the I/O: the surrounding program probes the
//! disk, the network and the clock, and hands plain values in.

pub mod errors;
pub mod json;
pub mod keys;
pub mod lookup;
pub mod present;
pub mod store;

pub use errors::Error;
