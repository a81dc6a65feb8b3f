//! Battery-level watchdog engine.
//!
//! The library aggregates per-source power-supply readings into a single
//! effective charge percentage and tracks that percentage across poll
//! cycles, emitting at most one edge-triggered alert per cycle when the
//! value drops into a more severe threshold band.

pub mod config;
pub mod paths;
pub mod reading;
pub mod tracker;
