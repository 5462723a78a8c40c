//! Core of a fleet controller for network-attached mining devices.
//!
//! The fleet is arranged container -> rack -> (row, column) slot, and bulk
//! operations (scan, reboot, sleep, locate, pool and profile changes) run as
//! jobs: one independent unit of work per device, executed concurrently, with
//! credential fallback, per-device fault isolation, aggregated progress and
//! cooperative cancellation. This crate holds the decision logic of that
//! core, verified; the network, storage and user-interface edges live with
//! the binary that drives it.

pub mod auth;
pub mod config;
pub mod errors;
pub mod frontier;
pub mod jobs;
pub mod miner;
pub mod models;
pub mod pools;
pub mod progress;
pub mod text;
pub mod topology;
