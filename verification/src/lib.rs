//! Workload-generation core for key/value-style benchmark drivers.
//!
//! The crate produces a statistically shaped stream of CRUD operations
//! (read, update, insert, scan, read-modify-write) against an abstract
//! storage backend, and tracks which inserted keys are safely visible
//! for subsequent reads through an acknowledged counter whose watermark
//! advances only over a contiguous prefix of completed insertions.

pub mod db;
pub mod generator;
pub mod rng;
pub mod utils;
pub mod workload;
