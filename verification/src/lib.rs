//! Batched, rate-limited retrieval pipeline and per-player statistics
//! aggregation for match logs served by a remote statistics service.
//!
//! The library holds the verified core: grouping log IDs into batches of a
//! fixed quota, deciding batch-by-batch dispatch (including the fatal check
//! for unsupported log IDs), folding fetched records into per-player kill
//! totals and display-name histories, and building search queries. Network
//! I/O, argument parsing and console output live outside the library and
//! exchange plain values with it.

use vstd::prelude::*;

pub mod args;
pub mod batch;
pub mod fetch;
pub mod ids;
pub mod schema;
pub mod search;
pub mod stats;
pub mod steam;
pub mod text;

verus! {

/// Smallest log ID whose remote schema this library understands; logs with
/// lower IDs use an incompatible layout and must never be fetched.
pub const MIN_SUPPORTED_ID: u32 = 151744;

} // verus!
