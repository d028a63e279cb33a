//! Synthetic JSON record generation for broker load testing.
//!
//! The library builds random records either from a fixed shape or from a
//! user-supplied field-name-to-type schema, renders them as JSON text, and
//! provides the per-iteration decision logic of a rate-controlled emission
//! loop together with a throughput counter.

pub mod counter;
pub mod emit;
pub mod json;
pub mod parse;
pub mod payload;
pub mod schema;
pub mod timefmt;

use vstd::prelude::*;

verus! {

/// Interval between two iterations of one emission loop, in microseconds.
pub const MESSAGE_INTERVAL_MICROS: u64 = 100000;

/// Number of parallel emission loops.
pub const THREADS: usize = 1;

} // verus!
