//! Stateful Hyperlight sandbox sessions, and what the benchmark of the containment backends makes
//! of its measurements.
//!
//! Nothing here does any input or output. Callers run code, take readings and hand them over; the
//! library decides what happens next and what the readings come to. Durations and amounts are exact
//! integers, and quotients are kept as such.

pub mod text;
pub mod scan;
pub mod escape;
pub mod units;
pub mod order;
pub mod stats;
pub mod schedule;
pub mod backend;
pub mod error;
pub mod request;
pub mod home;
pub mod stateful;
pub mod workload;
pub mod output;
pub mod memory;
pub mod warm;
pub mod cold;
pub mod density;
pub mod parallel;
pub mod disk;
pub mod report;
pub mod plan;
