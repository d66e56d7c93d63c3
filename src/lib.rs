//! Estimation engine for a numeric-throughput benchmark that approximates π.
//!
//! The library holds the integer core of the Monte-Carlo estimator: a seeded
//! pseudo-random stream, an exact integer model of the double-precision
//! unit-circle test, the partition of work across workers with per-worker
//! seeds, and the overflow-free aggregation of partial hit counts. It also
//! holds the command-line decisions of the benchmark driver: option reading,
//! number parsing and formatting.
pub mod aggregate;
pub mod cli;
pub mod numbers;
pub mod options;
pub mod plan;
pub mod rounding;
pub mod sampling;
pub mod stream;
