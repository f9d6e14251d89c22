//! The engine of a benchmark of object-storage operations: the decisions of a
//! timed run under a cap on concurrency, the histogram of its latencies, the
//! naming of its keys, the life of its data set, and its modes and results.
//!
//! The engine decides and counts; it performs no operation itself. Its
//! caller carries out what it is told to launch, write or delete, and reports
//! back how each ended.

pub mod dataset;
pub mod driver;
pub mod histogram;
pub mod key;
pub mod mode;
pub mod report;
pub mod samples;
pub mod text;
