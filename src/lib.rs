//! Stress-testing harness core: compares a candidate program's output against
//! a brute-force reference, computes line diffs and keeps running statistics.

pub mod paths;
pub mod stats;
pub mod diff;
pub mod check;
