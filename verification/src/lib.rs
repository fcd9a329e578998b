//! Accuracy metrics for lossy time-series compression.
//!
//! The library compares an original time series against the values a lossy
//! store handed back for it: it validates that the two series are aligned,
//! classifies every point's relative error, folds the classifications into
//! an accuracy report, and renders the report as printable lines. Floating
//! point values are carried as their IEEE 754 bit patterns; the arithmetic
//! results the classifier needs are obtained from a software float
//! implementation behind a small trusted boundary, and everything decided
//! about those results is verified on the bits.

pub mod arith;
pub mod bits;
pub mod columns;
pub mod histogram;
pub mod metrics;
pub mod readiness;
pub mod render;
pub mod series;
