//! Normalisation of per-region epidemiological reports into ordered time
//! series, and the metrics derived from them (cumulative totals, deltas
//! between consecutive observations, rolling averages, per-capita scaling).
//!
//! Every value that would be fractional is returned as an exact ratio of two
//! integers; turning it into a floating-point number is left to the caller.
pub mod chart;
pub mod metrics;
pub mod palette;
pub mod records;
pub mod registry;
pub mod series;
pub mod text;
