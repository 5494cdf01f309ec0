//! Per-player composite performance scores from per-match statistic tables.
//!
//! The library parses comma-separated tables, computes a weighted linear
//! score per player record, accumulates per-player running totals across
//! matches, and ranks the top players of each statistic category. Reading
//! files and printing stay outside; the library works on lines and returns
//! values.

pub mod agg;
pub mod fbits;
pub mod numparse;
pub mod pipeline;
pub mod rank;
pub mod records;
pub mod score;
pub mod text;
pub mod weights;
