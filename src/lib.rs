//! Compact representations for telemetry-like data points: spatial grid keys,
//! supply-level readings, newline counts and reversed text.
pub mod grid_key;
pub mod line_count;
pub mod supply;
pub mod text;
