//! Aggregation of observations into spots.

pub mod laws;
pub mod lifecycle;
pub mod pipeline;
pub mod reports;
pub mod runs;
pub mod spot_table;
