//! Skimmer quality classification.

pub mod config;
pub mod distance;
pub mod laws;
pub mod quality;
