//! Resolution of callsigns to entities and enrichment data.

pub mod cty;
pub mod enrichment;
pub mod entity;
pub mod float_text;
pub mod laws;
