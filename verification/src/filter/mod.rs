//! Declarative spot filters: configuration, compilation and evaluation.

pub mod compiled;
pub mod config;
pub mod decision;
pub mod error;
pub mod evaluate;
pub mod laws;
pub mod pattern;
