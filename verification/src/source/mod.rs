//! Source connectors for DX cluster nodes.
//!
//! The connectors are state machines: the application performs the network
//! work and hands each event in; the machine answers with what to do next.

pub mod cluster;
pub mod iac;
pub mod laws;
pub mod message;
pub mod rbn;
pub mod supervisor;
pub mod telnet;

pub use message::{SourceError, SourceMessage};
