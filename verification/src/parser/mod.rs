//! Line formats of cluster connections.

pub mod laws;
pub mod spot;
