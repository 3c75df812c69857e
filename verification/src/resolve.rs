//! Resolution of requested packages into an order in which to build them.

pub mod graph;
pub mod laws;
pub mod plan;
pub mod universe;
