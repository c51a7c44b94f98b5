//! Conversion of raw rail-network geodata into a bounded, simplified planar
//! network: geographic coordinates are projected onto a fixed integer grid,
//! coordinate sequences become lines, lines are simplified by merging
//! near-collinear points, and everything is collected into a network.

pub mod error;
pub mod plane;
pub mod projection;
pub mod builder;
pub mod simplify;
