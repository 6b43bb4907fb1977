//! Maxwell's demon in fixed point: particles that bounce in a box divided by
//! a wall, a gate in the wall that filters what passes, and elastic
//! collisions between the particles.

pub mod collision;
pub mod conservation;
pub mod fixed;
pub mod gate;
pub mod geometry;
pub mod laws;
pub mod particle;
pub mod simulation;
pub mod vector;
