//! A small gravitational N-body simulation: a central mass and a handful of
//! orbiting satellites, stepped with semi-implicit Euler integration and
//! tracked by energy and center-of-mass diagnostics.
//!
//! All physical quantities are fixed-point values: a signed 64-bit count of
//! micro-units (millionths of a world unit). Every formula is stated exactly
//! over the integers, so the whole engine is verified: force accumulation,
//! the velocity/position updates, the orbit initializer, and the energy and
//! center-of-mass reductions.

pub mod body;
pub mod laws;
pub mod model;
pub mod num;
pub mod sim;
