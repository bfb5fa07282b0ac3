//! A flocking ("boids") simulation core in exact integer arithmetic.
//!
//! Positions and velocities are fixed-point integer vectors; every step of
//! the force pass and of the integrator is specified over mathematical
//! integers and proved free of overflow.
pub mod config;
pub mod simulation;
pub mod integrator;
pub mod steering;
pub mod vector;
pub mod visibility;
