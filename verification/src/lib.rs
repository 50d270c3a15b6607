//! A deterministic 2.5D turret simulation: a controllable shooter aims at a
//! target, computes a ballistic firing solution each tick, and launched
//! projectiles are advanced by a drag-aware kinematic integrator until they
//! hit the ground.
//!
//! All quantities are fixed-point numbers: an `i64` counts millionths of an
//! arena unit (or of a radian, or of a unit per second), so every computation
//! is exact integer arithmetic with a proved specification.

pub mod angle;
pub mod body;
pub mod fixed;
pub mod laws;
pub mod solver;
pub mod vec3;
pub mod world;
