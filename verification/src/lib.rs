//! A minimal particle-motion simulation: a population of independent 2-D
//! agents, each with a position and a constant travel heading, advanced
//! every tick along its normalized heading at a shared speed and confined
//! to a rectangular world by edge-wrapping. Coordinates and angles are
//! fixed-point integers: thousandths of a world unit and microradians.

pub mod boid;
pub mod sim;
pub mod vec2;
