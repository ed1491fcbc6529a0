//! The agent data model: one boid is a position, a constant travel
//! heading, and a facing rotation derived from the heading for display.

use vstd::prelude::*;
use crate::vec2::{Vector2, COMPONENT_LIMIT, SCALE};

verus! {

/// Largest position component magnitude a well-formed boid may have;
/// generous enough that one motion step never overflows.
pub const POSITION_LIMIT: i64 = 1_000_000_000_000_000;

/// The travel heading of a boid. The magnitude carries no meaning: the
/// heading is normalized before every use. It is never the zero vector.
#[derive(Clone, Copy, Debug, PartialEq, Eq, Structural)]
pub struct Direction(pub Vector2);

/// The shared speed of the population, in thousandths of a world unit
/// per second. Live-tunable between ticks.
#[derive(Clone, Copy, Debug, PartialEq, Eq, Structural)]
pub struct Speed(pub i64);

/// The population size used at initialization.
#[derive(Clone, Copy, Debug, PartialEq, Eq, Structural)]
pub struct MaxBoids(pub u32);

/// One simulated agent.
#[derive(Clone, Copy, Debug, PartialEq, Eq, Structural)]
pub struct Boid {
    /// World position, in fixed-point coordinates.
    pub position: Vector2,
    /// Travel heading; fixed after creation.
    pub direction: Direction,
    /// Facing rotation for display, in microradians.
    pub rotation: i64,
}

impl Direction {
    /// A heading is well-formed when it is in arithmetic range and not the
    /// zero vector, whose direction would be undefined.
    pub open spec fn well_formed(self) -> bool {
        self.0.in_range() && !self.0.is_zero()
    }
}

impl From<Direction> for Vector2 {
    fn from(d: Direction) -> (r: Vector2) {
        d.0
    }
}

impl vstd::std_specs::convert::FromSpecImpl<Direction> for Vector2 {
    open spec fn obeys_from_spec() -> bool {
        true
    }

    open spec fn from_spec(d: Direction) -> Vector2 {
        d.0
    }
}

impl Boid {
    /// The invariant every boid in the population keeps: the position is
    /// in arithmetic range and the heading is a usable direction.
    pub open spec fn well_formed(self) -> bool {
        &&& -POSITION_LIMIT <= self.position.x <= POSITION_LIMIT
        &&& -POSITION_LIMIT <= self.position.y <= POSITION_LIMIT
        &&& self.direction.well_formed()
    }
}

/// The error conditions of the simulation.
#[derive(Clone, Copy, Debug, PartialEq, Eq, Structural)]
pub enum SimError {
    /// A heading was the zero vector, whose direction is undefined.
    DegenerateVector,
    /// The configuration cannot drive a tick: a missing or zero-sized
    /// viewport, or a speed or time step out of arithmetic range.
    Configuration,
}

impl SimError {
    /// A descriptive message for reporting the failure.
    pub fn message(&self) -> (r: &'static str)
        ensures
            *self is DegenerateVector ==> r@ == "zero heading vector has no direction"@,
            *self is Configuration ==> r@ == "viewport, speed, or time step out of range"@,
    {
        match self {
            SimError::DegenerateVector => "zero heading vector has no direction",
            SimError::Configuration => "viewport, speed, or time step out of range",
        }
    }
}

} // verus!
