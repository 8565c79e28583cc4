//! The state of a particle in phase space.

use vstd::prelude::*;
use crate::vector::{Vector3, Vector4};

verus! {

/// Where a particle is in spacetime and how fast it moves: its covariant
/// velocity and its position.
#[derive(Debug, Clone, Copy)]
pub struct PhaseSpace {
    pub velocity: Vector3,
    pub position: Vector4,
}

impl PhaseSpace {
    pub fn new(velocity: Vector3, position: Vector4) -> (p: PhaseSpace)
        ensures
            p.velocity == velocity,
            p.position == position,
    {
        PhaseSpace { velocity, position }
    }
}

} // verus!
