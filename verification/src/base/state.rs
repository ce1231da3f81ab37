//! The potentiality state (the joint amplitude vector before collapse) and
//! the resolved state of one unit after stabilization.

use crate::amp::Amp;
use vstd::prelude::*;

verus! {

/// The joint potential state of the simulated units: a dense vector of
/// complex amplitudes of length two to the number of units.  The vector is
/// owned by one engine at a time and replaced wholesale on every
/// transformation.
#[derive(Debug, Clone, PartialEq)]
pub struct PotentialityState {
    state_vector: Vec<Amp>,
}

impl View for PotentialityState {
    type V = Seq<Amp>;

    closed spec fn view(&self) -> Seq<Amp> {
        self.state_vector@
    }
}

impl PotentialityState {
    /// Wraps a vector of amplitudes; validation happens during simulation.
    pub fn new(initial_vector: Vec<Amp>) -> (r: Self)
        ensures
            r@ == initial_vector@,
    {
        Self { state_vector: initial_vector }
    }

    /// Read-only access to the amplitude vector.
    pub fn vector(&self) -> (r: &Vec<Amp>)
        ensures
            r@ == self@,
    {
        &self.state_vector
    }

    /// The number of basis potentialities represented.
    pub fn dim(&self) -> (r: usize)
        ensures
            r == self@.len(),
    {
        self.state_vector.len()
    }
}

/// One unit's definite outcome after stabilization.
#[derive(Debug, Clone, Copy, PartialEq, Eq, Structural, Hash)]
pub enum StableState {
    /// A resolved binary quality, held as its numeric value.
    ResolvedQuality(u64),
}

impl StableState {
    /// The numeric value of a resolved quality.
    pub fn get_resolved_value(&self) -> (r: Option<u64>)
        ensures
            r == Some(self->ResolvedQuality_0),
    {
        match self {
            StableState::ResolvedQuality(val) => Some(*val),
        }
    }
}

} // verus!
