//! Reference frames: the context within which units exist and relate.

use vstd::prelude::*;

verus! {

/// A reference frame, identified by a number that the surrounding
/// simulation keeps unique.
#[derive(Debug, Clone, PartialEq, Eq, Structural, Hash)]
pub struct ReferenceFrame {
    id: u64,
}

impl ReferenceFrame {
    /// The identifier, for specifications.
    pub closed spec fn spec_id(&self) -> u64 {
        self.id
    }

    /// Creates a frame with the given identifier.
    pub fn new(id: u64) -> (r: Self)
        ensures
            r.spec_id() == id,
    {
        Self { id }
    }

    /// The identifier of this frame.
    pub fn id(&self) -> (r: u64)
        ensures
            r == self.spec_id(),
    {
        self.id
    }
}

} // verus!
