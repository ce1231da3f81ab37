//! The qualitative distinction unit: the basic carrier of one binary
//! quality.

use crate::base::error::QduId;
use vstd::prelude::*;

verus! {

/// One qualitative distinction unit.  Its identifier must be kept unique
/// by the code that allocates units.
#[derive(Debug, Clone, Copy, PartialEq, Eq, Structural, Hash)]
pub struct Qdu {
    id: QduId,
}

impl Qdu {
    /// The identifier, for specifications.
    pub closed spec fn spec_id(&self) -> QduId {
        self.id
    }

    /// Creates a unit with the given raw identifier value.
    pub fn new(id_val: u64) -> (r: Self)
        ensures
            r.spec_id() == QduId(id_val),
    {
        Self { id: QduId(id_val) }
    }

    /// The identifier of this unit.
    pub fn id(&self) -> (r: QduId)
        ensures
            r == self.spec_id(),
    {
        self.id
    }
}

} // verus!
