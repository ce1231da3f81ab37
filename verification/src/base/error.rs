//! Unit identifiers and the error kinds of the simulation.

use vstd::prelude::*;

verus! {

/// Unique identifier of a qualitative distinction unit (QDU).  Uniqueness
/// within one simulation run is the caller's responsibility.
#[derive(Debug, Clone, Copy, PartialEq, Eq, Structural, Hash, PartialOrd, Ord)]
pub struct QduId(pub u64);

/// The failure kinds of the simulation.  The message in each is diagnostic
/// payload only; callers decide by the kind.
#[derive(Debug, Clone, PartialEq, Eq)]
pub enum OnqError {
    /// A state vector failed the normalization check.
    Incoherence {
        /// Diagnostic message.
        message: String,
    },
    /// Stabilization found no qualifying outcome, or a projection had
    /// negligible overlap with its target.
    Instability {
        /// Diagnostic message.
        message: String,
    },
    /// A per-unit boundary violation.
    BoundaryFailure {
        /// The unit whose boundary was compromised.
        qdu_id: QduId,
        /// Diagnostic message.
        message: String,
    },
    /// An operation named a unit unknown to the current index map.
    ReferenceViolation {
        /// Diagnostic message.
        message: String,
    },
    /// A malformed or unsupported use of an operation.
    InvalidOperation {
        /// Diagnostic message.
        message: String,
    },
    /// An internal invariant of the simulation process failed.
    SimulationError {
        /// Diagnostic message.
        message: String,
    },
}

} // verus!
