//! The operations that evolve the potential state of the units.

use crate::amp::Amp;
use crate::base::error::QduId;
use crate::vm::program::LockType;
use vstd::prelude::*;

verus! {

/// One state-transforming operation.
#[derive(Debug, Clone, PartialEq)]
pub enum Operation {
    /// Applies the phase factor `e^(i*theta)` to the `Quality1` component
    /// of one unit.  The angle is carried in the real part of `theta`.
    PhaseShift {
        /// The unit whose phase is shifted.
        target: QduId,
        /// The angle, in radians, in the real part.
        theta: Amp,
    },
    /// Applies one named interaction pattern from the closed catalog to a
    /// single unit.
    InteractionPattern {
        /// The unit undergoing the transformation.
        target: QduId,
        /// The name of the pattern; an unknown name is a run-time error.
        pattern_id: String,
    },
    /// Applies a named pattern to the target conditioned on the control
    /// unit: the control at zero leaves the target untouched.
    ControlledInteraction {
        /// The unit whose quality decides whether the pattern applies.
        control: QduId,
        /// The unit that is conditionally transformed.
        target: QduId,
        /// The name of the pattern applied to the target.
        pattern_id: String,
    },
    /// Projects the joint subspace of two units onto one of the fixed
    /// entangled lock targets; releasing is a no-op.
    RelationalLock {
        /// The first unit of the pair.
        qdu1: QduId,
        /// The second unit of the pair.
        qdu2: QduId,
        /// Which fixed target pattern to lock onto.
        lock_type: LockType,
        /// True establishes the lock; false is currently a no-op.
        establish: bool,
    },
    /// Resolves the listed units into stable states.
    Stabilize {
        /// The units to resolve.
        targets: Vec<QduId>,
    },
}

/// The units an operation mentions, in the order it mentions them.
pub open spec fn involved_qdus_of(op: Operation) -> Seq<QduId> {
    match op {
        Operation::PhaseShift { target, .. } => seq![target],
        Operation::InteractionPattern { target, .. } => seq![target],
        Operation::ControlledInteraction { control, target, .. } => seq![control, target],
        Operation::RelationalLock { qdu1, qdu2, .. } => seq![qdu1, qdu2],
        Operation::Stabilize { targets } => targets@,
    }
}

impl Operation {
    /// Every unit this operation directly mentions.
    pub fn involved_qdus(&self) -> (r: Vec<QduId>)
        ensures
            r@ == involved_qdus_of(*self),
    {
        match self {
            Operation::PhaseShift { target, .. } => {
                let mut v: Vec<QduId> = Vec::new();
                v.push(*target);
                proof {
                    assert(v@ =~= involved_qdus_of(*self));
                }
                v
            },
            Operation::InteractionPattern { target, .. } => {
                let mut v: Vec<QduId> = Vec::new();
                v.push(*target);
                proof {
                    assert(v@ =~= involved_qdus_of(*self));
                }
                v
            },
            Operation::ControlledInteraction { control, target, .. } => {
                let mut v: Vec<QduId> = Vec::new();
                v.push(*control);
                v.push(*target);
                proof {
                    assert(v@ =~= involved_qdus_of(*self));
                }
                v
            },
            Operation::RelationalLock { qdu1, qdu2, .. } => {
                let mut v: Vec<QduId> = Vec::new();
                v.push(*qdu1);
                v.push(*qdu2);
                proof {
                    assert(v@ =~= involved_qdus_of(*self));
                }
                v
            },
            Operation::Stabilize { targets } => {
                let mut v: Vec<QduId> = Vec::new();
                let mut i: usize = 0;
                while i < targets.len()
                    invariant
                        i <= targets@.len(),
                        v@ == targets@.subrange(0, i as int),
                    decreases targets@.len() - i,
                {
                    v.push(targets[i]);
                    i = i + 1;
                }
                proof {
                    assert(v@ =~= involved_qdus_of(*self));
                }
                v
            },
        }
    }
}

} // verus!
