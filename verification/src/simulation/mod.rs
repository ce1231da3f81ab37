//! Simulation of circuits: the engine that evolves the state and the
//! one-shot driver around it.

pub mod engine;
pub mod results;

pub use results::QduMap;
pub use results::SimulationResult;

use crate::amp::amp_bits;
use crate::amp::Amp;
use crate::amp::ONE_BITS;
use crate::amp::ZERO_BITS;
use crate::base::error::OnqError;
use crate::base::error::QduId;
use crate::base::state::StableState;
use crate::circuits::Circuit;
use crate::idset::lemma_sorted_unique_equal;
use crate::operations::Operation;
use engine::SimulationEngine;
use vstd::prelude::*;

verus! {

/// One simulation step that succeeded: a stabilization updates state and
/// results as [`engine::stab_post`] says; any other operation transforms
/// the state as [`engine::apply_post`] says and leaves the results alone.
pub open spec fn sim_step_ok(
    units: Seq<QduId>,
    n: nat,
    s: (Seq<Amp>, Map<QduId, StableState>),
    op: Operation,
    s2: (Seq<Amp>, Map<QduId, StableState>),
) -> bool {
    match op {
        Operation::Stabilize { targets } => engine::stab_post(
            units,
            n,
            s.0,
            s2.0,
            targets@,
            s.1,
            s2.1,
            Ok(()),
        ),
        _ => engine::apply_post(units, n, s.0, s2.0, op, Ok(())) && s2.1 == s.1,
    }
}

/// A simulation step that can fail with the given error from the given
/// state.
pub open spec fn sim_step_err(
    units: Seq<QduId>,
    n: nat,
    s: (Seq<Amp>, Map<QduId, StableState>),
    op: Operation,
    e: OnqError,
) -> bool {
    match op {
        Operation::Stabilize { targets } => exists|post: Seq<Amp>, m1: Map<QduId, StableState>|
            engine::stab_post(units, n, s.0, post, targets@, s.1, m1, Err(e)),
        _ => exists|post: Seq<Amp>| engine::apply_post(units, n, s.0, post, op, Err(e)),
    }
}

/// A valid prefix of a run: the first entry is the all-zero basis state
/// with no outcomes, and each consecutive pair is one successful step of
/// the corresponding operation.
pub open spec fn sim_trace_ok(
    units: Seq<QduId>,
    n: nat,
    ops: Seq<Operation>,
    trace: Seq<(Seq<Amp>, Map<QduId, StableState>)>,
) -> bool {
    &&& 1 <= trace.len() <= ops.len() + 1
    &&& trace[0].0.len() == (1usize << (n as usize))
    &&& trace[0].1 == Map::<QduId, StableState>::empty()
    &&& forall|j: int|
        0 <= j < trace[0].0.len() ==> amp_bits(#[trigger] trace[0].0[j]) == (if j == 0 {
            (ONE_BITS, ZERO_BITS)
        } else {
            (ZERO_BITS, ZERO_BITS)
        })
    &&& forall|i: int|
        0 <= i < trace.len() - 1 ==> sim_step_ok(units, n, #[trigger] trace[i], ops[i], trace[i + 1])
}

/// The one-shot driver: runs a circuit's operations in order on a freshly
/// initialized engine.
pub struct Simulator {}

impl Simulator {
    /// A simulator with default settings.
    pub fn new() -> Self {
        Self {  }
    }

    /// Runs the circuit.  An empty circuit yields an empty result without
    /// initializing an engine.  Otherwise the engine starts in the
    /// all-zero basis state over the circuit's sorted unit set, the
    /// operations run in order, and the first error aborts the run; on
    /// success the result holds exactly the outcomes that the executed
    /// stabilizations recorded, as witnessed by a full step trace.
    pub fn run(&self, circuit: &Circuit) -> (r: Result<SimulationResult, OnqError>)
        requires
            circuit.wf(),
        ensures
            ({
                let units = circuit.unit_seq();
                let n = units.len() as nat;
                let ops = circuit.ops();
                match r {
                    Ok(res) => (ops.len() == 0 && res.outcomes() == Map::<
                        QduId,
                        StableState,
                    >::empty()) || (exists|trace: Seq<(Seq<Amp>, Map<QduId, StableState>)>|
                        sim_trace_ok(units, n, ops, trace) && trace.len() == ops.len() + 1
                            && res.outcomes() == trace.last().1),
                    Err(e) => ops.len() > 0 && ((e is InvalidOperation && units.len() == 0) || (
                    e is SimulationError && units.len() >= 32) || (exists|
                        trace: Seq<(Seq<Amp>, Map<QduId, StableState>)>,
                    |
                        sim_trace_ok(units, n, ops, trace) && trace.len() <= ops.len()
                            && sim_step_err(
                            units,
                            n,
                            trace.last(),
                            ops[trace.len() - 1],
                            e,
                        ))),
                }
            }),
    {
        if circuit.is_empty() {
            return Ok(SimulationResult::new());
        }
        let ghost units = circuit.unit_seq();
        let ghost n = units.len() as nat;
        let mut engine = match SimulationEngine::init(circuit.qdus()) {
            Ok(engine) => engine,
            Err(e) => {
                proof {
                    if e is SimulationError {
                        crate::idset::lemma_distinct_at_least_sorted(circuit.unit_seq(), 32);
                    }
                }
                return Err(e);
            },
        };
        proof {
            lemma_sorted_unique_equal(engine.unit_seq(), circuit.unit_seq());
        }
        let mut result = SimulationResult::new();
        let ops = circuit.operations();
        let ghost mut trace: Seq<(Seq<Amp>, Map<QduId, StableState>)> = seq![
            (engine.state(), result.outcomes()),
        ];
        let mut i: usize = 0;
        while i < ops.len()
            invariant
                engine.wf(),
                engine.unit_seq() == units,
                engine.n() == n,
                units == circuit.unit_seq(),
                n == units.len() as nat,
                ops@ == circuit.ops(),
                i <= ops@.len(),
                trace.len() == i + 1,
                sim_trace_ok(units, n, circuit.ops(), trace),
                trace.last().0 == engine.state(),
                trace.last().1 == result.outcomes(),
            decreases ops@.len() - i,
        {
            let ghost pre = (engine.state(), result.outcomes());
            let op = &ops[i];
            let step = match op {
                Operation::Stabilize { targets } => engine.stabilize(targets, &mut result),
                _ => engine.apply_operation(op),
            };
            match step {
                Ok(()) => {
                    proof {
                        let post = (engine.state(), result.outcomes());
                        assert(sim_step_ok(units, n, pre, circuit.ops()[i as int], post));
                        trace = trace.push(post);
                        assert(sim_trace_ok(units, n, circuit.ops(), trace)) by {
                            assert forall|k: int|
                                0 <= k < trace.len() - 1 implies sim_step_ok(
                                units,
                                n,
                                #[trigger] trace[k],
                                circuit.ops()[k],
                                trace[k + 1],
                            ) by {
                                if k < trace.len() - 2 {
                                    assert(trace[k] == trace.drop_last()[k]);
                                    assert(trace[k + 1] == trace.drop_last()[k + 1]);
                                }
                            }
                        }
                    }
                },
                Err(e) => {
                    proof {
                        assert(sim_step_err(units, n, trace.last(), circuit.ops()[i as int], e))
                            by {
                            match circuit.ops()[i as int] {
                                Operation::Stabilize { targets } => {
                                    assert(engine::stab_post(
                                        units,
                                        n,
                                        pre.0,
                                        engine.state(),
                                        targets@,
                                        pre.1,
                                        result.outcomes(),
                                        Err(e),
                                    ));
                                },
                                _ => {
                                    assert(engine::apply_post(
                                        units,
                                        n,
                                        pre.0,
                                        engine.state(),
                                        circuit.ops()[i as int],
                                        Err(e),
                                    ));
                                },
                            }
                        }
                    }
                    return Err(e);
                },
            }
            i = i + 1;
        }
        Ok(result)
    }
}

} // verus!
