//! The interpreter of the virtual machine: a fetch/decode/execute loop
//! over mixed state-evolving and classical instructions.

use crate::amp::amp_bits;
use crate::amp::Amp;
use crate::amp::ONE_BITS;
use crate::amp::ZERO_BITS;
use crate::base::error::OnqError;
use crate::base::error::QduId;
use crate::base::state::PotentialityState;
use crate::base::state::StableState;
use crate::idset::insert_all;
use crate::idset::insert_id;
use crate::idset::lemma_sorted_unique_equal;
use crate::idset::sorted_unique;
use crate::operations::involved_qdus_of;
use crate::operations::Operation;
use crate::simulation::engine::apply_post;
use crate::simulation::engine::stab_post;
use crate::simulation::engine::SimulationEngine;
use crate::simulation::results::SimulationResult;
use crate::simulation::QduMap;
use crate::vm::program::bindings_view;
use crate::vm::program::Instruction;
use crate::vm::program::Program;
use vstd::prelude::*;

verus! {

/// The instruction-count ceiling that guards against non-terminating
/// programs.
pub const MAX_INSTRUCTIONS: u64 = 1000;

/// The specification-level state of the machine between instructions.
pub struct VmSpec {
    /// The classical register file.
    pub mem: Map<Seq<char>, u64>,
    /// The outcomes of the most recent stabilization.
    pub last: Map<QduId, u64>,
    /// The index of the next instruction.
    pub pc: int,
    /// Whether the machine has halted.
    pub halted: bool,
    /// The amplitude vector of the engine, when one exists.
    pub eng: Option<Seq<Amp>>,
}

/// The value a register reads as: its stored value, or zero when absent.
pub open spec fn rv(mem: Map<Seq<char>, u64>, name: Seq<char>) -> u64 {
    if mem.contains_key(name) {
        mem[name]
    } else {
        0u64
    }
}

/// Reduction to 64 bits for the wraparound arithmetic instructions.
pub open spec fn w64(x: int) -> u64 {
    (x % 0x1_0000_0000_0000_0000) as u64
}

/// The engine's amplitude vector, when one exists.
pub open spec fn opt_eng_state(engine: Option<SimulationEngine>) -> Option<Seq<Amp>> {
    match engine {
        Some(e) => Some(e.state()),
        None => None,
    }
}

/// The numeric outcomes that a stabilization result map denotes.
pub open spec fn outcomes_u64(m: Map<QduId, StableState>) -> Map<QduId, u64> {
    Map::new(|k: QduId| m.contains_key(k), |k: QduId| m[k]->ResolvedQuality_0)
}

/// Whether an instruction mentions a unit.
pub open spec fn instr_mentions(i: Instruction, x: QduId) -> bool {
    match i {
        Instruction::QuantumOp(op) => involved_qdus_of(op).contains(x),
        Instruction::Stabilize { targets } => targets@.contains(x),
        Instruction::Record { qdu, .. } => x == qdu,
        _ => false,
    }
}

/// Whether any instruction of a program mentions a unit.
pub open spec fn program_mentions(instrs: Seq<Instruction>, x: QduId) -> bool {
    exists|i: int| 0 <= i < instrs.len() && instr_mentions(#[trigger] instrs[i], x)
}

/// A classical step: the registers take the given new value, everything
/// but the program counter is otherwise unchanged, and the machine halts
/// exactly when the counter runs past the last instruction.
pub open spec fn classical_step(s: VmSpec, s2: VmSpec, len: int, mem2: Map<Seq<char>, u64>) -> bool {
    &&& s2.mem == mem2
    &&& s2.last == s.last
    &&& s2.eng == s.eng
    &&& s2.pc == s.pc + 1
    &&& s2.halted == (s.pc + 1 >= len)
}

/// A control transfer to the given target position.
pub open spec fn jump_step(s: VmSpec, s2: VmSpec, len: int, target: int) -> bool {
    &&& s2.mem == s.mem
    &&& s2.last == s.last
    &&& s2.eng == s.eng
    &&& s2.pc == target
    &&& s2.halted == (target >= len)
}

/// One successful fetch/execute step of the machine.
pub open spec fn vm_step_ok(
    instrs: Seq<Instruction>,
    labels: Map<Seq<char>, usize>,
    units: Seq<QduId>,
    n: nat,
    s: VmSpec,
    s2: VmSpec,
) -> bool {
    let len = instrs.len() as int;
    &&& !s.halted
    &&& 0 <= s.pc < len
    &&& match instrs[s.pc] {
        Instruction::QuantumOp(op) => {
            &&& s.eng is Some
            &&& s2.eng is Some
            &&& apply_post(units, n, s.eng->Some_0, s2.eng->Some_0, op, Ok(()))
            &&& s2.mem == s.mem
            &&& s2.last == s.last
            &&& s2.pc == s.pc + 1
            &&& s2.halted == (s.pc + 1 >= len)
        },
        Instruction::Stabilize { targets } => {
            if targets@.len() == 0 {
                // An empty target list is skipped without the end-of-program check.
                &&& s2.mem == s.mem
                &&& s2.last == s.last
                &&& s2.eng == s.eng
                &&& s2.pc == s.pc + 1
                &&& s2.halted == false
            } else {
                &&& s.eng is Some
                &&& s2.eng is Some
                &&& exists|m1: Map<QduId, StableState>|
                    stab_post(
                        units,
                        n,
                        s.eng->Some_0,
                        s2.eng->Some_0,
                        targets@,
                        Map::empty(),
                        m1,
                        Ok(()),
                    ) && s2.last == outcomes_u64(m1)
                &&& s2.mem == s.mem
                &&& s2.pc == s.pc + 1
                &&& s2.halted == (s.pc + 1 >= len)
            }
        },
        Instruction::Record { qdu, register } => {
            &&& s.last.contains_key(qdu)
            &&& classical_step(s, s2, len, s.mem.insert(register@, s.last[qdu]))
        },
        Instruction::Label(_) => classical_step(s, s2, len, s.mem),
        Instruction::Jump(label) => {
            &&& labels.contains_key(label@)
            &&& jump_step(s, s2, len, labels[label@] as int)
        },
        Instruction::BranchIfZero { register, label } => {
            if rv(s.mem, register@) == 0 {
                &&& labels.contains_key(label@)
                &&& jump_step(s, s2, len, labels[label@] as int)
            } else {
                classical_step(s, s2, len, s.mem)
            }
        },
        Instruction::LoadImmediate { register, value } => classical_step(
            s,
            s2,
            len,
            s.mem.insert(register@, value),
        ),
        Instruction::Copy { source_reg, dest_reg } => classical_step(
            s,
            s2,
            len,
            s.mem.insert(dest_reg@, rv(s.mem, source_reg@)),
        ),
        Instruction::Halt => {
            &&& s2.mem == s.mem
            &&& s2.last == s.last
            &&& s2.eng == s.eng
            &&& s2.pc == s.pc + 1
            &&& s2.halted == true
        },
        Instruction::NoOp => classical_step(s, s2, len, s.mem),
        Instruction::Addi { r_dest, r_src, value } => classical_step(
            s,
            s2,
            len,
            s.mem.insert(r_dest@, w64(rv(s.mem, r_src@) + value)),
        ),
        Instruction::OnqAdd { r_dest, r_src1, r_src2 } => classical_step(
            s,
            s2,
            len,
            s.mem.insert(r_dest@, w64(rv(s.mem, r_src1@) + rv(s.mem, r_src2@))),
        ),
        Instruction::OnqNot { r_dest, r_src } => classical_step(
            s,
            s2,
            len,
            s.mem.insert(r_dest@, !rv(s.mem, r_src@)),
        ),
        Instruction::And { r_dest, r_src1, r_src2 } => classical_step(
            s,
            s2,
            len,
            s.mem.insert(r_dest@, rv(s.mem, r_src1@) & rv(s.mem, r_src2@)),
        ),
        Instruction::Or { r_dest, r_src1, r_src2 } => classical_step(
            s,
            s2,
            len,
            s.mem.insert(r_dest@, rv(s.mem, r_src1@) | rv(s.mem, r_src2@)),
        ),
        Instruction::Xor { r_dest, r_src1, r_src2 } => classical_step(
            s,
            s2,
            len,
            s.mem.insert(r_dest@, rv(s.mem, r_src1@) ^ rv(s.mem, r_src2@)),
        ),
        Instruction::Sub { r_dest, r_src1, r_src2 } => classical_step(
            s,
            s2,
            len,
            s.mem.insert(r_dest@, w64(rv(s.mem, r_src1@) - rv(s.mem, r_src2@))),
        ),
        Instruction::Mul { r_dest, r_src1, r_src2 } => classical_step(
            s,
            s2,
            len,
            s.mem.insert(r_dest@, w64(rv(s.mem, r_src1@) * rv(s.mem, r_src2@))),
        ),
        Instruction::CmpEq { r_dest, r_src1, r_src2 } => classical_step(
            s,
            s2,
            len,
            s.mem.insert(
                r_dest@,
                if rv(s.mem, r_src1@) == rv(s.mem, r_src2@) {
                    1u64
                } else {
                    0u64
                },
            ),
        ),
        Instruction::CmpGt { r_dest, r_src1, r_src2 } => classical_step(
            s,
            s2,
            len,
            s.mem.insert(
                r_dest@,
                if rv(s.mem, r_src1@) > rv(s.mem, r_src2@) {
                    1u64
                } else {
                    0u64
                },
            ),
        ),
        Instruction::CmpLt { r_dest, r_src1, r_src2 } => classical_step(
            s,
            s2,
            len,
            s.mem.insert(
                r_dest@,
                if rv(s.mem, r_src1@) < rv(s.mem, r_src2@) {
                    1u64
                } else {
                    0u64
                },
            ),
        ),
    }
}

/// A step that can fail with the given error from the given state.
pub open spec fn vm_step_err(
    instrs: Seq<Instruction>,
    labels: Map<Seq<char>, usize>,
    units: Seq<QduId>,
    n: nat,
    s: VmSpec,
    e: OnqError,
) -> bool {
    let len = instrs.len() as int;
    &&& !s.halted
    &&& if s.pc < 0 || s.pc >= len {
        e is SimulationError
    } else {
        match instrs[s.pc] {
            Instruction::QuantumOp(op) => (s.eng is None && e is InvalidOperation) || (s.eng
                is Some && exists|post: Seq<Amp>|
                apply_post(units, n, s.eng->Some_0, post, op, Err(e))),
            Instruction::Stabilize { targets } => targets@.len() > 0 && ((s.eng is None && e
                is InvalidOperation) || (s.eng is Some && exists|
                post: Seq<Amp>,
                m1: Map<QduId, StableState>,
            |
                stab_post(units, n, s.eng->Some_0, post, targets@, Map::empty(), m1, Err(e)))),
            Instruction::Record { qdu, .. } => !s.last.contains_key(qdu) && e is InvalidOperation,
            Instruction::Jump(label) => !labels.contains_key(label@) && e is SimulationError,
            Instruction::BranchIfZero { register, label } => rv(s.mem, register@) == 0
                && !labels.contains_key(label@) && e is SimulationError,
            _ => false,
        }
    }
}

/// A valid prefix of a machine run: the initial state has empty registers
/// and outcomes, the counter at zero, and an engine in the all-zero basis
/// state exactly when the program mentions any unit; each consecutive
/// pair is one successful step.
pub open spec fn vm_trace_ok(
    instrs: Seq<Instruction>,
    labels: Map<Seq<char>, usize>,
    units: Seq<QduId>,
    n: nat,
    trace: Seq<VmSpec>,
) -> bool {
    &&& trace.len() >= 1
    &&& trace[0].mem == Map::<Seq<char>, u64>::empty()
    &&& trace[0].last == Map::<QduId, u64>::empty()
    &&& trace[0].pc == 0
    &&& trace[0].halted == false
    &&& n == units.len()
    &&& (trace[0].eng is Some <==> units.len() > 0)
    &&& (trace[0].eng matches Some(v) ==> v.len() == (1usize << (n as usize)) && forall|j: int|
        0 <= j < v.len() ==> amp_bits(#[trigger] v[j]) == (if j == 0 {
            (ONE_BITS, ZERO_BITS)
        } else {
            (ZERO_BITS, ZERO_BITS)
        }))
    &&& forall|i: int|
        0 <= i < trace.len() - 1 ==> vm_step_ok(
            instrs,
            labels,
            units,
            n,
            #[trigger] trace[i],
            trace[i + 1],
        )
}

/// The virtual machine: an optional engine over the units the program
/// mentions, a classical register file, the outcomes of the latest
/// stabilization, and the program counter.
pub struct OnqVm {
    engine: Option<SimulationEngine>,
    classical_memory: Vec<(String, u64)>,
    last_stabilization_outcomes: QduMap<u64>,
    program_counter: usize,
    is_halted: bool,
}

impl OnqVm {
    /// The register file, for specifications.
    pub closed spec fn mem_view(&self) -> Map<Seq<char>, u64> {
        bindings_view(self.classical_memory@)
    }

    /// The raw register bindings, for specifications within the crate.
    pub closed spec fn spec_mem(&self) -> Seq<(String, u64)> {
        self.classical_memory@
    }

    /// The latest outcomes, for specifications within the crate.
    pub closed spec fn spec_last(&self) -> Map<QduId, u64> {
        self.last_stabilization_outcomes.view_map()
    }

    /// The program counter, for specifications within the crate.
    pub closed spec fn spec_pc(&self) -> usize {
        self.program_counter
    }

    /// The halt flag, for specifications within the crate.
    pub closed spec fn spec_halted(&self) -> bool {
        self.is_halted
    }

    /// The latest stabilization outcomes, for specifications.
    pub closed spec fn last_view(&self) -> Map<QduId, u64> {
        self.last_stabilization_outcomes.view_map()
    }

    /// The engine's amplitude vector, for specifications.
    pub closed spec fn eng_view(&self) -> Option<Seq<Amp>> {
        match self.engine {
            Some(e) => Some(e.state()),
            None => None,
        }
    }

    /// The engine's unit set, for specifications.
    pub closed spec fn vm_units(&self) -> Seq<QduId> {
        match self.engine {
            Some(e) => e.unit_seq(),
            None => Seq::empty(),
        }
    }

    /// The machine state between instructions, for specifications.
    pub closed spec fn vm_spec(&self) -> VmSpec {
        VmSpec {
            mem: self.mem_view(),
            last: self.last_view(),
            pc: self.program_counter as int,
            halted: self.is_halted,
            eng: self.eng_view(),
        }
    }

    /// The engine, when present, is well formed.
    pub closed spec fn inv(&self) -> bool {
        match self.engine {
            Some(e) => e.wf(),
            None => true,
        }
    }

    /// A fresh machine with no engine, no registers and no outcomes.
    pub fn new() -> (r: Self)
        ensures
            r.inv(),
            r.vm_spec().mem == Map::<Seq<char>, u64>::empty(),
            r.vm_spec().last == Map::<QduId, u64>::empty(),
            r.vm_spec().pc == 0,
            !r.vm_spec().halted,
            r.vm_spec().eng is None,
    {
        Self {
            engine: None,
            classical_memory: Vec::new(),
            last_stabilization_outcomes: QduMap::new(),
            program_counter: 0,
            is_halted: false,
        }
    }

    /// Every unit any instruction of the program mentions, sorted.
    fn collect_qdus(program: &Program) -> (r: Vec<QduId>)
        ensures
            sorted_unique(r@),
            forall|x: QduId| #[trigger] r@.contains(x) <==> program_mentions(
                program.instrs(),
                x,
            ),
    {
        let mut qdus: Vec<QduId> = Vec::new();
        let instrs = program.instruction_count();
        let mut i: usize = 0;
        while i < instrs
            invariant
                instrs == program.instrs().len(),
                i <= instrs,
                sorted_unique(qdus@),
                forall|x: QduId| #[trigger] qdus@.contains(x) <==> (exists|k: int|
                    0 <= k < i && instr_mentions(#[trigger] program.instrs()[k], x)),
            decreases instrs - i,
        {
            let ghost pre = qdus@;
            match program.get_instruction(i) {
                Some(instr) => {
                    match instr {
                        Instruction::QuantumOp(op) => {
                            let involved = op.involved_qdus();
                            insert_all(&mut qdus, &involved);
                        },
                        Instruction::Stabilize { targets } => {
                            insert_all(&mut qdus, targets);
                        },
                        Instruction::Record { qdu, .. } => {
                            insert_id(&mut qdus, *qdu);
                        },
                        _ => {},
                    }
                    proof {
                        assert forall|x: QduId| #[trigger] qdus@.contains(x) implies (exists|
                            k: int,
                        |
                            0 <= k < i + 1 && instr_mentions(
                                #[trigger] program.instrs()[k],
                                x,
                            )) by {
                            if pre.contains(x) {
                                let k = choose|k: int|
                                    0 <= k < i && instr_mentions(
                                        #[trigger] program.instrs()[k],
                                        x,
                                    );
                                assert(instr_mentions(program.instrs()[k], x));
                            } else {
                                assert(instr_mentions(program.instrs()[i as int], x));
                            }
                        }
                        assert forall|x: QduId|
                            (exists|k: int|
                                0 <= k < i + 1 && instr_mentions(
                                    #[trigger] program.instrs()[k],
                                    x,
                                )) implies #[trigger] qdus@.contains(x) by {
                            let k = choose|k: int|
                                0 <= k < i + 1 && instr_mentions(
                                    #[trigger] program.instrs()[k],
                                    x,
                                );
                            if k < i {
                                assert(pre.contains(x));
                            }
                        }
                    }
                },
                None => {},
            }
            i = i + 1;
        }
        proof {
            assert forall|x: QduId| #[trigger] qdus@.contains(x) implies program_mentions(
                program.instrs(),
                x,
            ) by {}
            assert forall|x: QduId| program_mentions(program.instrs(), x) implies qdus@.contains(
                x,
            ) by {
                let k = choose|k: int|
                    0 <= k < program.instrs().len() && instr_mentions(
                        #[trigger] program.instrs()[k],
                        x,
                    );
                assert(0 <= k < instrs);
            }
        }
        qdus
    }

    /// Reads a register's value: its stored value, or zero when absent.
    pub fn get_classical_register(&self, name: &str) -> (r: u64)
        ensures
            r == rv(self.vm_spec().mem, name@),
    {
        let owned: String = name.to_owned();
        match crate::vm::program::bindings_get(&self.classical_memory, &owned) {
            Some(v) => v,
            None => 0,
        }
    }

    /// A copy of the whole register file, oldest binding first.
    pub fn get_classical_memory(&self) -> (r: Vec<(String, u64)>)
        ensures
            bindings_view(r@) == self.vm_spec().mem,
    {
        let mut out: Vec<(String, u64)> = Vec::new();
        let mut i: usize = 0;
        while i < self.classical_memory.len()
            invariant
                i <= self.classical_memory@.len(),
                out@.len() == i,
                forall|j: int| 0 <= j < i ==> out@[j] == self.classical_memory@[j],
            decreases self.classical_memory@.len() - i,
        {
            let name = self.classical_memory[i].0.clone();
            let value = self.classical_memory[i].1;
            out.push((name, value));
            i = i + 1;
        }
        proof {
            assert(out@ =~= self.classical_memory@);
        }
        out
    }

    /// A copy of the engine's final amplitude vector, when the run used an
    /// engine.
    pub fn get_final_state(&self) -> (r: Option<PotentialityState>)
        ensures
            match r {
                Some(st) => self.vm_spec().eng matches Some(v) && st@ == v,
                None => self.vm_spec().eng is None,
            },
    {
        match &self.engine {
            Some(e) => {
                let v = e.get_state().vector();
                let mut out: Vec<Amp> = Vec::new();
                let mut i: usize = 0;
                while i < v.len()
                    invariant
                        i <= v@.len(),
                        out@.len() == i,
                        forall|j: int| 0 <= j < i ==> out@[j] == v@[j],
                    decreases v@.len() - i,
                {
                    out.push(v[i]);
                    i = i + 1;
                }
                proof {
                    assert(out@ =~= v@);
                }
                Some(PotentialityState::new(out))
            },
            None => None,
        }
    }
}

impl Default for OnqVm {
    /// A fresh machine.
    fn default() -> (r: Self)
        ensures
            r.inv(),
            !r.vm_spec().halted,
    {
        Self::new()
    }
}

} // verus!

verus! {

/// What a finished run guarantees, witnessed by the engine's unit set and
/// the step trace of the run.
pub open spec fn run_post(
    instrs: Seq<Instruction>,
    labels: Map<Seq<char>, usize>,
    fin: VmSpec,
    r: Result<(), OnqError>,
    units: Seq<QduId>,
    trace: Seq<VmSpec>,
) -> bool {
    let n = units.len() as nat;
    &&& sorted_unique(units)
    &&& (forall|x: QduId| units.contains(x) <==> program_mentions(instrs, x))
    &&& (match r {
        Ok(()) => {
            &&& vm_trace_ok(instrs, labels, units, n, trace)
            &&& trace.len() <= MAX_INSTRUCTIONS + 2
            &&& trace.last().halted
            &&& fin == trace.last()
            &&& (fin.eng is Some <==> units.len() > 0)
            &&& (fin.eng matches Some(v) ==> v.len() == (1usize << (units.len() as usize)))
        },
        Err(e) => (e is SimulationError && units.len() >= 32) || {
            &&& vm_trace_ok(instrs, labels, units, n, trace)
            &&& fin.mem == trace.last().mem
            &&& fin.last == trace.last().last
            &&& ((trace.len() == MAX_INSTRUCTIONS + 2 && e is SimulationError) || vm_step_err(
                instrs,
                labels,
                units,
                n,
                trace.last(),
                e,
            ))
        },
    })
}

/// Binds a register to a value, superseding any earlier binding.
fn mem_set(mem: &mut Vec<(String, u64)>, name: &String, v: u64)
    ensures
        bindings_view(final(mem)@) == bindings_view(old(mem)@).insert(name@, v),
{
    mem.push((name.clone(), v));
    proof {
        assert(mem@.drop_last() =~= old(mem)@);
    }
}

/// Reads a register, defaulting to zero.
fn mem_get(mem: &Vec<(String, u64)>, name: &String) -> (r: u64)
    ensures
        r == rv(bindings_view(mem@), name@),
{
    match crate::vm::program::bindings_get(mem, name) {
        Some(v) => v,
        None => 0,
    }
}

impl OnqVm {
    /// Fetches and executes one instruction, threading the engine
    /// through; exactly one step of the machine's step relation.
    #[verifier::rlimit(100)]
    #[verifier::spinoff_prover]
    fn exec_one(
        &mut self,
        program: &Program,
        engine: Option<SimulationEngine>,
        Ghost(units): Ghost<Seq<QduId>>,
        Ghost(n): Ghost<nat>,
        Ghost(pre): Ghost<VmSpec>,
    ) -> (out: (Option<SimulationEngine>, Result<(), OnqError>))
        requires
            !old(self).is_halted,
            old(self).eng_view() is None,
            n == units.len() as nat,
            match engine {
                Some(e) => e.wf() && e.unit_seq() == units && e.n() == n,
                None => units.len() == 0,
            },
            pre == (VmSpec {
                mem: bindings_view(old(self).spec_mem()),
                last: old(self).spec_last(),
                pc: old(self).spec_pc() as int,
                halted: false,
                eng: opt_eng_state(engine),
            }),
        ensures
            final(self).eng_view() is None,
            match out.0 {
                Some(e) => e.wf() && e.unit_seq() == units && e.n() == n,
                None => units.len() == 0,
            },
            ({
                let post = VmSpec {
                    mem: bindings_view(final(self).spec_mem()),
                    last: final(self).spec_last(),
                    pc: final(self).spec_pc() as int,
                    halted: final(self).spec_halted(),
                    eng: opt_eng_state(out.0),
                };
                match out.1 {
                    Ok(()) => vm_step_ok(
                        program.instrs(),
                        program.labels(),
                        units,
                        n,
                        pre,
                        post,
                    ),
                    Err(e) => vm_step_err(program.instrs(), program.labels(), units, n, pre, e)
                        && post.mem == pre.mem && post.last == pre.last,
                }
            }),
    {
        let ghost instrs = program.instrs();
        let ghost labels = program.labels();
        let mut engine = engine;
            let pc = self.program_counter;
            let count = program.instruction_count();
            let instruction = match program.get_instruction(pc) {
                Some(instruction) => instruction,
                None => {
                    let err = OnqError::SimulationError {
                        message: "Program Counter out of bounds.".to_owned(),
                    };
                    proof {
                        assert(vm_step_err(instrs, labels, units, n, pre, err));
                    }
                    return (engine, Err(err));
                },
            };
            self.program_counter = pc + 1;
            let mut skip_end_check = false;
            match instruction {
                Instruction::QuantumOp(op) => {
                    let cur = engine;
                    match cur {
                        Some(mut e) => {
                            let res = e.apply_operation(op);
                            let ghost post_state = e.state();
                            engine = Some(e);
                            match res {
                                Ok(()) => {},
                                Err(err) => {
                                    proof {
                                        assert(apply_post(
                                            units,
                                            n,
                                            pre.eng->Some_0,
                                            post_state,
                                            *op,
                                            Result::<(), OnqError>::Err(err),
                                        ));
                                        assert(vm_step_err(instrs, labels, units, n, pre, err));
                                    }
                                    return (engine, Err(err));
                                },
                            }
                        },
                        None => {
                            engine = cur;
                            let err = OnqError::InvalidOperation {
                                message:
                                    "Cannot execute QuantumOp: SimulationEngine not initialized.".to_owned(),
                            };
                            proof {
                                assert(vm_step_err(instrs, labels, units, n, pre, err));
                            }
                            return (engine, Err(err));
                        },
                    }
                },
                Instruction::Stabilize { targets } => {
                    if targets.len() == 0 {
                        skip_end_check = true;
                    } else {
                        let cur = engine;
                        match cur {
                            Some(mut e) => {
                                let mut temp_result = SimulationResult::new();
                                let res = e.stabilize(targets, &mut temp_result);
                                let ghost post_state = e.state();
                                engine = Some(e);
                                match res {
                                    Ok(()) => {},
                                    Err(err) => {
                                        proof {
                                            assert(stab_post(
                                                units,
                                                n,
                                                pre.eng->Some_0,
                                                post_state,
                                                targets@,
                                                Map::empty(),
                                                temp_result.outcomes(),
                                                Result::<(), OnqError>::Err(err),
                                            ));
                                            assert(vm_step_err(
                                                instrs,
                                                labels,
                                                units,
                                                n,
                                                pre,
                                                err,
                                            ));
                                        }
                                        return (engine, Err(err));
                                    },
                                }
                                let ghost m1 = temp_result.outcomes();
                                let mut new_last: QduMap<u64> = QduMap::new();
                                let entries = temp_result.all_stable_outcomes().entries();
                                let mut i: usize = 0;
                                while i < entries.len()
                                    invariant
                                        i <= entries@.len(),
                                        new_last.view_map() == outcomes_u64(
                                            crate::simulation::results::qdu_bindings_view(
                                                entries@.subrange(0, i as int),
                                            ),
                                        ),
                                    decreases entries@.len() - i,
                                {
                                    let k = entries[i].0;
                                    let v = match entries[i].1 {
                                        StableState::ResolvedQuality(val) => val,
                                    };
                                    new_last.set(k, v);
                                    proof {
                                        let sub = entries@.subrange(0, i + 1);
                                        assert(sub.drop_last() =~= entries@.subrange(0, i as int));
                                        assert(sub.last() == entries@[i as int]);
                                        assert(outcomes_u64(
                                            crate::simulation::results::qdu_bindings_view(sub),
                                        ) =~= outcomes_u64(
                                            crate::simulation::results::qdu_bindings_view(
                                                entries@.subrange(0, i as int),
                                            ),
                                        ).insert(k, v));
                                    }
                                    i = i + 1;
                                }
                                proof {
                                    assert(entries@.subrange(0, entries@.len() as int)
                                        =~= entries@);
                                    assert(new_last.view_map() =~= outcomes_u64(m1));
                                }
                                self.last_stabilization_outcomes = new_last;
                            },
                            None => {
                                engine = cur;
                                let err = OnqError::InvalidOperation {
                                    message:
                                        "Cannot execute Stabilize: SimulationEngine not initialized.".to_owned(),
                                };
                                proof {
                                    assert(vm_step_err(instrs, labels, units, n, pre, err));
                                }
                                return (engine, Err(err));
                            },
                        }
                    }
                },
                Instruction::Record { qdu, register } => {
                    match self.last_stabilization_outcomes.get(qdu) {
                        Some(value) => {
                            mem_set(&mut self.classical_memory, register, value);
                        },
                        None => {
                            let err = OnqError::InvalidOperation {
                                message:
                                    "Cannot Record: QDU was not found in the last stabilization results.".to_owned(),
                            };
                            proof {
                                assert(vm_step_err(instrs, labels, units, n, pre, err));
                            }
                            return (engine, Err(err));
                        },
                    }
                },
                Instruction::Label(_) => {},
                Instruction::Jump(label) => {
                    match program.get_label_pc(label.as_str()) {
                        Some(target_pc) => {
                            self.program_counter = target_pc;
                        },
                        None => {
                            let err = OnqError::SimulationError {
                                message: "Runtime Error: Jump target label not found.".to_owned(),
                            };
                            proof {
                                assert(vm_step_err(instrs, labels, units, n, pre, err));
                            }
                            return (engine, Err(err));
                        },
                    }
                },
                Instruction::BranchIfZero { register, label } => {
                    let reg_value = mem_get(&self.classical_memory, register);
                    if reg_value == 0 {
                        match program.get_label_pc(label.as_str()) {
                            Some(target_pc) => {
                                self.program_counter = target_pc;
                            },
                            None => {
                                let err = OnqError::SimulationError {
                                    message:
                                        "Runtime Error: Branch target label not found.".to_owned(),
                                };
                                proof {
                                    assert(vm_step_err(instrs, labels, units, n, pre, err));
                                }
                                return (engine, Err(err));
                            },
                        }
                    }
                },
                Instruction::LoadImmediate { register, value } => {
                    mem_set(&mut self.classical_memory, register, *value);
                },
                Instruction::Copy { source_reg, dest_reg } => {
                    let value = mem_get(&self.classical_memory, source_reg);
                    mem_set(&mut self.classical_memory, dest_reg, value);
                },
                Instruction::OnqAdd { r_dest, r_src1, r_src2 } => {
                    let val1 = mem_get(&self.classical_memory, r_src1);
                    let val2 = mem_get(&self.classical_memory, r_src2);
                    mem_set(&mut self.classical_memory, r_dest, val1.wrapping_add(val2));
                },
                Instruction::Addi { r_dest, r_src, value } => {
                    let val_src = mem_get(&self.classical_memory, r_src);
                    mem_set(&mut self.classical_memory, r_dest, val_src.wrapping_add(*value));
                },
                Instruction::Sub { r_dest, r_src1, r_src2 } => {
                    let val1 = mem_get(&self.classical_memory, r_src1);
                    let val2 = mem_get(&self.classical_memory, r_src2);
                    mem_set(&mut self.classical_memory, r_dest, val1.wrapping_sub(val2));
                },
                Instruction::Mul { r_dest, r_src1, r_src2 } => {
                    let val1 = mem_get(&self.classical_memory, r_src1);
                    let val2 = mem_get(&self.classical_memory, r_src2);
                    mem_set(&mut self.classical_memory, r_dest, val1.wrapping_mul(val2));
                },
                Instruction::OnqNot { r_dest, r_src } => {
                    let val_src = mem_get(&self.classical_memory, r_src);
                    mem_set(&mut self.classical_memory, r_dest, !val_src);
                },
                Instruction::And { r_dest, r_src1, r_src2 } => {
                    let val1 = mem_get(&self.classical_memory, r_src1);
                    let val2 = mem_get(&self.classical_memory, r_src2);
                    mem_set(&mut self.classical_memory, r_dest, val1 & val2);
                },
                Instruction::Or { r_dest, r_src1, r_src2 } => {
                    let val1 = mem_get(&self.classical_memory, r_src1);
                    let val2 = mem_get(&self.classical_memory, r_src2);
                    mem_set(&mut self.classical_memory, r_dest, val1 | val2);
                },
                Instruction::Xor { r_dest, r_src1, r_src2 } => {
                    let val1 = mem_get(&self.classical_memory, r_src1);
                    let val2 = mem_get(&self.classical_memory, r_src2);
                    mem_set(&mut self.classical_memory, r_dest, val1 ^ val2);
                },
                Instruction::CmpEq { r_dest, r_src1, r_src2 } => {
                    let val1 = mem_get(&self.classical_memory, r_src1);
                    let val2 = mem_get(&self.classical_memory, r_src2);
                    let result = if val1 == val2 {
                        1u64
                    } else {
                        0u64
                    };
                    mem_set(&mut self.classical_memory, r_dest, result);
                },
                Instruction::CmpLt { r_dest, r_src1, r_src2 } => {
                    let val1 = mem_get(&self.classical_memory, r_src1);
                    let val2 = mem_get(&self.classical_memory, r_src2);
                    let result = if val1 < val2 {
                        1u64
                    } else {
                        0u64
                    };
                    mem_set(&mut self.classical_memory, r_dest, result);
                },
                Instruction::Halt => {
                    self.is_halted = true;
                },
                Instruction::NoOp => {},
                Instruction::CmpGt { r_dest, r_src1, r_src2 } => {
                    let val1 = mem_get(&self.classical_memory, r_src1);
                    let val2 = mem_get(&self.classical_memory, r_src2);
                    let result = if val1 > val2 {
                        1u64
                    } else {
                        0u64
                    };
                    mem_set(&mut self.classical_memory, r_dest, result);
                },
            }
            if !skip_end_check && !self.is_halted && self.program_counter >= count {
                self.is_halted = true;
            }

        (engine, Ok(()))
    }

    /// Runs a program until it halts, fails, or exceeds the instruction
    /// ceiling.  The run starts from a reset machine, with an engine in
    /// the all-zero basis state over the sorted set of every unit the
    /// program mentions (no engine when it mentions none), and proceeds
    /// by the step relation [`vm_step_ok`]; the first failing step aborts
    /// the run with its error, and exceeding the ceiling is a
    /// `SimulationError`.
    pub fn run(&mut self, program: &Program) -> (r: Result<(), OnqError>)
        ensures
            final(self).inv(),
            exists|units: Seq<QduId>, trace: Seq<VmSpec>|
                #![trigger run_post(program.instrs(), program.labels(), final(self).vm_spec(), r, units, trace)]
                run_post(program.instrs(), program.labels(), final(self).vm_spec(), r, units, trace),
    {
        self.engine = None;
        self.classical_memory = Vec::new();
        self.last_stabilization_outcomes = QduMap::new();
        self.program_counter = 0;
        self.is_halted = false;
        let all_qdus = Self::collect_qdus(program);
        let ghost units = all_qdus@;
        let ghost n = units.len() as nat;
        let ghost instrs = program.instrs();
        let ghost labels = program.labels();
        proof {
            assert(self.vm_spec().mem =~= Map::<Seq<char>, u64>::empty());
            assert(self.vm_spec().last =~= Map::<QduId, u64>::empty());
        }
        let mut engine: Option<SimulationEngine> = None;
        if all_qdus.len() > 0 {
            match SimulationEngine::init(&all_qdus) {
                Ok(e) => {
                    proof {
                        lemma_sorted_unique_equal(e.unit_seq(), units);
                    }
                    engine = Some(e);
                },
                Err(e) => {
                    proof {
                        crate::idset::lemma_distinct_at_least_sorted(units, 32);
                        assert(run_post(
                            instrs,
                            labels,
                            self.vm_spec(),
                            Result::<(), OnqError>::Err(e),
                            units,
                            Seq::<VmSpec>::empty(),
                        ));
                    }
                    return Err(e);
                },
            }
        }
        let ghost init_spec = VmSpec {
            mem: bindings_view(self.classical_memory@),
            last: self.last_stabilization_outcomes.view_map(),
            pc: 0,
            halted: false,
            eng: opt_eng_state(engine),
        };
        let ghost mut trace: Seq<VmSpec> = seq![init_spec];
        let mut executed_instruction_count: u64 = 0;
        while !self.is_halted
            invariant
                instrs == program.instrs(),
                labels == program.labels(),
                n == units.len() as nat,
                sorted_unique(units),
                forall|x: QduId| units.contains(x) <==> program_mentions(instrs, x),
                match engine {
                    Some(e) => e.wf() && e.unit_seq() == units && e.n() == n,
                    None => units.len() == 0,
                },
                self.engine is None,
                executed_instruction_count <= MAX_INSTRUCTIONS + 1,
                trace.len() == executed_instruction_count + 1,
                vm_trace_ok(instrs, labels, units, n, trace),
                trace.last() == (VmSpec {
                    mem: bindings_view(self.classical_memory@),
                    last: self.last_stabilization_outcomes.view_map(),
                    pc: self.program_counter as int,
                    halted: self.is_halted,
                    eng: opt_eng_state(engine),
                }),
            decreases MAX_INSTRUCTIONS + 2 - executed_instruction_count,
        {
            let ghost pre = trace.last();
            if executed_instruction_count > MAX_INSTRUCTIONS {
                self.engine = engine;
                let err = OnqError::SimulationError {
                    message:
                        "Execution exceeded maximum instruction limit - potential infinite loop?".to_owned(),
                };
                proof {
                    assert(run_post(
                        instrs,
                        labels,
                        self.vm_spec(),
                        Result::<(), OnqError>::Err(err),
                        units,
                        trace,
                    ));
                }
                return Err(err);
            }
            executed_instruction_count = executed_instruction_count + 1;
            let (engine2, res) = self.exec_one(program, engine, Ghost(units), Ghost(n), Ghost(pre));
            engine = engine2;
            match res {
                Ok(()) => {
                    proof {
                        let post = VmSpec {
                            mem: bindings_view(self.classical_memory@),
                            last: self.last_stabilization_outcomes.view_map(),
                            pc: self.program_counter as int,
                            halted: self.is_halted,
                            eng: opt_eng_state(engine),
                        };
                        assert(vm_step_ok(instrs, labels, units, n, pre, post));
                        trace = trace.push(post);
                        assert(vm_trace_ok(instrs, labels, units, n, trace)) by {
                            assert forall|i: int| 0 <= i < trace.len() - 1 implies vm_step_ok(
                                instrs,
                                labels,
                                units,
                                n,
                                #[trigger] trace[i],
                                trace[i + 1],
                            ) by {
                                if i < trace.len() - 2 {
                                    assert(trace[i] == trace.drop_last()[i]);
                                    assert(trace[i + 1] == trace.drop_last()[i + 1]);
                                }
                            }
                        }
                    }
                },
                Err(e) => {
                    self.engine = engine;
                    proof {
                        assert(run_post(
                            instrs,
                            labels,
                            self.vm_spec(),
                            Result::<(), OnqError>::Err(e),
                            units,
                            trace,
                        ));
                    }
                    return Err(e);
                },
            }
        }
        self.engine = engine;
        proof {
            assert(run_post(
                instrs,
                labels,
                self.vm_spec(),
                Result::<(), OnqError>::Ok(()),
                units,
                trace,
            ));
        }
        Ok(())
    }
}

} // verus!
