//! Programs for the virtual machine: the instruction set, the resolved
//! program with its label table, and the builder that resolves labels.

use crate::amp::append_str;
use crate::base::error::QduId;
use crate::operations::Operation;
use vstd::prelude::*;

verus! {

/// The fixed entangled target of a relational lock over two units.
#[derive(Debug, Clone, PartialEq, Eq, Structural, Hash)]
pub enum LockType {
    /// `(1/sqrt(2))(|00> + |11>)`
    BellPhiPlus,
    /// `(1/sqrt(2))(|00> - |11>)`
    BellPhiMinus,
    /// `(1/sqrt(2))(|01> + |10>)`
    BellPsiPlus,
    /// `(1/sqrt(2))(|01> - |10>)`
    BellPsiMinus,
}

/// One instruction of the virtual machine.
#[derive(Debug, Clone, PartialEq)]
pub enum Instruction {
    /// Forwards a state-evolving operation to the engine.
    QuantumOp(Operation),
    /// Stabilizes the listed units; the outcomes are held for `Record`.
    Stabilize {
        /// The units to stabilize.
        targets: Vec<QduId>,
    },
    /// Copies the most recent stabilization outcome of a unit into a
    /// register; an error if that unit was not in the last stabilization.
    Record {
        /// The unit whose latest outcome is read.
        qdu: QduId,
        /// The register that receives the outcome.
        register: String,
    },
    /// A named position in the program; consumed at build time.
    Label(String),
    /// Continues execution after the named label.
    Jump(String),
    /// Continues execution after the named label when the register is zero
    /// (a missing register reads as zero).
    BranchIfZero {
        /// The register whose value is tested.
        register: String,
        /// The label jumped to when the value is zero.
        label: String,
    },
    /// Loads an immediate value into a register.
    LoadImmediate {
        /// The destination register.
        register: String,
        /// The value to load.
        value: u64,
    },
    /// Copies one register into another.
    Copy {
        /// The register read from.
        source_reg: String,
        /// The register written to.
        dest_reg: String,
    },
    /// Halts execution.
    Halt,
    /// Does nothing.
    NoOp,
    /// Adds an immediate value to a register, wrapping on overflow.
    Addi {
        /// The destination register.
        r_dest: String,
        /// The source register.
        r_src: String,
        /// The immediate addend.
        value: u64,
    },
    /// Adds two registers, wrapping on overflow.
    OnqAdd {
        /// The destination register.
        r_dest: String,
        /// The first source register.
        r_src1: String,
        /// The second source register.
        r_src2: String,
    },
    /// Bitwise complement of a register.
    OnqNot {
        /// The destination register.
        r_dest: String,
        /// The source register.
        r_src: String,
    },
    /// Bitwise conjunction of two registers.
    And {
        /// The destination register.
        r_dest: String,
        /// The first source register.
        r_src1: String,
        /// The second source register.
        r_src2: String,
    },
    /// Bitwise disjunction of two registers.
    Or {
        /// The destination register.
        r_dest: String,
        /// The first source register.
        r_src1: String,
        /// The second source register.
        r_src2: String,
    },
    /// Bitwise exclusive disjunction of two registers.
    Xor {
        /// The destination register.
        r_dest: String,
        /// The first source register.
        r_src1: String,
        /// The second source register.
        r_src2: String,
    },
    /// Subtracts the second register from the first, wrapping.
    Sub {
        /// The destination register.
        r_dest: String,
        /// The first source register.
        r_src1: String,
        /// The second source register.
        r_src2: String,
    },
    /// Multiplies two registers, wrapping.
    Mul {
        /// The destination register.
        r_dest: String,
        /// The first source register.
        r_src1: String,
        /// The second source register.
        r_src2: String,
    },
    /// Writes one when the registers are equal, else zero.
    CmpEq {
        /// The destination register.
        r_dest: String,
        /// The first source register.
        r_src1: String,
        /// The second source register.
        r_src2: String,
    },
    /// Writes one when the first register is greater, else zero.
    CmpGt {
        /// The destination register.
        r_dest: String,
        /// The first source register.
        r_src1: String,
        /// The second source register.
        r_src2: String,
    },
    /// Writes one when the first register is smaller, else zero.
    CmpLt {
        /// The destination register.
        r_dest: String,
        /// The first source register.
        r_src1: String,
        /// The second source register.
        r_src2: String,
    },
}

/// The mapping that a sequence of name bindings denotes; a later binding
/// of the same name wins.
pub open spec fn bindings_view<V>(s: Seq<(String, V)>) -> Map<Seq<char>, V>
    decreases s.len(),
{
    if s.len() == 0 {
        Map::empty()
    } else {
        bindings_view(s.drop_last()).insert(s.last().0@, s.last().1)
    }
}

/// Keys bound only before position `i` keep their value in the whole view.
pub proof fn lemma_bindings_prefix<V>(s: Seq<(String, V)>, k: Seq<char>, i: int)
    requires
        0 <= i <= s.len(),
        forall|j: int| i <= j < s.len() ==> (#[trigger] s[j]).0@ != k,
    ensures
        bindings_view(s).contains_key(k) == bindings_view(s.subrange(0, i)).contains_key(k),
        bindings_view(s).contains_key(k) ==> bindings_view(s)[k] == bindings_view(
            s.subrange(0, i),
        )[k],
    decreases s.len() - i,
{
    if i < s.len() {
        let t = s.subrange(0, s.len() - 1);
        if i < s.len() - 1 {
            assert(forall|j: int| i <= j < t.len() ==> (#[trigger] t[j]).0@ != k);
            lemma_bindings_prefix(t, k, i);
            assert(t.subrange(0, i) =~= s.subrange(0, i));
        } else {
            assert(t =~= s.subrange(0, i));
        }
        assert(s.drop_last() =~= t);
    } else {
        assert(s.subrange(0, i) =~= s);
    }
}

/// Looks a name up among the bindings; the latest binding wins.
pub fn bindings_get<V: Copy>(v: &Vec<(String, V)>, name: &String) -> (r: Option<V>)
    ensures
        r == (if bindings_view(v@).contains_key(name@) {
            Some(bindings_view(v@)[name@])
        } else {
            Option::<V>::None
        }),
{
    let mut i: usize = v.len();
    while i > 0
        invariant
            i <= v@.len(),
            forall|j: int| i <= j < v@.len() ==> (#[trigger] v@[j]).0@ != name@,
        decreases i,
    {
        i = i - 1;
        if v[i].0 == *name {
            proof {
                let pre = v@.subrange(0, i + 1);
                lemma_bindings_prefix(v@, name@, i + 1);
                assert(pre.drop_last() =~= v@.subrange(0, i as int));
                assert(pre.last() == v@[i as int]);
            }
            return Some(v[i].1);
        }
    }
    proof {
        lemma_bindings_prefix(v@, name@, 0);
        assert(v@.subrange(0, 0) =~= Seq::<(String, V)>::empty());
        assert(!bindings_view(Seq::<(String, usize)>::empty()).contains_key(name@));
    }
    None
}

/// True of the instructions that jump to a label.
pub open spec fn jump_target_of(i: Instruction) -> Option<Seq<char>> {
    match i {
        Instruction::Jump(l) => Some(l@),
        Instruction::BranchIfZero { label, .. } => Some(label@),
        _ => None,
    }
}

/// The instruction either does not jump, or jumps to a bound label.
pub open spec fn jump_ok(i: Instruction, labels: Map<Seq<char>, usize>) -> bool {
    match jump_target_of(i) {
        Some(l) => labels.contains_key(l),
        None => true,
    }
}

/// Every label that an instruction jumps to is bound in the label table.
pub open spec fn labels_defined(
    instructions: Seq<Instruction>,
    labels: Map<Seq<char>, usize>,
) -> bool {
    forall|i: int| 0 <= i < instructions.len() ==> jump_ok(#[trigger] instructions[i], labels)
}

/// Appending an instruction keeps a program well formed exactly when the
/// appended instruction's jump target, if any, is bound.
proof fn lemma_labels_defined_push(s: Seq<Instruction>, x: Instruction, m: Map<Seq<char>, usize>)
    ensures
        labels_defined(s.push(x), m) == (labels_defined(s, m) && jump_ok(x, m)),
{
    if labels_defined(s, m) && jump_ok(x, m) {
        assert forall|k: int| 0 <= k < s.push(x).len() implies jump_ok(
            #[trigger] s.push(x)[k],
            m,
        ) by {
            if k < s.len() {
                assert(s.push(x)[k] == s[k]);
            } else {
                assert(s.push(x)[k] == x);
            }
        }
    }
    if labels_defined(s.push(x), m) {
        assert forall|k: int| 0 <= k < s.len() implies jump_ok(#[trigger] s[k], m) by {
            assert(s.push(x)[k] == s[k]);
            assert(jump_ok(s.push(x)[k], m));
        }
        assert(s.push(x)[s.len() as int] == x);
        assert(jump_ok(x, m));
    }
}

/// Records a jump target among the undefined labels when it has no
/// binding; already-recorded names are not repeated.
fn note_target(undefined: &mut Vec<String>, label: &String, label_map: &Vec<(String, usize)>)
    ensures
        final(undefined)@.len() == 0 <==> (old(undefined)@.len() == 0 && bindings_view(
            label_map@,
        ).contains_key(label@)),
{
    if bindings_get(label_map, label).is_none() {
        let mut already = false;
        let mut j: usize = 0;
        while j < undefined.len()
            invariant
                j <= undefined@.len(),
                undefined@ == old(undefined)@,
                already ==> undefined@.len() > 0,
            decreases undefined@.len() - j,
        {
            if undefined[j] == *label {
                already = true;
            }
            j = j + 1;
        }
        if !already {
            undefined.push(label.clone());
        } else {
            proof {
                assert(undefined@.len() > 0);
            }
        }
    }
}

/// A complete program: the executable instruction sequence (labels are
/// stripped at build time) and the resolved label table.
#[derive(Debug, Clone)]
pub struct Program {
    pub(crate) instructions: Vec<Instruction>,
    pub(crate) label_map: Vec<(String, usize)>,
}

impl Program {
    /// The label table this program denotes.
    pub closed spec fn labels(&self) -> Map<Seq<char>, usize> {
        bindings_view(self.label_map@)
    }

    /// The executable instruction sequence.
    pub closed spec fn instrs(&self) -> Seq<Instruction> {
        self.instructions@
    }

    /// Every jump or branch in this program names a bound label.
    pub open spec fn well_formed(&self) -> bool {
        labels_defined(self.instrs(), self.labels())
    }

    /// The instruction at a program-counter position.
    pub fn get_instruction(&self, pc: usize) -> (r: Option<&Instruction>)
        ensures
            match r {
                Some(ins) => pc < self.instrs().len() && *ins == self.instrs()[pc as int],
                None => pc >= self.instrs().len(),
            },
    {
        if pc < self.instructions.len() {
            Some(&self.instructions[pc])
        } else {
            None
        }
    }

    /// The program-counter target bound to a label name.
    pub fn get_label_pc(&self, label: &str) -> (r: Option<usize>)
        ensures
            r == (if self.labels().contains_key(label@) {
                Some(self.labels()[label@])
            } else {
                Option::<usize>::None
            }),
    {
        let owned: String = label.to_owned();
        bindings_get(&self.label_map, &owned)
    }

    /// The number of executable instructions.
    pub fn instruction_count(&self) -> (r: usize)
        ensures
            r == self.instrs().len(),
    {
        self.instructions.len()
    }
}

/// The effect of adding one instruction to a builder's state: a label
/// instruction binds its name to the current position and is not added;
/// any other instruction is appended.
pub open spec fn pb_step(
    instrs: Seq<Instruction>,
    labels: Map<Seq<char>, usize>,
    instruction: Instruction,
) -> (Seq<Instruction>, Map<Seq<char>, usize>) {
    match instruction {
        Instruction::Label(name) => (instrs, labels.insert(name@, instrs.len() as usize)),
        _ => (instrs.push(instruction), labels),
    }
}

/// The effect of adding a sequence of instructions in order.
pub open spec fn pb_fold(
    instrs: Seq<Instruction>,
    labels: Map<Seq<char>, usize>,
    items: Seq<Instruction>,
) -> (Seq<Instruction>, Map<Seq<char>, usize>)
    decreases items.len(),
{
    if items.len() == 0 {
        (instrs, labels)
    } else {
        let mid = pb_step(instrs, labels, items[0]);
        pb_fold(mid.0, mid.1, items.drop_first())
    }
}

/// Builds a [`Program`], recording label positions and stripping label
/// instructions from the executable sequence; `build` checks that every
/// jump target was defined.
#[derive(Default)]
pub struct ProgramBuilder {
    instructions: Vec<Instruction>,
    label_map: Vec<(String, usize)>,
}

impl ProgramBuilder {
    /// The instructions collected so far.
    pub closed spec fn spec_instrs(&self) -> Seq<Instruction> {
        self.instructions@
    }

    /// The label bindings collected so far.
    pub closed spec fn spec_labels(&self) -> Map<Seq<char>, usize> {
        bindings_view(self.label_map@)
    }

    /// An empty builder.
    pub fn new() -> (r: Self)
        ensures
            r.spec_instrs() == Seq::<Instruction>::empty(),
            r.spec_labels() == Map::<Seq<char>, usize>::empty(),
    {
        ProgramBuilder { instructions: Vec::new(), label_map: Vec::new() }
    }

    /// Adds one instruction.  A label instruction binds its name to the
    /// current position (a repeated name rebinds it) and is not added to
    /// the executable sequence.
    pub fn pb_add(self, instruction: Instruction) -> (r: Self)
        ensures
            match instruction {
                Instruction::Label(name) => r.spec_instrs() == self.spec_instrs()
                    && r.spec_labels() == self.spec_labels().insert(
                    name@,
                    self.spec_instrs().len() as usize,
                ),
                _ => r.spec_instrs() == self.spec_instrs().push(instruction) && r.spec_labels()
                    == self.spec_labels(),
            },
    {
        let mut this = self;
        let is_label = matches!(&instruction, Instruction::Label(_));
        if is_label {
            let current_pc = this.instructions.len();
            match instruction {
                Instruction::Label(label_name) => {
                    this.label_map.push((label_name, current_pc));
                    proof {
                        assert(this.label_map@.drop_last() =~= self.label_map@);
                    }
                },
                _ => {},
            }
        } else {
            this.instructions.push(instruction);
        }
        this
    }

    /// Adds the given instructions in order, with the same effect as
    /// adding each one by [`ProgramBuilder::pb_add`].
    pub fn add_many(self, instructions: Vec<Instruction>) -> (r: Self)
        ensures
            (r.spec_instrs(), r.spec_labels()) == pb_fold(
                self.spec_instrs(),
                self.spec_labels(),
                instructions@,
            ),
    {
        let ghost target = pb_fold(self.spec_instrs(), self.spec_labels(), instructions@);
        let mut this = self;
        let mut rest = instructions;
        while rest.len() > 0
            invariant
                pb_fold(this.spec_instrs(), this.spec_labels(), rest@) == target,
            decreases rest@.len(),
        {
            let ghost prev = (this.spec_instrs(), this.spec_labels());
            let ghost remaining = rest@;
            let instr = rest.remove(0);
            proof {
                assert(instr == remaining[0]);
                assert(rest@ =~= remaining.drop_first());
            }
            this = this.pb_add(instr);
            proof {
                assert((this.spec_instrs(), this.spec_labels()) == pb_step(
                    prev.0,
                    prev.1,
                    instr,
                ));
            }
        }
        this
    }

    /// Resolves the program.  Fails, naming the offending labels, exactly
    /// when some jump or branch targets a label that was never defined;
    /// this is the only validation before execution.
    pub fn build(self) -> (r: Result<Program, String>)
        ensures
            match r {
                Ok(p) => p.instrs() == self.spec_instrs() && p.labels() == self.spec_labels()
                    && p.well_formed(),
                Err(_) => !labels_defined(self.spec_instrs(), self.spec_labels()),
            },
    {
        let mut undefined: Vec<String> = Vec::new();
        let mut i: usize = 0;
        while i < self.instructions.len()
            invariant
                i <= self.instructions@.len(),
                undefined@.len() == 0 <==> labels_defined(
                    self.instructions@.subrange(0, i as int),
                    bindings_view(self.label_map@),
                ),
            decreases self.instructions@.len() - i,
        {
            let ghost prefix = self.instructions@.subrange(0, i as int);
            let ghost ext = self.instructions@.subrange(0, i + 1);
            let ghost m = bindings_view(self.label_map@);
            proof {
                assert(ext =~= prefix.push(self.instructions@[i as int]));
                lemma_labels_defined_push(prefix, self.instructions@[i as int], m);
            }
            match &self.instructions[i] {
                Instruction::Jump(label) => {
                    proof {
                        assert(jump_ok(self.instructions@[i as int], m) == m.contains_key(
                            label@,
                        ));
                    }
                    note_target(&mut undefined, label, &self.label_map);
                },
                Instruction::BranchIfZero { label, .. } => {
                    proof {
                        assert(jump_ok(self.instructions@[i as int], m) == m.contains_key(
                            label@,
                        ));
                    }
                    note_target(&mut undefined, label, &self.label_map);
                },
                _ => {
                    proof {
                        assert(jump_ok(self.instructions@[i as int], m));
                    }
                },
            }
            i = i + 1;
        }
        proof {
            assert(self.instructions@.subrange(0, self.instructions@.len() as int)
                =~= self.instructions@);
        }
        if undefined.len() == 0 {
            Ok(Program { instructions: self.instructions, label_map: self.label_map })
        } else {
            let mut msg = String::new();
            msg = append_str(&msg, "Undefined labels found: ");
            let mut j: usize = 0;
            while j < undefined.len()
                decreases undefined@.len() - j,
            {
                if j > 0 {
                    msg = append_str(&msg, ", ");
                }
                msg = append_str(&msg, undefined[j].as_str());
                j = j + 1;
            }
            Err(msg)
        }
    }
}

} // verus!
