use onq::operations::Operation;
use onq::vm::Instruction;
use onq::vm::OnqVm;
use onq::vm::ProgramBuilder;
use onq::QduId;

fn qid(id: u64) -> QduId {
    QduId(id)
}

#[test]
fn test_vm_classical_loop() {
    println!("\n--- Test: ONQ-VM Classical Loop ---");
    let program = ProgramBuilder::new()
        .pb_add(Instruction::LoadImmediate { register: "count".to_string(), value: 0 })
        .pb_add(Instruction::LoadImmediate { register: "limit".to_string(), value: 5 })
        .pb_add(Instruction::Label("loop_start".to_string()))
        .pb_add(Instruction::CmpEq {
            r_dest: "cond".to_string(),
            r_src1: "count".to_string(),
            r_src2: "limit".to_string(),
        })
        .pb_add(Instruction::BranchIfZero {
            register: "cond".to_string(),
            label: "continue_loop".to_string(),
        })
        .pb_add(Instruction::Jump("loop_end".to_string()))
        .pb_add(Instruction::Label("continue_loop".to_string()))
        .pb_add(Instruction::Addi {
            r_dest: "count".to_string(),
            r_src: "count".to_string(),
            value: 1,
        })
        .pb_add(Instruction::Jump("loop_start".to_string()))
        .pb_add(Instruction::Label("loop_end".to_string()))
        .pb_add(Instruction::Halt)
        .build()
        .unwrap();

    println!("Program:\n{:?}", program);

    let mut vm = OnqVm::new();
    vm.run(&program).unwrap();

    println!("Final Classical Memory: {:?}", vm.get_classical_memory());

    assert_eq!(vm.get_classical_register("count"), 5, "Counter should reach 5");
    assert_eq!(vm.get_classical_register("limit"), 5, "Limit should be 5");
    assert_eq!(
        vm.get_classical_register("cond"),
        1,
        "Final condition (count==limit) should be true (1)"
    );
}

#[test]
fn test_vm_conditional_quantum() {
    println!("\n--- Test: ONQ-VM Conditional Quantum Op ---");
    let program = ProgramBuilder::new()
        .pb_add(Instruction::QuantumOp(Operation::InteractionPattern {
            target: qid(0),
            pattern_id: "Superposition".to_string(),
        }))
        .pb_add(Instruction::Stabilize { targets: vec![qid(0)] })
        .pb_add(Instruction::Record { qdu: qid(0), register: "m0".to_string() })
        .pb_add(Instruction::BranchIfZero {
            register: "m0".to_string(),
            label: "apply_flip".to_string(),
        })
        .pb_add(Instruction::Jump("after_flip".to_string()))
        .pb_add(Instruction::Label("apply_flip".to_string()))
        .pb_add(Instruction::QuantumOp(Operation::InteractionPattern {
            target: qid(1),
            pattern_id: "QualityFlip".to_string(),
        }))
        .pb_add(Instruction::Label("after_flip".to_string()))
        .pb_add(Instruction::Stabilize { targets: vec![qid(1)] })
        .pb_add(Instruction::Record { qdu: qid(1), register: "m1".to_string() })
        .pb_add(Instruction::Halt)
        .build()
        .unwrap();

    println!("Program:\n{:?}", program);

    let mut vm = OnqVm::new();
    vm.run(&program).unwrap();

    let final_mem = vm.get_classical_memory();
    println!("Final Classical Memory: {:?}", final_mem);

    let m0 = vm.get_classical_register("m0");
    let m1 = vm.get_classical_register("m1");

    assert_ne!(
        m0, m1,
        "m0 and m1 should have opposite values due to conditional flip. m0={}, m1={}",
        m0, m1
    );
}

#[test]
fn test_vm_undefined_label_rejected_at_build() {
    let result = ProgramBuilder::new()
        .pb_add(Instruction::Jump("nowhere".to_string()))
        .pb_add(Instruction::Halt)
        .build();
    assert!(result.is_err(), "A jump to an undefined label must fail at build time");
    let msg = result.err().unwrap();
    assert!(msg.contains("Undefined labels found"), "unexpected message: {}", msg);
}

#[test]
fn test_vm_record_without_stabilize_fails() {
    let program = ProgramBuilder::new()
        .pb_add(Instruction::Record { qdu: qid(0), register: "m".to_string() })
        .pb_add(Instruction::Halt)
        .build()
        .unwrap();
    let mut vm = OnqVm::new();
    let result = vm.run(&program);
    assert!(matches!(result, Err(onq::OnqError::InvalidOperation { .. })));
}

#[test]
fn test_vm_instruction_ceiling() {
    let program = ProgramBuilder::new()
        .pb_add(Instruction::Label("forever".to_string()))
        .pb_add(Instruction::Jump("forever".to_string()))
        .build()
        .unwrap();
    let mut vm = OnqVm::new();
    let result = vm.run(&program);
    assert!(matches!(result, Err(onq::OnqError::SimulationError { .. })));
}

#[test]
fn test_vm_classical_alu_ops() {
    let program = ProgramBuilder::new()
        .pb_add(Instruction::LoadImmediate { register: "a".to_string(), value: 12 })
        .pb_add(Instruction::LoadImmediate { register: "b".to_string(), value: 10 })
        .pb_add(Instruction::OnqAdd {
            r_dest: "sum".to_string(),
            r_src1: "a".to_string(),
            r_src2: "b".to_string(),
        })
        .pb_add(Instruction::Sub {
            r_dest: "diff".to_string(),
            r_src1: "b".to_string(),
            r_src2: "a".to_string(),
        })
        .pb_add(Instruction::Mul {
            r_dest: "prod".to_string(),
            r_src1: "a".to_string(),
            r_src2: "b".to_string(),
        })
        .pb_add(Instruction::And {
            r_dest: "and".to_string(),
            r_src1: "a".to_string(),
            r_src2: "b".to_string(),
        })
        .pb_add(Instruction::Or {
            r_dest: "or".to_string(),
            r_src1: "a".to_string(),
            r_src2: "b".to_string(),
        })
        .pb_add(Instruction::Xor {
            r_dest: "xor".to_string(),
            r_src1: "a".to_string(),
            r_src2: "b".to_string(),
        })
        .pb_add(Instruction::OnqNot { r_dest: "not".to_string(), r_src: "a".to_string() })
        .pb_add(Instruction::CmpGt {
            r_dest: "gt".to_string(),
            r_src1: "a".to_string(),
            r_src2: "b".to_string(),
        })
        .pb_add(Instruction::CmpLt {
            r_dest: "lt".to_string(),
            r_src1: "a".to_string(),
            r_src2: "b".to_string(),
        })
        .pb_add(Instruction::Copy {
            source_reg: "sum".to_string(),
            dest_reg: "copy".to_string(),
        })
        .pb_add(Instruction::NoOp)
        .pb_add(Instruction::Halt)
        .build()
        .unwrap();
    let mut vm = OnqVm::new();
    vm.run(&program).unwrap();
    assert_eq!(vm.get_classical_register("sum"), 22);
    assert_eq!(vm.get_classical_register("diff"), (10u64).wrapping_sub(12));
    assert_eq!(vm.get_classical_register("prod"), 120);
    assert_eq!(vm.get_classical_register("and"), 12 & 10);
    assert_eq!(vm.get_classical_register("or"), 12 | 10);
    assert_eq!(vm.get_classical_register("xor"), 12 ^ 10);
    assert_eq!(vm.get_classical_register("not"), !12u64);
    assert_eq!(vm.get_classical_register("gt"), 1);
    assert_eq!(vm.get_classical_register("lt"), 0);
    assert_eq!(vm.get_classical_register("copy"), 22);
    assert_eq!(vm.get_classical_register("missing"), 0, "missing registers read as zero");
}

#[test]
fn test_vm_final_state_presence() {
    let classical = ProgramBuilder::new().pb_add(Instruction::Halt).build().unwrap();
    let mut vm = OnqVm::new();
    vm.run(&classical).unwrap();
    assert!(vm.get_final_state().is_none(), "no engine for a purely classical program");

    let quantum = ProgramBuilder::new()
        .pb_add(Instruction::Stabilize { targets: vec![qid(0)] })
        .pb_add(Instruction::Halt)
        .build()
        .unwrap();
    let mut vm2 = OnqVm::new();
    vm2.run(&quantum).unwrap();
    let state = vm2.get_final_state().expect("engine present");
    assert_eq!(state.dim(), 2);
}

#[test]
fn test_builder_strips_labels() {
    let program = ProgramBuilder::new()
        .pb_add(Instruction::Label("here".to_string()))
        .pb_add(Instruction::NoOp)
        .pb_add(Instruction::Jump("here".to_string()))
        .pb_add(Instruction::Halt)
        .build()
        .unwrap();
    assert_eq!(program.instruction_count(), 3, "labels are not executable instructions");
}
