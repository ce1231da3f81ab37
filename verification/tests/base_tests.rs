use onq::base::Qdu;
use onq::base::ReferenceFrame;
use onq::Circuit;
use onq::CircuitBuilder;
use onq::Operation;
use onq::QduId;
use onq::StableState;

#[test]
fn test_qdu_and_frame_identifiers() {
    let q = Qdu::new(7);
    assert_eq!(q.id(), QduId(7));
    let frame = ReferenceFrame::new(3);
    assert_eq!(frame.id(), 3);
}

#[test]
fn test_resolved_value_accessor() {
    let s = StableState::ResolvedQuality(1);
    assert_eq!(s.get_resolved_value(), Some(1));
}

#[test]
fn test_circuit_collects_units() {
    let q0 = QduId(4);
    let q1 = QduId(2);
    let mut circuit = Circuit::new();
    assert!(circuit.is_empty());
    circuit.add_operation(Operation::ControlledInteraction {
        control: q0,
        target: q1,
        pattern_id: "QualityFlip".to_string(),
    });
    circuit.add_operation(Operation::Stabilize { targets: vec![q0] });
    assert_eq!(circuit.len(), 2);
    assert!(!circuit.is_empty());
    assert_eq!(circuit.qdus().clone(), vec![QduId(2), QduId(4)], "units are sorted and unique");
    assert_eq!(circuit.operations().len(), 2);
}

#[test]
fn test_circuit_builder_chains() {
    let q0 = QduId(0);
    let ops = vec![
        Operation::InteractionPattern { target: q0, pattern_id: "Identity".to_string() },
        Operation::Stabilize { targets: vec![q0] },
    ];
    let circuit = CircuitBuilder::new().add_ops(ops).build();
    assert_eq!(circuit.len(), 2);

    let mut circuit2 = Circuit::new();
    circuit2.add_operations(vec![Operation::Stabilize { targets: vec![q0] }]);
    assert_eq!(circuit2.len(), 1);
}

#[test]
fn test_involved_qdus() {
    let q0 = QduId(0);
    let q1 = QduId(1);
    let op = Operation::ControlledInteraction {
        control: q0,
        target: q1,
        pattern_id: "QualityFlip".to_string(),
    };
    assert_eq!(op.involved_qdus(), vec![q0, q1]);
    let stab = Operation::Stabilize { targets: vec![q1, q0] };
    assert_eq!(stab.involved_qdus(), vec![q1, q0]);
}
