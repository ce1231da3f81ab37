use num_complex::Complex64;
use onq::simulation::engine::SimulationEngine;
use onq::simulation::SimulationResult;
use onq::Amp;
use onq::LockType;
use onq::Operation;
use onq::PotentialityState;
use onq::QduId;
use onq::StableState;

const TEST_TOLERANCE: f64 = 1e-9;

fn qid(id: u64) -> QduId {
    QduId(id)
}

fn amp(re: f64, im: f64) -> Amp {
    Amp::from_complex(Complex64::new(re, im))
}

fn check_stable_state(result: &SimulationResult, qdu_id: QduId, expected_state_val: u64) {
    match result.get_stable_state(&qdu_id) {
        Some(StableState::ResolvedQuality(val)) => {
            assert_eq!(val, expected_state_val, "Mismatch for QDU {:?}", qdu_id);
        }
        _ => panic!("QDU {:?} was not stabilized or result is not ResolvedQuality", qdu_id),
    }
}

fn assert_complex_vec_approx_equal(
    actual: &Vec<Amp>,
    expected: &[Complex64],
    tolerance: f64,
    context: &str,
) {
    assert_eq!(actual.len(), expected.len(), "Vector length mismatch - {}", context);
    for i in 0..actual.len() {
        let diff = actual[i].to_complex() - expected[i];
        let dist_sq = diff.norm_sqr();
        assert!(
            dist_sq < tolerance * tolerance,
            "Vector mismatch at index {} - Actual: {}, Expected: {}, DistSq: {:.3e}, Context: {}",
            i,
            actual[i].to_complex(),
            expected[i],
            dist_sq,
            context
        );
    }
}

#[test]
fn test_stabilize_basis_state() {
    let q0 = qid(0);
    let q1 = qid(1);
    let qdu_set = vec![q0, q1];
    let mut engine = SimulationEngine::init(&qdu_set).unwrap();

    let state_vec_01 = vec![amp(0.0, 0.0), amp(1.0, 0.0), amp(0.0, 0.0), amp(0.0, 0.0)];
    engine.set_state(PotentialityState::new(state_vec_01)).unwrap();
    let mut result = SimulationResult::new();
    engine.stabilize(&vec![q0, q1], &mut result).unwrap();

    let state_vec_10 = vec![amp(0.0, 0.0), amp(0.0, 0.0), amp(1.0, 0.0), amp(0.0, 0.0)];
    engine.set_state(PotentialityState::new(state_vec_10)).unwrap();
    result = SimulationResult::new();
    engine.stabilize(&vec![q0, q1], &mut result).unwrap();

    check_stable_state(&result, q0, 1);
    check_stable_state(&result, q1, 0);
}

#[test]
fn test_stabilize_superposition_equal_zero_phase() {
    let q0 = qid(0);
    let qdu_set = vec![q0];
    let mut engine = SimulationEngine::init(&qdu_set).unwrap();

    let f = std::f64::consts::FRAC_1_SQRT_2;
    let state_vec = vec![amp(f, 0.0), amp(f, 0.0)];
    engine.set_state(PotentialityState::new(state_vec)).unwrap();
    let mut result = SimulationResult::new();
    engine.stabilize(&vec![q0], &mut result).unwrap();

    check_stable_state(&result, q0, 0);
}

#[test]
fn test_stabilize_two_qdu_entangled_like() {
    let q0 = qid(0);
    let q1 = qid(1);
    let qdu_set = vec![q0, q1];
    let mut engine = SimulationEngine::init(&qdu_set).unwrap();

    let state_vec = vec![amp(0.6, 0.0), amp(0.0, 0.0), amp(0.0, 0.0), amp(0.8, 0.0)];
    engine.set_state(PotentialityState::new(state_vec)).unwrap();

    let mut result = SimulationResult::new();
    engine.stabilize(&vec![q0, q1], &mut result).unwrap();

    check_stable_state(&result, q0, 0);
    check_stable_state(&result, q1, 0);
}

#[test]
fn test_stabilize_deterministic_seed() {
    println!("\n--- Test: Stabilize state where only one outcome passes filter ---");
    let q0 = qid(0);
    let q1 = qid(1);
    let qdu_set = vec![q0, q1];

    let initial_state_vec = vec![amp(0.5, 0.0), amp(0.5, 0.0), amp(0.5, 0.0), amp(-0.5, 0.0)];
    let initial_state = PotentialityState::new(initial_state_vec);

    let mut engine = SimulationEngine::init(&qdu_set).unwrap();
    engine.set_state(initial_state).unwrap();
    let result = SimulationResult::new();

    let mut engine2 = SimulationEngine::init(&qdu_set).unwrap();
    engine2.set_state(engine.get_state().clone()).unwrap();
    engine2
        .set_state(PotentialityState::new(vec![
            amp(0.5, 0.0),
            amp(0.5, 0.0),
            amp(0.5, 0.0),
            amp(-0.5, 0.0),
        ]))
        .unwrap();
    let result2 = SimulationResult::new();
    assert_eq!(
        result, result2,
        "Stabilization outcome should be deterministic for the same input state"
    );
}

#[test]
fn test_stabilize_superposition_equal_pi_over_2_phase() {
    println!("\n--- Test: Stabilize state failing filter for all outcomes (PI/2 phase) ---");
    let q0 = qid(0);
    let qdu_set = vec![q0];
    let mut engine = SimulationEngine::init(&qdu_set).unwrap();

    let f = std::f64::consts::FRAC_1_SQRT_2;
    let state_vec = vec![amp(f, 0.0), amp(0.0, f)];
    engine.set_state(PotentialityState::new(state_vec)).unwrap();
    let mut result = SimulationResult::new();
    let stabilization_result = engine.stabilize(&vec![q0], &mut result);

    assert!(stabilization_result.is_ok(), "Stabilization should now succeed for PI/2 phase state");
}

#[test]
fn test_stabilize_superposition_equal_pi_phase() {
    println!("\n--- Test: Stabilize state failing filter for all outcomes (PI phase) ---");
    let q0 = qid(0);
    let qdu_set = vec![q0];
    let mut engine = SimulationEngine::init(&qdu_set).unwrap();

    let f = std::f64::consts::FRAC_1_SQRT_2;
    let state_vec = vec![amp(f, 0.0), amp(-f, 0.0)];
    engine.set_state(PotentialityState::new(state_vec)).unwrap();
    let mut result = SimulationResult::new();
    let stabilization_result = engine.stabilize(&vec![q0], &mut result);

    assert!(stabilization_result.is_ok(), "Stabilization should now succeed for PI/2 phase state");
}

#[test]
fn test_relational_lock_multi_qdu_context() {
    println!("\n--- Test: Project onto BellPhiPlus in 3 QDU context ---");
    let q0 = qid(0);
    let q1 = qid(1);
    let q2 = qid(2);
    let qdu_set = vec![q0, q1, q2];
    let mut engine = SimulationEngine::init(&qdu_set).unwrap();

    let lock_op = Operation::RelationalLock {
        qdu1: q1,
        qdu2: q2,
        lock_type: LockType::BellPhiPlus,
        establish: true,
    };

    engine.apply_operation(&lock_op).unwrap();

    let sqrt2_inv = Complex64::new(std::f64::consts::FRAC_1_SQRT_2, 0.0);
    let zero = Complex64::new(0.0, 0.0);
    let expected_state_vec = vec![sqrt2_inv, zero, zero, sqrt2_inv, zero, zero, zero, zero];

    assert_complex_vec_approx_equal(
        engine.get_state().vector(),
        &expected_state_vec,
        TEST_TOLERANCE,
        "Projecting onto BellPhiPlus for q1,q2 in |000> state",
    );
}

#[test]
fn test_projection_zero_overlap_fails() {
    let q0 = qid(0);
    let q1 = qid(1);
    let qdu_set = vec![q0, q1];
    let mut engine = SimulationEngine::init(&qdu_set).unwrap();

    let state_vec = vec![amp(0.6, 0.0), amp(0.0, 0.0), amp(0.0, 0.0), amp(0.8, 0.0)];
    engine.set_state(PotentialityState::new(state_vec)).unwrap();

    let lock_op = Operation::RelationalLock {
        qdu1: q0,
        qdu2: q1,
        lock_type: LockType::BellPsiPlus,
        establish: true,
    };
    let result = engine.apply_operation(&lock_op);
    assert!(matches!(result, Err(onq::OnqError::Instability { .. })));
}

#[test]
fn test_incoherent_state_rejected() {
    let q0 = qid(0);
    let qdu_set = vec![q0];
    let mut engine = SimulationEngine::init(&qdu_set).unwrap();

    engine
        .set_state(PotentialityState::new(vec![amp(0.5, 0.0), amp(0.0, 0.0)]))
        .unwrap();
    let op = Operation::InteractionPattern { target: q0, pattern_id: "Identity".to_string() };
    let result = engine.apply_operation(&op);
    assert!(matches!(result, Err(onq::OnqError::Incoherence { .. })));
}

#[test]
fn test_set_state_dimension_mismatch() {
    let q0 = qid(0);
    let qdu_set = vec![q0];
    let mut engine = SimulationEngine::init(&qdu_set).unwrap();
    let result = engine.set_state(PotentialityState::new(vec![amp(1.0, 0.0)]));
    assert!(matches!(result, Err(onq::OnqError::SimulationError { .. })));
}

#[test]
fn test_init_requires_units() {
    let empty: Vec<QduId> = Vec::new();
    let result = SimulationEngine::init(&empty);
    assert!(matches!(result, Err(onq::OnqError::InvalidOperation { .. })));
}

#[test]
fn test_stabilize_unknown_target_fails() {
    let q0 = qid(0);
    let q9 = qid(9);
    let qdu_set = vec![q0];
    let mut engine = SimulationEngine::init(&qdu_set).unwrap();
    let mut result = SimulationResult::new();
    let out = engine.stabilize(&vec![q9], &mut result);
    assert!(matches!(out, Err(onq::OnqError::ReferenceViolation { .. })));
}

#[test]
fn test_determinism_with_stabilization() {
    let q0 = qid(0);
    let q1 = qid(1);
    let qdu_set = vec![q0, q1];
    let initial = vec![amp(0.5, 0.0), amp(0.5, 0.0), amp(0.5, 0.0), amp(0.5, 0.0)];

    let mut engine1 = SimulationEngine::init(&qdu_set).unwrap();
    engine1.set_state(PotentialityState::new(initial.clone())).unwrap();
    let mut result1 = SimulationResult::new();
    engine1.stabilize(&vec![q0, q1], &mut result1).unwrap();

    let mut engine2 = SimulationEngine::init(&qdu_set).unwrap();
    engine2.set_state(PotentialityState::new(initial)).unwrap();
    let mut result2 = SimulationResult::new();
    engine2.stabilize(&vec![q0, q1], &mut result2).unwrap();

    assert_eq!(
        result1.get_stable_state(&q0),
        result2.get_stable_state(&q0),
        "identical states must stabilize identically"
    );
    assert_eq!(result1.get_stable_state(&q1), result2.get_stable_state(&q1));
}

#[test]
fn test_amp_bits_round_trip() {
    let a = amp(1.5, -2.5);
    let (re_bits, im_bits) = a.bits();
    assert_eq!(f64::from_bits(re_bits), 1.5);
    assert_eq!(f64::from_bits(im_bits), -2.5);
    let c = a.to_complex();
    assert_eq!(c.re, 1.5);
    assert_eq!(c.im, -2.5);
}

#[test]
fn test_superposition_stabilization_deterministic_value() {
    let q0 = qid(0);
    let qdu_set = vec![q0];
    let mut engine1 = SimulationEngine::init(&qdu_set).unwrap();
    let op = Operation::InteractionPattern {
        target: q0,
        pattern_id: "Superposition".to_string(),
    };
    engine1.apply_operation(&op).unwrap();
    let mut result1 = SimulationResult::new();
    engine1.stabilize(&vec![q0], &mut result1).unwrap();
    let v1 = result1.get_stable_state(&q0).unwrap();

    let mut engine2 = SimulationEngine::init(&qdu_set).unwrap();
    engine2.apply_operation(&op).unwrap();
    let mut result2 = SimulationResult::new();
    engine2.stabilize(&vec![q0], &mut result2).unwrap();
    let v2 = result2.get_stable_state(&q0).unwrap();

    assert_eq!(v1, v2, "superposition stabilization must be reproducible");
}

#[test]
fn test_phase_coherence_utilities() {
    let q0 = qid(0);
    let qdu_set = vec![q0];
    let mut engine = SimulationEngine::init(&qdu_set).unwrap();

    let score = onq::calculate_global_phase_coherence(engine.get_state(), 1, None);
    assert_eq!(f64::from_bits(score.bits().0), 1.0, "a basis state is fully coherent");
    assert!(onq::check_phase_coherence(engine.get_state(), 1, None, None).is_ok());

    let f = std::f64::consts::FRAC_1_SQRT_2;
    engine
        .set_state(PotentialityState::new(vec![amp(f, 0.0), amp(-f, 0.0)]))
        .unwrap();
    let score2 = onq::calculate_global_phase_coherence(engine.get_state(), 1, None);
    assert_eq!(f64::from_bits(score2.bits().0), 0.0, "opposite phases disagree maximally");
    assert!(matches!(
        onq::check_phase_coherence(engine.get_state(), 1, None, None),
        Err(onq::OnqError::Incoherence { .. })
    ));

    engine
        .set_state(PotentialityState::new(vec![amp(f, 0.0), amp(f, 0.0)]))
        .unwrap();
    let score3 = onq::calculate_global_phase_coherence(engine.get_state(), 1, None);
    assert_eq!(f64::from_bits(score3.bits().0), 1.0, "equal phases agree fully");
    assert!(onq::validate_state(engine.get_state(), 1, None, None, None).is_ok());
    assert!(onq::check_normalization(engine.get_state(), None).is_ok());
}
