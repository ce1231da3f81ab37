//! Validation of potentiality states: the normalization check and the
//! phase-coherence diagnostics.

use crate::amp::amp_add;
use crate::amp::amp_bits;
use crate::amp::amp_norm_sqr;
use crate::amp::c_add_of;
use crate::amp::dev_exceeds_of;
use crate::amp::norm_dev_exceeds;
use crate::amp::norm_sq_of;
use crate::amp::zero_pair;
use crate::amp::Amp;
use crate::amp::ZERO_BITS;
use crate::base::error::OnqError;
use crate::base::state::PotentialityState;
use vstd::prelude::*;

verus! {

/// The running total of squared magnitudes over the first `k` amplitudes,
/// accumulated from zero in index order.
pub open spec fn norm_sum_upto(v: Seq<Amp>, k: int) -> (u64, u64)
    decreases k,
{
    if k <= 0 {
        zero_pair()
    } else {
        c_add_of(norm_sum_upto(v, k - 1), (norm_sq_of(amp_bits(v[k - 1])), ZERO_BITS))
    }
}

/// The total squared magnitude of a state vector.
pub open spec fn norm_sum(v: Seq<Amp>) -> (u64, u64) {
    norm_sum_upto(v, v.len() as int)
}

/// The spec-level tolerance argument that an optional tolerance denotes.
pub open spec fn tol_bits_of(tol: Option<Amp>) -> Option<u64> {
    match tol {
        Some(t) => Some(amp_bits(t).0),
        None => None,
    }
}

/// Computes the total squared magnitude of the state, as an amplitude
/// whose real part carries the sum.
pub fn state_norm_sum(state: &PotentialityState) -> (r: Amp)
    ensures
        r@ == norm_sum(state@),
        forall|c: int| crate::amp::one_hot_at(state@, c) ==> r@ == crate::amp::one_pair(),
{
    let v = state.vector();
    let mut total = Amp::zero();
    let mut k: usize = 0;
    while k < v.len()
        invariant
            k <= v@.len(),
            v@ == state@,
            total@ == norm_sum_upto(state@, k as int),
            forall|c: int|
                crate::amp::one_hot_at(state@, c) ==> total@ == (if c < k {
                    crate::amp::one_pair()
                } else {
                    zero_pair()
                }),
        decreases v@.len() - k,
    {
        let sq = amp_norm_sqr(&v[k]);
        total = amp_add(&total, &sq);
        k = k + 1;
    }
    total
}

/// Checks that the sum of squared magnitudes deviates from one by no more
/// than the tolerance (default `1e-9`); a failing state is `Incoherence`.
pub fn check_normalization(state: &PotentialityState, tolerance: Option<&Amp>) -> (r: Result<
    (),
    OnqError,
>)
    ensures
        r is Ok <==> !dev_exceeds_of(
            norm_sum(state@).0,
            match tolerance {
                Some(t) => Some(amp_bits(*t).0),
                None => None,
            },
        ),
        r is Err ==> r->Err_0 is Incoherence,
        tolerance is None ==> forall|c: int| crate::amp::one_hot_at(state@, c) ==> r is Ok,
{
    let total = state_norm_sum(state);
    if norm_dev_exceeds(&total, tolerance) {
        Err(
            OnqError::Incoherence {
                message: "State vector normalization failed: Sum(|c_i|^2) deviates from 1".to_owned(),
            },
        )
    } else {
        Ok(())
    }
}

/// Validates a state: currently the normalization check alone, with the
/// given or default tolerance.
pub fn validate_state(
    state: &PotentialityState,
    _num_qdus: usize,
    norm_tolerance: Option<&Amp>,
    _coherence_threshold: Option<&Amp>,
    _amplitude_tolerance: Option<&Amp>,
) -> (r: Result<(), OnqError>)
    ensures
        r is Ok <==> !dev_exceeds_of(
            norm_sum(state@).0,
            match norm_tolerance {
                Some(t) => Some(amp_bits(*t).0),
                None => None,
            },
        ),
        r is Err ==> r->Err_0 is Incoherence,
        norm_tolerance is None ==> forall|c: int|
            crate::amp::one_hot_at(state@, c) ==> r is Ok,
{
    check_normalization(state, norm_tolerance)
}

} // verus!

verus! {

/// The phase-agreement accumulation for basis state `k`: over the bit
/// positions below `b`, the cosines of the phase differences with each
/// neighbour of non-negligible weight, summed in position order, with the
/// number of neighbours counted.
pub open spec fn c1_accum(
    v: Seq<Amp>,
    k: int,
    phase_k: u64,
    tol: u64,
    b: nat,
) -> ((u64, u64), nat)
    decreases b,
{
    if b == 0 {
        (zero_pair(), 0nat)
    } else {
        let prev = c1_accum(v, k, phase_k, tol, (b - 1) as nat);
        let nk = (k as usize) ^ (1usize << ((b - 1) as usize));
        if nk < v.len() && crate::amp::flt_of(tol, norm_sq_of(amp_bits(v[nk as int]))) {
            (
                c_add_of(
                    prev.0,
                    (
                        crate::amp::cos_of(
                            crate::amp::real_sub_of(
                                phase_k,
                                crate::amp::arg_of(amp_bits(v[nk as int])),
                            ),
                        ),
                        ZERO_BITS,
                    ),
                ),
                prev.1 + 1,
            )
        } else {
            prev
        }
    }
}

/// The phase-coherence score of one basis state: one where there are no
/// units or no significant neighbours, zero where the state's own weight
/// is negligible, and otherwise the clamped normalized average phase
/// agreement with its significant neighbours.
pub open spec fn c1_score_of(v: Seq<Amp>, k: int, tol: u64, n: nat) -> (u64, u64) {
    if n == 0 {
        crate::amp::one_pair()
    } else if crate::amp::flt_of(norm_sq_of(amp_bits(v[k])), tol) {
        zero_pair()
    } else {
        let phase_k = crate::amp::arg_of(amp_bits(v[k]));
        let acc = c1_accum(v, k, phase_k, tol, n);
        if acc.1 == 0 {
            crate::amp::one_pair()
        } else {
            let avg = crate::amp::div_count_of(acc.0.0, acc.1 as u64);
            (
                crate::amp::clamp01_of(
                    crate::amp::div_count_of(
                        c_add_of(crate::amp::one_pair(), (avg, ZERO_BITS)).0,
                        2,
                    ),
                ),
                ZERO_BITS,
            )
        }
    }
}

/// The weighted coherence and weight totals over the first `k` basis
/// states, accumulated in index order.
pub open spec fn coherence_accum(v: Seq<Amp>, tol: u64, n: nat, k: int) -> ((u64, u64), (u64, u64))
    decreases k,
{
    if k <= 0 {
        (zero_pair(), zero_pair())
    } else {
        let prev = coherence_accum(v, tol, n, k - 1);
        let sq = norm_sq_of(amp_bits(v[k - 1]));
        if crate::amp::flt_of(tol, sq) {
            (
                c_add_of(
                    prev.0,
                    crate::amp::c_mul_of((sq, ZERO_BITS), c1_score_of(v, k - 1, tol, n)),
                ),
                c_add_of(prev.1, (sq, ZERO_BITS)),
            )
        } else {
            prev
        }
    }
}

/// The global phase-coherence score of a state.
pub open spec fn global_coherence_of(v: Seq<Amp>, tol: u64, n: nat) -> (u64, u64) {
    if v.len() == 0 || n == 0 {
        crate::amp::one_pair()
    } else {
        let acc = coherence_accum(v, tol, n, v.len() as int);
        if crate::amp::flt_of(acc.1.0, tol) {
            zero_pair()
        } else {
            (crate::amp::clamp01_of(crate::amp::real_div_of(acc.0.0, acc.1.0)), ZERO_BITS)
        }
    }
}

/// The spec-level bits of an optional tolerance with its default.
pub open spec fn tol_or(tol: Option<Amp>, dflt: u64) -> u64 {
    match tol {
        Some(t) => amp_bits(t).0,
        None => dflt,
    }
}

/// The default negligibility tolerance, `1e-12`, as an exact quotient.
pub open spec fn default_amp_tol() -> u64 {
    crate::amp::ratio_bits_of(1, 1000000000000)
}

/// The default coherence threshold.
pub open spec fn default_coherence_threshold() -> u64 {
    crate::amp::ratio_bits_of(618, 1000)
}

/// The phase-agreement score of one basis state with its immediate
/// neighbours; an independent diagnostic, not a stabilization gate.
fn c1_score_for_state_k(
    k: usize,
    state_vector: &Vec<Amp>,
    num_qdus: usize,
    amplitude_tolerance: &Amp,
) -> (r: Amp)
    requires
        k < state_vector@.len(),
        num_qdus < 32,
    ensures
        r@ == c1_score_of(
            state_vector@,
            k as int,
            amp_bits(*amplitude_tolerance).0,
            num_qdus as nat,
        ),
{
    if num_qdus == 0 {
        return Amp::one();
    }
    let amp_k = state_vector[k];
    let amp_k_norm_sq = crate::amp::amp_norm_sqr(&amp_k);
    if crate::amp::amp_lt(&amp_k_norm_sq, amplitude_tolerance) {
        return Amp::zero();
    }
    let phase_k = crate::amp::amp_arg(&amp_k);
    let mut total_cos_diff = Amp::zero();
    let mut num_significant_neighbours: u64 = 0;
    let ghost tolb = amp_bits(*amplitude_tolerance).0;
    let mut bit_pos: usize = 0;
    while bit_pos < num_qdus
        invariant
            k < state_vector@.len(),
            num_qdus < 32,
            bit_pos <= num_qdus,
            num_significant_neighbours <= bit_pos as u64,
            tolb == amp_bits(*amplitude_tolerance).0,
            phase_k@ == (crate::amp::arg_of(amp_bits(state_vector@[k as int])), ZERO_BITS),
            ({
                let acc = c1_accum(
                    state_vector@,
                    k as int,
                    phase_k@.0,
                    tolb,
                    bit_pos as nat,
                );
                total_cos_diff@ == acc.0 && num_significant_neighbours == acc.1
            }),
        decreases num_qdus - bit_pos,
    {
        let neighbour_k = k ^ (1usize << bit_pos);
        if neighbour_k < state_vector.len() {
            let amp_neighbour = state_vector[neighbour_k];
            let nsq = crate::amp::amp_norm_sqr(&amp_neighbour);
            if crate::amp::amp_lt(amplitude_tolerance, &nsq) {
                let phase_neighbour = crate::amp::amp_arg(&amp_neighbour);
                let diff = crate::amp::amp_real_sub(&phase_k, &phase_neighbour);
                let cos_diff = crate::amp::amp_cos(&diff);
                total_cos_diff = crate::amp::amp_add(&total_cos_diff, &cos_diff);
                num_significant_neighbours = num_significant_neighbours + 1;
            }
        }
        bit_pos = bit_pos + 1;
    }
    if num_significant_neighbours == 0 {
        return Amp::one();
    }
    let avg_cos_diff = crate::amp::amp_div_count(&total_cos_diff, num_significant_neighbours);
    let one = Amp::one();
    let one_plus = crate::amp::amp_add(&one, &avg_cos_diff);
    let half = crate::amp::amp_div_count(&one_plus, 2);
    crate::amp::amp_clamp01(&half)
}

/// The weighted average phase-agreement score across all basis states of
/// non-negligible weight; an exposed diagnostic utility.  The score is a
/// real value within the unit interval, up to the sign of zero, except
/// that a state holding an infinity or a not-a-number can make it a
/// not-a-number.  The unit-count bound mirrors the engine's cap: no
/// engine here can hold a state over more units.
pub fn calculate_global_phase_coherence(
    state: &PotentialityState,
    num_qdus: usize,
    amplitude_tolerance: Option<&Amp>,
) -> (r: Amp)
    requires
        num_qdus < 32,
    ensures
        r@ == global_coherence_of(
            state@,
            match amplitude_tolerance {
                Some(t) => amp_bits(*t).0,
                None => default_amp_tol(),
            },
            num_qdus as nat,
        ),
        r@.0 <= crate::amp::ONE_BITS || r@.0 == crate::amp::NEG_ZERO_BITS
            || crate::amp::is_nan_bits(r@.0),
        r@.1 == ZERO_BITS,
{
    let tol = match amplitude_tolerance {
        Some(t) => *t,
        None => crate::amp::amp_ratio(1, 1000000000000),
    };
    let v = state.vector();
    if v.len() == 0 || num_qdus == 0 {
        return Amp::one();
    }
    let mut total_weighted_coherence = Amp::zero();
    let mut total_norm_sq = Amp::zero();
    let ghost tolb = amp_bits(tol).0;
    let mut k: usize = 0;
    while k < v.len()
        invariant
            v@ == state@,
            num_qdus < 32,
            k <= v@.len(),
            tolb == amp_bits(tol).0,
            ({
                let acc = coherence_accum(state@, tolb, num_qdus as nat, k as int);
                total_weighted_coherence@ == acc.0 && total_norm_sq@ == acc.1
            }),
        decreases v@.len() - k,
    {
        let sq = crate::amp::amp_norm_sqr(&v[k]);
        if crate::amp::amp_lt(&tol, &sq) {
            let score = c1_score_for_state_k(k, v, num_qdus, &tol);
            let weighted = crate::amp::amp_mul(&sq, &score);
            total_weighted_coherence = crate::amp::amp_add(&total_weighted_coherence, &weighted);
            total_norm_sq = crate::amp::amp_add(&total_norm_sq, &sq);
        }
        k = k + 1;
    }
    if crate::amp::amp_lt(&total_norm_sq, &tol) {
        Amp::zero()
    } else {
        let ratio = crate::amp::amp_real_div(&total_weighted_coherence, &total_norm_sq);
        crate::amp::amp_clamp01(&ratio)
    }
}

/// Checks that the global phase-coherence score strictly exceeds the
/// threshold (default `0.618`); a failing state is `Incoherence`.  The
/// unit-count bound mirrors the engine's cap.
pub fn check_phase_coherence(
    state: &PotentialityState,
    num_qdus: usize,
    threshold: Option<&Amp>,
    amplitude_tolerance: Option<&Amp>,
) -> (r: Result<(), OnqError>)
    requires
        num_qdus < 32,
    ensures
        ({
            let score = global_coherence_of(
                state@,
                match amplitude_tolerance {
                    Some(t) => amp_bits(*t).0,
                    None => default_amp_tol(),
                },
                num_qdus as nat,
            );
            let th = match threshold {
                Some(t) => amp_bits(*t).0,
                None => default_coherence_threshold(),
            };
            &&& (r is Ok <==> crate::amp::flt_of(th, score.0))
            &&& (r is Err ==> r->Err_0 is Incoherence)
        }),
{
    let th = match threshold {
        Some(t) => *t,
        None => crate::amp::amp_ratio(618, 1000),
    };
    let global_coherence = calculate_global_phase_coherence(state, num_qdus, amplitude_tolerance);
    if crate::amp::amp_lt(&th, &global_coherence) {
        Ok(())
    } else {
        Err(
            OnqError::Incoherence {
                message: "Global Phase Coherence check failed: score at or below threshold".to_owned(),
            },
        )
    }
}

} // verus!
