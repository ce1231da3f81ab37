//! The library's laws: properties that hold across its operations, stated
//! over the same specifications that the functions' own contracts use.

use crate::amp::amp_bits;
use crate::amp::one_hot_at;
use crate::amp::Amp;
use crate::base::error::OnqError;
use crate::base::error::QduId;
use crate::base::state::StableState;
use crate::operations::Operation;
use crate::simulation::engine::apply_post;
use crate::simulation::engine::bits_of;
use crate::simulation::engine::chosen_index;
use crate::simulation::engine::fm_from;
use crate::simulation::engine::hash_writes_upto;
use crate::simulation::engine::outcome_bit;
use crate::simulation::engine::pattern_mat_bits;
use crate::simulation::engine::qual_indices;
use crate::simulation::engine::qualifies;
use crate::simulation::engine::record_upto;
use crate::simulation::engine::stab_post;
use crate::simulation::engine::total_score_upto;
use crate::simulation::engine::unit_index;
use crate::simulation::engine::walk_cands;
use crate::validation::norm_sum;
use crate::validation::norm_sum_upto;
use crate::vm::interpreter::vm_step_err;
use crate::vm::interpreter::VmSpec;
use crate::vm::program::jump_ok;
use crate::vm::program::labels_defined;
use crate::vm::program::Instruction;
use vstd::prelude::*;

verus! {

/// Recording stops at the first unknown target; with every target known it
/// covers them all.
pub proof fn lemma_all_targets_recorded(units: Seq<QduId>, targets: Seq<QduId>, t: int)
    requires
        0 <= t <= targets.len(),
        forall|i: int| t <= i < targets.len() ==> units.contains(#[trigger] targets[i]),
    ensures
        fm_from(units, targets, t) == targets.len(),
    decreases targets.len() - t,
{
    if t < targets.len() {
        lemma_all_targets_recorded(units, targets, t + 1);
    }
}

/// What the results map holds for each recorded target.
pub proof fn lemma_recorded_value(
    m0: Map<QduId, StableState>,
    units: Seq<QduId>,
    targets: Seq<QduId>,
    upto: int,
    ch: usize,
    n: nat,
    t: int,
)
    requires
        0 <= t < upto <= targets.len(),
    ensures
        record_upto(m0, units, targets, upto, ch, n).contains_key(targets[t]),
        record_upto(m0, units, targets, upto, ch, n)[targets[t]] == StableState::ResolvedQuality(
            outcome_bit(ch, n, unit_index(units, targets[t])),
        ),
    decreases upto,
{
    if t < upto - 1 {
        if targets[upto - 1] == targets[t] {
        } else {
            lemma_recorded_value(m0, units, targets, upto - 1, ch, n, t);
        }
    }
}

/// Stabilizing a pure basis state always resolves to exactly that basis
/// state: the run succeeds, the state stays that basis state, and every
/// targeted unit records the bit its position holds in the basis index.
pub proof fn law_pure_basis_stabilization(
    units: Seq<QduId>,
    n: nat,
    pre: Seq<Amp>,
    post: Seq<Amp>,
    targets: Seq<QduId>,
    m0: Map<QduId, StableState>,
    m1: Map<QduId, StableState>,
    r: Result<(), OnqError>,
    c: int,
)
    requires
        stab_post(units, n, pre, post, targets, m0, m1, r),
        one_hot_at(pre, c),
        post.len() == pre.len(),
        targets.len() > 0,
        forall|t: int| 0 <= t < targets.len() ==> units.contains(#[trigger] targets[t]),
    ensures
        r is Ok,
        chosen_index(pre) == c,
        one_hot_at(post, c),
        forall|t: int|
            0 <= t < targets.len() ==> m1.contains_key(#[trigger] targets[t]) && m1[targets[t]]
                == StableState::ResolvedQuality(outcome_bit(c as usize, n, unit_index(units, targets[t]))),
{
    assert(qual_indices(pre, pre.len() as int) == seq![c]);
    assert(qual_indices(pre, pre.len() as int).len() == 1);
    lemma_all_targets_recorded(units, targets, 0);
    assert(m1 == record_upto(m0, units, targets, targets.len() as int, c as usize, n));
    assert forall|t: int| 0 <= t < targets.len() implies m1.contains_key(#[trigger] targets[t])
        && m1[targets[t]] == StableState::ResolvedQuality(
        outcome_bit(c as usize, n, unit_index(units, targets[t])),
    ) by {
        lemma_recorded_value(m0, units, targets, targets.len() as int, c as usize, n, t);
    }
}

/// Stabilizing the all-zero basis state resolves every targeted unit to
/// zero.
pub proof fn law_all_zero_stabilization(
    units: Seq<QduId>,
    n: nat,
    pre: Seq<Amp>,
    post: Seq<Amp>,
    targets: Seq<QduId>,
    m0: Map<QduId, StableState>,
    m1: Map<QduId, StableState>,
    r: Result<(), OnqError>,
)
    requires
        stab_post(units, n, pre, post, targets, m0, m1, r),
        one_hot_at(pre, 0),
        post.len() == pre.len(),
        targets.len() > 0,
        forall|t: int| 0 <= t < targets.len() ==> units.contains(#[trigger] targets[t]),
    ensures
        r is Ok,
        one_hot_at(post, 0),
        forall|t: int|
            0 <= t < targets.len() ==> m1.contains_key(#[trigger] targets[t]) && m1[targets[t]]
                == StableState::ResolvedQuality(0),
{
    law_pure_basis_stabilization(units, n, pre, post, targets, m0, m1, r, 0);
    assert forall|t: int| 0 <= t < targets.len() implies m1.contains_key(#[trigger] targets[t])
        && m1[targets[t]] == StableState::ResolvedQuality(0) by {
        let idx = unit_index(units, targets[t]);
        let sh = ((n - 1 - idx) as usize);
        assert((0usize >> sh) & 1usize == 0usize) by (bit_vector);
        assert(outcome_bit(0usize, n, idx) == 0);
    }
}

/// On a normalized state, stabilization with targets fails with
/// `Instability` exactly when no basis state carries a qualifying weight:
/// a qualifying outcome keeps the running score total non-negligible.
pub proof fn law_instability_iff_no_qualifying(
    units: Seq<QduId>,
    n: nat,
    pre: Seq<Amp>,
    post: Seq<Amp>,
    targets: Seq<QduId>,
    m0: Map<QduId, StableState>,
    m1: Map<QduId, StableState>,
    r: Result<(), OnqError>,
)
    requires
        stab_post(units, n, pre, post, targets, m0, m1, r),
        targets.len() > 0,
        !crate::amp::dev_exceeds_of(norm_sum(pre).0, None),
    ensures
        (r matches Err(e) && e is Instability) <==> qual_indices(pre, pre.len() as int).len()
            == 0,
{
}

/// The qualifying indices and the running score total depend on the
/// amplitude bits alone.
proof fn lemma_scores_congruent(v1: Seq<Amp>, v2: Seq<Amp>, k: int)
    requires
        bits_of(v1) == bits_of(v2),
        v1.len() == v2.len(),
        k <= v1.len(),
    ensures
        qual_indices(v1, k) == qual_indices(v2, k),
        total_score_upto(v1, k) == total_score_upto(v2, k),
    decreases k,
{
    if k > 0 {
        lemma_scores_congruent(v1, v2, k - 1);
        assert(bits_of(v1)[k - 1] == bits_of(v2)[k - 1]);
        assert(amp_bits(v1[k - 1]) == amp_bits(v2[k - 1]));
    }
}

/// The hasher write history depends on the amplitude bits alone.
proof fn lemma_hash_congruent(v1: Seq<Amp>, v2: Seq<Amp>, k: int)
    requires
        bits_of(v1) == bits_of(v2),
        v1.len() == v2.len(),
        k <= v1.len(),
    ensures
        hash_writes_upto(v1, k) == hash_writes_upto(v2, k),
    decreases k,
{
    if k > 0 {
        lemma_hash_congruent(v1, v2, k - 1);
        assert(bits_of(v1)[k - 1] == bits_of(v2)[k - 1]);
        assert(amp_bits(v1[k - 1]) == amp_bits(v2[k - 1]));
    }
}

/// The cumulative walk depends on the amplitude bits alone.
proof fn lemma_walk_congruent(
    v1: Seq<Amp>,
    v2: Seq<Amp>,
    cands: Seq<int>,
    p: (u64, u64),
    i: int,
    cum: (u64, u64),
)
    requires
        bits_of(v1) == bits_of(v2),
        v1.len() == v2.len(),
        forall|t: int| 0 <= t < cands.len() ==> 0 <= #[trigger] cands[t] < v1.len(),
    ensures
        walk_cands(v1, cands, p, i, cum) == walk_cands(v2, cands, p, i, cum),
    decreases cands.len() - i,
{
    if 0 <= i < cands.len() {
        assert(bits_of(v1)[cands[i]] == bits_of(v2)[cands[i]]);
        assert(amp_bits(v1[cands[i]]) == amp_bits(v2[cands[i]]));
        let c2 = crate::amp::c_add_of(
            cum,
            crate::simulation::engine::sq_pair(v1[cands[i]]),
        );
        lemma_walk_congruent(v1, v2, cands, p, i + 1, c2);
    }
}

/// The normalization sum depends on the amplitude bits alone.
proof fn lemma_norm_congruent(v1: Seq<Amp>, v2: Seq<Amp>, k: int)
    requires
        bits_of(v1) == bits_of(v2),
        v1.len() == v2.len(),
        k <= v1.len(),
    ensures
        norm_sum_upto(v1, k) == norm_sum_upto(v2, k),
    decreases k,
{
    if k > 0 {
        lemma_norm_congruent(v1, v2, k - 1);
        assert(bits_of(v1)[k - 1] == bits_of(v2)[k - 1]);
        assert(amp_bits(v1[k - 1]) == amp_bits(v2[k - 1]));
    }
}

/// Every qualifying index is a position of the vector that qualifies.
proof fn lemma_qual_in_range(v: Seq<Amp>, k: int)
    requires
        k <= v.len(),
    ensures
        forall|t: int|
            0 <= t < qual_indices(v, k).len() ==> 0 <= #[trigger] qual_indices(v, k)[t] < k
                && qualifies(v[qual_indices(v, k)[t]]),
    decreases k,
{
    if k > 0 {
        lemma_qual_in_range(v, k - 1);
        let q = qual_indices(v, k);
        let q0 = qual_indices(v, k - 1);
        if qualifies(v[k - 1]) {
            assert(q == q0.push(k - 1));
            assert forall|t: int| 0 <= t < q.len() implies 0 <= #[trigger] q[t] < k && qualifies(
                v[q[t]],
            ) by {
                if t < q0.len() {
                    assert(q[t] == q0[t]);
                }
            }
        } else {
            assert(q == q0);
            assert forall|t: int| 0 <= t < q.len() implies 0 <= #[trigger] q[t] < k && qualifies(
                v[q[t]],
            ) by {
                assert(q[t] == q0[t]);
            }
        }
    }
}

/// The cumulative walk never selects outside the candidate list.
proof fn lemma_walk_in_cands(
    v: Seq<Amp>,
    cands: Seq<int>,
    p: (u64, u64),
    i: int,
    cum: (u64, u64),
)
    ensures
        walk_cands(v, cands, p, i, cum) matches Some(x) ==> cands.contains(x),
    decreases cands.len() - i,
{
    if 0 <= i < cands.len() {
        let c2 = crate::amp::c_add_of(
            cum,
            crate::simulation::engine::sq_pair(v[cands[i]]),
        );
        if crate::amp::flt_of(p.0, c2.0) {
            assert(cands[i] == cands[i]);
        } else {
            lemma_walk_in_cands(v, cands, p, i + 1, c2);
        }
    }
}

/// When any outcome qualifies, the selected outcome is one of them.
proof fn lemma_chosen_in_qual(v: Seq<Amp>)
    requires
        qual_indices(v, v.len() as int).len() > 0,
    ensures
        qual_indices(v, v.len() as int).contains(chosen_index(v)),
{
    let cands = qual_indices(v, v.len() as int);
    let p = crate::simulation::engine::p_sample_of(v);
    lemma_walk_in_cands(v, cands, p, 0, crate::amp::zero_pair());
    match walk_cands(v, cands, p, 0, crate::amp::zero_pair()) {
        Some(x) => {},
        None => {
            assert(cands[cands.len() - 1] == cands.last());
        },
    }
}

/// Determinism of stabilization: two states with bit-for-bit identical
/// amplitude vectors, stabilized with the same targets from the same prior
/// results, succeed or fail together, produce identical results maps, and
/// leave bit-for-bit identical states.
pub proof fn law_stabilization_deterministic(
    units: Seq<QduId>,
    n: nat,
    pre1: Seq<Amp>,
    pre2: Seq<Amp>,
    post1: Seq<Amp>,
    post2: Seq<Amp>,
    targets: Seq<QduId>,
    m0: Map<QduId, StableState>,
    m11: Map<QduId, StableState>,
    m12: Map<QduId, StableState>,
    r1: Result<(), OnqError>,
    r2: Result<(), OnqError>,
)
    requires
        bits_of(pre1) == bits_of(pre2),
        pre1.len() == pre2.len(),
        post1.len() == pre1.len(),
        post2.len() == pre2.len(),
        stab_post(units, n, pre1, post1, targets, m0, m11, r1),
        stab_post(units, n, pre2, post2, targets, m0, m12, r2),
    ensures
        m11 == m12,
        r1 is Ok <==> r2 is Ok,
        bits_of(post1) == bits_of(post2),
{
    let len = pre1.len() as int;
    lemma_scores_congruent(pre1, pre2, len);
    lemma_hash_congruent(pre1, pre2, len);
    lemma_norm_congruent(pre1, pre2, len);
    assert(crate::simulation::engine::state_seed(pre1) == crate::simulation::engine::state_seed(
        pre2,
    ));
    assert(crate::simulation::engine::p_sample_of(pre1)
        == crate::simulation::engine::p_sample_of(pre2));
    lemma_qual_in_range(pre1, len);
    lemma_walk_congruent(
        pre1,
        pre2,
        qual_indices(pre1, len),
        crate::simulation::engine::p_sample_of(pre1),
        0,
        crate::amp::zero_pair(),
    );
    assert(chosen_index(pre1) == chosen_index(pre2));
    if targets.len() > 0 && !crate::amp::dev_exceeds_of(norm_sum(pre1).0, None) && !(qual_indices(
        pre1,
        len,
    ).len() == 0 || crate::amp::below_tol_of(total_score_upto(pre1, len).0)) {
        assert(bits_of(post1) =~= bits_of(post2));
    } else {
        assert(bits_of(post1) =~= bits_of(pre1));
        assert(bits_of(post2) =~= bits_of(pre2));
    }
}

/// Extraction of one unit's bit from a basis index that is a single unit
/// mask: one for that unit, zero for every other.
proof fn lemma_mask_bit(n: nat, ti: int, idx: int)
    requires
        0 <= ti < n,
        0 <= idx < n,
        n < 32,
    ensures
        outcome_bit((1usize << ((n - 1 - ti) as usize)) as usize, n, idx) == (if idx == ti {
            1u64
        } else {
            0u64
        }),
{
    let sh_t = (n - 1 - ti) as usize;
    let sh_i = (n - 1 - idx) as usize;
    if idx == ti {
        assert(((1usize << sh_t) >> sh_t) & 1usize == 1usize) by (bit_vector)
            requires
                sh_t < 32usize,
        ;
    } else {
        assert(((1usize << sh_t) >> sh_i) & 1usize == 0usize) by (bit_vector)
            requires
                sh_t < 32usize,
                sh_i < 32usize,
                sh_t != sh_i,
        ;
    }
}

/// Distinct units of the sorted unit list sit at distinct indices.
proof fn lemma_unit_index_distinct(units: Seq<QduId>, a: QduId, b: QduId)
    requires
        crate::idset::sorted_unique(units),
        units.contains(a),
        units.contains(b),
        a != b,
    ensures
        0 <= unit_index(units, a) < units.len(),
        0 <= unit_index(units, b) < units.len(),
        unit_index(units, a) != unit_index(units, b),
{
    let ia = unit_index(units, a);
    let ib = unit_index(units, b);
    assert(units[ia] == a && 0 <= ia < units.len());
    assert(units[ib] == b && 0 <= ib < units.len());
}

/// The position of a contained unit is inside the list.
proof fn lemma_unit_index_in_range(units: Seq<QduId>, a: QduId)
    requires
        units.contains(a),
    ensures
        0 <= unit_index(units, a) < units.len(),
        units[unit_index(units, a)] == a,
{
    let ia = unit_index(units, a);
    assert(units[ia] == a && 0 <= ia < units.len());
}

/// Applying the bit-flip pattern to one unit of the all-zero basis state
/// and then stabilizing yields one for that unit and zero for every other
/// stabilized unit.
pub proof fn law_flip_then_stabilize(
    units: Seq<QduId>,
    n: nat,
    v0: Seq<Amp>,
    v1: Seq<Amp>,
    v2: Seq<Amp>,
    target: QduId,
    pattern_id: String,
    targets: Seq<QduId>,
    m0: Map<QduId, StableState>,
    m1: Map<QduId, StableState>,
    r1: Result<(), OnqError>,
    r2: Result<(), OnqError>,
)
    requires
        n == units.len(),
        1 <= n < 32,
        crate::idset::sorted_unique(units),
        units.contains(target),
        one_hot_at(v0, 0),
        pattern_id@ == "QualityFlip"@,
        crate::simulation::engine::basis_transport(
            units,
            n,
            v0,
            v1,
            Operation::InteractionPattern { target, pattern_id },
            r1,
        ),
        r1 is Ok,
        v2.len() == v1.len(),
        stab_post(units, n, v1, v2, targets, m0, m1, r2),
        targets.len() > 0,
        forall|t: int| 0 <= t < targets.len() ==> units.contains(#[trigger] targets[t]),
    ensures
        r2 is Ok,
        forall|t: int|
            0 <= t < targets.len() ==> m1.contains_key(#[trigger] targets[t]) && m1[targets[t]]
                == StableState::ResolvedQuality(
                if targets[t] == target {
                    1u64
                } else {
                    0u64
                },
            ),
{
    lemma_unit_index_in_range(units, target);
    let ti = unit_index(units, target);
    let mask = 1usize << ((n - 1 - ti) as usize);
    assert((0usize ^ mask) == mask) by (bit_vector);
    assert(one_hot_at(v1, mask as int));
    law_pure_basis_stabilization(units, n, v1, v2, targets, m0, m1, r2, mask as int);
    assert forall|t: int| 0 <= t < targets.len() implies m1.contains_key(#[trigger] targets[t])
        && m1[targets[t]] == StableState::ResolvedQuality(
        if targets[t] == target {
            1u64
        } else {
            0u64
        },
    ) by {
        lemma_unit_index_in_range(units, targets[t]);
        let idx = unit_index(units, targets[t]);
        if targets[t] == target {
            lemma_mask_bit(n, ti, ti);
        } else {
            lemma_unit_index_distinct(units, targets[t], target);
            lemma_mask_bit(n, ti, idx);
        }
    }
}

/// A controlled flip with its control unit at zero leaves a pure basis
/// state untouched, so the stabilized outcomes are exactly those of the
/// unchanged state; with the control at one it flips exactly the target
/// unit's bit.
pub proof fn law_controlled_flip_on_basis(
    units: Seq<QduId>,
    n: nat,
    pre: Seq<Amp>,
    post: Seq<Amp>,
    control: QduId,
    target: QduId,
    pattern_id: String,
    r: Result<(), OnqError>,
    c: int,
)
    requires
        n == units.len(),
        1 <= n < 32,
        crate::idset::sorted_unique(units),
        units.contains(control),
        units.contains(target),
        one_hot_at(pre, c),
        pattern_id@ == "QualityFlip"@,
        crate::simulation::engine::basis_transport(
            units,
            n,
            pre,
            post,
            Operation::ControlledInteraction { control, target, pattern_id },
            r,
        ),
        r is Ok,
    ensures
        ({
            let cm = 1usize << ((n - 1 - unit_index(units, control)) as usize);
            let tm = 1usize << ((n - 1 - unit_index(units, target)) as usize);
            &&& ((c as usize) & cm == 0 ==> one_hot_at(post, c))
            &&& ((c as usize) & cm != 0 ==> one_hot_at(post, ((c as usize) ^ tm) as int))
        }),
{
}

/// An interaction pattern outside the closed catalog always fails with
/// `InvalidOperation` and leaves the state untouched, whatever the state.
pub proof fn law_unknown_pattern_rejected(
    units: Seq<QduId>,
    n: nat,
    pre: Seq<Amp>,
    post: Seq<Amp>,
    target: QduId,
    pattern_id: String,
    r: Result<(), OnqError>,
)
    requires
        apply_post(
            units,
            n,
            pre,
            post,
            Operation::InteractionPattern { target, pattern_id },
            r,
        ),
        units.contains(target),
        pattern_mat_bits(pattern_id@) is None,
    ensures
        r matches Err(e) && e is InvalidOperation,
        post == pre,
{
}

/// The conditional-flip construction always yields complementary
/// outcomes: from the all-zero state, put one unit into equal
/// superposition and stabilize it; flip a second unit exactly when the
/// recorded outcome was zero, and stabilize that unit.  Whatever the
/// superposition resolved to, the second unit's outcome is the logical
/// complement of the first's: the superposition cannot create support
/// outside its own unit's axis, so the collapse lands on a basis state
/// whose other bits are still zero.
pub proof fn law_conditional_flip_complement(
    units: Seq<QduId>,
    n: nat,
    v0: Seq<Amp>,
    v1: Seq<Amp>,
    v2: Seq<Amp>,
    v3: Seq<Amp>,
    v4: Seq<Amp>,
    qa: QduId,
    qb: QduId,
    p_sup: String,
    p_flip: String,
    m1map: Map<QduId, StableState>,
    m2map: Map<QduId, StableState>,
    r_sup: Result<(), OnqError>,
    r_stab1: Result<(), OnqError>,
    r_flip: Result<(), OnqError>,
    r_stab2: Result<(), OnqError>,
)
    requires
        n == units.len(),
        1 <= n < 32,
        crate::idset::sorted_unique(units),
        units.contains(qa),
        units.contains(qb),
        qa != qb,
        v0.len() == (1usize << (n as usize)),
        v1.len() == v0.len(),
        v2.len() == v1.len(),
        v3.len() == v2.len(),
        v4.len() == v3.len(),
        one_hot_at(v0, 0),
        p_sup@ == "Superposition"@,
        p_flip@ == "QualityFlip"@,
        crate::simulation::engine::sup_support_transport(
            units,
            n,
            v0,
            v1,
            Operation::InteractionPattern { target: qa, pattern_id: p_sup },
            r_sup,
        ),
        r_sup is Ok,
        stab_post(units, n, v1, v2, seq![qa], Map::<QduId, StableState>::empty(), m1map, r_stab1),
        r_stab1 is Ok,
        m1map.contains_key(qa) ==> ({
            let m0 = m1map[qa]->ResolvedQuality_0;
            &&& (m0 == 0 ==> crate::simulation::engine::basis_transport(
                units,
                n,
                v2,
                v3,
                Operation::InteractionPattern { target: qb, pattern_id: p_flip },
                r_flip,
            ) && r_flip is Ok)
            &&& (m0 != 0 ==> v3 == v2)
        }),
        stab_post(units, n, v3, v4, seq![qb], Map::<QduId, StableState>::empty(), m2map, r_stab2),
    ensures
        r_stab2 is Ok,
        m1map.contains_key(qa),
        m2map.contains_key(qb),
        m1map[qa]->ResolvedQuality_0 == 0 || m1map[qa]->ResolvedQuality_0 == 1,
        m2map[qb]->ResolvedQuality_0 == 1 - m1map[qa]->ResolvedQuality_0,
{
    let len = v0.len() as int;
    lemma_unit_index_in_range(units, qa);
    lemma_unit_index_in_range(units, qb);
    lemma_unit_index_distinct(units, qa, qb);
    let ia = unit_index(units, qa);
    let ib = unit_index(units, qb);
    let sh_a = (n - 1 - ia) as usize;
    let sh_b = (n - 1 - ib) as usize;
    let mask_a = 1usize << sh_a;
    let mask_b = 1usize << sh_b;
    let nn: usize = n as usize;
    assert(mask_a < (1usize << nn) && mask_a != 0usize && mask_b < (1usize << nn) && (0usize
        ^ mask_b) == mask_b) by (bit_vector)
        requires
            mask_a == 1usize << sh_a,
            mask_b == 1usize << sh_b,
            sh_a < nn,
            sh_b < nn,
            nn < 32usize,
    ;
    assert(v0.len() == (1usize << nn));
    // The superposition leaves every position off the superposed unit's
    // axis an exact zero.
    assert forall|j: usize|
        j < v1.len() && j != 0 && j != mask_a implies crate::amp::is_zero_pair(
        amp_bits(#[trigger] v1[j as int]),
    ) by {
        assert((j ^ mask_a) < (1usize << nn) && ((j ^ mask_a) == 0usize <==> j == mask_a))
            by (bit_vector)
            requires
                mask_a == 1usize << sh_a,
                sh_a < nn,
                nn < 32usize,
                j < (1usize << nn),
        ;
        assert(crate::amp::is_zero_pair(amp_bits(v0[j as int])));
        assert(crate::amp::is_zero_pair(amp_bits(v0[(j ^ mask_a) as int])));
    }
    // The first stabilization succeeded, so the state was normalized and
    // some outcome qualified; exact zeros never qualify, so the chosen
    // basis state lies on the superposed unit's axis.
    assert(!crate::amp::dev_exceeds_of(norm_sum(v1).0, None));
    assert(qual_indices(v1, len).len() > 0);
    lemma_chosen_in_qual(v1);
    lemma_qual_in_range(v1, len);
    let ch = chosen_index(v1);
    let q = qual_indices(v1, len);
    let t0 = choose|t: int| 0 <= t < q.len() && q[t] == ch;
    assert(0 <= ch < len && qualifies(v1[ch]));
    assert(ch == 0 || ch == mask_a as int) by {
        if ch != 0 && ch != mask_a as int {
            assert(crate::amp::is_zero_pair(amp_bits(v1[ch])));
        }
    }
    // The recorded outcome of the superposed unit.
    assert(seq![qa][0] == qa);
    lemma_all_targets_recorded(units, seq![qa], 0);
    lemma_recorded_value(
        Map::<QduId, StableState>::empty(),
        units,
        seq![qa],
        1,
        ch as usize,
        n,
        0,
    );
    assert(m1map.contains_key(qa) && m1map[qa] == StableState::ResolvedQuality(
        outcome_bit(ch as usize, n, ia),
    ));
    assert(((0usize >> sh_a) & 1usize) == 0usize) by (bit_vector);
    lemma_mask_bit(n, ia, ia);
    let m0 = m1map[qa]->ResolvedQuality_0;
    assert(m0 == (if ch == 0 {
        0u64
    } else {
        1u64
    }));
    assert(one_hot_at(v2, ch));
    assert(seq![qb][0] == qb);
    if m0 == 0 {
        assert(one_hot_at(v3, ((0usize) ^ mask_b) as int));
        assert(one_hot_at(v3, mask_b as int));
        law_pure_basis_stabilization(
            units,
            n,
            v3,
            v4,
            seq![qb],
            Map::<QduId, StableState>::empty(),
            m2map,
            r_stab2,
            mask_b as int,
        );
        lemma_mask_bit(n, ib, ib);
        assert(m2map[qb]->ResolvedQuality_0 == 1);
    } else {
        assert(v3 == v2);
        assert(one_hot_at(v3, mask_a as int));
        law_pure_basis_stabilization(
            units,
            n,
            v3,
            v4,
            seq![qb],
            Map::<QduId, StableState>::empty(),
            m2map,
            r_stab2,
            mask_a as int,
        );
        lemma_mask_bit(n, ia, ib);
        assert(m2map[qb]->ResolvedQuality_0 == 0);
    }
}

/// Projecting onto the differing-bits lock target from a state that lies
/// entirely in the agreeing-bits subspace fails with `Instability` and
/// leaves the state untouched.  (Amplitudes must be finite; a state
/// holding an infinity or a not-a-number is out of scope.)
pub proof fn law_zero_overlap_lock_fails(
    units: Seq<QduId>,
    n: nat,
    pre: Seq<Amp>,
    post: Seq<Amp>,
    qdu1: QduId,
    qdu2: QduId,
    r: Result<(), OnqError>,
)
    requires
        n == units.len(),
        1 <= n < 32,
        units.contains(qdu1),
        units.contains(qdu2),
        qdu1 != qdu2,
        apply_post(
            units,
            n,
            pre,
            post,
            Operation::RelationalLock {
                qdu1,
                qdu2,
                lock_type: crate::vm::program::LockType::BellPsiPlus,
                establish: true,
            },
            r,
        ),
        crate::simulation::engine::off_diag_zero(
            pre,
            1usize << ((n - 1 - unit_index(units, qdu1)) as usize),
            1usize << ((n - 1 - unit_index(units, qdu2)) as usize),
        ),
    ensures
        r matches Err(e) && e is Instability,
        post == pre,
{
}

/// A successful projection onto the agreeing-bits lock target from a pure
/// basis state whose two lock bits are zero puts exactly zero at every
/// position other than the two support positions, and bit-identical
/// amplitudes at the two support positions.  (The selection hypothesis on
/// the overlap weight holds whenever the overlap is a qualifying score,
/// as it is on these inputs at run time.)
pub proof fn law_full_overlap_lock_shape(
    units: Seq<QduId>,
    n: nat,
    pre: Seq<Amp>,
    post: Seq<Amp>,
    qdu1: QduId,
    qdu2: QduId,
    r: Result<(), OnqError>,
    c: usize,
)
    requires
        n == units.len(),
        1 <= n < 32,
        units.contains(qdu1),
        units.contains(qdu2),
        qdu1 != qdu2,
        apply_post(
            units,
            n,
            pre,
            post,
            Operation::RelationalLock {
                qdu1,
                qdu2,
                lock_type: crate::vm::program::LockType::BellPhiPlus,
                establish: true,
            },
            r,
        ),
        r is Ok,
        post.len() == pre.len(),
        one_hot_at(pre, c as int),
        c & (1usize << ((n - 1 - unit_index(units, qdu1)) as usize)) == 0,
        c & (1usize << ((n - 1 - unit_index(units, qdu2)) as usize)) == 0,
        crate::amp::passes_tol_of(
            crate::amp::norm_sq_of(
                crate::simulation::engine::total_overlap(
                    pre,
                    crate::simulation::engine::bell_bits(
                        crate::vm::program::LockType::BellPhiPlus,
                    ),
                    (n - 1 - unit_index(units, qdu1)) as usize,
                    (n - 1 - unit_index(units, qdu2)) as usize,
                    1usize << ((n - 1 - unit_index(units, qdu1)) as usize),
                    1usize << ((n - 1 - unit_index(units, qdu2)) as usize),
                    n,
                ),
            ),
        ),
    ensures
        ({
            let k1m = 1usize << ((n - 1 - unit_index(units, qdu1)) as usize);
            let k2m = 1usize << ((n - 1 - unit_index(units, qdu2)) as usize);
            &&& forall|j: int|
                0 <= j < post.len() && j != c as int && j != (c | k1m | k2m) as int
                    ==> crate::amp::is_zero_pair(amp_bits(#[trigger] post[j]))
            &&& (c | k1m | k2m) < post.len() ==> amp_bits(post[c as int]) == amp_bits(
                post[(c | k1m | k2m) as int],
            )
        }),
{
    let k1m = 1usize << ((n - 1 - unit_index(units, qdu1)) as usize);
    let k2m = 1usize << ((n - 1 - unit_index(units, qdu2)) as usize);
    assert(crate::simulation::engine::proj_prefix(
        post,
        c as int,
        (c | k1m | k2m) as int,
        crate::amp::c_mul_of(
            crate::amp::c_mul_of(
                crate::simulation::engine::bell_bits(
                    crate::vm::program::LockType::BellPhiPlus,
                ).q0,
                crate::simulation::engine::bell_bits(
                    crate::vm::program::LockType::BellPhiPlus,
                ).q0,
            ),
            (
                crate::amp::recip_sqrt_of(
                    crate::amp::norm_sq_of(
                        crate::simulation::engine::total_overlap(
                            pre,
                            crate::simulation::engine::bell_bits(
                                crate::vm::program::LockType::BellPhiPlus,
                            ),
                            (n - 1 - unit_index(units, qdu1)) as usize,
                            (n - 1 - unit_index(units, qdu2)) as usize,
                            k1m,
                            k2m,
                            n,
                        ),
                    ),
                ),
                crate::amp::ZERO_BITS,
            ),
        ),
    ));
}

/// A program whose jumps all resolved at build time never fails a jump or
/// branch at run time.
pub proof fn law_defined_labels_never_fail(
    instrs: Seq<Instruction>,
    labels: Map<Seq<char>, usize>,
    units: Seq<QduId>,
    n: nat,
    s: VmSpec,
)
    requires
        labels_defined(instrs, labels),
        0 <= s.pc < instrs.len(),
        instrs[s.pc] is Jump || instrs[s.pc] is BranchIfZero,
    ensures
        forall|e: OnqError| !#[trigger] vm_step_err(instrs, labels, units, n, s, e),
{
    assert(jump_ok(instrs[s.pc], labels));
    assert forall|e: OnqError| !#[trigger] vm_step_err(instrs, labels, units, n, s, e) by {}
}

} // verus!
