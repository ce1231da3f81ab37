//! The simulation engine: holds the joint amplitude vector and applies
//! gate application, subspace projection and stabilization to it.
//!
//! Every numeric step goes through the trusted scalar operations of
//! [`crate::amp`], whose results are pinned by uninterpreted names; the
//! contracts here therefore describe each transformation exactly, as a
//! mathematical function of the amplitude bits that flow in.

use crate::amp::amp_add;
use crate::amp::amp_bits;
use crate::amp::c_add_of;
use crate::amp::c_mul_of;
use crate::amp::zero_pair;
use crate::amp::amp_complex;
use crate::amp::amp_conj;
use crate::amp::amp_cos;
use crate::amp::amp_mul;
use crate::amp::amp_neg;
use crate::amp::amp_norm_sqr;
use crate::amp::amp_ratio;
use crate::amp::amp_real_div;
use crate::amp::amp_scale;
use crate::amp::amp_sin;
use crate::amp::append_str;
use crate::amp::cos_of;
use crate::amp::ratio_bits_of;
use crate::amp::scale_of;
use crate::amp::sin_of;
use crate::amp::Amp;
use crate::amp::NEG_ZERO_BITS;
use crate::amp::ONE_BITS;
use crate::amp::ZERO_BITS;
use crate::base::error::OnqError;
use crate::base::error::QduId;
use crate::base::state::PotentialityState;
use crate::operations::Operation;
use crate::vm::program::LockType;
use crate::idset::index_of;
use crate::idset::insert_id;
use crate::idset::sorted_unique;
use std::hash::Hasher;
use vstd::prelude::*;

verus! {

/// The bit pairs of a two-by-two complex matrix, row by row.
pub struct Mat2Bits {
    /// Row 0, column 0.
    pub m00: (u64, u64),
    /// Row 0, column 1.
    pub m01: (u64, u64),
    /// Row 1, column 0.
    pub m10: (u64, u64),
    /// Row 1, column 1.
    pub m11: (u64, u64),
}

/// A two-by-two complex matrix over one unit's basis.
pub struct Mat2 {
    /// Row 0, column 0.
    pub m00: Amp,
    /// Row 0, column 1.
    pub m01: Amp,
    /// Row 1, column 0.
    pub m10: Amp,
    /// Row 1, column 1.
    pub m11: Amp,
}

/// The bit pairs of a matrix, for specifications.
pub open spec fn mat2_bits(m: Mat2) -> Mat2Bits {
    Mat2Bits { m00: m.m00@, m01: m.m01@, m10: m.m10@, m11: m.m11@ }
}

/// True when a string holds exactly the given literal text.
pub fn str_is(s: &String, lit: &str) -> (r: bool)
    ensures
        r == (s@ == lit@),
{
    let owned: String = lit.to_owned();
    *s == owned
}

/// The bits of the superposition coefficient `1/sqrt(2)`, written as the
/// exact dyadic rational it denotes in floating point.
pub open spec fn sup_coeff() -> u64 {
    ratio_bits_of(6369051672525773, 9007199254740992)
}

/// The bits of one half.
pub open spec fn half_coeff() -> u64 {
    ratio_bits_of(1, 2)
}

/// The bits of the half rotation angle `(pi / phi) / 2` used by the
/// golden-ratio rotations.
pub open spec fn phi_half_angle() -> u64 {
    crate::amp::real_div_of(
        crate::amp::real_div_of(
            ratio_bits_of(7074237752028440, 2251799813685248),
            ratio_bits_of(7286977268806824, 4503599627370496),
        ),
        ratio_bits_of(2, 1),
    )
}

/// Negates the real part of a bit pair (flips its sign bit).
pub open spec fn neg_re(x: u64) -> u64 {
    x ^ NEG_ZERO_BITS
}

/// The matrix that leaves a unit untouched.
pub open spec fn id_mat_bits() -> Mat2Bits {
    Mat2Bits {
        m00: (ONE_BITS, ZERO_BITS),
        m01: (ZERO_BITS, ZERO_BITS),
        m10: (ZERO_BITS, ZERO_BITS),
        m11: (ONE_BITS, ZERO_BITS),
    }
}

/// The matrix that swaps a unit's two qualities.
pub open spec fn flip_mat_bits() -> Mat2Bits {
    Mat2Bits {
        m00: (ZERO_BITS, ZERO_BITS),
        m01: (ONE_BITS, ZERO_BITS),
        m10: (ONE_BITS, ZERO_BITS),
        m11: (ZERO_BITS, ZERO_BITS),
    }
}

/// All four entries of a matrix are finite.
pub open spec fn finite_mat2(m: Mat2Bits) -> bool {
    &&& crate::amp::finite_pair_of(m.m00)
    &&& crate::amp::finite_pair_of(m.m01)
    &&& crate::amp::finite_pair_of(m.m10)
    &&& crate::amp::finite_pair_of(m.m11)
}

/// The matrix of a named interaction pattern, or `None` for a name outside
/// the closed catalog.
pub open spec fn pattern_mat_bits(name: Seq<char>) -> Option<Mat2Bits> {
    if name == "Identity"@ {
        Some(id_mat_bits())
    } else if name == "QualityFlip"@ {
        Some(flip_mat_bits())
    } else if name == "PhaseIntroduce"@ {
        Some(
            Mat2Bits {
                m00: (ONE_BITS, ZERO_BITS),
                m01: (ZERO_BITS, ZERO_BITS),
                m10: (ZERO_BITS, ZERO_BITS),
                m11: (neg_re(ONE_BITS), ZERO_BITS),
            },
        )
    } else if name == "Superposition"@ {
        Some(
            Mat2Bits {
                m00: (sup_coeff(), ZERO_BITS),
                m01: (sup_coeff(), ZERO_BITS),
                m10: (sup_coeff(), ZERO_BITS),
                m11: (neg_re(sup_coeff()), ZERO_BITS),
            },
        )
    } else if name == "PhiRotate"@ {
        Some(
            Mat2Bits {
                m00: (cos_of(phi_half_angle()), ZERO_BITS),
                m01: (neg_re(sin_of(phi_half_angle())), ZERO_BITS),
                m10: (sin_of(phi_half_angle()), ZERO_BITS),
                m11: (cos_of(phi_half_angle()), ZERO_BITS),
            },
        )
    } else if name == "PhiXRotate"@ {
        Some(
            Mat2Bits {
                m00: (cos_of(phi_half_angle()), ZERO_BITS),
                m01: scale_of(
                    (neg_re(ZERO_BITS), neg_re(ONE_BITS)),
                    sin_of(phi_half_angle()),
                ),
                m10: scale_of(
                    (neg_re(ZERO_BITS), neg_re(ONE_BITS)),
                    sin_of(phi_half_angle()),
                ),
                m11: (cos_of(phi_half_angle()), ZERO_BITS),
            },
        )
    } else if name == "SqrtFlip"@ {
        Some(
            Mat2Bits {
                m00: (half_coeff(), half_coeff()),
                m01: (half_coeff(), neg_re(half_coeff())),
                m10: (half_coeff(), neg_re(half_coeff())),
                m11: (half_coeff(), half_coeff()),
            },
        )
    } else if name == "SqrtFlip_Inv"@ {
        Some(
            Mat2Bits {
                m00: (half_coeff(), neg_re(half_coeff())),
                m01: (half_coeff(), half_coeff()),
                m10: (half_coeff(), half_coeff()),
                m11: (half_coeff(), neg_re(half_coeff())),
            },
        )
    } else if name == "HalfPhase"@ {
        Some(
            Mat2Bits {
                m00: (ONE_BITS, ZERO_BITS),
                m01: (ZERO_BITS, ZERO_BITS),
                m10: (ZERO_BITS, ZERO_BITS),
                m11: (ZERO_BITS, ONE_BITS),
            },
        )
    } else if name == "QualitativeY"@ {
        Some(
            Mat2Bits {
                m00: (ZERO_BITS, ZERO_BITS),
                m01: (neg_re(ZERO_BITS), neg_re(ONE_BITS)),
                m10: (ZERO_BITS, ONE_BITS),
                m11: (ZERO_BITS, ZERO_BITS),
            },
        )
    } else if name == "QuarterPhase"@ {
        Some(
            Mat2Bits {
                m00: (ONE_BITS, ZERO_BITS),
                m01: (ZERO_BITS, ZERO_BITS),
                m10: (ZERO_BITS, ZERO_BITS),
                m11: (sup_coeff(), sup_coeff()),
            },
        )
    } else if name == "HalfPhase_Inv"@ {
        Some(
            Mat2Bits {
                m00: (ONE_BITS, ZERO_BITS),
                m01: (ZERO_BITS, ZERO_BITS),
                m10: (ZERO_BITS, ZERO_BITS),
                m11: (neg_re(ZERO_BITS), neg_re(ONE_BITS)),
            },
        )
    } else if name == "QuarterPhase_Inv"@ {
        Some(
            Mat2Bits {
                m00: (ONE_BITS, ZERO_BITS),
                m01: (ZERO_BITS, ZERO_BITS),
                m10: (ZERO_BITS, ZERO_BITS),
                m11: (sup_coeff(), neg_re(sup_coeff())),
            },
        )
    } else {
        None
    }
}

/// The core simulation engine: the unit-to-index assignment (the position
/// of an identifier in the sorted unit list is its engine index) and the
/// joint amplitude vector over all units.
pub struct SimulationEngine {
    units: Vec<QduId>,
    global_state: PotentialityState,
    num_qdus: usize,
}

impl SimulationEngine {
    /// The sorted unit list, for specifications.
    pub closed spec fn unit_seq(&self) -> Seq<QduId> {
        self.units@
    }

    /// The amplitude vector, for specifications.
    pub closed spec fn state(&self) -> Seq<Amp> {
        self.global_state@
    }

    /// The number of simulated units, for specifications.
    pub closed spec fn n(&self) -> nat {
        self.num_qdus as nat
    }

    /// The engine's shape invariant: at least one unit, the unit list
    /// sorted and duplicate-free, and the vector of dimension two to the
    /// number of units.
    pub open spec fn wf(&self) -> bool {
        &&& 1 <= self.n() < 32
        &&& self.unit_seq().len() == self.n()
        &&& sorted_unique(self.unit_seq())
        &&& self.state().len() == (1usize << self.n() as usize)
    }

    /// Initializes the engine for the given units: each distinct unit gets
    /// the index of its identifier in sorted order, and the state becomes
    /// the all-zero basis state (amplitude one at index zero).  Fails with
    /// `InvalidOperation` when no units are given, and with
    /// `SimulationError` when the dimension would overflow the index
    /// range; the bound is thirty-two distinct units, the conservative
    /// machine limit (the verifier covers targets whose index type has
    /// thirty-two bits, and a larger vector could not be allocated in
    /// any case).
    pub fn init(qdu_ids: &Vec<QduId>) -> (r: Result<Self, OnqError>)
        ensures
            match r {
                Ok(engine) => {
                    &&& qdu_ids@.len() > 0
                    &&& engine.wf()
                    &&& sorted_unique(engine.unit_seq())
                    &&& forall|x: QduId|
                        #[trigger] engine.unit_seq().contains(x) <==> qdu_ids@.contains(x)
                    &&& forall|j: int|
                        0 <= j < engine.state().len() ==> amp_bits(#[trigger] engine.state()[j])
                            == (if j == 0 {
                            (ONE_BITS, ZERO_BITS)
                        } else {
                            (ZERO_BITS, ZERO_BITS)
                        })
                    &&& forall|j: int|
                        0 <= j < engine.state().len() ==> crate::amp::finite_pair_of(
                            amp_bits(#[trigger] engine.state()[j]),
                        )
                },
                Err(e) => {
                    (e is InvalidOperation && qdu_ids@.len() == 0) || (e is SimulationError
                        && qdu_ids@.len() > 0 && crate::idset::distinct_at_least(qdu_ids@, 32))
                },
            },
    {
        if qdu_ids.len() == 0 {
            return Err(
                OnqError::InvalidOperation {
                    message: "Cannot initialize simulation engine with zero QDUs".to_owned(),
                },
            );
        }
        let mut units: Vec<QduId> = Vec::new();
        let mut k: usize = 0;
        while k < qdu_ids.len()
            invariant
                k <= qdu_ids@.len(),
                sorted_unique(units@),
                forall|x: QduId| #[trigger] units@.contains(x) <==> qdu_ids@.subrange(
                    0,
                    k as int,
                ).contains(x),
            decreases qdu_ids@.len() - k,
        {
            let id = qdu_ids[k];
            insert_id(&mut units, id);
            proof {
                let sub = qdu_ids@.subrange(0, k + 1);
                assert(sub.drop_last() =~= qdu_ids@.subrange(0, k as int));
                assert(sub.last() == qdu_ids@[k as int]);
                assert forall|x: QduId| #[trigger] sub.contains(x) implies (qdu_ids@.subrange(
                    0,
                    k as int,
                ).contains(x) || x == qdu_ids@[k as int]) by {
                    let i = choose|i: int| 0 <= i < sub.len() && sub[i] == x;
                    if i < k {
                        assert(qdu_ids@.subrange(0, k as int)[i] == x);
                    }
                }
                assert forall|x: QduId|
                    (qdu_ids@.subrange(0, k as int).contains(x) || x == qdu_ids@[k as int])
                    implies #[trigger] sub.contains(x) by {
                    if qdu_ids@.subrange(0, k as int).contains(x) {
                        let i = choose|i: int|
                            0 <= i < k && qdu_ids@.subrange(0, k as int)[i] == x;
                        assert(sub[i] == x);
                    } else {
                        assert(sub[k as int] == x);
                    }
                }
            }
            k = k + 1;
        }
        proof {
            assert(qdu_ids@.subrange(0, qdu_ids@.len() as int) =~= qdu_ids@);
            assert(qdu_ids@.contains(qdu_ids@[0]));
            assert(units@.len() > 0) by {
                assert(units@.contains(qdu_ids@[0]));
            }
        }
        let num_qdus = units.len();
        if num_qdus >= 32 {
            proof {
                assert(crate::idset::distinct_at_least(qdu_ids@, 32)) by {
                    assert(sorted_unique(units@) && (forall|x: QduId|
                        units@.contains(x) <==> qdu_ids@.contains(x)) && units@.len() >= 32);
                }
            }
            return Err(
                OnqError::SimulationError {
                    message:
                        "Too many distinct QDUs: the state vector dimension overflows the addressable index range.".to_owned(),
                },
            );
        }
        let dim: usize = 1usize << num_qdus;
        proof {
            assert(dim > 0) by (bit_vector)
                requires
                    dim == 1usize << num_qdus,
                    num_qdus < 32usize,
            ;
        }
        let mut initial_vec: Vec<Amp> = Vec::new();
        let one = Amp::one();
        let zero = Amp::zero();
        let mut j: usize = 0;
        while j < dim
            invariant
                j <= dim,
                initial_vec@.len() == j,
                one@ == (ONE_BITS, ZERO_BITS),
                zero@ == (ZERO_BITS, ZERO_BITS),
                crate::amp::finite_pair_of(one@),
                crate::amp::finite_pair_of(zero@),
                forall|i: int|
                    0 <= i < j ==> amp_bits(#[trigger] initial_vec@[i]) == (if i == 0 {
                        (ONE_BITS, ZERO_BITS)
                    } else {
                        (ZERO_BITS, ZERO_BITS)
                    }),
                forall|i: int|
                    0 <= i < j ==> crate::amp::finite_pair_of(
                        amp_bits(#[trigger] initial_vec@[i]),
                    ),
            decreases dim - j,
        {
            if j == 0 {
                initial_vec.push(one);
            } else {
                initial_vec.push(zero);
            }
            j = j + 1;
        }
        Ok(
            Self {
                units,
                global_state: PotentialityState::new(initial_vec),
                num_qdus,
            },
        )
    }

    /// The current potentiality state.
    pub fn get_state(&self) -> (r: &PotentialityState)
        ensures
            r@ == self.state(),
    {
        &self.global_state
    }

    /// Replaces the state wholesale; fails with `SimulationError` when the
    /// dimensions do not agree.
    pub fn set_state(&mut self, state: PotentialityState) -> (r: Result<(), OnqError>)
        ensures
            match r {
                Ok(()) => state@.len() == old(self).state().len() && final(self).state() == state@
                    && final(self).unit_seq() == old(self).unit_seq() && final(self).n()
                    == old(self).n(),
                Err(e) => e is SimulationError && state@.len() != old(self).state().len()
                    && *final(self) == *old(self),
            },
    {
        if state.dim() != self.global_state.dim() {
            Err(
                OnqError::SimulationError {
                    message: "Cannot set state: provided dimension does not match engine dimension".to_owned(),
                },
            )
        } else {
            self.global_state = state;
            Ok(())
        }
    }

    /// The engine index of a unit, or `ReferenceViolation` for a unit
    /// outside this engine's context.
    pub fn get_qdu_index(&self, qdu_id: &QduId) -> (r: Result<usize, OnqError>)
        ensures
            match r {
                Ok(i) => i < self.unit_seq().len() && self.unit_seq()[i as int] == *qdu_id,
                Err(e) => e is ReferenceViolation && !self.unit_seq().contains(*qdu_id),
            },
    {
        match index_of(&self.units, qdu_id) {
            Some(i) => Ok(i),
            None => {
                let mut msg = String::new();
                msg = append_str(&msg, "QDU ");
                msg = append_str(&msg, crate::amp::u64_string(qdu_id.0).as_str());
                msg = append_str(&msg, " not found in simulation context");
                Err(OnqError::ReferenceViolation { message: msg })
            },
        }
    }

    /// The matrix of a named interaction pattern from the closed catalog;
    /// any other name fails with `InvalidOperation`.
    pub fn get_interaction_matrix(&self, pattern_id: &String) -> (r: Result<Mat2, OnqError>)
        ensures
            match r {
                Ok(m) => pattern_mat_bits(pattern_id@) == Some(mat2_bits(m)) && (pattern_id@
                    == "Superposition"@ ==> finite_mat2(mat2_bits(m))),
                Err(e) => e is InvalidOperation && pattern_mat_bits(pattern_id@) is None,
            },
    {
        let one = Amp::one();
        let zero = Amp::zero();
        if str_is(pattern_id, "Identity") {
            Ok(Mat2 { m00: one, m01: zero, m10: zero, m11: one })
        } else if str_is(pattern_id, "QualityFlip") {
            Ok(Mat2 { m00: zero, m01: one, m10: one, m11: zero })
        } else if str_is(pattern_id, "PhaseIntroduce") {
            Ok(Mat2 { m00: one, m01: zero, m10: zero, m11: amp_complex(&amp_neg(&one), &zero) })
        } else if str_is(pattern_id, "Superposition") {
            let f = amp_ratio(6369051672525773, 9007199254740992);
            let m11 = amp_complex(&amp_neg(&f), &zero);
            proof {
                assert(crate::amp::finite_pair_of(m11@));
            }
            Ok(Mat2 { m00: f, m01: f, m10: f, m11 })
        } else if str_is(pattern_id, "PhiRotate") {
            let (cos_a, sin_a) = Self::phi_half_parts();
            Ok(
                Mat2 {
                    m00: cos_a,
                    m01: amp_complex(&amp_neg(&sin_a), &zero),
                    m10: sin_a,
                    m11: cos_a,
                },
            )
        } else if str_is(pattern_id, "PhiXRotate") {
            let (cos_a, sin_a) = Self::phi_half_parts();
            let mi = amp_neg(&Amp::i());
            Ok(
                Mat2 {
                    m00: cos_a,
                    m01: amp_scale(&mi, &sin_a),
                    m10: amp_scale(&mi, &sin_a),
                    m11: cos_a,
                },
            )
        } else if str_is(pattern_id, "SqrtFlip") {
            let h = amp_ratio(1, 2);
            let neg_h = amp_neg(&h);
            Ok(
                Mat2 {
                    m00: amp_complex(&h, &h),
                    m01: amp_complex(&h, &neg_h),
                    m10: amp_complex(&h, &neg_h),
                    m11: amp_complex(&h, &h),
                },
            )
        } else if str_is(pattern_id, "SqrtFlip_Inv") {
            let h = amp_ratio(1, 2);
            let neg_h = amp_neg(&h);
            Ok(
                Mat2 {
                    m00: amp_complex(&h, &neg_h),
                    m01: amp_complex(&h, &h),
                    m10: amp_complex(&h, &h),
                    m11: amp_complex(&h, &neg_h),
                },
            )
        } else if str_is(pattern_id, "HalfPhase") {
            Ok(Mat2 { m00: one, m01: zero, m10: zero, m11: Amp::i() })
        } else if str_is(pattern_id, "QualitativeY") {
            Ok(
                Mat2 {
                    m00: zero,
                    m01: amp_neg(&Amp::i()),
                    m10: Amp::i(),
                    m11: zero,
                },
            )
        } else if str_is(pattern_id, "QuarterPhase") {
            let f = amp_ratio(6369051672525773, 9007199254740992);
            Ok(Mat2 { m00: one, m01: zero, m10: zero, m11: amp_complex(&f, &f) })
        } else if str_is(pattern_id, "HalfPhase_Inv") {
            Ok(Mat2 { m00: one, m01: zero, m10: zero, m11: amp_neg(&Amp::i()) })
        } else if str_is(pattern_id, "QuarterPhase_Inv") {
            let f = amp_ratio(6369051672525773, 9007199254740992);
            Ok(
                Mat2 {
                    m00: one,
                    m01: zero,
                    m10: zero,
                    m11: amp_complex(&f, &amp_neg(&f)),
                },
            )
        } else {
            let mut msg = String::new();
            msg = append_str(&msg, "Interaction Pattern '");
            msg = append_str(&msg, pattern_id.as_str());
            msg = append_str(&msg, "' is not defined or derived yet");
            Err(OnqError::InvalidOperation { message: msg })
        }
    }

    /// The cosine and sine of the golden-ratio half angle.
    fn phi_half_parts() -> (r: (Amp, Amp))
        ensures
            r.0@ == (cos_of(phi_half_angle()), ZERO_BITS),
            r.1@ == (sin_of(phi_half_angle()), ZERO_BITS),
    {
        let pi = amp_ratio(7074237752028440, 2251799813685248);
        let phi = amp_ratio(7286977268806824, 4503599627370496);
        let theta = amp_real_div(&pi, &phi);
        let two = amp_ratio(2, 1);
        let half = amp_real_div(&theta, &two);
        (amp_cos(&half), amp_sin(&half))
    }
}

/// The matrix of a phase shift: identity on `Quality0`, the phase factor
/// `e^(i*theta)` on `Quality1`.
pub open spec fn phase_shift_bits(theta: u64) -> Mat2Bits {
    Mat2Bits {
        m00: (ONE_BITS, ZERO_BITS),
        m01: (ZERO_BITS, ZERO_BITS),
        m10: (ZERO_BITS, ZERO_BITS),
        m11: (cos_of(theta), sin_of(theta)),
    }
}

/// Builds the phase-shift matrix for the angle in the real part of
/// `theta`.
pub fn phase_shift_matrix(theta: &Amp) -> (r: Mat2)
    ensures
        mat2_bits(r) == phase_shift_bits(theta@.0),
{
    let one = Amp::one();
    let zero = Amp::zero();
    let e = amp_complex(&amp_cos(theta), &amp_sin(theta));
    Mat2 { m00: one, m01: zero, m10: zero, m11: e }
}

} // verus!

verus! {

/// The bit pairs of a four-by-four complex matrix, row by row.
pub struct Mat4Bits {
    /// Row 0.
    pub m00: (u64, u64),
    /// Row 0.
    pub m01: (u64, u64),
    /// Row 0.
    pub m02: (u64, u64),
    /// Row 0.
    pub m03: (u64, u64),
    /// Row 1.
    pub m10: (u64, u64),
    /// Row 1.
    pub m11: (u64, u64),
    /// Row 1.
    pub m12: (u64, u64),
    /// Row 1.
    pub m13: (u64, u64),
    /// Row 2.
    pub m20: (u64, u64),
    /// Row 2.
    pub m21: (u64, u64),
    /// Row 2.
    pub m22: (u64, u64),
    /// Row 2.
    pub m23: (u64, u64),
    /// Row 3.
    pub m30: (u64, u64),
    /// Row 3.
    pub m31: (u64, u64),
    /// Row 3.
    pub m32: (u64, u64),
    /// Row 3.
    pub m33: (u64, u64),
}

/// A four-by-four complex matrix over the joint basis of two units,
/// ordered `|00>, |01>, |10>, |11>` with the first unit as the higher bit.
pub struct Mat4 {
    /// Row 0.
    pub m00: Amp,
    /// Row 0.
    pub m01: Amp,
    /// Row 0.
    pub m02: Amp,
    /// Row 0.
    pub m03: Amp,
    /// Row 1.
    pub m10: Amp,
    /// Row 1.
    pub m11: Amp,
    /// Row 1.
    pub m12: Amp,
    /// Row 1.
    pub m13: Amp,
    /// Row 2.
    pub m20: Amp,
    /// Row 2.
    pub m21: Amp,
    /// Row 2.
    pub m22: Amp,
    /// Row 2.
    pub m23: Amp,
    /// Row 3.
    pub m30: Amp,
    /// Row 3.
    pub m31: Amp,
    /// Row 3.
    pub m32: Amp,
    /// Row 3.
    pub m33: Amp,
}

/// The bit pairs of a four-by-four matrix, for specifications.
pub open spec fn mat4_bits(m: Mat4) -> Mat4Bits {
    Mat4Bits {
        m00: m.m00@,
        m01: m.m01@,
        m02: m.m02@,
        m03: m.m03@,
        m10: m.m10@,
        m11: m.m11@,
        m12: m.m12@,
        m13: m.m13@,
        m20: m.m20@,
        m21: m.m21@,
        m22: m.m22@,
        m23: m.m23@,
        m30: m.m30@,
        m31: m.m31@,
        m32: m.m32@,
        m33: m.m33@,
    }
}

/// One row of a four-by-four matrix.
pub open spec fn mat4_row(m: Mat4Bits, row: int) -> (
    (u64, u64),
    (u64, u64),
    (u64, u64),
    (u64, u64),
) {
    if row == 0 {
        (m.m00, m.m01, m.m02, m.m03)
    } else if row == 1 {
        (m.m10, m.m11, m.m12, m.m13)
    } else if row == 2 {
        (m.m20, m.m21, m.m22, m.m23)
    } else {
        (m.m30, m.m31, m.m32, m.m33)
    }
}

/// The written prefix of a vector is exactly one basis state at `c`.
pub open spec fn basis_prefix(w: Seq<Amp>, c: int) -> bool {
    forall|i: int|
        0 <= i < w.len() ==> amp_bits(#[trigger] w[i]) == (if i == c {
            crate::amp::one_pair()
        } else {
            crate::amp::zero_pair()
        })
}

/// What one entry of a single-unit gate application is: the linear
/// combination of the two amplitudes of the pair the index belongs to,
/// with the pair partner found by flipping the unit's bit.
pub open spec fn single_gate_val(v: Seq<Amp>, mask: usize, m: Mat2Bits, j: usize) -> (u64, u64) {
    if j & mask == 0 {
        c_add_of(
            c_mul_of(m.m00, amp_bits(v[j as int])),
            c_mul_of(m.m01, amp_bits(v[(j ^ mask) as int])),
        )
    } else {
        c_add_of(
            c_mul_of(m.m10, amp_bits(v[(j ^ mask) as int])),
            c_mul_of(m.m11, amp_bits(v[j as int])),
        )
    }
}

/// What one entry of a two-unit gate application is: the row of the matrix
/// selected by the index's two unit bits, applied to the four amplitudes
/// of its subspace, accumulated from zero in column order.
pub open spec fn two_gate_val(
    v: Seq<Amp>,
    k1mask: usize,
    k2mask: usize,
    m: Mat4Bits,
    j: usize,
) -> (u64, u64) {
    let base = j & !k1mask & !k2mask;
    let row = (if j & k1mask != 0 {
        2int
    } else {
        0int
    }) + (if j & k2mask != 0 {
        1int
    } else {
        0int
    });
    let e = mat4_row(m, row);
    c_add_of(
        c_add_of(
            c_add_of(
                c_add_of(zero_pair(), c_mul_of(e.0, amp_bits(v[base as int]))),
                c_mul_of(e.1, amp_bits(v[(base | k2mask) as int])),
            ),
            c_mul_of(e.2, amp_bits(v[(base | k1mask) as int])),
        ),
        c_mul_of(e.3, amp_bits(v[(base | k1mask | k2mask) as int])),
    )
}

impl SimulationEngine {
    /// The bit mask that selects one unit's position in a basis index: the
    /// unit with engine index `idx` owns bit `n - 1 - idx`, counting from
    /// the least significant bit.
    pub open spec fn unit_mask(&self, idx: usize) -> usize {
        1usize << ((self.n() - 1 - idx) as usize)
    }

    /// Applies a two-by-two matrix to one unit: every pair of basis
    /// indices that differ only in that unit's bit is replaced by the
    /// matrix applied to the pair; all other positions are untouched
    /// (every index belongs to exactly one pair).
    fn apply_single_qdu_gate(&mut self, target_idx: usize, matrix: &Mat2) -> (r: Result<
        (),
        OnqError,
    >)
        requires
            old(self).wf(),
            target_idx < old(self).n(),
        ensures
            r is Ok,
            final(self).wf(),
            final(self).unit_seq() == old(self).unit_seq(),
            final(self).n() == old(self).n(),
            final(self).state().len() == old(self).state().len(),
            forall|j: usize|
                j < final(self).state().len() ==> amp_bits(#[trigger] final(self).state()[j as int])
                    == single_gate_val(
                    old(self).state(),
                    old(self).unit_mask(target_idx),
                    mat2_bits(*matrix),
                    j,
                ),
            forall|c: usize|
                c < old(self).state().len() && crate::amp::one_hot_at(old(self).state(), c as int)
                    ==> {
                    &&& (mat2_bits(*matrix) == id_mat_bits() ==> crate::amp::one_hot_at(
                        final(self).state(),
                        c as int,
                    ))
                    &&& (mat2_bits(*matrix) == flip_mat_bits() ==> crate::amp::one_hot_at(
                        final(self).state(),
                        (c ^ old(self).unit_mask(target_idx)) as int,
                    ))
                },
            forall|j: usize|
                j < old(self).state().len() && finite_mat2(mat2_bits(*matrix))
                    && crate::amp::is_zero_pair(amp_bits(#[trigger] old(self).state()[j as int]))
                    && crate::amp::is_zero_pair(
                    amp_bits(
                        old(self).state()[(j ^ old(self).unit_mask(target_idx)) as int],
                    ),
                ) ==> crate::amp::is_zero_pair(amp_bits(final(self).state()[j as int])),
    {
        let n = self.num_qdus;
        let k = n - 1 - target_idx;
        let mask: usize = 1usize << k;
        let dim = self.global_state.dim();
        proof {
            assert(mask < dim) by (bit_vector)
                requires
                    mask == 1usize << k,
                    dim == 1usize << n,
                    k == n - 1 - target_idx,
                    target_idx < n,
                    n < 32usize,
            ;
            assert(mask == self.unit_mask(target_idx));
        }
        let ghost orig = self.state();
        let mut new_vec: Vec<Amp> = Vec::new();
        let mut j: usize = 0;
        while j < dim
            invariant
                self.wf(),
                self.state() == orig,
                dim == self.state().len(),
                mask == self.unit_mask(target_idx),
                mask < dim,
                n == self.num_qdus,
                dim == 1usize << n,
                n < 32,
                j <= dim,
                new_vec@.len() == j,
                forall|i: usize|
                    i < j ==> amp_bits(#[trigger] new_vec@[i as int]) == single_gate_val(
                        orig,
                        mask,
                        mat2_bits(*matrix),
                        i,
                    ),
                forall|c: usize|
                    c < dim && crate::amp::one_hot_at(orig, c as int) ==> {
                        &&& (mat2_bits(*matrix) == id_mat_bits() ==> basis_prefix(
                            new_vec@,
                            c as int,
                        ))
                        &&& (mat2_bits(*matrix) == flip_mat_bits() ==> basis_prefix(
                            new_vec@,
                            (c ^ mask) as int,
                        ))
                    },
                forall|i: usize|
                    i < j && finite_mat2(mat2_bits(*matrix)) && crate::amp::is_zero_pair(
                        amp_bits(#[trigger] orig[i as int]),
                    ) && crate::amp::is_zero_pair(amp_bits(orig[(i ^ mask) as int]))
                        ==> crate::amp::is_zero_pair(amp_bits(new_vec@[i as int])),
            decreases dim - j,
        {
            let partner = j ^ mask;
            proof {
                assert(partner < dim) by (bit_vector)
                    requires
                        partner == j ^ mask,
                        j < dim,
                        mask < dim,
                        dim == 1usize << n,
                        n < 32usize,
                ;
            }
            let v = self.global_state.vector();
            if j & mask == 0 {
                let t0 = amp_mul(&matrix.m00, &v[j]);
                let t1 = amp_mul(&matrix.m01, &v[partner]);
                new_vec.push(amp_add(&t0, &t1));
            } else {
                let t0 = amp_mul(&matrix.m10, &v[partner]);
                let t1 = amp_mul(&matrix.m11, &v[j]);
                new_vec.push(amp_add(&t0, &t1));
            }
            proof {
                assert forall|c: usize|
                    c < dim && crate::amp::one_hot_at(orig, c as int) implies {
                    &&& (mat2_bits(*matrix) == id_mat_bits() ==> basis_prefix(
                        new_vec@,
                        c as int,
                    ))
                    &&& (mat2_bits(*matrix) == flip_mat_bits() ==> basis_prefix(
                        new_vec@,
                        (c ^ mask) as int,
                    ))
                } by {
                    assert((j ^ mask) ^ mask == j && ((c ^ mask) == j as usize <==> c == (j
                        ^ mask)) && (c ^ mask) < dim) by (bit_vector)
                        requires
                            c < dim,
                            j < dim,
                            mask < dim,
                            dim == 1usize << n,
                            n < 32usize,
                    ;
                    assert(amp_bits(orig[j as int]) == (if j as int == c as int {
                        crate::amp::one_pair()
                    } else {
                        crate::amp::zero_pair()
                    }));
                    assert(amp_bits(orig[(j ^ mask) as int]) == (if (j ^ mask) as int
                        == c as int {
                        crate::amp::one_pair()
                    } else {
                        crate::amp::zero_pair()
                    }));
                    assert forall|i: int| 0 <= i < new_vec@.len() && mat2_bits(*matrix)
                        == id_mat_bits() implies amp_bits(new_vec@[i]) == (if i == c as int {
                        crate::amp::one_pair()
                    } else {
                        crate::amp::zero_pair()
                    }) by {
                        if i < new_vec@.len() - 1 {
                        }
                    }
                    assert forall|i: int| 0 <= i < new_vec@.len() && mat2_bits(*matrix)
                        == flip_mat_bits() implies amp_bits(new_vec@[i]) == (if i == (c
                        ^ mask) as int {
                        crate::amp::one_pair()
                    } else {
                        crate::amp::zero_pair()
                    }) by {
                        if i < new_vec@.len() - 1 {
                        }
                    }
                }
            }
            j = j + 1;
        }
        self.global_state = crate::base::state::PotentialityState::new(new_vec);
        proof {
            assert forall|c: usize|
                c < dim && crate::amp::one_hot_at(orig, c as int) implies {
                &&& (mat2_bits(*matrix) == id_mat_bits() ==> crate::amp::one_hot_at(
                    self.state(),
                    c as int,
                ))
                &&& (mat2_bits(*matrix) == flip_mat_bits() ==> crate::amp::one_hot_at(
                    self.state(),
                    (c ^ mask) as int,
                ))
            } by {
                assert((c ^ mask) < dim) by (bit_vector)
                    requires
                        c < dim,
                        mask < dim,
                        dim == 1usize << n,
                        n < 32usize,
                ;
            }
        }
        Ok(())
    }

    /// Applies a four-by-four matrix to the joint subspace of two distinct
    /// units; the first unit's bit is the higher-order bit of the row
    /// selection.  Fails with `InvalidOperation` when the units coincide.
    fn apply_two_qdu_gate(&mut self, idx1: usize, idx2: usize, matrix: &Mat4) -> (r: Result<
        (),
        OnqError,
    >)
        requires
            old(self).wf(),
            idx1 < old(self).n(),
            idx2 < old(self).n(),
        ensures
            final(self).wf(),
            final(self).unit_seq() == old(self).unit_seq(),
            final(self).n() == old(self).n(),
            final(self).state().len() == old(self).state().len(),
            match r {
                Ok(()) => idx1 != idx2 && (forall|j: usize|
                    j < final(self).state().len() ==> amp_bits(
                        #[trigger] final(self).state()[j as int],
                    ) == two_gate_val(
                        old(self).state(),
                        old(self).unit_mask(idx1),
                        old(self).unit_mask(idx2),
                        mat4_bits(*matrix),
                        j,
                    )) && (forall|c: usize|
                    c < old(self).state().len() && crate::amp::one_hot_at(
                        old(self).state(),
                        c as int,
                    ) && mat4_bits(*matrix) == controlled_bits(flip_mat_bits()) ==> {
                        &&& (c & old(self).unit_mask(idx1) == 0 ==> crate::amp::one_hot_at(
                            final(self).state(),
                            c as int,
                        ))
                        &&& (c & old(self).unit_mask(idx1) != 0 ==> crate::amp::one_hot_at(
                            final(self).state(),
                            (c ^ old(self).unit_mask(idx2)) as int,
                        ))
                    }),
                Err(e) => idx1 == idx2 && e is InvalidOperation && final(self).state() == old(
                    self,
                ).state(),
            },
    {
        if idx1 == idx2 {
            return Err(
                OnqError::InvalidOperation {
                    message: "Target indices for a two-QDU gate cannot be the same".to_owned(),
                },
            );
        }
        let n = self.num_qdus;
        let k1: usize = n - 1 - idx1;
        let k2: usize = n - 1 - idx2;
        let k1mask: usize = 1usize << k1;
        let k2mask: usize = 1usize << k2;
        let dim = self.global_state.dim();
        proof {
            assert(k1mask < dim && k2mask < dim && k1mask != k2mask) by (bit_vector)
                requires
                    k1mask == 1usize << k1,
                    k2mask == 1usize << k2,
                    dim == 1usize << n,
                    k1 == n - 1 - idx1,
                    k2 == n - 1 - idx2,
                    idx1 < n,
                    idx2 < n,
                    idx1 != idx2,
                    n < 32usize,
            ;
            assert(k1mask == self.unit_mask(idx1) && k2mask == self.unit_mask(idx2));
        }
        let ghost orig = self.state();
        let mut new_vec: Vec<Amp> = Vec::new();
        let mut j: usize = 0;
        while j < dim
            invariant
                self.wf(),
                self.state() == orig,
                dim == self.state().len(),
                k1mask == self.unit_mask(idx1),
                k2mask == self.unit_mask(idx2),
                k1 == n - 1 - idx1,
                k2 == n - 1 - idx2,
                k1 != k2,
                k1mask == 1usize << k1,
                k2mask == 1usize << k2,
                k1mask < dim,
                k2mask < dim,
                n == self.num_qdus,
                dim == 1usize << n,
                n < 32,
                j <= dim,
                new_vec@.len() == j,
                forall|i: usize|
                    i < j ==> amp_bits(#[trigger] new_vec@[i as int]) == two_gate_val(
                        orig,
                        k1mask,
                        k2mask,
                        mat4_bits(*matrix),
                        i,
                    ),
                forall|c: usize|
                    c < dim && crate::amp::one_hot_at(orig, c as int) && mat4_bits(*matrix)
                        == controlled_bits(flip_mat_bits()) ==> {
                        &&& (c & k1mask == 0 ==> basis_prefix(new_vec@, c as int))
                        &&& (c & k1mask != 0 ==> basis_prefix(new_vec@, (c ^ k2mask) as int))
                    },
            decreases dim - j,
        {
            let base: usize = j & !k1mask & !k2mask;
            let i01: usize = base | k2mask;
            let i10: usize = base | k1mask;
            let i11: usize = base | k1mask | k2mask;
            proof {
                assert(base < dim && i01 < dim && i10 < dim && i11 < dim) by (bit_vector)
                    requires
                        base == j & !k1mask & !k2mask,
                        i01 == base | k2mask,
                        i10 == base | k1mask,
                        i11 == base | k1mask | k2mask,
                        j < dim,
                        k1mask < dim,
                        k2mask < dim,
                        dim == 1usize << n,
                        n < 32usize,
                ;
            }
            let b1 = j & k1mask != 0;
            let b2 = j & k2mask != 0;
            let v = self.global_state.vector();
            let (e0, e1, e2, e3) = if !b1 && !b2 {
                (&matrix.m00, &matrix.m01, &matrix.m02, &matrix.m03)
            } else if !b1 && b2 {
                (&matrix.m10, &matrix.m11, &matrix.m12, &matrix.m13)
            } else if b1 && !b2 {
                (&matrix.m20, &matrix.m21, &matrix.m22, &matrix.m23)
            } else {
                (&matrix.m30, &matrix.m31, &matrix.m32, &matrix.m33)
            };
            let mut acc = Amp::zero();
            acc = amp_add(&acc, &amp_mul(e0, &v[base]));
            acc = amp_add(&acc, &amp_mul(e1, &v[i01]));
            acc = amp_add(&acc, &amp_mul(e2, &v[i10]));
            acc = amp_add(&acc, &amp_mul(e3, &v[i11]));
            new_vec.push(acc);
            proof {
                assert forall|c: usize|
                    c < dim && crate::amp::one_hot_at(orig, c as int) && mat4_bits(*matrix)
                        == controlled_bits(flip_mat_bits()) implies {
                    &&& (c & k1mask == 0 ==> basis_prefix(new_vec@, c as int))
                    &&& (c & k1mask != 0 ==> basis_prefix(new_vec@, (c ^ k2mask) as int))
                } by {
                    assert({
                        &&& (j & k1mask == 0 && j & k2mask == 0) ==> base == j
                        &&& (j & k1mask == 0 && j & k2mask != 0) ==> i01 == j
                        &&& (j & k1mask != 0 && j & k2mask == 0) ==> i11 == (j ^ k2mask)
                        &&& (j & k1mask != 0 && j & k2mask != 0) ==> i10 == (j ^ k2mask)
                        &&& ((j ^ k2mask) & k1mask) == (j & k1mask)
                        &&& ((c ^ k2mask) ^ k2mask) == c
                        &&& ((c ^ k2mask) < dim)
                        &&& ((j ^ k2mask) < dim)
                        &&& ((j ^ k2mask) == c <==> j == (c ^ k2mask))
                    }) by (bit_vector)
                        requires
                            base == j & !k1mask & !k2mask,
                            i01 == base | k2mask,
                            i10 == base | k1mask,
                            i11 == base | k1mask | k2mask,
                            j < dim,
                            c < dim,
                            k1mask < dim,
                            k2mask < dim,
                            k1mask == 1usize << k1,
                            k2mask == 1usize << k2,
                            k1 != k2,
                            dim == 1usize << n,
                            n < 32usize,
                    ;
                    assert(amp_bits(orig[j as int]) == (if j as int == c as int {
                        crate::amp::one_pair()
                    } else {
                        crate::amp::zero_pair()
                    }));
                    assert(amp_bits(orig[(j ^ k2mask) as int]) == (if (j ^ k2mask) as int
                        == c as int {
                        crate::amp::one_pair()
                    } else {
                        crate::amp::zero_pair()
                    }));
                    assert forall|i: int|
                        0 <= i < new_vec@.len() && c & k1mask == 0 && mat4_bits(*matrix)
                            == controlled_bits(flip_mat_bits()) implies amp_bits(new_vec@[i]) == (
                    if i == c as int {
                        crate::amp::one_pair()
                    } else {
                        crate::amp::zero_pair()
                    }) by {
                        if i < new_vec@.len() - 1 {
                        }
                    }
                    assert forall|i: int|
                        0 <= i < new_vec@.len() && c & k1mask != 0 && mat4_bits(*matrix)
                            == controlled_bits(flip_mat_bits()) implies amp_bits(new_vec@[i]) == (
                    if i == (c ^ k2mask) as int {
                        crate::amp::one_pair()
                    } else {
                        crate::amp::zero_pair()
                    }) by {
                        if i < new_vec@.len() - 1 {
                        }
                    }
                }
            }
            j = j + 1;
        }
        self.global_state = crate::base::state::PotentialityState::new(new_vec);
        proof {
            assert forall|c: usize|
                c < dim && crate::amp::one_hot_at(orig, c as int) && mat4_bits(*matrix)
                    == controlled_bits(flip_mat_bits()) implies {
                &&& (c & k1mask == 0 ==> crate::amp::one_hot_at(self.state(), c as int))
                &&& (c & k1mask != 0 ==> crate::amp::one_hot_at(
                    self.state(),
                    (c ^ k2mask) as int,
                ))
            } by {
                assert((c ^ k2mask) < dim) by (bit_vector)
                    requires
                        c < dim,
                        k2mask < dim,
                        dim == 1usize << n,
                        n < 32usize,
                ;
            }
        }
        Ok(())
    }
}

} // verus!

verus! {

/// The bit pairs of a four-component subspace vector.
pub struct QuadBits {
    /// Component `|00>`.
    pub q0: (u64, u64),
    /// Component `|01>`.
    pub q1: (u64, u64),
    /// Component `|10>`.
    pub q2: (u64, u64),
    /// Component `|11>`.
    pub q3: (u64, u64),
}

/// A fixed vector over the joint basis of two units, ordered
/// `|00>, |01>, |10>, |11>`.
pub struct Quad {
    /// Component `|00>`.
    pub q0: Amp,
    /// Component `|01>`.
    pub q1: Amp,
    /// Component `|10>`.
    pub q2: Amp,
    /// Component `|11>`.
    pub q3: Amp,
}

/// The bit pairs of a subspace vector, for specifications.
pub open spec fn quad_bits(q: Quad) -> QuadBits {
    QuadBits { q0: q.q0@, q1: q.q1@, q2: q.q2@, q3: q.q3@ }
}

/// The component of a subspace vector selected by two unit bits.
pub open spec fn quad_at(q: QuadBits, b1: bool, b2: bool) -> (u64, u64) {
    if !b1 && !b2 {
        q.q0
    } else if !b1 && b2 {
        q.q1
    } else if b1 && !b2 {
        q.q2
    } else {
        q.q3
    }
}

/// The bit pair of a complex conjugate: the imaginary sign bit flips.
pub open spec fn conj_pair(p: (u64, u64)) -> (u64, u64) {
    (p.0, p.1 ^ NEG_ZERO_BITS)
}

/// The base index of one segment: the bits of `i_other` distributed over
/// the bit positions other than `k1` and `k2`, processed from position
/// `cur` upward with the partial index and the next source bit given.
pub open spec fn base_step(
    i_other: usize,
    k1: usize,
    k2: usize,
    n: nat,
    cur: nat,
    ibase: usize,
    omask: usize,
) -> usize
    decreases n - cur,
{
    if cur >= n {
        ibase
    } else if cur == k1 || cur == k2 {
        base_step(i_other, k1, k2, n, cur + 1, ibase, omask)
    } else {
        let ib = if i_other & omask != 0 {
            ibase | (1usize << (cur as usize))
        } else {
            ibase
        };
        base_step(i_other, k1, k2, n, cur + 1, ib, omask << 1)
    }
}

/// The base index of one segment of the subspace iteration.
pub open spec fn base_of(i_other: usize, k1: usize, k2: usize, n: nat) -> usize {
    base_step(i_other, k1, k2, n, 0, 0, 1)
}

/// One segment's contribution to the overlap: the inner product of the
/// target with the four amplitudes of the segment, accumulated from zero.
pub open spec fn seg_overlap(
    v: Seq<Amp>,
    t: QuadBits,
    base: usize,
    k1m: usize,
    k2m: usize,
) -> (u64, u64) {
    let t0 = c_mul_of(conj_pair(t.q0), amp_bits(v[base as int]));
    let t1 = c_mul_of(conj_pair(t.q1), amp_bits(v[(base | k2m) as int]));
    let t2 = c_mul_of(conj_pair(t.q2), amp_bits(v[(base | k1m) as int]));
    let t3 = c_mul_of(conj_pair(t.q3), amp_bits(v[(base | k1m | k2m) as int]));
    c_add_of(c_add_of(c_add_of(c_add_of(zero_pair(), t0), t1), t2), t3)
}

/// The total overlap of the state with the target over the first `m`
/// segments, accumulated from zero in segment order.
pub open spec fn total_overlap_upto(
    v: Seq<Amp>,
    t: QuadBits,
    k1: usize,
    k2: usize,
    k1m: usize,
    k2m: usize,
    n: nat,
    m: int,
) -> (u64, u64)
    decreases m,
{
    if m <= 0 {
        zero_pair()
    } else {
        c_add_of(
            total_overlap_upto(v, t, k1, k2, k1m, k2m, n, m - 1),
            seg_overlap(v, t, base_of((m - 1) as usize, k1, k2, n), k1m, k2m),
        )
    }
}

/// The total overlap of the state with the target across all segments.
pub open spec fn total_overlap(
    v: Seq<Amp>,
    t: QuadBits,
    k1: usize,
    k2: usize,
    k1m: usize,
    k2m: usize,
    n: nat,
) -> (u64, u64) {
    total_overlap_upto(v, t, k1, k2, k1m, k2m, n, (v.len() / 4) as int)
}

/// The state lies entirely in the agreeing-bits subspace of the two lock
/// units: every amplitude is finite, and every basis state whose two lock
/// bits differ carries an exact zero.
pub open spec fn off_diag_zero(v: Seq<Amp>, k1m: usize, k2m: usize) -> bool {
    forall|j: int|
        0 <= j < v.len() ==> {
            &&& crate::amp::finite_pair_of(amp_bits(#[trigger] v[j]))
            &&& ((((j as usize) & k1m != 0) != (((j as usize) & k2m != 0))) ==> crate::amp::is_zero_pair(
                amp_bits(v[j]),
            ))
        }
}

/// The target pairs the agreeing-bits axes with one finite non-negative
/// real coefficient and has exact zeros on the differing-bits axes.
pub open spec fn phi_style_target(t: QuadBits) -> bool {
    &&& crate::amp::finite_pair_of(t.q0)
    &&& t.q0.1 == ZERO_BITS
    &&& t.q0.0 < NEG_ZERO_BITS
    &&& t.q3 == t.q0
    &&& crate::amp::is_zero_pair(t.q1)
    &&& crate::amp::is_zero_pair(t.q2)
}

/// The written prefix of a projected vector: the given value at the two
/// support positions, an exact zero everywhere else.
pub open spec fn proj_prefix(w: Seq<Amp>, c: int, c2: int, val: (u64, u64)) -> bool {
    forall|i: int|
        0 <= i < w.len() ==> (if i == c || i == c2 {
            amp_bits(#[trigger] w[i]) == val
        } else {
            crate::amp::is_zero_pair(amp_bits(w[i]))
        })
}

/// The target has zero components on the agreeing-bits axes and finite
/// components on the differing-bits axes.
pub open spec fn psi_style_target(t: QuadBits) -> bool {
    &&& crate::amp::is_zero_pair(t.q0)
    &&& crate::amp::is_zero_pair(t.q3)
    &&& crate::amp::finite_pair_of(t.q1)
    &&& crate::amp::finite_pair_of(t.q2)
}

impl SimulationEngine {
    /// Projects the state onto the given normalized target vector within
    /// the joint subspace of two units: the full overlap of the state with
    /// the target is summed across every configuration of the remaining
    /// bits; if its squared magnitude is negligible the projection fails
    /// with `Instability` and the state is unchanged; otherwise every
    /// basis position takes the target component selected by its two unit
    /// bits, scaled by its own configuration's overlap, and the whole
    /// vector is rescaled by the reciprocal square root of the total
    /// overlap's squared magnitude.  Scaling each configuration by its own
    /// overlap, rather than by the summed overlap, is what makes the
    /// global rescale restore unit norm: with the summed overlap every
    /// configuration of the remaining bits would receive weight and the
    /// post-operation normalization check could not pass.
    fn project_onto_subspace_state(&mut self, idx1: usize, idx2: usize, target: &Quad) -> (r:
        Result<(), OnqError>)
        requires
            old(self).wf(),
            idx1 < old(self).n(),
            idx2 < old(self).n(),
            idx1 != idx2,
        ensures
            final(self).wf(),
            final(self).unit_seq() == old(self).unit_seq(),
            final(self).n() == old(self).n(),
            final(self).state().len() == old(self).state().len(),
            ({
                let k1 = (old(self).n() - 1 - idx1) as usize;
                let k2 = (old(self).n() - 1 - idx2) as usize;
                let k1m = old(self).unit_mask(idx1);
                let k2m = old(self).unit_mask(idx2);
                let ov = total_overlap(
                    old(self).state(),
                    quad_bits(*target),
                    k1,
                    k2,
                    k1m,
                    k2m,
                    old(self).n(),
                );
                let nsq = crate::amp::norm_sq_of(ov);
                &&& (off_diag_zero(old(self).state(), k1m, k2m) && psi_style_target(
                    quad_bits(*target),
                ) ==> crate::amp::below_tol_of(nsq))
                &&& (r is Ok ==> forall|c: usize|
                    phi_style_target(quad_bits(*target)) && crate::amp::one_hot_at(
                        old(self).state(),
                        c as int,
                    ) && c & k1m == 0 && c & k2m == 0 && crate::amp::passes_tol_of(nsq)
                        ==> proj_prefix(
                        final(self).state(),
                        c as int,
                        (c | k1m | k2m) as int,
                        c_mul_of(
                            c_mul_of(quad_bits(*target).q0, quad_bits(*target).q0),
                            (crate::amp::recip_sqrt_of(nsq), ZERO_BITS),
                        ),
                    ))
                &&& match r {
                    Ok(()) => !crate::amp::below_tol_of(nsq) && forall|j: usize|
                        j < final(self).state().len() ==> amp_bits(
                            #[trigger] final(self).state()[j as int],
                        ) == c_mul_of(
                            c_mul_of(
                                seg_overlap(
                                    old(self).state(),
                                    quad_bits(*target),
                                    j & !k1m & !k2m,
                                    k1m,
                                    k2m,
                                ),
                                quad_at(quad_bits(*target), j & k1m != 0, j & k2m != 0),
                            ),
                            (crate::amp::recip_sqrt_of(nsq), ZERO_BITS),
                        ),
                    Err(e) => e is Instability && crate::amp::below_tol_of(nsq)
                        && final(self).state() == old(self).state(),
                }
            }),
    {
        let n = self.num_qdus;
        let k1: usize = n - 1 - idx1;
        let k2: usize = n - 1 - idx2;
        let k1mask: usize = 1usize << k1;
        let k2mask: usize = 1usize << k2;
        let dim = self.global_state.dim();
        proof {
            assert(k1mask < dim && k2mask < dim) by (bit_vector)
                requires
                    k1mask == 1usize << k1,
                    k2mask == 1usize << k2,
                    dim == 1usize << n,
                    k1 == n - 1 - idx1,
                    k2 == n - 1 - idx2,
                    idx1 < n,
                    idx2 < n,
                    n < 32usize,
            ;
            assert(k1mask == self.unit_mask(idx1) && k2mask == self.unit_mask(idx2));
        }
        let ghost orig = self.state();
        let segs = dim / 4;
        let mut total = Amp::zero();
        let mut i_other: usize = 0;
        while i_other < segs
            invariant
                self.wf(),
                self.state() == orig,
                dim == self.state().len(),
                segs == dim / 4,
                n == self.num_qdus,
                dim == 1usize << n,
                n < 32,
                k1 == n - 1 - idx1,
                k2 == n - 1 - idx2,
                idx1 < n,
                idx2 < n,
                idx1 != idx2,
                k1mask == 1usize << k1,
                k2mask == 1usize << k2,
                k1mask < dim,
                k2mask < dim,
                i_other <= segs,
                total@ == total_overlap_upto(
                    orig,
                    quad_bits(*target),
                    k1,
                    k2,
                    k1mask,
                    k2mask,
                    n as nat,
                    i_other as int,
                ),
                off_diag_zero(orig, k1mask, k2mask) && psi_style_target(quad_bits(*target))
                    ==> crate::amp::is_zero_pair(total@),
            decreases segs - i_other,
        {
            let mut i_base: usize = 0;
            let mut other_bit_mask: usize = 1;
            let mut current_k: usize = 0;
            proof {
                assert(0usize & k1mask == 0 && 0usize & k2mask == 0 && 0usize < 1usize << n)
                    by (bit_vector)
                    requires
                        n < 32usize,
                        k1mask == 1usize << k1,
                        k2mask == 1usize << k2,
                ;
            }
            while current_k < n
                invariant
                    n < 32,
                    current_k <= n,
                    k1 < n,
                    k2 < n,
                    k1mask == 1usize << k1,
                    k2mask == 1usize << k2,
                    i_base & k1mask == 0,
                    i_base & k2mask == 0,
                    i_base < 1usize << n,
                    base_of(i_other, k1, k2, n as nat) == base_step(
                        i_other,
                        k1,
                        k2,
                        n as nat,
                        current_k as nat,
                        i_base,
                        other_bit_mask,
                    ),
                decreases n - current_k,
            {
                if current_k == k1 || current_k == k2 {
                } else {
                    if i_other & other_bit_mask != 0 {
                        let bit: usize = 1usize << current_k;
                        proof {
                            assert((i_base | bit) & k1mask == 0 && (i_base | bit) & k2mask == 0
                                && (i_base | bit) < 1usize << n) by (bit_vector)
                                requires
                                    bit == 1usize << current_k,
                                    k1mask == 1usize << k1,
                                    k2mask == 1usize << k2,
                                    current_k != k1,
                                    current_k != k2,
                                    current_k < n,
                                    n < 32usize,
                                    i_base & k1mask == 0,
                                    i_base & k2mask == 0,
                                    i_base < 1usize << n,
                            ;
                        }
                        i_base = i_base | bit;
                    }
                    other_bit_mask = other_bit_mask << 1;
                }
                current_k = current_k + 1;
            }
            let i01 = i_base | k2mask;
            let i10 = i_base | k1mask;
            let i11 = i_base | k1mask | k2mask;
            proof {
                assert(i01 < dim && i10 < dim && i11 < dim) by (bit_vector)
                    requires
                        i01 == i_base | k2mask,
                        i10 == i_base | k1mask,
                        i11 == i_base | k1mask | k2mask,
                        i_base < dim,
                        k1mask < dim,
                        k2mask < dim,
                        dim == 1usize << n,
                        n < 32usize,
                ;
            }
            let v = self.global_state.vector();
            proof {
                if off_diag_zero(orig, k1mask, k2mask) && psi_style_target(quad_bits(*target)) {
                    assert(i01 & k1mask == 0 && i01 & k2mask != 0 && i10 & k1mask != 0 && i10
                        & k2mask == 0) by (bit_vector)
                        requires
                            i01 == i_base | k2mask,
                            i10 == i_base | k1mask,
                            i_base & k1mask == 0,
                            i_base & k2mask == 0,
                            k1mask == 1usize << k1,
                            k2mask == 1usize << k2,
                            k1 != k2,
                            k1 < 32usize,
                            k2 < 32usize,
                    ;
                    assert(crate::amp::is_zero_pair(amp_bits(orig[i01 as int])));
                    assert(crate::amp::is_zero_pair(amp_bits(orig[i10 as int])));
                }
            }
            let mut seg = Amp::zero();
            seg = amp_add(&seg, &amp_mul(&amp_conj(&target.q0), &v[i_base]));
            seg = amp_add(&seg, &amp_mul(&amp_conj(&target.q1), &v[i01]));
            seg = amp_add(&seg, &amp_mul(&amp_conj(&target.q2), &v[i10]));
            seg = amp_add(&seg, &amp_mul(&amp_conj(&target.q3), &v[i11]));
            total = amp_add(&total, &seg);
            i_other = i_other + 1;
        }
        let nsq = crate::amp::amp_norm_sqr(&total);
        if crate::amp::below_min_weight(&nsq) {
            return Err(
                OnqError::Instability {
                    message: "Projection failed: State has zero overlap with target lock state".to_owned(),
                },
            );
        }
        let norm_factor = crate::amp::amp_recip_sqrt(&nsq);
        let mut new_vec: Vec<Amp> = Vec::new();
        let mut j: usize = 0;
        while j < dim
            invariant
                self.wf(),
                self.state() == orig,
                dim == self.state().len(),
                n == self.num_qdus,
                dim == 1usize << n,
                n < 32,
                k1mask < dim,
                k2mask < dim,
                j <= dim,
                new_vec@.len() == j,
                total@ == total_overlap(
                    orig,
                    quad_bits(*target),
                    k1,
                    k2,
                    k1mask,
                    k2mask,
                    self.n(),
                ),
                nsq@ == (crate::amp::norm_sq_of(total@), ZERO_BITS),
                norm_factor@ == (crate::amp::recip_sqrt_of(nsq@.0), ZERO_BITS),
                forall|i: usize|
                    i < j ==> amp_bits(#[trigger] new_vec@[i as int]) == c_mul_of(
                        c_mul_of(
                            seg_overlap(
                                orig,
                                quad_bits(*target),
                                i & !k1mask & !k2mask,
                                k1mask,
                                k2mask,
                            ),
                            quad_at(quad_bits(*target), i & k1mask != 0, i & k2mask != 0),
                        ),
                        (crate::amp::recip_sqrt_of(nsq@.0), ZERO_BITS),
                    ),
                k1 == n - 1 - idx1,
                k2 == n - 1 - idx2,
                k1 != k2,
                k1mask == 1usize << k1,
                k2mask == 1usize << k2,
                crate::amp::passes_tol_of(nsq@.0) ==> crate::amp::finite_pair_of(norm_factor@),
                forall|c: usize|
                    phi_style_target(quad_bits(*target)) && crate::amp::one_hot_at(
                        orig,
                        c as int,
                    ) && c & k1mask == 0 && c & k2mask == 0 && crate::amp::passes_tol_of(nsq@.0)
                        ==> proj_prefix(
                        new_vec@,
                        c as int,
                        (c | k1mask | k2mask) as int,
                        c_mul_of(
                            c_mul_of(quad_bits(*target).q0, quad_bits(*target).q0),
                            (crate::amp::recip_sqrt_of(nsq@.0), ZERO_BITS),
                        ),
                    ),
            decreases dim - j,
        {
            let base: usize = j & !k1mask & !k2mask;
            let i01 = base | k2mask;
            let i10 = base | k1mask;
            let i11 = base | k1mask | k2mask;
            proof {
                assert(base < dim && i01 < dim && i10 < dim && i11 < dim) by (bit_vector)
                    requires
                        base == j & !k1mask & !k2mask,
                        i01 == base | k2mask,
                        i10 == base | k1mask,
                        i11 == base | k1mask | k2mask,
                        j < dim,
                        k1mask < dim,
                        k2mask < dim,
                        dim == 1usize << n,
                        n < 32usize,
                ;
            }
            let v = self.global_state.vector();
            let mut seg = Amp::zero();
            seg = amp_add(&seg, &amp_mul(&amp_conj(&target.q0), &v[base]));
            seg = amp_add(&seg, &amp_mul(&amp_conj(&target.q1), &v[i01]));
            seg = amp_add(&seg, &amp_mul(&amp_conj(&target.q2), &v[i10]));
            seg = amp_add(&seg, &amp_mul(&amp_conj(&target.q3), &v[i11]));
            let b1 = j & k1mask != 0;
            let b2 = j & k2mask != 0;
            let t = if !b1 && !b2 {
                &target.q0
            } else if !b1 && b2 {
                &target.q1
            } else if b1 && !b2 {
                &target.q2
            } else {
                &target.q3
            };
            let scaled = amp_mul(&seg, t);
            new_vec.push(amp_mul(&scaled, &norm_factor));
            proof {
                assert forall|c: usize|
                    phi_style_target(quad_bits(*target)) && crate::amp::one_hot_at(
                        orig,
                        c as int,
                    ) && c & k1mask == 0 && c & k2mask == 0 && crate::amp::passes_tol_of(
                        nsq@.0,
                    ) implies proj_prefix(
                    new_vec@,
                    c as int,
                    (c | k1mask | k2mask) as int,
                    c_mul_of(
                        c_mul_of(quad_bits(*target).q0, quad_bits(*target).q0),
                        (crate::amp::recip_sqrt_of(nsq@.0), ZERO_BITS),
                    ),
                ) by {
                    let c2: usize = c | k1mask | k2mask;
                    assert({
                        &&& c2 < dim
                        &&& c2 != c
                        &&& (base == c ==> (i01 != c && i10 != c && i11 == c2 && i01 != c2
                            && i10 != c2))
                        &&& (base != c ==> (base != c && i01 != c && i10 != c && i11 != c))
                        &&& (j == c ==> (base == c && j & k1mask == 0 && j & k2mask == 0))
                        &&& (j == c2 ==> (base == c && j & k1mask != 0 && j & k2mask != 0))
                        &&& (base == c && j & k1mask == 0 && j & k2mask == 0 ==> j == c)
                        &&& (base == c && j & k1mask != 0 && j & k2mask != 0 ==> j == c2)
                        &&& (base != c ==> (j != c && j != c2))
                    }) by (bit_vector)
                        requires
                            base == j & !k1mask & !k2mask,
                            i01 == base | k2mask,
                            i10 == base | k1mask,
                            i11 == base | k1mask | k2mask,
                            c2 == c | k1mask | k2mask,
                            j < dim,
                            c < dim,
                            c & k1mask == 0,
                            c & k2mask == 0,
                            k1mask < dim,
                            k2mask < dim,
                            k1mask == 1usize << k1,
                            k2mask == 1usize << k2,
                            k1 != k2,
                            k1 < 32usize,
                            k2 < 32usize,
                            dim == 1usize << n,
                            n < 32usize,
                    ;
                    assert forall|i: int|
                        0 <= i < new_vec@.len() implies (if i == c as int || i == c2 as int {
                        amp_bits(new_vec@[i]) == c_mul_of(
                            c_mul_of(quad_bits(*target).q0, quad_bits(*target).q0),
                            (crate::amp::recip_sqrt_of(nsq@.0), ZERO_BITS),
                        )
                    } else {
                        crate::amp::is_zero_pair(amp_bits(new_vec@[i]))
                    }) by {
                        if i < new_vec@.len() - 1 {
                        } else {
                            if base == c {
                                assert(amp_bits(orig[base as int]) == crate::amp::one_pair());
                                assert(crate::amp::is_zero_pair(amp_bits(orig[i01 as int])));
                                assert(crate::amp::is_zero_pair(amp_bits(orig[i10 as int])));
                                assert(crate::amp::is_zero_pair(amp_bits(orig[i11 as int])));
                                assert(seg@ == quad_bits(*target).q0);
                            } else {
                                assert(crate::amp::is_zero_pair(amp_bits(orig[base as int])));
                                assert(crate::amp::is_zero_pair(amp_bits(orig[i01 as int])));
                                assert(crate::amp::is_zero_pair(amp_bits(orig[i10 as int])));
                                assert(crate::amp::is_zero_pair(amp_bits(orig[i11 as int])));
                                assert(crate::amp::is_zero_pair(seg@));
                            }
                        }
                    }
                }
            }
            j = j + 1;
        }
        self.global_state = crate::base::state::PotentialityState::new(new_vec);
        Ok(())
    }
}

} // verus!

verus! {

/// The squared magnitude of an amplitude, as a real bit pair.
pub open spec fn sq_pair(a: Amp) -> (u64, u64) {
    (crate::amp::norm_sq_of(amp_bits(a)), ZERO_BITS)
}

/// Whether a basis state's weight qualifies as a possible outcome: its
/// squared magnitude is finite and above the negligibility tolerance.
pub open spec fn qualifies(a: Amp) -> bool {
    crate::amp::passes_tol_of(crate::amp::norm_sq_of(amp_bits(a)))
}

/// The indices of the qualifying basis states among the first `k`, in
/// increasing order.
pub open spec fn qual_indices(v: Seq<Amp>, k: int) -> Seq<int>
    decreases k,
{
    if k <= 0 {
        Seq::empty()
    } else if qualifies(v[k - 1]) {
        qual_indices(v, k - 1).push(k - 1)
    } else {
        qual_indices(v, k - 1)
    }
}

/// The total score over the qualifying members of the first `k` basis
/// states, accumulated from zero in index order.
pub open spec fn total_score_upto(v: Seq<Amp>, k: int) -> (u64, u64)
    decreases k,
{
    if k <= 0 {
        zero_pair()
    } else if qualifies(v[k - 1]) {
        c_add_of(total_score_upto(v, k - 1), sq_pair(v[k - 1]))
    } else {
        total_score_upto(v, k - 1)
    }
}

/// The hasher write history after feeding the bit patterns of the first
/// `k` amplitudes, real part then imaginary part, in index order.
pub open spec fn hash_writes_upto(v: Seq<Amp>, k: int) -> Seq<Seq<u8>>
    decreases k,
{
    if k <= 0 {
        Seq::empty()
    } else {
        crate::amp::hash_write_of(
            crate::amp::hash_write_of(hash_writes_upto(v, k - 1), amp_bits(v[k - 1]).0),
            amp_bits(v[k - 1]).1,
        )
    }
}

/// The stabilization seed: the hash of every amplitude's bit patterns in
/// index order.  A pure function of the state's bits.
pub open spec fn state_seed(v: Seq<Amp>) -> u64 {
    <std::collections::hash_map::DefaultHasher as vstd::std_specs::hash::DefaultHasherAdditionalSpecFns>::spec_finish(
        hash_writes_upto(v, v.len() as int),
    )
}

/// The weighted sample drawn for outcome selection: one uniform draw from
/// the seeded generator, scaled by the total score.
pub open spec fn p_sample_of(v: Seq<Amp>) -> (u64, u64) {
    c_mul_of(
        (crate::amp::unit_sample_of(state_seed(v)), ZERO_BITS),
        total_score_upto(v, v.len() as int),
    )
}

/// The cumulative walk over the qualifying indices: the first candidate
/// whose running score total exceeds the sample is selected.
pub open spec fn walk_cands(
    v: Seq<Amp>,
    cands: Seq<int>,
    p: (u64, u64),
    i: int,
    cum: (u64, u64),
) -> Option<int>
    decreases cands.len() - i,
{
    if i < 0 || i >= cands.len() {
        None
    } else {
        let c2 = c_add_of(cum, sq_pair(v[cands[i]]));
        if crate::amp::flt_of(p.0, c2.0) {
            Some(cands[i])
        } else {
            walk_cands(v, cands, p, i + 1, c2)
        }
    }
}

/// The outcome that stabilizing a state selects: the first qualifying
/// index whose cumulative score exceeds the sample, or the last
/// qualifying index when rounding lets the sample reach the total.  A
/// pure function of the state's bits.
pub open spec fn chosen_index(v: Seq<Amp>) -> int {
    let cands = qual_indices(v, v.len() as int);
    match walk_cands(v, cands, p_sample_of(v), 0, zero_pair()) {
        Some(i) => i,
        None => if cands.len() > 0 {
            cands.last()
        } else {
            0
        },
    }
}

/// The binary quality of the unit with engine index `idx` in the basis
/// state `ch`: bit `n - 1 - idx` of the index.
pub open spec fn outcome_bit(ch: usize, n: nat, idx: int) -> u64 {
    ((ch >> ((n - 1 - idx) as usize)) & 1usize) as u64
}

/// The engine index of a unit: its position in the sorted unit list.
pub open spec fn unit_index(units: Seq<QduId>, id: QduId) -> int {
    choose|i: int| 0 <= i < units.len() && units[i] == id
}

/// The position of the first stabilization target outside the engine's
/// context, from position `t` on; the length when every target is known.
pub open spec fn fm_from(units: Seq<QduId>, targets: Seq<QduId>, t: int) -> int
    decreases targets.len() - t,
{
    if t < 0 || t >= targets.len() {
        targets.len() as int
    } else if !units.contains(targets[t]) {
        t
    } else {
        fm_from(units, targets, t + 1)
    }
}

/// The results map after recording the first `upto` targets' outcomes for
/// the chosen basis state.
pub open spec fn record_upto(
    m: Map<QduId, crate::base::state::StableState>,
    units: Seq<QduId>,
    targets: Seq<QduId>,
    upto: int,
    ch: usize,
    n: nat,
) -> Map<QduId, crate::base::state::StableState>
    decreases upto,
{
    if upto <= 0 {
        m
    } else {
        record_upto(m, units, targets, upto - 1, ch, n).insert(
            targets[upto - 1],
            crate::base::state::StableState::ResolvedQuality(
                outcome_bit(ch, n, unit_index(units, targets[upto - 1])),
            ),
        )
    }
}

/// What is always true of stabilizing a pure basis state: it passes the
/// normalization check, the single basis state is the only qualifying
/// outcome with a non-negligible total, and the selection picks it.
pub open spec fn one_hot_ready(pre: Seq<Amp>) -> bool {
    forall|c: int| #[trigger] crate::amp::one_hot_at(pre, c) ==> {
        &&& !crate::amp::dev_exceeds_of(crate::validation::norm_sum(pre).0, None)
        &&& qual_indices(pre, pre.len() as int) == seq![c]
        &&& total_score_upto(pre, pre.len() as int) == crate::amp::one_pair()
        &&& !crate::amp::below_tol_of(total_score_upto(pre, pre.len() as int).0)
        &&& chosen_index(pre) == c
    }
}

/// What stabilizing does: which outcome the call returns on which inputs,
/// the collapse of the state to the chosen basis state, and the outcomes
/// recorded for the targets in order up to the first unknown target.  On
/// a normalized state the running score total is never negligible while
/// some outcome qualifies, so `Instability` arises exactly when no
/// outcome does.
pub open spec fn stab_post(
    units: Seq<QduId>,
    n: nat,
    pre: Seq<Amp>,
    post: Seq<Amp>,
    targets: Seq<QduId>,
    m0: Map<QduId, crate::base::state::StableState>,
    m1: Map<QduId, crate::base::state::StableState>,
    r: Result<(), OnqError>,
) -> bool {
    let len = pre.len() as int;
    &&& post.len() == pre.len()
    &&& (targets.len() > 0 ==> one_hot_ready(pre))
    &&& (targets.len() > 0 && !crate::amp::dev_exceeds_of(crate::validation::norm_sum(pre).0, None)
        && qual_indices(pre, len).len() > 0 ==> !crate::amp::below_tol_of(
        total_score_upto(pre, len).0,
    ))
    &&& (targets.len() > 0 && !crate::amp::dev_exceeds_of(crate::validation::norm_sum(pre).0, None)
        ==> forall|j: int|
        0 <= j < len && crate::amp::is_zero_pair(amp_bits(#[trigger] pre[j])) ==> !qualifies(
            pre[j],
        ))
    &&& if targets.len() == 0 {
        r is Ok && post == pre && m1 == m0
    } else if crate::amp::dev_exceeds_of(crate::validation::norm_sum(pre).0, None) {
        (r matches Err(e) && e is Incoherence) && post == pre && m1 == m0
    } else if qual_indices(pre, len).len() == 0 || crate::amp::below_tol_of(
        total_score_upto(pre, len).0,
    ) {
        (r matches Err(e) && e is Instability) && post == pre && m1 == m0
    } else {
        let ch = chosen_index(pre);
        let miss = fm_from(units, targets, 0);
        &&& 0 <= ch < len
        &&& forall|j: int|
            0 <= j < len ==> amp_bits(#[trigger] post[j]) == (if j == ch {
                (ONE_BITS, ZERO_BITS)
            } else {
                (ZERO_BITS, ZERO_BITS)
            })
        &&& m1 == record_upto(m0, units, targets, miss, ch as usize, n)
        &&& (r is Ok <==> miss == targets.len())
        &&& (r is Err ==> r->Err_0 is ReferenceViolation)
    }
}

impl SimulationEngine {
    /// Resolves the targeted units.  An empty target list does nothing.
    /// Otherwise the state must pass the normalization check
    /// (`Incoherence`), at least one basis state must carry a qualifying
    /// weight with a non-negligible total (`Instability`), and then the
    /// deterministically selected outcome collapses the state to that
    /// basis state; each target's bit is recorded in order, and a target
    /// outside the engine's context stops the recording with
    /// `ReferenceViolation` (outcomes already recorded remain).
    pub fn stabilize(
        &mut self,
        targets: &Vec<QduId>,
        result: &mut crate::simulation::results::SimulationResult,
    ) -> (r: Result<(), OnqError>)
        requires
            old(self).wf(),
        ensures
            final(self).wf(),
            final(self).unit_seq() == old(self).unit_seq(),
            final(self).n() == old(self).n(),
            final(self).state().len() == old(self).state().len(),
            stab_post(
                old(self).unit_seq(),
                old(self).n(),
                old(self).state(),
                final(self).state(),
                targets@,
                old(result).outcomes(),
                final(result).outcomes(),
                r,
            ),
    {
        if targets.len() == 0 {
            return Ok(());
        }
        match crate::validation::validate_state(&self.global_state, self.num_qdus, None, None, None) {
            Ok(()) => {},
            Err(e) => {
                proof {
                    assert forall|c: int| #[trigger] crate::amp::one_hot_at(
                        old(self).state(),
                        c,
                    ) implies false by {}
                    assert(one_hot_ready(old(self).state()));
                }
                return Err(e);
            },
        }
        let ghost orig = self.state();
        proof {
            assert(!crate::amp::dev_exceeds_of(crate::validation::norm_sum(orig).0, None));
        }
        let dim = self.global_state.dim();
        let n = self.num_qdus;
        let mut valid: Vec<(usize, Amp)> = Vec::new();
        let mut total = Amp::zero();
        proof {
            assert((0u64 & 0x7FFF_FFFF_FFFF_FFFFu64) == 0u64) by (bit_vector);
        }
        {
            let v = self.global_state.vector();
            let mut k: usize = 0;
            while k < dim
                invariant
                    v@ == orig,
                    dim == orig.len(),
                    k <= dim,
                    total@ == total_score_upto(orig, k as int),
                    total@.1 == ZERO_BITS,
                    total@.0 < crate::amp::NEG_ZERO_BITS,
                    !crate::amp::is_nan_bits(total@.0),
                    qual_indices(orig, k as int).len() > 0 ==> !crate::amp::below_tol_of(
                        total@.0,
                    ),
                    forall|i: int|
                        0 <= i < k && crate::amp::is_zero_pair(amp_bits(#[trigger] orig[i]))
                            ==> !qualifies(orig[i]),
                    valid@.map_values(|pr: (usize, Amp)| pr.0 as int) == qual_indices(
                        orig,
                        k as int,
                    ),
                    forall|t: int|
                        0 <= t < valid@.len() ==> (#[trigger] valid@[t]).0 < dim && valid@[t].1@
                            == sq_pair(orig[valid@[t].0 as int]),
                    forall|c: int|
                        #[trigger] crate::amp::one_hot_at(orig, c) ==> (if c < k {
                            valid@.len() == 1 && valid@[0].0 == c && total@
                                == crate::amp::one_pair()
                        } else {
                            valid@.len() == 0 && total@ == crate::amp::zero_pair()
                        }),
                decreases dim - k,
            {
                let sq = amp_norm_sqr(&v[k]);
                if crate::amp::score_passes(&sq) {
                    valid.push((k, sq));
                    total = amp_add(&total, &sq);
                    proof {
                        assert(valid@.map_values(|pr: (usize, Amp)| pr.0 as int) =~= qual_indices(
                            orig,
                            k + 1,
                        ));
                        assert forall|c: int|
                            #[trigger] crate::amp::one_hot_at(orig, c) implies (if c < k + 1 {
                            valid@.len() == 1 && valid@[0].0 == c && total@
                                == crate::amp::one_pair()
                        } else {
                            valid@.len() == 0 && total@ == crate::amp::zero_pair()
                        }) by {
                            if c != k as int {
                                assert(amp_bits(orig[k as int]) == crate::amp::zero_pair());
                            }
                        }
                    }
                } else {
                    proof {
                        assert(valid@.map_values(|pr: (usize, Amp)| pr.0 as int) =~= qual_indices(
                            orig,
                            k + 1,
                        ));
                        assert forall|c: int|
                            #[trigger] crate::amp::one_hot_at(orig, c) implies (if c < k + 1 {
                            valid@.len() == 1 && valid@[0].0 == c && total@
                                == crate::amp::one_pair()
                        } else {
                            valid@.len() == 0 && total@ == crate::amp::zero_pair()
                        }) by {
                            if c == k as int {
                                assert(amp_bits(orig[k as int]) == crate::amp::one_pair());
                            }
                        }
                    }
                }
                k = k + 1;
            }
        }
        if valid.len() == 0 || crate::amp::below_min_weight(&total) {
            proof {
                assert(qual_indices(orig, orig.len() as int).len() == valid@.map_values(
                    |pr: (usize, Amp)| pr.0 as int,
                ).len());
                assert forall|c: int| #[trigger] crate::amp::one_hot_at(
                    orig,
                    c,
                ) implies false by {}
                assert(one_hot_ready(orig));
            }
            return Err(
                OnqError::Instability {
                    message: "Stabilization failed: No possible outcome met amplitude criteria".to_owned(),
                },
            );
        }
        let mut hasher = std::collections::hash_map::DefaultHasher::new();
        {
            let v = self.global_state.vector();
            let mut k: usize = 0;
            while k < dim
                invariant
                    v@ == orig,
                    dim == orig.len(),
                    k <= dim,
                    hasher@ == hash_writes_upto(orig, k as int),
                decreases dim - k,
            {
                let b = v[k].bits();
                crate::amp::hash_word(&mut hasher, b.0);
                crate::amp::hash_word(&mut hasher, b.1);
                k = k + 1;
            }
        }
        let seed = hasher.finish();
        let sample = crate::amp::draw_unit_sample(seed);
        let p_sample = amp_mul(&sample, &total);
        proof {
            assert(p_sample@ == p_sample_of(orig));
        }
        let ghost cands = qual_indices(orig, orig.len() as int);
        let mut chosen: usize = valid[valid.len() - 1].0;
        proof {
            assert(cands[cands.len() - 1] == valid@[valid@.len() - 1].0 as int);
        }
        let mut cum = Amp::zero();
        let mut found = false;
        let mut t: usize = 0;
        while t < valid.len()
            invariant
                valid@.map_values(|pr: (usize, Amp)| pr.0 as int) == cands,
                forall|q: int|
                    0 <= q < valid@.len() ==> (#[trigger] valid@[q]).0 < orig.len() && valid@[q].1@
                        == sq_pair(orig[valid@[q].0 as int]),
                t <= valid@.len(),
                valid@.len() > 0,
                chosen < orig.len(),
                p_sample@ == p_sample_of(orig),
                if found {
                    walk_cands(orig, cands, p_sample_of(orig), 0, zero_pair()) == Some(
                        chosen as int,
                    )
                } else {
                    walk_cands(orig, cands, p_sample_of(orig), 0, zero_pair()) == walk_cands(
                        orig,
                        cands,
                        p_sample_of(orig),
                        t as int,
                        cum@,
                    ) && chosen as int == cands[cands.len() - 1]
                },
            decreases valid@.len() - t,
        {
            if !found {
                cum = amp_add(&cum, &valid[t].1);
                if crate::amp::amp_lt(&p_sample, &cum) {
                    chosen = valid[t].0;
                    found = true;
                }
            }
            t = t + 1;
        }
        proof {
            assert(chosen_index(orig) == chosen as int);
            assert forall|c: int| #[trigger] crate::amp::one_hot_at(orig, c) implies {
                &&& !crate::amp::dev_exceeds_of(crate::validation::norm_sum(orig).0, None)
                &&& qual_indices(orig, orig.len() as int) == seq![c]
                &&& total_score_upto(orig, orig.len() as int) == crate::amp::one_pair()
                &&& !crate::amp::below_tol_of(total_score_upto(orig, orig.len() as int).0)
                &&& chosen_index(orig) == c
            } by {
                assert(valid@.len() == 1 && valid@[0].0 == c);
                assert(qual_indices(orig, orig.len() as int) =~= seq![c]) by {
                    assert(valid@.map_values(|pr: (usize, Amp)| pr.0 as int)[0] == c);
                }
                let cs = qual_indices(orig, orig.len() as int);
                let p = p_sample_of(orig);
                let c2 = c_add_of(zero_pair(), sq_pair(orig[cs[0]]));
                assert(walk_cands(orig, cs, p, 1, c2) is None);
                assert(chosen_index(orig) == c);
            }
            assert(one_hot_ready(orig));
        }
        let mut new_vec: Vec<Amp> = Vec::new();
        let one = Amp::one();
        let zero = Amp::zero();
        let mut j: usize = 0;
        while j < dim
            invariant
                j <= dim,
                new_vec@.len() == j,
                chosen < dim,
                one@ == (ONE_BITS, ZERO_BITS),
                zero@ == (ZERO_BITS, ZERO_BITS),
                forall|i: int|
                    0 <= i < j ==> amp_bits(#[trigger] new_vec@[i]) == (if i == chosen {
                        (ONE_BITS, ZERO_BITS)
                    } else {
                        (ZERO_BITS, ZERO_BITS)
                    }),
            decreases dim - j,
        {
            if j == chosen {
                new_vec.push(one);
            } else {
                new_vec.push(zero);
            }
            j = j + 1;
        }
        self.global_state = crate::base::state::PotentialityState::new(new_vec);
        let ghost m0 = result.outcomes();
        let ghost units = self.unit_seq();
        let mut t2: usize = 0;
        while t2 < targets.len()
            invariant
                self.wf(),
                self.unit_seq() == units,
                units == old(self).unit_seq(),
                self.n() == old(self).n(),
                self.state().len() == old(self).state().len(),
                orig == old(self).state(),
                orig.len() == old(self).state().len(),
                one_hot_ready(orig),
                !crate::amp::below_tol_of(total_score_upto(orig, orig.len() as int).0),
                forall|jj: int|
                    0 <= jj < orig.len() && crate::amp::is_zero_pair(
                        amp_bits(#[trigger] orig[jj]),
                    ) ==> !qualifies(orig[jj]),
                targets@.len() > 0,
                m0 == old(result).outcomes(),
                !crate::amp::dev_exceeds_of(crate::validation::norm_sum(orig).0, None),
                qual_indices(orig, orig.len() as int).len() > 0,
                !crate::amp::below_tol_of(total_score_upto(orig, orig.len() as int).0),
                chosen as int == chosen_index(orig),
                forall|jj: int|
                    0 <= jj < self.state().len() ==> amp_bits(#[trigger] self.state()[jj]) == (
                    if jj == chosen {
                        (ONE_BITS, ZERO_BITS)
                    } else {
                        (ZERO_BITS, ZERO_BITS)
                    }),
                n == self.num_qdus,
                t2 <= targets@.len(),
                fm_from(units, targets@, 0) == fm_from(units, targets@, t2 as int),
                result.outcomes() == record_upto(m0, units, targets@, t2 as int, chosen, n as nat),
                chosen < self.state().len(),
            decreases targets@.len() - t2,
        {
            let target_id = targets[t2];
            match index_of(&self.units, &target_id) {
                Some(i) => {
                    let bit_pos = n - 1 - i;
                    let bit = (chosen >> bit_pos) & 1;
                    result.record_stable_state(
                        target_id,
                        crate::base::state::StableState::ResolvedQuality(bit as u64),
                    );
                    proof {
                        assert(units.contains(targets@[t2 as int]));
                        let spec_i = unit_index(units, target_id);
                        assert(units[spec_i] == target_id && 0 <= spec_i < units.len());
                        assert(spec_i == i as int) by {
                            if spec_i < i as int {
                                assert(units[spec_i].0 < units[i as int].0);
                            } else if spec_i > i as int {
                                assert(units[i as int].0 < units[spec_i].0);
                            }
                        }
                        assert(bit as u64 == outcome_bit(chosen, n as nat, i as int));
                    }
                },
                None => {
                    proof {
                        assert(fm_from(units, targets@, t2 as int) == t2 as int);
                    }
                    let mut msg = String::new();
                    msg = append_str(&msg, "QDU ");
                    msg = append_str(&msg, crate::amp::u64_string(target_id.0).as_str());
                    msg = append_str(&msg, " targeted for stabilization not found in simulation context.");
                    return Err(OnqError::ReferenceViolation { message: msg });
                },
            }
            t2 = t2 + 1;
        }
        Ok(())
    }
}

} // verus!

verus! {

/// The bit pairs of a state vector, position by position.
pub open spec fn bits_of(s: Seq<Amp>) -> Seq<(u64, u64)> {
    Seq::new(s.len(), |i: int| amp_bits(s[i]))
}

/// The bit pairs after a single-unit gate application.
pub open spec fn single_gate_map(v: Seq<Amp>, mask: usize, m: Mat2Bits) -> Seq<(u64, u64)> {
    Seq::new(v.len(), |j: int| single_gate_val(v, mask, m, j as usize))
}

/// The bit pairs after a two-unit gate application.
pub open spec fn two_gate_map(v: Seq<Amp>, k1m: usize, k2m: usize, m: Mat4Bits) -> Seq<
    (u64, u64),
> {
    Seq::new(v.len(), |j: int| two_gate_val(v, k1m, k2m, m, j as usize))
}

/// The bit pairs after a successful subspace projection: each position
/// takes its own segment's overlap times the target component its two
/// unit bits select, rescaled by the reciprocal square root of the total
/// overlap's squared magnitude.
pub open spec fn proj_map(
    v: Seq<Amp>,
    t: QuadBits,
    k1: usize,
    k2: usize,
    k1m: usize,
    k2m: usize,
    n: nat,
) -> Seq<(u64, u64)> {
    let ov = total_overlap(v, t, k1, k2, k1m, k2m, n);
    Seq::new(
        v.len(),
        |j: int|
            c_mul_of(
                c_mul_of(
                    seg_overlap(v, t, (j as usize) & !k1m & !k2m, k1m, k2m),
                    quad_at(t, (j as usize) & k1m != 0, (j as usize) & k2m != 0),
                ),
                (crate::amp::recip_sqrt_of(crate::amp::norm_sq_of(ov)), ZERO_BITS),
            ),
    )
}

/// The controlled embedding of a single-unit matrix: identity on the
/// control-zero subspace, the matrix on the control-one subspace.
pub open spec fn controlled_bits(u: Mat2Bits) -> Mat4Bits {
    Mat4Bits {
        m00: (ONE_BITS, ZERO_BITS),
        m01: (ZERO_BITS, ZERO_BITS),
        m02: (ZERO_BITS, ZERO_BITS),
        m03: (ZERO_BITS, ZERO_BITS),
        m10: (ZERO_BITS, ZERO_BITS),
        m11: (ONE_BITS, ZERO_BITS),
        m12: (ZERO_BITS, ZERO_BITS),
        m13: (ZERO_BITS, ZERO_BITS),
        m20: (ZERO_BITS, ZERO_BITS),
        m21: (ZERO_BITS, ZERO_BITS),
        m22: u.m00,
        m23: u.m01,
        m30: (ZERO_BITS, ZERO_BITS),
        m31: (ZERO_BITS, ZERO_BITS),
        m32: u.m10,
        m33: u.m11,
    }
}

/// The bits of the relational-lock coefficient `1/sqrt(2)`, written as the
/// exact dyadic rational that the crate's arithmetic produces for it.
pub open spec fn bell_coeff() -> u64 {
    ratio_bits_of(6369051672525772, 9007199254740992)
}

/// The fixed normalized target vector of each lock type.
pub open spec fn bell_bits(lt: LockType) -> QuadBits {
    let s = (bell_coeff(), ZERO_BITS);
    let ns = (neg_re(bell_coeff()), NEG_ZERO_BITS);
    let z = zero_pair();
    match lt {
        LockType::BellPhiPlus => QuadBits { q0: s, q1: z, q2: z, q3: s },
        LockType::BellPhiMinus => QuadBits { q0: s, q1: z, q2: z, q3: ns },
        LockType::BellPsiPlus => QuadBits { q0: z, q1: s, q2: s, q3: z },
        LockType::BellPsiMinus => QuadBits { q0: z, q1: s, q2: ns, q3: z },
    }
}

/// How a pure basis state travels through an operation: the identity
/// pattern keeps it, the bit-flip pattern flips its unit's bit, a
/// controlled flip flips the target's bit exactly when the control's bit
/// is set, and a lock release leaves it untouched.
pub open spec fn basis_transport(
    units: Seq<QduId>,
    n: nat,
    pre: Seq<Amp>,
    post: Seq<Amp>,
    op: Operation,
    r: Result<(), OnqError>,
) -> bool {
    r is Ok ==> forall|c: int|
        #[trigger] crate::amp::one_hot_at(pre, c) ==> match op {
            Operation::InteractionPattern { target, pattern_id } => {
                let mask = 1usize << ((n - 1 - unit_index(units, target)) as usize);
                &&& (pattern_id@ == "Identity"@ ==> crate::amp::one_hot_at(post, c))
                &&& (pattern_id@ == "QualityFlip"@ ==> crate::amp::one_hot_at(
                    post,
                    ((c as usize) ^ mask) as int,
                ))
            },
            Operation::ControlledInteraction { control, target, pattern_id } => {
                let cm = 1usize << ((n - 1 - unit_index(units, control)) as usize);
                let tm = 1usize << ((n - 1 - unit_index(units, target)) as usize);
                pattern_id@ == "QualityFlip"@ ==> {
                    &&& ((c as usize) & cm == 0 ==> crate::amp::one_hot_at(post, c))
                    &&& ((c as usize) & cm != 0 ==> crate::amp::one_hot_at(
                        post,
                        ((c as usize) ^ tm) as int,
                    ))
                }
            },
            Operation::RelationalLock { establish, .. } => !establish
                ==> crate::amp::one_hot_at(post, c),
            _ => true,
        }
}

/// Where the equal-superposition pattern is applied, a basis position
/// whose pair partner under the target's bit also carried an exact zero
/// stays exactly zero: the pattern cannot create support outside the
/// target's axis.
pub open spec fn sup_support_transport(
    units: Seq<QduId>,
    n: nat,
    pre: Seq<Amp>,
    post: Seq<Amp>,
    op: Operation,
    r: Result<(), OnqError>,
) -> bool {
    r is Ok ==> match op {
        Operation::InteractionPattern { target, pattern_id } => {
            let mask = 1usize << ((n - 1 - unit_index(units, target)) as usize);
            pattern_id@ == "Superposition"@ ==> forall|j: usize|
                j < pre.len() && crate::amp::is_zero_pair(
                    amp_bits(#[trigger] pre[j as int]),
                ) && crate::amp::is_zero_pair(amp_bits(pre[(j ^ mask) as int]))
                    ==> crate::amp::is_zero_pair(amp_bits(post[j as int]))
        },
        _ => true,
    }
}

/// What applying one non-stabilization operation does: which outcome the
/// call returns on which inputs, and the exact bits of the state after
/// it.  On a reference violation, an unknown pattern, a coinciding pair,
/// a lock release or a negligible projection overlap the state is
/// untouched; a transformed state that fails the normalization check
/// surfaces `Incoherence`, with the transformed state kept.
pub open spec fn apply_post(
    units: Seq<QduId>,
    n: nat,
    pre: Seq<Amp>,
    post: Seq<Amp>,
    op: Operation,
    r: Result<(), OnqError>,
) -> bool {
    match op {
        Operation::PhaseShift { target, theta } => {
            if !units.contains(target) {
                (r matches Err(e) && e is ReferenceViolation) && post == pre
            } else {
                let mask = 1usize << ((n - 1 - unit_index(units, target)) as usize);
                &&& bits_of(post) == single_gate_map(pre, mask, phase_shift_bits(amp_bits(theta).0))
                &&& (r is Ok <==> !crate::amp::dev_exceeds_of(
                    crate::validation::norm_sum(post).0,
                    None,
                ))
                &&& (r matches Err(e) ==> e is Incoherence)
            }
        },
        Operation::InteractionPattern { target, pattern_id } => {
            if !units.contains(target) {
                (r matches Err(e) && e is ReferenceViolation) && post == pre
            } else if pattern_mat_bits(pattern_id@) is None {
                (r matches Err(e) && e is InvalidOperation) && post == pre
            } else {
                let mask = 1usize << ((n - 1 - unit_index(units, target)) as usize);
                &&& bits_of(post) == single_gate_map(
                    pre,
                    mask,
                    pattern_mat_bits(pattern_id@)->Some_0,
                )
                &&& (r is Ok <==> !crate::amp::dev_exceeds_of(
                    crate::validation::norm_sum(post).0,
                    None,
                ))
                &&& (r matches Err(e) ==> e is Incoherence)
            }
        },
        Operation::ControlledInteraction { control, target, pattern_id } => {
            if !units.contains(control) {
                (r matches Err(e) && e is ReferenceViolation) && post == pre
            } else if !units.contains(target) {
                (r matches Err(e) && e is ReferenceViolation) && post == pre
            } else if control == target {
                (r matches Err(e) && e is InvalidOperation) && post == pre
            } else if pattern_mat_bits(pattern_id@) is None {
                (r matches Err(e) && e is InvalidOperation) && post == pre
            } else {
                let k1m = 1usize << ((n - 1 - unit_index(units, control)) as usize);
                let k2m = 1usize << ((n - 1 - unit_index(units, target)) as usize);
                &&& bits_of(post) == two_gate_map(
                    pre,
                    k1m,
                    k2m,
                    controlled_bits(pattern_mat_bits(pattern_id@)->Some_0),
                )
                &&& (r is Ok <==> !crate::amp::dev_exceeds_of(
                    crate::validation::norm_sum(post).0,
                    None,
                ))
                &&& (r matches Err(e) ==> e is Incoherence)
            }
        },
        Operation::RelationalLock { qdu1, qdu2, lock_type, establish } => {
            if !establish {
                r is Ok && post == pre
            } else if !units.contains(qdu1) {
                (r matches Err(e) && e is ReferenceViolation) && post == pre
            } else if !units.contains(qdu2) {
                (r matches Err(e) && e is ReferenceViolation) && post == pre
            } else if qdu1 == qdu2 {
                (r matches Err(e) && e is InvalidOperation) && post == pre
            } else {
                let k1 = (n - 1 - unit_index(units, qdu1)) as usize;
                let k2 = (n - 1 - unit_index(units, qdu2)) as usize;
                let k1m = 1usize << k1;
                let k2m = 1usize << k2;
                let t = bell_bits(lock_type);
                let ov = total_overlap(pre, t, k1, k2, k1m, k2m, n);
                &&& (lock_type == LockType::BellPsiPlus && off_diag_zero(pre, k1m, k2m)
                    ==> crate::amp::below_tol_of(crate::amp::norm_sq_of(ov)))
                &&& (r is Ok && lock_type == LockType::BellPhiPlus ==> forall|c: usize|
                    crate::amp::one_hot_at(pre, c as int) && c & k1m == 0 && c & k2m == 0
                        && crate::amp::passes_tol_of(crate::amp::norm_sq_of(ov)) ==> proj_prefix(
                        post,
                        c as int,
                        (c | k1m | k2m) as int,
                        c_mul_of(
                            c_mul_of(t.q0, t.q0),
                            (
                                crate::amp::recip_sqrt_of(crate::amp::norm_sq_of(ov)),
                                ZERO_BITS,
                            ),
                        ),
                    ))
                &&& if crate::amp::below_tol_of(crate::amp::norm_sq_of(ov)) {
                    (r matches Err(e) && e is Instability) && post == pre
                } else {
                    &&& bits_of(post) == proj_map(pre, t, k1, k2, k1m, k2m, n)
                    &&& (r is Ok <==> !crate::amp::dev_exceeds_of(
                        crate::validation::norm_sum(post).0,
                        None,
                    ))
                    &&& (r matches Err(e) ==> e is Incoherence)
                }
            }
        },
        Operation::Stabilize { .. } => (r matches Err(e) && e is InvalidOperation) && post == pre,
    }
}

/// Builds the fixed target vector of a lock type.
fn bell_target(lock_type: &LockType) -> (r: Quad)
    ensures
        quad_bits(r) == bell_bits(*lock_type),
        *lock_type == LockType::BellPsiPlus ==> crate::amp::finite_pair_of(quad_bits(r).q1)
            && crate::amp::finite_pair_of(quad_bits(r).q2),
        *lock_type == LockType::BellPhiPlus ==> crate::amp::finite_pair_of(quad_bits(r).q0)
            && quad_bits(r).q0.0 < NEG_ZERO_BITS,
{
    let s = amp_ratio(6369051672525772, 9007199254740992);
    let ns = amp_neg(&s);
    let z = Amp::zero();
    proof {
        assert(0u64 ^ 0x8000_0000_0000_0000u64 == 0x8000_0000_0000_0000u64) by (bit_vector);
    }
    match lock_type {
        LockType::BellPhiPlus => Quad { q0: s, q1: z, q2: z, q3: s },
        LockType::BellPhiMinus => Quad { q0: s, q1: z, q2: z, q3: ns },
        LockType::BellPsiPlus => Quad { q0: z, q1: s, q2: s, q3: z },
        LockType::BellPsiMinus => Quad { q0: z, q1: s, q2: ns, q3: z },
    }
}

/// Builds the controlled embedding of a single-unit matrix.
fn controlled_matrix(u: &Mat2) -> (r: Mat4)
    ensures
        mat4_bits(r) == controlled_bits(mat2_bits(*u)),
{
    let one = Amp::one();
    let zero = Amp::zero();
    Mat4 {
        m00: one,
        m01: zero,
        m02: zero,
        m03: zero,
        m10: zero,
        m11: one,
        m12: zero,
        m13: zero,
        m20: zero,
        m21: zero,
        m22: u.m00,
        m23: u.m01,
        m30: zero,
        m31: zero,
        m32: u.m10,
        m33: u.m11,
    }
}

impl SimulationEngine {
    /// Relates an index handed back by the lookup to the specification
    /// index of a unit.
    proof fn lemma_index_is_unit_index(&self, i: usize, id: QduId)
        requires
            self.wf(),
            i < self.unit_seq().len(),
            self.unit_seq()[i as int] == id,
        ensures
            unit_index(self.unit_seq(), id) == i as int,
            self.unit_seq().contains(id),
    {
        let units = self.unit_seq();
        assert(units.contains(id));
        let spec_i = unit_index(units, id);
        assert(units[spec_i] == id && 0 <= spec_i < units.len());
        if spec_i < i as int {
            assert(units[spec_i].0 < units[i as int].0);
        } else if spec_i > i as int {
            assert(units[i as int].0 < units[spec_i].0);
        }
    }

    /// Applies one non-stabilization operation and then checks that the
    /// state is still normalized; see [`apply_post`] for the exact
    /// outcome on every input.
    pub fn apply_operation(&mut self, op: &Operation) -> (r: Result<(), OnqError>)
        requires
            old(self).wf(),
        ensures
            final(self).wf(),
            final(self).unit_seq() == old(self).unit_seq(),
            final(self).n() == old(self).n(),
            final(self).state().len() == old(self).state().len(),
            apply_post(
                old(self).unit_seq(),
                old(self).n(),
                old(self).state(),
                final(self).state(),
                *op,
                r,
            ),
            basis_transport(
                old(self).unit_seq(),
                old(self).n(),
                old(self).state(),
                final(self).state(),
                *op,
                r,
            ),
            sup_support_transport(
                old(self).unit_seq(),
                old(self).n(),
                old(self).state(),
                final(self).state(),
                *op,
                r,
            ),
    {
        let ghost units = self.unit_seq();
        let ghost pre = self.state();
        match op {
            Operation::PhaseShift { target, theta } => {
                let target_idx = match self.get_qdu_index(target) {
                    Ok(i) => i,
                    Err(e) => {
                        return Err(e);
                    },
                };
                proof {
                    self.lemma_index_is_unit_index(target_idx, *target);
                }
                let m = phase_shift_matrix(theta);
                match self.apply_single_qdu_gate(target_idx, &m) {
                    Ok(()) => {},
                    Err(e) => {
                        return Err(e);
                    },
                }
                proof {
                    assert(bits_of(self.state()) =~= single_gate_map(
                        pre,
                        old(self).unit_mask(target_idx),
                        mat2_bits(m),
                    ));
                }
                crate::validation::check_normalization(&self.global_state, None)
            },
            Operation::InteractionPattern { target, pattern_id } => {
                let target_idx = match self.get_qdu_index(target) {
                    Ok(i) => i,
                    Err(e) => {
                        return Err(e);
                    },
                };
                proof {
                    self.lemma_index_is_unit_index(target_idx, *target);
                }
                let m = match self.get_interaction_matrix(pattern_id) {
                    Ok(m) => m,
                    Err(e) => {
                        return Err(e);
                    },
                };
                match self.apply_single_qdu_gate(target_idx, &m) {
                    Ok(()) => {},
                    Err(e) => {
                        return Err(e);
                    },
                }
                proof {
                    assert(bits_of(self.state()) =~= single_gate_map(
                        pre,
                        old(self).unit_mask(target_idx),
                        mat2_bits(m),
                    ));
                    reveal_strlit("Identity");
                    reveal_strlit("QualityFlip");
                    assert("Identity"@.len() == 8 && "QualityFlip"@.len() == 11);
                    if pattern_id@ == "Identity"@ {
                        assert(mat2_bits(m) == id_mat_bits());
                    }
                    if pattern_id@ == "QualityFlip"@ {
                        assert(pattern_id@ != "Identity"@);
                        assert(mat2_bits(m) == flip_mat_bits());
                    }
                }
                crate::validation::check_normalization(&self.global_state, None)
            },
            Operation::ControlledInteraction { control, target, pattern_id } => {
                let control_idx = match self.get_qdu_index(control) {
                    Ok(i) => i,
                    Err(e) => {
                        return Err(e);
                    },
                };
                let target_idx = match self.get_qdu_index(target) {
                    Ok(i) => i,
                    Err(e) => {
                        return Err(e);
                    },
                };
                proof {
                    self.lemma_index_is_unit_index(control_idx, *control);
                    self.lemma_index_is_unit_index(target_idx, *target);
                }
                if control_idx == target_idx {
                    return Err(
                        OnqError::InvalidOperation {
                            message:
                                "Control and target QDUs cannot be the same for controlled operation".to_owned(),
                        },
                    );
                }
                let u_matrix = match self.get_interaction_matrix(pattern_id) {
                    Ok(m) => m,
                    Err(e) => {
                        return Err(e);
                    },
                };
                let cm = controlled_matrix(&u_matrix);
                match self.apply_two_qdu_gate(control_idx, target_idx, &cm) {
                    Ok(()) => {},
                    Err(e) => {
                        return Err(e);
                    },
                }
                proof {
                    assert(bits_of(self.state()) =~= two_gate_map(
                        pre,
                        old(self).unit_mask(control_idx),
                        old(self).unit_mask(target_idx),
                        mat4_bits(cm),
                    ));
                    reveal_strlit("Identity");
                    reveal_strlit("QualityFlip");
                    assert("Identity"@.len() == 8 && "QualityFlip"@.len() == 11);
                    if pattern_id@ == "QualityFlip"@ {
                        assert(pattern_id@ != "Identity"@);
                        assert(mat2_bits(u_matrix) == flip_mat_bits());
                        assert(mat4_bits(cm) == controlled_bits(flip_mat_bits()));
                    }
                }
                crate::validation::check_normalization(&self.global_state, None)
            },
            Operation::RelationalLock { qdu1, qdu2, lock_type, establish } => {
                if !*establish {
                    return Ok(());
                }
                let idx1 = match self.get_qdu_index(qdu1) {
                    Ok(i) => i,
                    Err(e) => {
                        return Err(e);
                    },
                };
                let idx2 = match self.get_qdu_index(qdu2) {
                    Ok(i) => i,
                    Err(e) => {
                        return Err(e);
                    },
                };
                proof {
                    self.lemma_index_is_unit_index(idx1, *qdu1);
                    self.lemma_index_is_unit_index(idx2, *qdu2);
                }
                if idx1 == idx2 {
                    return Err(
                        OnqError::InvalidOperation {
                            message: "RelationalLock requires two different QDUs.".to_owned(),
                        },
                    );
                }
                let targ = bell_target(lock_type);
                match self.project_onto_subspace_state(idx1, idx2, &targ) {
                    Ok(()) => {},
                    Err(e) => {
                        return Err(e);
                    },
                }
                proof {
                    let k1 = (old(self).n() - 1 - idx1 as int) as usize;
                    let k2 = (old(self).n() - 1 - idx2 as int) as usize;
                    assert(bits_of(self.state()) =~= proj_map(
                        pre,
                        bell_bits(*lock_type),
                        k1,
                        k2,
                        old(self).unit_mask(idx1),
                        old(self).unit_mask(idx2),
                        old(self).n(),
                    ));
                }
                crate::validation::check_normalization(&self.global_state, None)
            },
            Operation::Stabilize { .. } => {
                Err(
                    OnqError::InvalidOperation {
                        message:
                            "Stabilize operation should not be passed directly to apply_operation".to_owned(),
                    },
                )
            },
        }
    }
}

} // verus!
