//! Complex scalars for the simulation, backed by `num_complex`.
//!
//! An [`Amp`] wraps one `num_complex::Complex64` value.  Specifications never
//! look inside the wrapped value; they speak of its two IEEE-754 bit patterns
//! through the projection [`amp_bits`], and every arithmetic operation is a
//! trusted wrapper whose result is pinned, as a function of the operands'
//! bit patterns, by an uninterpreted name.  That makes the whole numeric
//! pipeline a mathematical function of the bits that flow into it, which is
//! what the stabilization algorithm's determinism rests on.
//!
//! A handful of extra clauses state bit-exact identities of IEEE-754
//! arithmetic on the distinguished values zero and one (for example
//! `0.0 + 1.0 == 1.0` exactly); each is a plain fact of the standard, and
//! they are what lets collapsed basis states be reasoned about exactly.

use rand::SeedableRng;
use std::hash::Hash;
use vstd::prelude::*;

verus! {

/// Bit pattern of the floating-point value `+0.0`.
pub const ZERO_BITS: u64 = 0;

/// Bit pattern of the floating-point value `-0.0` (only the sign bit set).
pub const NEG_ZERO_BITS: u64 = 0x8000_0000_0000_0000;

/// Bit pattern of the floating-point value `1.0`.
pub const ONE_BITS: u64 = 0x3FF0_0000_0000_0000;

/// The bit pair of the complex value `0 + 0i`.
pub open spec fn zero_pair() -> (u64, u64) {
    (ZERO_BITS, ZERO_BITS)
}

/// The bit pair of the complex value `1 + 0i`.
pub open spec fn one_pair() -> (u64, u64) {
    (ONE_BITS, ZERO_BITS)
}

/// True of the bit patterns of the not-a-number values: a maximal
/// exponent with a nonzero mantissa, of either sign.
pub open spec fn is_nan_bits(x: u64) -> bool {
    (x & 0x7FFF_FFFF_FFFF_FFFF) > 0x7FF0_0000_0000_0000
}

/// True of the bit pairs that denote a complex zero of either sign:
/// both parts are `+0.0` or `-0.0`.
pub open spec fn is_zero_pair(p: (u64, u64)) -> bool {
    (p.0 == ZERO_BITS || p.0 == NEG_ZERO_BITS) && (p.1 == ZERO_BITS || p.1 == NEG_ZERO_BITS)
}

/// True of a vector that is exactly one basis state: the bit pattern of
/// one at position `c` and of zero everywhere else.
pub open spec fn one_hot_at(v: Seq<Amp>, c: int) -> bool {
    &&& 0 <= c < v.len()
    &&& forall|j: int|
        0 <= j < v.len() ==> amp_bits(#[trigger] v[j]) == (if j == c {
            one_pair()
        } else {
            zero_pair()
        })
}

/// One complex scalar: an amplitude, a score, or a real quantity such as an
/// angle (held in the real part, with a zero imaginary part).
#[derive(Debug, Clone, Copy, PartialEq)]
pub struct Amp {
    c: num_complex::Complex64,
}

#[verifier::external_type_specification]
#[verifier::external_body]
#[verifier::reject_recursive_types(T)]
pub struct ExComplex<T>(num_complex::Complex<T>);

/// The IEEE-754 bit patterns of the wrapped value's real and imaginary parts.
pub uninterp spec fn amp_bits(a: Amp) -> (u64, u64);

impl View for Amp {
    type V = (u64, u64);

    open spec fn view(&self) -> (u64, u64) {
        amp_bits(*self)
    }
}

/// What complex addition returns, part by part, as a function of the
/// operands' bit patterns.
pub uninterp spec fn c_add_of(a: (u64, u64), b: (u64, u64)) -> (u64, u64);

/// What complex multiplication returns as a function of the operands' bits.
pub uninterp spec fn c_mul_of(a: (u64, u64), b: (u64, u64)) -> (u64, u64);

/// What scaling a complex value by the real part of another returns.
pub uninterp spec fn scale_of(a: (u64, u64), s: u64) -> (u64, u64);

/// The bits of `re*re + im*im`, as a function of the operand's bits.
pub uninterp spec fn norm_sq_of(a: (u64, u64)) -> u64;

/// Whether a score is finite and strictly above the negligibility tolerance.
pub uninterp spec fn passes_tol_of(x: u64) -> bool;

/// Whether a weight is strictly below the negligibility tolerance.
pub uninterp spec fn below_tol_of(x: u64) -> bool;

/// Whether a squared norm deviates from one by more than the tolerance
/// (the default tolerance where none is given).
pub uninterp spec fn dev_exceeds_of(x: u64, tol: Option<u64>) -> bool;

/// What the floating-point order `<` returns on two real parts.
pub uninterp spec fn flt_of(x: u64, y: u64) -> bool;

/// Whether both parts of a complex value are finite.
pub uninterp spec fn finite_pair_of(a: (u64, u64)) -> bool;

/// The bits of the quotient of two unsigned integers, each converted to
/// floating point.
pub uninterp spec fn ratio_bits_of(num: u64, den: u64) -> u64;

/// The bits of the quotient of two real parts.
pub uninterp spec fn real_div_of(x: u64, y: u64) -> u64;

/// The bits of a real part divided by an unsigned integer count.
pub uninterp spec fn div_count_of(x: u64, n: u64) -> u64;

/// The bits of the difference of two real parts.
pub uninterp spec fn real_sub_of(x: u64, y: u64) -> u64;

/// The bits of the cosine of a real part.
pub uninterp spec fn cos_of(x: u64) -> u64;

/// The bits of the sine of a real part.
pub uninterp spec fn sin_of(x: u64) -> u64;

/// The bits of the principal argument of a complex value.
pub uninterp spec fn arg_of(a: (u64, u64)) -> u64;

/// The bits of a real part clamped into the unit interval.
pub uninterp spec fn clamp01_of(x: u64) -> u64;

/// The bits of `1/sqrt(x)` for the real part `x`.
pub uninterp spec fn recip_sqrt_of(x: u64) -> u64;

/// The bits of one uniform draw in `[0, 1)` from the seeded generator.
pub uninterp spec fn unit_sample_of(seed: u64) -> u64;

/// How hashing one 64-bit word transforms the hasher's write history.
pub uninterp spec fn hash_write_of(prior: Seq<Seq<u8>>, bits: u64) -> Seq<Seq<u8>>;

impl Amp {
    /// The value `0 + 0i`.  Relies on `num_traits::Zero` for
    /// `num_complex::Complex64`; the bits of `0.0` are all zero.
    #[verifier::external_body]
    pub fn zero() -> (r: Amp)
        ensures
            r@ == zero_pair(),
            finite_pair_of(r@),
    {
        Amp { c: <num_complex::Complex64 as num_traits::Zero>::zero() }
    }

    /// The value `1 + 0i`.  Relies on `num_traits::One` for
    /// `num_complex::Complex64`; the bits of `1.0` are `0x3FF0...0`.
    #[verifier::external_body]
    pub fn one() -> (r: Amp)
        ensures
            r@ == one_pair(),
            finite_pair_of(r@),
    {
        Amp { c: <num_complex::Complex64 as num_traits::One>::one() }
    }

    /// The imaginary unit `0 + 1i`.  Relies on `num_complex::Complex64::i`.
    #[verifier::external_body]
    pub fn i() -> (r: Amp)
        ensures
            r@ == (ZERO_BITS, ONE_BITS),
            finite_pair_of(r@),
    {
        Amp { c: num_complex::Complex64::i() }
    }

    /// Wraps a complex value supplied by the caller.
    #[verifier::external_body]
    pub fn from_complex(c: num_complex::Complex64) -> Amp {
        Amp { c }
    }

    /// Hands the wrapped complex value back out.
    #[verifier::external_body]
    pub fn to_complex(&self) -> num_complex::Complex64 {
        self.c
    }

    /// The two bit patterns of the wrapped value.  Relies on
    /// `f64::to_bits` on each part.
    #[verifier::external_body]
    pub fn bits(&self) -> (r: (u64, u64))
        ensures
            r == amp_bits(*self),
    {
        (self.c.re.to_bits(), self.c.im.to_bits())
    }
}

/// Complex addition.  Relies on the `Add` impl of `num_complex::Complex`:
/// the parts of the sum are the IEEE-754 sums of the operands' parts, a
/// function of the operands' bits alone.  The extra clauses are exact
/// identities of the standard: additions over zero and one, sums of
/// signed zeros, that adding a signed zero to a finite non-negative real
/// value returns it unchanged (its zero imaginary part stays `+0`), and
/// that adding a qualifying score to a non-negative real gives a
/// non-negative real at least that score, since rounding is monotone —
/// so never below the negligibility tolerance.
#[verifier::external_body]
pub fn amp_add(a: &Amp, b: &Amp) -> (r: Amp)
    ensures
        r@ == c_add_of(a@, b@),
        a@ == zero_pair() && b@ == zero_pair() ==> r@ == zero_pair(),
        a@ == zero_pair() && b@ == one_pair() ==> r@ == one_pair(),
        a@ == one_pair() && b@ == zero_pair() ==> r@ == one_pair(),
        is_zero_pair(a@) && is_zero_pair(b@) ==> is_zero_pair(r@),
        is_zero_pair(a@) && finite_pair_of(b@) && b@.1 == ZERO_BITS && b@.0 < NEG_ZERO_BITS
            ==> r@ == b@,
        finite_pair_of(a@) && a@.1 == ZERO_BITS && a@.0 < NEG_ZERO_BITS && is_zero_pair(b@)
            ==> r@ == a@,
        a@.1 == ZERO_BITS && b@.1 == ZERO_BITS && a@.0 < NEG_ZERO_BITS && !is_nan_bits(a@.0)
            && passes_tol_of(b@.0) ==> (r@.1 == ZERO_BITS && r@.0 < NEG_ZERO_BITS
            && !is_nan_bits(r@.0) && !below_tol_of(r@.0)),
{
    Amp { c: a.c + b.c }
}

/// Complex multiplication.  Relies on the `Mul` impl of
/// `num_complex::Complex`: `(ac - bd, ad + bc)`, a function of the bits
/// alone.  The extra clauses are exact on zeros and ones: products where
/// one factor is a signed zero and the other is finite, a signed zero, or
/// exactly one are signed zeros, and `0*0`, `0*1`, `1*0`, `1*1` come out
/// bit-exact.
#[verifier::external_body]
pub fn amp_mul(a: &Amp, b: &Amp) -> (r: Amp)
    ensures
        r@ == c_mul_of(a@, b@),
        is_zero_pair(a@) && finite_pair_of(b@) ==> is_zero_pair(r@),
        finite_pair_of(a@) && is_zero_pair(b@) ==> is_zero_pair(r@),
        is_zero_pair(a@) && is_zero_pair(b@) ==> is_zero_pair(r@),
        is_zero_pair(a@) && b@ == one_pair() ==> is_zero_pair(r@),
        a@ == one_pair() && is_zero_pair(b@) ==> is_zero_pair(r@),
        a@ == zero_pair() && b@ == zero_pair() ==> r@ == zero_pair(),
        a@ == zero_pair() && b@ == one_pair() ==> r@ == zero_pair(),
        a@ == one_pair() && b@ == zero_pair() ==> r@ == zero_pair(),
        a@ == one_pair() && b@ == one_pair() ==> r@ == one_pair(),
{
    Amp { c: a.c * b.c }
}

/// Complex conjugation.  Relies on `num_complex::Complex::conj`, which
/// negates the imaginary part; negation flips exactly the sign bit.  The
/// last clause states that conjugating a finite non-negative real value and
/// multiplying the conjugate by one restores the value bit-for-bit.
#[verifier::external_body]
pub fn amp_conj(a: &Amp) -> (r: Amp)
    ensures
        r@ == (a@.0, a@.1 ^ NEG_ZERO_BITS),
        finite_pair_of(a@) ==> finite_pair_of(r@),
        is_zero_pair(a@) ==> is_zero_pair(r@),
        finite_pair_of(a@) && a@.1 == ZERO_BITS && a@.0 < NEG_ZERO_BITS ==> c_mul_of(
            r@,
            one_pair(),
        ) == a@,
{
    Amp { c: a.c.conj() }
}

/// Complex negation.  Relies on the `Neg` impl of `num_complex::Complex`,
/// which negates both parts; each negation flips exactly the sign bit, so
/// finiteness is preserved.
#[verifier::external_body]
pub fn amp_neg(a: &Amp) -> (r: Amp)
    ensures
        r@ == (a@.0 ^ NEG_ZERO_BITS, a@.1 ^ NEG_ZERO_BITS),
        finite_pair_of(a@) ==> finite_pair_of(r@),
{
    Amp { c: -a.c }
}

/// Joins two real parts into one complex value.  Relies on
/// `num_complex::Complex64::new`, which stores the two given parts
/// unchanged, so two finite parts give a finite value.
#[verifier::external_body]
pub fn amp_complex(re: &Amp, im: &Amp) -> (r: Amp)
    ensures
        r@ == (re@.0, im@.0),
        finite_pair_of(re@) && finite_pair_of(im@) ==> finite_pair_of(r@),
{
    Amp { c: num_complex::Complex64::new(re.c.re, im.c.re) }
}

/// Scales a complex value by the real part of another.  Relies on the
/// `Mul<f64>` impl of `num_complex::Complex`, which multiplies each part by
/// the scalar.
#[verifier::external_body]
pub fn amp_scale(a: &Amp, s: &Amp) -> (r: Amp)
    ensures
        r@ == scale_of(a@, s@.0),
{
    Amp { c: a.c * s.c.re }
}

/// The squared magnitude `re*re + im*im`, kept in the real part of the
/// result.  Relies on `num_complex::Complex::norm_sqr`.  Exact cases: the
/// squared magnitude of `1 + 0i` is `1.0`, and of any signed zero is
/// `+0.0`; a sum of two squares is never a negative-signed number other
/// than a not-a-number.
#[verifier::external_body]
pub fn amp_norm_sqr(a: &Amp) -> (r: Amp)
    ensures
        r@ == (norm_sq_of(a@), ZERO_BITS),
        a@ == one_pair() ==> r@ == one_pair(),
        is_zero_pair(a@) ==> r@ == zero_pair(),
        r@.0 < NEG_ZERO_BITS || is_nan_bits(r@.0),
{
    Amp { c: num_complex::Complex64::from(a.c.norm_sqr()) }
}

/// Whether a score in the real part is finite and strictly above `1e-12`.
/// Relies on `f64::is_finite` and the floating-point comparison; the
/// threshold is built as the exact quotient `1/10^12`.  Exactly true of the
/// score `1.0` and exactly false of the score `0.0`.
#[verifier::external_body]
pub fn score_passes(a: &Amp) -> (r: bool)
    ensures
        r == passes_tol_of(a@.0),
        a@.0 == ONE_BITS ==> r,
        a@.0 == ZERO_BITS ==> !r,
{
    let v = a.c.re;
    let one_f = num_complex::Complex64::i().im;
    let thresh = one_f / num_traits::cast(1_000_000_000_000u64).unwrap_or(one_f);
    v.is_finite() && v > thresh
}

/// Whether a weight in the real part is strictly below `1e-12`.  Relies on
/// the floating-point comparison; the threshold is the exact quotient
/// `1/10^12`.  Exactly true of `0.0`, exactly false of `1.0`, and false
/// of any value that qualifies as a score.
#[verifier::external_body]
pub fn below_min_weight(a: &Amp) -> (r: bool)
    ensures
        r == below_tol_of(a@.0),
        a@.0 == ZERO_BITS ==> r,
        a@.0 == ONE_BITS ==> !r,
        passes_tol_of(a@.0) ==> !r,
{
    let v = a.c.re;
    let one_f = num_complex::Complex64::i().im;
    let thresh = one_f / num_traits::cast(1_000_000_000_000u64).unwrap_or(one_f);
    v < thresh
}

/// Whether a squared norm in the real part deviates from one by more than
/// the tolerance (default `1e-9`, built as the exact quotient `1/10^9`).
/// Relies on `f64::abs` and the comparison.  Exactly false of the squared
/// norm `1.0`.
#[verifier::external_body]
pub fn norm_dev_exceeds(nsq: &Amp, tol: Option<&Amp>) -> (r: bool)
    ensures
        r == dev_exceeds_of(
            nsq@.0,
            match tol {
                Some(t) => Some(t@.0),
                None => None,
            },
        ),
        tol is None && nsq@.0 == ONE_BITS ==> !r,
{
    let one_f = num_complex::Complex64::i().im;
    let t = match tol {
        Some(t) => t.c.re,
        None => one_f / num_traits::cast(1_000_000_000u64).unwrap_or(one_f),
    };
    (nsq.c.re - one_f).abs() > t
}

/// The floating-point order `<` on the real parts.  Relies on the `f64`
/// comparison, a function of the two bit patterns.
#[verifier::external_body]
pub fn amp_lt(a: &Amp, b: &Amp) -> (r: bool)
    ensures
        r == flt_of(a@.0, b@.0),
{
    a.c.re < b.c.re
}

/// Whether both parts are finite.  Relies on `f64::is_finite` on each part.
#[verifier::external_body]
pub fn amp_is_finite(a: &Amp) -> (r: bool)
    ensures
        r == finite_pair_of(a@),
{
    a.c.re.is_finite() && a.c.im.is_finite()
}

/// The exact quotient of two unsigned integers as a real value.  Relies on
/// the `u64` to floating point conversion and the floating-point division.
/// The quotient of finite values by a nonzero denominator is finite, and a
/// conjugate-and-multiply-by-one round trip on the (non-negative real)
/// result is exact, as stated for `amp_conj`.
#[verifier::external_body]
pub fn amp_ratio(num: u64, den: u64) -> (r: Amp)
    ensures
        r@ == (ratio_bits_of(num, den), ZERO_BITS),
        den != 0 ==> finite_pair_of(r@),
        den != 0 ==> r@.0 < NEG_ZERO_BITS,
{
    let zero_f = num_complex::Complex64::i().re;
    let n = num_traits::cast(num).unwrap_or(zero_f);
    let d = num_traits::cast(den).unwrap_or(zero_f);
    Amp { c: num_complex::Complex64::from(n / d) }
}

/// The quotient of the two real parts.  Relies on the floating-point
/// division.
#[verifier::external_body]
pub fn amp_real_div(a: &Amp, b: &Amp) -> (r: Amp)
    ensures
        r@ == (real_div_of(a@.0, b@.0), ZERO_BITS),
{
    Amp { c: num_complex::Complex64::from(a.c.re / b.c.re) }
}

/// The real part divided by an integer count.  Relies on the `u64` to
/// floating point conversion and the division.
#[verifier::external_body]
pub fn amp_div_count(a: &Amp, n: u64) -> (r: Amp)
    ensures
        r@ == (div_count_of(a@.0, n), ZERO_BITS),
{
    let zero_f = num_complex::Complex64::i().re;
    let d = num_traits::cast(n).unwrap_or(zero_f);
    Amp { c: num_complex::Complex64::from(a.c.re / d) }
}

/// The difference of the two real parts.  Relies on the floating-point
/// subtraction.
#[verifier::external_body]
pub fn amp_real_sub(a: &Amp, b: &Amp) -> (r: Amp)
    ensures
        r@ == (real_sub_of(a@.0, b@.0), ZERO_BITS),
{
    Amp { c: num_complex::Complex64::from(a.c.re - b.c.re) }
}

/// The cosine of the real part.  Relies on `f64::cos`.
#[verifier::external_body]
pub fn amp_cos(a: &Amp) -> (r: Amp)
    ensures
        r@ == (cos_of(a@.0), ZERO_BITS),
{
    Amp { c: num_complex::Complex64::from(a.c.re.cos()) }
}

/// The sine of the real part.  Relies on `f64::sin`.
#[verifier::external_body]
pub fn amp_sin(a: &Amp) -> (r: Amp)
    ensures
        r@ == (sin_of(a@.0), ZERO_BITS),
{
    Amp { c: num_complex::Complex64::from(a.c.re.sin()) }
}

/// The principal argument of the complex value.  Relies on
/// `num_complex::Complex::arg`.
#[verifier::external_body]
pub fn amp_arg(a: &Amp) -> (r: Amp)
    ensures
        r@ == (arg_of(a@), ZERO_BITS),
{
    Amp { c: num_complex::Complex64::from(a.c.arg()) }
}

/// The real part clamped into `[0, 1]`.  Relies on `f64::clamp` with the
/// valid bounds zero and one: the result is within the unit interval
/// (whose non-negative values order as their bit patterns do), except
/// that a negative zero passes through unchanged (it is not below the
/// lower bound under the floating-point order) and a not-a-number input
/// passes through.
#[verifier::external_body]
pub fn amp_clamp01(a: &Amp) -> (r: Amp)
    ensures
        r@ == (clamp01_of(a@.0), ZERO_BITS),
        r@.0 <= ONE_BITS || r@.0 == NEG_ZERO_BITS || is_nan_bits(r@.0),
{
    let unit = num_complex::Complex64::i();
    Amp { c: num_complex::Complex64::from(a.c.re.clamp(unit.re, unit.im)) }
}

/// `1/sqrt(x)` for the real part `x`.  Relies on `f64::sqrt` and the
/// division.  When `x` is a finite value above the negligibility
/// tolerance, the result is a finite positive real.
#[verifier::external_body]
pub fn amp_recip_sqrt(a: &Amp) -> (r: Amp)
    ensures
        r@ == (recip_sqrt_of(a@.0), ZERO_BITS),
        passes_tol_of(a@.0) ==> finite_pair_of(r@),
{
    let one_f = num_complex::Complex64::i().im;
    Amp { c: num_complex::Complex64::from(one_f / a.c.re.sqrt()) }
}

/// One uniform floating-point draw in `[0, 1)` from a generator seeded with
/// the given value.  Relies on `rand::rngs::StdRng::seed_from_u64` followed
/// by one `Rng::random` draw: for a fixed version of the crate this is a
/// pure function of the seed.
#[verifier::external_body]
pub fn draw_unit_sample(seed: u64) -> (r: Amp)
    ensures
        r@ == (unit_sample_of(seed), ZERO_BITS),
{
    let mut rng = rand::rngs::StdRng::seed_from_u64(seed);
    let mut v = num_complex::Complex64::i().re;
    v = rand::Rng::random(&mut rng);
    Amp { c: num_complex::Complex64::from(v) }
}

/// Feeds the native-endian bytes of one 64-bit word to the hasher, the way
/// the `Hash` impl of `[u8; 8]` writes them.  Relies on `u64::to_ne_bytes`
/// and `Hash::hash`: the writes appended depend only on the word.
#[verifier::external_body]
pub fn hash_word(h: &mut std::collections::hash_map::DefaultHasher, bits: u64)
    ensures
        final(h)@ == hash_write_of(old(h)@, bits),
{
    bits.to_ne_bytes().hash(h);
}

/// Joins a string and a string slice.  Relies on `format!`.
#[verifier::external_body]
pub fn append_str(s: &String, t: &str) -> (r: String)
    ensures
        r@ == s@ + t@,
{
    format!("{}{}", s, t)
}

/// The decimal rendering of an unsigned integer, for diagnostic messages.
/// Relies on `format!`.
#[verifier::external_body]
pub fn u64_string(v: u64) -> String {
    format!("{}", v)
}

} // verus!
