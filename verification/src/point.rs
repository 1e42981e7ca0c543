//! Pallas curve points, held by their affine coordinates as canonical
//! little-endian limbs of the base field. Group operations are carried out
//! by `ark_ec` behind trusted wrappers; their results are named by
//! uninterpreted functions over the plain-value encodings, since the curve
//! formulas are a deterministic function of the coordinates alone.

use vstd::prelude::*;
use crate::field::{limbs_val, Scalar, lemma_limbs_val_injective};
use crate::r1cs::{vals, vec_wf};
use ark_ec::{AffineRepr, CurveGroup, VariableBaseMSM};
use ark_ff::{BigInt, PrimeField};
use ark_pallas::{Affine, Fq, Fr, Projective};
use ark_std::UniformRand;
use ark_std::Zero;

verus! {

/// The modulus of the Pallas base field (`ark_pallas::Fq`), the field of
/// the affine coordinates.
pub open spec fn base_mod() -> int {
    28948022309329048855892746252171976963363056481941560715954676764349967630337int
}

/// A point of the Pallas curve: affine coordinates, or the identity, which
/// carries zeroed coordinates (no affine point has `x = y = 0`, as the
/// curve is `y^2 = x^3 + 5`).
#[derive(Clone, Copy, Debug, PartialEq, Eq)]
pub struct Point {
    pub x: [u64; 4],
    pub y: [u64; 4],
    pub infinity: bool,
}

impl Point {
    /// The plain encoding of a point: both coordinate values and the
    /// identity flag as zero or one.
    pub open spec fn encoding(self) -> Seq<int> {
        seq![
            limbs_val(self.x@),
            limbs_val(self.y@),
            if self.infinity {
                1int
            } else {
                0int
            },
        ]
    }

    /// Canonical form: reduced coordinates, zeroed for the identity.
    pub open spec fn wf(self) -> bool {
        &&& limbs_val(self.x@) < base_mod()
        &&& limbs_val(self.y@) < base_mod()
        &&& self.infinity ==> limbs_val(self.x@) == 0 && limbs_val(self.y@) == 0
    }

    /// The identity element of the group.
    pub fn identity() -> (r: Point)
        ensures
            r.wf(),
            r.encoding() == seq![0int, 0int, 1int],
    {
        let r = Point { x: [0, 0, 0, 0], y: [0, 0, 0, 0], infinity: true };
        proof {
            assert(r.encoding() =~= seq![0int, 0int, 1int]);
        }
        r
    }

    /// Equality of points; agrees with equality of the encodings.
    pub fn eq_point(&self, other: &Point) -> (r: bool)
        ensures
            r == (self.encoding() == other.encoding()),
    {
        let r = self.infinity == other.infinity && self.x[0] == other.x[0] && self.x[1]
            == other.x[1] && self.x[2] == other.x[2] && self.x[3] == other.x[3] && self.y[0]
            == other.y[0] && self.y[1] == other.y[1] && self.y[2] == other.y[2] && self.y[3]
            == other.y[3];
        proof {
            if r {
                assert(self.encoding() =~= other.encoding());
            } else if self.encoding() == other.encoding() {
                assert(self.encoding()[0] == other.encoding()[0]);
                assert(self.encoding()[1] == other.encoding()[1]);
                assert(self.encoding()[2] == other.encoding()[2]);
                lemma_limbs_val_injective(self.x@, other.x@);
                lemma_limbs_val_injective(self.y@, other.y@);
            }
        }
        r
    }
}

/// The encodings of a sequence of points.
pub open spec fn encodings(v: Seq<Point>) -> Seq<Seq<int>> {
    v.map_values(|p: Point| p.encoding())
}

/// Every point of the vector is in canonical form.
pub open spec fn points_wf(v: Seq<Point>) -> bool {
    forall|i: int| 0 <= i < v.len() ==> (#[trigger] v[i]).wf()
}

/// The encoding of the sum of two points.
pub uninterp spec fn pt_add_enc(a: Seq<int>, b: Seq<int>) -> Seq<int>;

/// The encoding of a point multiplied by a scalar.
pub uninterp spec fn pt_mul_enc(p: Seq<int>, k: int) -> Seq<int>;

/// The encoding of the multi-scalar multiplication of points and scalars.
pub uninterp spec fn msm_enc(gens: Seq<Seq<int>>, scalars: Seq<int>) -> Seq<int>;

/// Relies on `ark_ec` point addition on the Pallas curve: the sum is a
/// function of the two points alone, returned in canonical affine form.
#[verifier::external_body]
pub fn pt_add(a: &Point, b: &Point) -> (r: Point)
    requires
        a.wf(),
        b.wf(),
    ensures
        r.wf(),
        r.encoding() == pt_add_enc(a.encoding(), b.encoding()),
{
    let f = |l: &[u64; 4]| Fq::from_bigint(BigInt(*l)).unwrap();
    let pj = |p: &Point| if p.infinity { Projective::zero() } else { Affine::new_unchecked(f(&p.x), f(&p.y)).into() };
    match (pj(a) + pj(b)).into_affine().xy() {
        Some((x, y)) => Point { x: x.into_bigint().0, y: y.into_bigint().0, infinity: false },
        None => Point { x: [0; 4], y: [0; 4], infinity: true },
    }
}

/// Relies on `ark_ec` scalar multiplication on the Pallas curve: the
/// product is a function of the point and the scalar alone, returned in
/// canonical affine form.
#[verifier::external_body]
pub fn pt_mul(p: &Point, k: &Scalar) -> (r: Point)
    requires
        p.wf(),
        k.wf(),
    ensures
        r.wf(),
        r.encoding() == pt_mul_enc(p.encoding(), k.val()),
{
    let f = |l: &[u64; 4]| Fq::from_bigint(BigInt(*l)).unwrap();
    let pj = |q: &Point| if q.infinity { Projective::zero() } else { Affine::new_unchecked(f(&q.x), f(&q.y)).into() };
    let kk = Fr::from_bigint(BigInt(k.limbs)).unwrap();
    match (pj(p) * kk).into_affine().xy() {
        Some((x, y)) => Point { x: x.into_bigint().0, y: y.into_bigint().0, infinity: false },
        None => Point { x: [0; 4], y: [0; 4], infinity: true },
    }
}

/// Relies on `ark_ec` multi-scalar multiplication on the Pallas curve: the
/// inner product of the leading generators with the scalars, a function of
/// its arguments alone, returned in canonical affine form.
#[verifier::external_body]
pub fn msm_points(gens: &Vec<Point>, scalars: &Vec<Scalar>) -> (r: Point)
    requires
        scalars@.len() <= gens@.len(),
        points_wf(gens@),
        vec_wf(scalars@),
    ensures
        r.wf(),
        r.encoding() == msm_enc(encodings(gens@).take(scalars@.len() as int), vals(scalars@)),
{
    let bases: Vec<Affine> = gens[..scalars.len()].iter().map(|p| if p.infinity { Affine::identity() } else { Affine::new_unchecked(BigInt(p.x).into(), BigInt(p.y).into()) }).collect();
    let ss: Vec<Fr> = scalars.iter().map(|s| BigInt(s.limbs).into()).collect();
    match Projective::msm(&bases, &ss).unwrap().into_affine().xy() {
        Some((x, y)) => Point { x: x.into_bigint().0, y: y.into_bigint().0, infinity: false },
        None => Point { x: [0; 4], y: [0; 4], infinity: true },
    }
}

/// Relies on `ark_std::UniformRand` for Pallas points: draws one group
/// element from the randomness source; only canonical form is promised of
/// the outcome.
#[verifier::external_body]
pub fn rand_point(rng: &mut rand::rngs::StdRng) -> (r: Point)
    ensures
        r.wf(),
{
    match Projective::rand(rng).into_affine().xy() {
        Some((x, y)) => Point { x: x.into_bigint().0, y: y.into_bigint().0, infinity: false },
        None => Point { x: [0; 4], y: [0; 4], infinity: true },
    }
}

/// Relies on `rand::SeedableRng::seed_from_u64`: builds the deterministic
/// standard randomness source from a seed.
#[verifier::external_body]
pub fn rng_from_seed(seed: u64) -> (r: rand::rngs::StdRng) {
    <rand::rngs::StdRng as rand::SeedableRng>::seed_from_u64(seed)
}

#[verifier::external_type_specification]
#[verifier::external_body]
pub struct ExStdRng(rand::rngs::StdRng);

} // verus!
