//! Hiding, additively homomorphic Pedersen vector commitments over the
//! Pallas curve, with a Schnorr-style, transcript-bound proof of knowledge
//! of an opening and its verification.

use vstd::prelude::*;
use crate::field::{fadd, fmul, Scalar};
use crate::point::{
    encodings, msm_enc, msm_points, points_wf, pt_add, pt_add_enc, pt_mul, pt_mul_enc, rand_point,
    Point,
};
use crate::r1cs::{svadd, svscale, vals, vec_add_vec, vec_wf, scalar_mul_vec};
use crate::transcript::{
    challenge1, point_absorb_elems, squeeze_of, ts_after_absorb, ts_after_challenges,
    PoseidonTranscript,
};
use vstd::arithmetic::power2::pow2;

verus! {

/// Pedersen parameters: the blinding generator `h` and the vector
/// generators, sized to a power of two.
#[derive(Clone, Debug, PartialEq, Eq)]
pub struct Params {
    pub h: Point,
    pub generators: Vec<Point>,
}

impl Params {
    /// Every generator is in canonical form.
    pub open spec fn wf(self) -> bool {
        self.h.wf() && points_wf(self.generators@)
    }
}

/// A Schnorr-style opening proof: the commitment to the blinding
/// randomness, the masked opened vector, and the masked blinding scalar.
#[derive(Clone, Debug, PartialEq, Eq)]
pub struct Proof {
    pub r_commit: Point,
    pub u: Vec<Scalar>,
    pub r_u: Scalar,
}

impl Proof {
    /// Every component is in canonical form.
    pub open spec fn wf(self) -> bool {
        self.r_commit.wf() && vec_wf(self.u@) && self.r_u.wf()
    }
}

/// The encoding of a Pedersen commitment `h * r + <g, v>` over the leading
/// generators.
pub open spec fn commit_enc(params: Params, r: int, v: Seq<int>) -> Seq<int> {
    pt_add_enc(
        pt_mul_enc(params.h.encoding(), r),
        msm_enc(encodings(params.generators@).take(v.len() as int), v),
    )
}

/// The history after absorbing the committed point.
pub open spec fn open_h1(h0: Seq<Seq<int>>, cm: Seq<int>) -> Seq<Seq<int>> {
    ts_after_absorb(h0, point_absorb_elems(cm))
}

/// The first opening challenge `r1`, drawn after absorbing the commitment.
pub open spec fn open_r1(h0: Seq<Seq<int>>, cm: Seq<int>) -> int {
    challenge1(open_h1(h0, cm))
}

/// The history after drawing `r1`.
pub open spec fn open_h2(h0: Seq<Seq<int>>, cm: Seq<int>) -> Seq<Seq<int>> {
    ts_after_challenges(open_h1(h0, cm), 1)
}

/// The masking vector `d` of `n` challenges drawn after `r1`.
pub open spec fn open_d(h0: Seq<Seq<int>>, cm: Seq<int>, n: int) -> Seq<int> {
    squeeze_of(open_h2(h0, cm), n)
}

/// The history after drawing the masking vector.
pub open spec fn open_h3(h0: Seq<Seq<int>>, cm: Seq<int>, n: int) -> Seq<Seq<int>> {
    ts_after_challenges(open_h2(h0, cm), n)
}

/// The honest prover's commitment to the masking randomness:
/// `h * r1 + <g, d>`.
pub open spec fn prove_rc(params: Params, h0: Seq<Seq<int>>, cm: Seq<int>, n: int) -> Seq<int> {
    commit_enc(params, open_r1(h0, cm), open_d(h0, cm, n))
}

/// The history after absorbing the prover's `r_commit` point.
pub open spec fn open_h4(h0: Seq<Seq<int>>, cm: Seq<int>, n: int, rc: Seq<int>) -> Seq<Seq<int>> {
    ts_after_absorb(open_h3(h0, cm, n), point_absorb_elems(rc))
}

/// The final opening challenge `e`, drawn after absorbing `r_commit`.
pub open spec fn open_e(h0: Seq<Seq<int>>, cm: Seq<int>, n: int, rc: Seq<int>) -> int {
    challenge1(open_h4(h0, cm, n, rc))
}

/// The history at the end of one opening proof or verification.
pub open spec fn open_h5(h0: Seq<Seq<int>>, cm: Seq<int>, n: int, rc: Seq<int>) -> Seq<Seq<int>> {
    ts_after_challenges(open_h4(h0, cm, n, rc), 1)
}

/// The algebraic check of `verify`: `r_commit + cm * e = h * r_u + <g, u>`,
/// with `e` derived from the same transcript walk as the prover's.
pub open spec fn verify_eq(params: Params, cm: Seq<int>, pf: Proof, h0: Seq<Seq<int>>) -> bool {
    pt_add_enc(
        pf.r_commit.encoding(),
        pt_mul_enc(cm, open_e(h0, cm, pf.u@.len() as int, pf.r_commit.encoding())),
    ) == pt_add_enc(
        pt_mul_enc(params.h.encoding(), pf.r_u.val()),
        msm_enc(encodings(params.generators@).take(pf.u@.len() as int), vals(pf.u@)),
    )
}

/// The Pedersen commitment scheme.
#[derive(Clone, Debug, PartialEq, Eq)]
pub struct Pedersen;

impl Pedersen {
    /// Draws the generators, `next_power_of_two(max)` of them plus the
    /// blinding generator `h`, from the given randomness source.
    pub fn new_params(rng: &mut rand::rngs::StdRng, max: usize) -> (r: Params)
        requires
            max <= 0x80000000,
        ensures
            r.wf(),
            r.generators@.len() >= max,
            exists|e: int|
                #![auto]
                crate::ccs::is_ceil_log2(e, max as int) && r.generators@.len() == pow2(e as nat),
    {
        let size = next_power_of_two(max);
        let mut generators: Vec<Point> = Vec::new();
        for i in 0..size
            invariant
                generators@.len() == i,
                points_wf(generators@),
        {
            generators.push(rand_point(rng));
        }
        let h = rand_point(rng);
        Params { h, generators }
    }

    /// The commitment `h * r + <g, v>`: hiding under the blinding scalar
    /// `r`, binding under discrete-log hardness.
    pub fn commit(r: &Scalar, params: &Params, v: &Vec<Scalar>) -> (c: Point)
        requires
            r.wf(),
            params.wf(),
            vec_wf(v@),
            v@.len() <= params.generators@.len(),
        ensures
            c.wf(),
            c.encoding() == commit_enc(*params, r.val(), vals(v@)),
    {
        let hr = pt_mul(&params.h, r);
        let gv = msm_points(&params.generators, v);
        proof {
            assert(vals(v@).len() == v@.len());
        }
        pt_add(&hr, &gv)
    }

    /// The Schnorr-style opening proof: absorb the commitment, draw the
    /// blinding challenge `r1` and the masking vector `d`, commit to them,
    /// absorb that commitment, draw the challenge `e`, and return the
    /// masked opening `u = d + e * v`, `r_u = r1 + e * r`.
    pub fn prove(
        cm: &Point,
        v: &Vec<Scalar>,
        r: &Scalar,
        params: &Params,
        transcript: &mut PoseidonTranscript,
    ) -> (pf: Proof)
        requires
            cm.wf(),
            vec_wf(v@),
            r.wf(),
            params.wf(),
            v@.len() <= params.generators@.len(),
        ensures
            pf.wf(),
            pf.u@.len() == v@.len(),
            pf.r_commit.encoding() == prove_rc(
                *params,
                old(transcript).ops@,
                cm.encoding(),
                v@.len() as int,
            ),
            vals(pf.u@) == svadd(
                open_d(old(transcript).ops@, cm.encoding(), v@.len() as int),
                svscale(
                    open_e(
                        old(transcript).ops@,
                        cm.encoding(),
                        v@.len() as int,
                        pf.r_commit.encoding(),
                    ),
                    vals(v@),
                ),
            ),
            pf.r_u.val() == fadd(
                open_r1(old(transcript).ops@, cm.encoding()),
                fmul(
                    open_e(
                        old(transcript).ops@,
                        cm.encoding(),
                        v@.len() as int,
                        pf.r_commit.encoding(),
                    ),
                    r.val(),
                ),
            ),
            final(transcript).ops@ == open_h5(
                old(transcript).ops@,
                cm.encoding(),
                v@.len() as int,
                pf.r_commit.encoding(),
            ),
    {
        transcript.absorb_point(cm);
        let r1 = transcript.get_challenge();
        let d = transcript.get_challenges(v.len());
        let r_commit = Pedersen::commit(&r1, params, &d);
        transcript.absorb_point(&r_commit);
        let e = transcript.get_challenge();
        let ev = scalar_mul_vec(e, v);
        let u = vec_add_vec(&d, &ev);
        let er = e.mul_fp(r);
        let r_u = r1.add_fp(&er);
        Proof { r_commit, u, r_u }
    }

    /// Replays the prover's transcript walk, drawing and discarding `r1`
    /// and `d` to stay synchronized, and checks the linear relation
    /// `r_commit + cm * e = h * r_u + <g, u>`, which holds exactly for a
    /// correct opening.
    pub fn verify(
        cm: Point,
        proof: Proof,
        params: &Params,
        transcript: &mut PoseidonTranscript,
    ) -> (ok: bool)
        requires
            cm.wf(),
            proof.wf(),
            params.wf(),
            proof.u@.len() <= params.generators@.len(),
        ensures
            ok == verify_eq(*params, cm.encoding(), proof, old(transcript).ops@),
            final(transcript).ops@ == open_h5(
                old(transcript).ops@,
                cm.encoding(),
                proof.u@.len() as int,
                proof.r_commit.encoding(),
            ),
    {
        transcript.absorb_point(&cm);
        let _r1 = transcript.get_challenge();
        let _d = transcript.get_challenges(proof.u.len());
        transcript.absorb_point(&proof.r_commit);
        let e = transcript.get_challenge();
        let cme = pt_mul(&cm, &e);
        let lhs = pt_add(&proof.r_commit, &cme);
        let hru = pt_mul(&params.h, &proof.r_u);
        let gu = msm_points(&params.generators, &proof.u);
        let rhs = pt_add(&hru, &gu);
        proof {
            assert(vals(proof.u@).len() == proof.u@.len());
        }
        lhs.eq_point(&rhs)
    }
}

/// The smallest power of two that is at least `x`.
pub fn next_power_of_two(x: usize) -> (r: usize)
    requires
        x <= 0x80000000,
    ensures
        r >= x,
        r >= 1,
        exists|e: int| #![auto] crate::ccs::is_ceil_log2(e, x as int) && r == pow2(e as nat),
{
    let e = crate::ccs::log2_ceil(x);
    proof {
        vstd::arithmetic::power2::lemma2_to64();
        vstd::arithmetic::power2::lemma2_to64_rest();
        if e > 31 {
            assert(pow2((e - 1) as nat) >= pow2(31)) by {
                if e - 1 > 31 {
                    vstd::arithmetic::power2::lemma_pow2_strictly_increases(31, (e - 1) as nat);
                }
            };
            assert(false);
        }
    }
    let r = pow2_usize(e);
    r
}

/// Two to the given power, for small exponents.
fn pow2_usize(e: usize) -> (r: usize)
    requires
        e <= 31,
    ensures
        r == pow2(e as nat),
{
    let mut p: usize = 1;
    let mut i: usize = 0;
    proof {
        vstd::arithmetic::power2::lemma2_to64();
        vstd::arithmetic::power2::lemma2_to64_rest();
    }
    while i < e
        invariant
            i <= e,
            e <= 31,
            p == pow2(i as nat),
        decreases e - i,
    {
        proof {
            vstd::arithmetic::power2::lemma_pow2_adds(i as nat, 1);
            vstd::arithmetic::power2::lemma2_to64();
            if i + 1 < 32 {
                vstd::arithmetic::power2::lemma_pow2_strictly_increases((i + 1) as nat, 32);
            }
        }
        p = p * 2;
        i = i + 1;
    }
    p
}

} // verus!
