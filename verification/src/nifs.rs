//! The non-interactive folding scheme: the cross term between two relaxed
//! instances, the folding of witnesses and committed instances under a
//! random challenge, the public recomputation check, and the
//! transcript-bound commitment-opening proofs. The folding-exactness
//! theorem is proved here: folding two relaxed-satisfying pairs yields a
//! relaxed-satisfying pair.

use vstd::prelude::*;
use crate::field::{
    fadd, fcross, fmul, in_field, lemma_f_ops_in_field, lemma_fadd_zero, lemma_fmul_one,
    lemma_fold_pointwise, Scalar,
};
use crate::nova::{CommittedInstance, Witness};
use crate::pedersen::{commit_enc, open_h5, prove_rc, verify_eq, Params as PedersenParams, Pedersen, Proof as PedersenProof};
use crate::point::{pt_add, pt_add_enc, pt_mul, pt_mul_enc, Point};
use crate::r1cs::{
    all_in_field, hadamard, lemma_mvp_linear, lemma_mvp_props, mvp, relaxed_sat, scalar_mul_vec,
    strict_sat, svadd, svhad, svscale, svsub, vals, vec_add_vec, vec_mul_matrix, vec_sub_vec,
    vec_wf, zero_seq, R1CS,
};

verus! {

/// The full assignment `z = (u, x, w)`.
pub open spec fn z_of(u: int, x: Seq<int>, w: Seq<int>) -> Seq<int> {
    seq![u] + x + w
}

/// The cross term `T = A.z1 o B.z2 + A.z2 o B.z1 - u1 * (C.z2)
/// - u2 * (C.z1)`: the unique correction vector that makes the linear
/// combination of two relaxed instances satisfy the relaxed relation.
pub open spec fn cross_term(r1cs: R1CS, z1: Seq<int>, z2: Seq<int>, u1: int, u2: int) -> Seq<
    int,
> {
    let n = r1cs.a.n_rows as int;
    let az1 = mvp(r1cs.a.vals@, z1, n);
    let az2 = mvp(r1cs.a.vals@, z2, n);
    let bz1 = mvp(r1cs.b.vals@, z1, n);
    let bz2 = mvp(r1cs.b.vals@, z2, n);
    let cz1 = mvp(r1cs.c.vals@, z1, n);
    let cz2 = mvp(r1cs.c.vals@, z2, n);
    svsub(svsub(svadd(svhad(az1, bz2), svhad(az2, bz1)), svscale(u1, cz2)), svscale(u2, cz1))
}

/// The folded error vector `e1 + r * t + r^2 * e2`.
pub open spec fn fold_e(e1: Seq<int>, e2: Seq<int>, t: Seq<int>, r: int) -> Seq<int> {
    svadd(svadd(e1, svscale(r, t)), svscale(fmul(r, r), e2))
}

/// The folded commitment to the error vector:
/// `cm_e1 + r * cm_t + r^2 * cm_e2`.
pub open spec fn fold_cm_e(r: int, cm_t: Seq<int>, cme1: Seq<int>, cme2: Seq<int>) -> Seq<int> {
    pt_add_enc(pt_add_enc(cme1, pt_mul_enc(cm_t, r)), pt_mul_enc(cme2, fmul(r, r)))
}

/// The folded commitment to the witness: `cm_w1 + r * cm_w2`.
pub open spec fn fold_cm_w(r: int, cmw1: Seq<int>, cmw2: Seq<int>) -> Seq<int> {
    pt_add_enc(cmw1, pt_mul_enc(cmw2, r))
}

/// The non-interactive folding scheme.
pub struct NIFS;

impl NIFS {
    /// Computes the cross term between two assignments.
    pub fn compute_t(
        r1cs: &R1CS,
        u1: Scalar,
        u2: Scalar,
        z1: &Vec<Scalar>,
        z2: &Vec<Scalar>,
    ) -> (t: Vec<Scalar>)
        requires
            r1cs.wf(),
            u1.wf(),
            u2.wf(),
            vec_wf(z1@),
            vec_wf(z2@),
            z1@.len() == r1cs.a.n_cols,
            z2@.len() == r1cs.a.n_cols,
        ensures
            t@.len() == r1cs.a.n_rows,
            vec_wf(t@),
            vals(t@) == cross_term(*r1cs, vals(z1@), vals(z2@), u1.val(), u2.val()),
    {
        let az1 = vec_mul_matrix(z1, &r1cs.a);
        let az2 = vec_mul_matrix(z2, &r1cs.a);
        let bz1 = vec_mul_matrix(z1, &r1cs.b);
        let bz2 = vec_mul_matrix(z2, &r1cs.b);
        let cz1 = vec_mul_matrix(z1, &r1cs.c);
        let cz2 = vec_mul_matrix(z2, &r1cs.c);
        let az1_bz2 = hadamard(&az1, &bz2);
        let az2_bz1 = hadamard(&az2, &bz1);
        let u1cz2 = scalar_mul_vec(u1, &cz2);
        let u2cz1 = scalar_mul_vec(u2, &cz1);
        let sum = vec_add_vec(&az1_bz2, &az2_bz1);
        let d1 = vec_sub_vec(&sum, &u1cz2);
        vec_sub_vec(&d1, &u2cz1)
    }

    /// Folds two witnesses under the challenge `r` and the cross-term
    /// blinding scalar `r_t`: linear in all the secret material.
    pub fn fold_witness(
        w1: &Witness,
        w2: &Witness,
        t: &Vec<Scalar>,
        r: Scalar,
        r_t: Scalar,
    ) -> (w3: Witness)
        requires
            w1.wf(),
            w2.wf(),
            vec_wf(t@),
            r.wf(),
            r_t.wf(),
            w1.e@.len() == t@.len(),
            w2.e@.len() == t@.len(),
            w1.w@.len() == w2.w@.len(),
        ensures
            w3.wf(),
            vals(w3.e@) == fold_e(vals(w1.e@), vals(w2.e@), vals(t@), r.val()),
            w3.r_e.val() == fadd(
                fadd(w1.r_e.val(), fmul(r.val(), r_t.val())),
                fmul(fmul(r.val(), r.val()), w2.r_e.val()),
            ),
            vals(w3.w@) == svadd(vals(w1.w@), svscale(r.val(), vals(w2.w@))),
            w3.r_w.val() == fadd(w1.r_w.val(), fmul(r.val(), w2.r_w.val())),
            w3.e@.len() == t@.len(),
            w3.w@.len() == w1.w@.len(),
    {
        let r2 = r.mul_fp(&r);
        let rt = scalar_mul_vec(r, t);
        let e1rt = vec_add_vec(&w1.e, &rt);
        let r2e2 = scalar_mul_vec(r2, &w2.e);
        let e = vec_add_vec(&e1rt, &r2e2);
        let rrt = r.mul_fp(&r_t);
        let r2re2 = r2.mul_fp(&w2.r_e);
        let r_e = w1.r_e.add_fp(&rrt).add_fp(&r2re2);
        let rw2 = scalar_mul_vec(r, &w2.w);
        let w = vec_add_vec(&w1.w, &rw2);
        let rrw2 = r.mul_fp(&w2.r_w);
        let r_w = w1.r_w.add_fp(&rrw2);
        Witness { e, r_e, w, r_w }
    }

    /// Folds two committed instances under the challenge `r`, using the
    /// homomorphism of the commitment scheme: every field is the same
    /// linear combination that `fold_witness` applies to the secrets.
    pub fn fold_committed_instance(
        r: Scalar,
        cm_t: &Point,
        ci1: &CommittedInstance,
        ci2: &CommittedInstance,
    ) -> (ci3: CommittedInstance)
        requires
            r.wf(),
            cm_t.wf(),
            ci1.wf(),
            ci2.wf(),
            ci1.x@.len() == ci2.x@.len(),
        ensures
            ci3.wf(),
            ci3.cm_e.encoding() == fold_cm_e(
                r.val(),
                cm_t.encoding(),
                ci1.cm_e.encoding(),
                ci2.cm_e.encoding(),
            ),
            ci3.u.val() == fadd(ci1.u.val(), fmul(r.val(), ci2.u.val())),
            ci3.cm_w.encoding() == fold_cm_w(r.val(), ci1.cm_w.encoding(), ci2.cm_w.encoding()),
            vals(ci3.x@) == svadd(vals(ci1.x@), svscale(r.val(), vals(ci2.x@))),
            ci3.x@.len() == ci1.x@.len(),
    {
        let r2 = r.mul_fp(&r);
        let cmtr = pt_mul(cm_t, &r);
        let cme1_cmtr = pt_add(&ci1.cm_e, &cmtr);
        let cme2r2 = pt_mul(&ci2.cm_e, &r2);
        let cm_e = pt_add(&cme1_cmtr, &cme2r2);
        let ru2 = r.mul_fp(&ci2.u);
        let u = ci1.u.add_fp(&ru2);
        let cmw2r = pt_mul(&ci2.cm_w, &r);
        let cm_w = pt_add(&ci1.cm_w, &cmw2r);
        let rx2 = scalar_mul_vec(r, &ci2.x);
        let x = vec_add_vec(&ci1.x, &rx2);
        CommittedInstance { cm_e, u, cm_w, x }
    }

    /// One full fold on the prover's side: rebuilds the two assignments,
    /// computes and commits the cross term with blinding fixed to one (the
    /// cross term needs no independent hiding), and folds witness and
    /// instance.
    pub fn prove(
        params: &PedersenParams,
        r: Scalar,
        r1cs: &R1CS,
        w1: &Witness,
        ci1: &CommittedInstance,
        w2: &Witness,
        ci2: &CommittedInstance,
    ) -> (res: (Witness, CommittedInstance, Vec<Scalar>, Point))
        requires
            params.wf(),
            r.wf(),
            r1cs.wf(),
            w1.wf(),
            ci1.wf(),
            w2.wf(),
            ci2.wf(),
            ci1.x@.len() == ci2.x@.len(),
            w1.w@.len() == w2.w@.len(),
            r1cs.a.n_cols == 1 + ci1.x@.len() + w1.w@.len(),
            w1.e@.len() == r1cs.a.n_rows,
            w2.e@.len() == r1cs.a.n_rows,
            r1cs.a.n_rows <= params.generators@.len(),
        ensures
            ({
                let z1 = z_of(ci1.u.val(), vals(ci1.x@), vals(w1.w@));
                let z2 = z_of(ci2.u.val(), vals(ci2.x@), vals(w2.w@));
                let t = cross_term(*r1cs, z1, z2, ci1.u.val(), ci2.u.val());
                &&& vals(res.2@) == t
                &&& res.2@.len() == r1cs.a.n_rows
                &&& vec_wf(res.2@)
                &&& res.3.wf()
                &&& res.3.encoding() == commit_enc(*params, 1, t)
                &&& res.0.wf()
                &&& vals(res.0.e@) == fold_e(vals(w1.e@), vals(w2.e@), t, r.val())
                &&& res.0.r_e.val() == fadd(
                    fadd(w1.r_e.val(), fmul(r.val(), 1)),
                    fmul(fmul(r.val(), r.val()), w2.r_e.val()),
                )
                &&& vals(res.0.w@) == svadd(vals(w1.w@), svscale(r.val(), vals(w2.w@)))
                &&& res.0.r_w.val() == fadd(w1.r_w.val(), fmul(r.val(), w2.r_w.val()))
                &&& res.1.wf()
                &&& res.1.cm_e.encoding() == fold_cm_e(
                    r.val(),
                    res.3.encoding(),
                    ci1.cm_e.encoding(),
                    ci2.cm_e.encoding(),
                )
                &&& res.1.u.val() == fadd(ci1.u.val(), fmul(r.val(), ci2.u.val()))
                &&& res.1.cm_w.encoding() == fold_cm_w(
                    r.val(),
                    ci1.cm_w.encoding(),
                    ci2.cm_w.encoding(),
                )
                &&& vals(res.1.x@) == svadd(vals(ci1.x@), svscale(r.val(), vals(ci2.x@)))
            }),
    {
        let z1 = assignment_of(ci1.u, &ci1.x, &w1.w);
        let z2 = assignment_of(ci2.u, &ci2.x, &w2.w);
        let t = Self::compute_t(r1cs, ci1.u, ci2.u, &z1, &z2);
        let r_t = Scalar::one();
        let cm_t = Pedersen::commit(&r_t, params, &t);
        let w = Self::fold_witness(w1, w2, &t, r, r_t);
        let ci = Self::fold_committed_instance(r, &cm_t, ci1, ci2);
        (w, ci, t, cm_t)
    }

    /// The verifier's fold: recomputes the folded instance from public
    /// data only, trusting that `cm_t` was computed honestly.
    pub fn verify(
        r: Scalar,
        ci1: &CommittedInstance,
        ci2: &CommittedInstance,
        cm_t: &Point,
    ) -> (ci3: CommittedInstance)
        requires
            r.wf(),
            cm_t.wf(),
            ci1.wf(),
            ci2.wf(),
            ci1.x@.len() == ci2.x@.len(),
        ensures
            ci3.wf(),
            ci3.cm_e.encoding() == fold_cm_e(
                r.val(),
                cm_t.encoding(),
                ci1.cm_e.encoding(),
                ci2.cm_e.encoding(),
            ),
            ci3.u.val() == fadd(ci1.u.val(), fmul(r.val(), ci2.u.val())),
            ci3.cm_w.encoding() == fold_cm_w(r.val(), ci1.cm_w.encoding(), ci2.cm_w.encoding()),
            vals(ci3.x@) == svadd(vals(ci1.x@), svscale(r.val(), vals(ci2.x@))),
    {
        Self::fold_committed_instance(r, cm_t, ci1, ci2)
    }

    /// Checks a claimed folded instance against direct recomputation:
    /// true exactly when all four folded fields match.
    pub fn verify_fold_instance(
        r: Scalar,
        ci: &CommittedInstance,
        ci1: &CommittedInstance,
        ci2: &CommittedInstance,
        cm_t: &Point,
    ) -> (ok: bool)
        requires
            r.wf(),
            cm_t.wf(),
            ci.wf(),
            ci1.wf(),
            ci2.wf(),
            ci1.x@.len() == ci2.x@.len(),
        ensures
            ok == (ci.cm_e.encoding() == fold_cm_e(
                r.val(),
                cm_t.encoding(),
                ci1.cm_e.encoding(),
                ci2.cm_e.encoding(),
            ) && ci.u.val() == fadd(ci1.u.val(), fmul(r.val(), ci2.u.val()))
                && ci.cm_w.encoding() == fold_cm_w(
                r.val(),
                ci1.cm_w.encoding(),
                ci2.cm_w.encoding(),
            ) && vals(ci.x@) == svadd(vals(ci1.x@), svscale(r.val(), vals(ci2.x@)))),
    {
        let r2 = r.mul_fp(&r);
        let cmtr = pt_mul(cm_t, &r);
        let cme1_cmtr = pt_add(&ci1.cm_e, &cmtr);
        let cme2r2 = pt_mul(&ci2.cm_e, &r2);
        let cm_e_expected = pt_add(&cme1_cmtr, &cme2r2);
        if !ci.cm_e.eq_point(&cm_e_expected) {
            return false;
        }
        let ru2 = r.mul_fp(&ci2.u);
        let u_expected = ci1.u.add_fp(&ru2);
        if !ci.u.eq_fp(&u_expected) {
            return false;
        }
        let cmw2r = pt_mul(&ci2.cm_w, &r);
        let cm_w_expected = pt_add(&ci1.cm_w, &cmw2r);
        if !ci.cm_w.eq_point(&cm_w_expected) {
            return false;
        }
        let rx2 = scalar_mul_vec(r, &ci2.x);
        let x_expected = vec_add_vec(&ci1.x, &rx2);
        vec_eq_scalar(&ci.x, &x_expected)
    }

    /// Produces the three Pedersen opening proofs, for `cm_w`, `cm_e` and
    /// `cm_t`, bound to one shared transcript.
    pub fn prove_commitments(
        ts: &mut crate::transcript::PoseidonTranscript,
        params: &PedersenParams,
        w: &Witness,
        ci: &CommittedInstance,
        t: &Vec<Scalar>,
        cm_t: &Point,
    ) -> (proofs: (PedersenProof, PedersenProof, PedersenProof))
        requires
            params.wf(),
            w.wf(),
            ci.wf(),
            vec_wf(t@),
            cm_t.wf(),
            w.w@.len() <= params.generators@.len(),
            w.e@.len() <= params.generators@.len(),
            t@.len() <= params.generators@.len(),
        ensures
            proofs.0.wf() && proofs.1.wf() && proofs.2.wf(),
            proofs.1.u@.len() == w.w@.len(),
            proofs.2.u@.len() == w.e@.len(),
            proofs.0.u@.len() == t@.len(),
            proofs.1.r_commit.encoding() == prove_rc(
                *params,
                old(ts).ops@,
                ci.cm_w.encoding(),
                w.w@.len() as int,
            ),
            final(ts).ops@ == ({
                let h1 = open_h5(
                    old(ts).ops@,
                    ci.cm_w.encoding(),
                    w.w@.len() as int,
                    proofs.1.r_commit.encoding(),
                );
                let h2 = open_h5(h1, ci.cm_e.encoding(), w.e@.len() as int, proofs.2.r_commit.encoding());
                open_h5(h2, cm_t.encoding(), t@.len() as int, proofs.0.r_commit.encoding())
            }),
    {
        let cm_w_proof = Pedersen::prove(&ci.cm_w, &w.w, &w.r_w, params, ts);
        let cm_e_proof = Pedersen::prove(&ci.cm_e, &w.e, &w.r_e, params, ts);
        let one = Scalar::one();
        let cm_t_proof = Pedersen::prove(cm_t, t, &one, params, ts);
        (cm_t_proof, cm_w_proof, cm_e_proof)
    }

    /// Checks the three Pedersen opening proofs against one shared
    /// transcript; true exactly when all three algebraic checks pass, in
    /// the order `cm_w`, `cm_e`, `cm_t`.
    pub fn verify_commitments(
        ts: &mut crate::transcript::PoseidonTranscript,
        params: &PedersenParams,
        ci: &CommittedInstance,
        cm_t: Point,
        cm_t_proof: PedersenProof,
        cm_w_proof: PedersenProof,
        cm_e_proof: PedersenProof,
    ) -> (ok: bool)
        requires
            params.wf(),
            ci.wf(),
            cm_t.wf(),
            cm_t_proof.wf(),
            cm_w_proof.wf(),
            cm_e_proof.wf(),
            cm_t_proof.u@.len() <= params.generators@.len(),
            cm_w_proof.u@.len() <= params.generators@.len(),
            cm_e_proof.u@.len() <= params.generators@.len(),
        ensures
            ok == ({
                let h0 = old(ts).ops@;
                let h1 = open_h5(
                    h0,
                    ci.cm_w.encoding(),
                    cm_w_proof.u@.len() as int,
                    cm_w_proof.r_commit.encoding(),
                );
                let h2 = open_h5(
                    h1,
                    ci.cm_e.encoding(),
                    cm_e_proof.u@.len() as int,
                    cm_e_proof.r_commit.encoding(),
                );
                verify_eq(*params, ci.cm_w.encoding(), cm_w_proof, h0) && verify_eq(
                    *params,
                    ci.cm_e.encoding(),
                    cm_e_proof,
                    h1,
                ) && verify_eq(*params, cm_t.encoding(), cm_t_proof, h2)
            }),
    {
        if !Pedersen::verify(ci.cm_w, cm_w_proof, params, ts) {
            return false;
        }
        if !Pedersen::verify(ci.cm_e, cm_e_proof, params, ts) {
            return false;
        }
        if !Pedersen::verify(cm_t, cm_t_proof, params, ts) {
            return false;
        }
        true
    }
}

/// Equality of two scalar vectors; agrees with equality of the value
/// sequences.
pub fn vec_eq_scalar(a: &Vec<Scalar>, b: &Vec<Scalar>) -> (r: bool)
    ensures
        r == (vals(a@) == vals(b@)),
{
    if a.len() != b.len() {
        proof {
            assert(vals(a@).len() != vals(b@).len());
        }
        return false;
    }
    let n = a.len();
    for i in 0..n
        invariant
            a@.len() == n,
            b@.len() == n,
            forall|k: int| 0 <= k < i ==> a@[k].val() == b@[k].val(),
    {
        if !a[i].eq_fp(&b[i]) {
            proof {
                assert(vals(a@)[i as int] != vals(b@)[i as int]);
            }
            return false;
        }
    }
    proof {
        assert(vals(a@) =~= vals(b@));
    }
    true
}

/// Builds the full assignment `z = (u, x, w)` by concatenation.
pub fn assignment_of(u: Scalar, x: &Vec<Scalar>, w: &Vec<Scalar>) -> (z: Vec<Scalar>)
    requires
        u.wf(),
        vec_wf(x@),
        vec_wf(w@),
    ensures
        z@.len() == 1 + x@.len() + w@.len(),
        vec_wf(z@),
        vals(z@) == z_of(u.val(), vals(x@), vals(w@)),
{
    let mut z: Vec<Scalar> = Vec::new();
    z.push(u);
    let nx = x.len();
    for i in 0..nx
        invariant
            x@.len() == nx,
            u.wf(),
            vec_wf(x@),
            z@.len() == 1 + i,
            vec_wf(z@),
            z@[0] == u,
            forall|k: int| 0 <= k < i ==> z@[1 + k] == x@[k],
    {
        z.push(x[i]);
    }
    let nw = w.len();
    for i in 0..nw
        invariant
            x@.len() == nx,
            w@.len() == nw,
            u.wf(),
            vec_wf(x@),
            vec_wf(w@),
            z@.len() == 1 + nx + i,
            vec_wf(z@),
            z@[0] == u,
            forall|k: int| 0 <= k < nx ==> z@[1 + k] == x@[k],
            forall|k: int| 0 <= k < i ==> z@[1 + nx + k] == w@[k],
    {
        z.push(w[i]);
    }
    proof {
        assert(vals(z@) =~= z_of(u.val(), vals(x@), vals(w@)));
    }
    z
}

/// Folding exactness: if both input pairs satisfy the relaxed relation,
/// the folded assignment `z1 + r * z2`, the folded scalar `u1 + r * u2`
/// and the folded error `e1 + r * t + r^2 * e2`, with `t` the cross term,
/// satisfy it again.
pub proof fn lemma_fold_preserves_relaxed(
    r1cs: R1CS,
    z1: Seq<int>,
    z2: Seq<int>,
    u1: int,
    u2: int,
    e1: Seq<int>,
    e2: Seq<int>,
    r: int,
)
    requires
        r1cs.wf(),
        z1.len() == r1cs.a.n_cols,
        z2.len() == r1cs.a.n_cols,
        all_in_field(z1),
        all_in_field(z2),
        all_in_field(e1),
        all_in_field(e2),
        in_field(u1),
        in_field(u2),
        in_field(r),
        e1.len() == r1cs.a.n_rows,
        e2.len() == r1cs.a.n_rows,
        relaxed_sat(r1cs, z1, u1, e1),
        relaxed_sat(r1cs, z2, u2, e2),
    ensures
        relaxed_sat(
            r1cs,
            svadd(z1, svscale(r, z2)),
            fadd(u1, fmul(r, u2)),
            fold_e(e1, e2, cross_term(r1cs, z1, z2, u1, u2), r),
        ),
{
    let n = r1cs.a.n_rows as int;
    let nc = r1cs.a.n_cols as int;
    let z3 = svadd(z1, svscale(r, z2));
    let az1 = mvp(r1cs.a.vals@, z1, n);
    let az2 = mvp(r1cs.a.vals@, z2, n);
    let bz1 = mvp(r1cs.b.vals@, z1, n);
    let bz2 = mvp(r1cs.b.vals@, z2, n);
    let cz1 = mvp(r1cs.c.vals@, z1, n);
    let cz2 = mvp(r1cs.c.vals@, z2, n);
    let az3 = mvp(r1cs.a.vals@, z3, n);
    let bz3 = mvp(r1cs.b.vals@, z3, n);
    let cz3 = mvp(r1cs.c.vals@, z3, n);
    let t = cross_term(r1cs, z1, z2, u1, u2);
    let u3 = fadd(u1, fmul(r, u2));
    let e3 = fold_e(e1, e2, t, r);
    lemma_mvp_linear(r1cs.a.vals@, z1, z2, r, n, nc);
    lemma_mvp_linear(r1cs.b.vals@, z1, z2, r, n, nc);
    lemma_mvp_linear(r1cs.c.vals@, z1, z2, r, n, nc);
    lemma_mvp_props(r1cs.a.vals@, z1, n);
    lemma_mvp_props(r1cs.a.vals@, z2, n);
    lemma_mvp_props(r1cs.b.vals@, z1, n);
    lemma_mvp_props(r1cs.b.vals@, z2, n);
    lemma_mvp_props(r1cs.c.vals@, z1, n);
    lemma_mvp_props(r1cs.c.vals@, z2, n);
    assert forall|i: int| 0 <= i < n implies svhad(az3, bz3)[i] == svadd(e3, svscale(u3, cz3))[i]
        by {
        assert(svhad(az1, bz1)[i] == svadd(e1, svscale(u1, cz1))[i]);
        assert(svhad(az2, bz2)[i] == svadd(e2, svscale(u2, cz2))[i]);
        assert(t[i] == fcross(az1[i], bz1[i], az2[i], bz2[i], cz1[i], cz2[i], u1, u2));
        lemma_fold_pointwise(
            az1[i],
            bz1[i],
            cz1[i],
            e1[i],
            u1,
            az2[i],
            bz2[i],
            cz2[i],
            e2[i],
            u2,
            r,
        );
    };
    assert(svhad(az3, bz3) =~= svadd(e3, svscale(u3, cz3)));
}

/// The folded assignment is the concatenation of the folded parts: folding
/// `u`, `x` and `w` separately and concatenating yields `z1 + r * z2`.
pub proof fn lemma_fold_assignment_concat(
    u1: int,
    x1: Seq<int>,
    w1: Seq<int>,
    u2: int,
    x2: Seq<int>,
    w2: Seq<int>,
    r: int,
)
    requires
        x1.len() == x2.len(),
        w1.len() == w2.len(),
    ensures
        z_of(fadd(u1, fmul(r, u2)), svadd(x1, svscale(r, x2)), svadd(w1, svscale(r, w2))) == svadd(
            z_of(u1, x1, w1),
            svscale(r, z_of(u2, x2, w2)),
        ),
{
    assert(z_of(fadd(u1, fmul(r, u2)), svadd(x1, svscale(r, x2)), svadd(w1, svscale(r, w2)))
        =~= svadd(z_of(u1, x1, w1), svscale(r, z_of(u2, x2, w2))));
}

/// A freshly created pair, with relaxation scalar one and zero error
/// vector, satisfies the relaxed relation exactly when the assignment
/// satisfies the strict one.
pub proof fn lemma_fresh_relaxed_iff_strict(r1cs: R1CS, z: Seq<int>)
    requires
        r1cs.wf(),
        z.len() == r1cs.a.n_cols,
        all_in_field(z),
    ensures
        relaxed_sat(r1cs, z, 1, zero_seq(r1cs.a.n_rows as int)) <==> strict_sat(r1cs, z),
{
    let n = r1cs.a.n_rows as int;
    let cz = mvp(r1cs.c.vals@, z, n);
    lemma_mvp_props(r1cs.c.vals@, z, n);
    assert forall|i: int| 0 <= i < n implies svadd(zero_seq(n), svscale(1, cz))[i] == cz[i] by {
        lemma_fmul_one(cz[i]);
        lemma_fadd_zero(cz[i]);
    };
    assert(svadd(zero_seq(n), svscale(1, cz)) =~= cz);
}

/// One round of accumulation: folding a relaxed-satisfying accumulator
/// with a fresh strictly-satisfying instance (relaxation scalar one, zero
/// error) preserves the relaxed invariant. Applied once per round, this
/// carries the invariant through any number of folds.
pub proof fn lemma_accumulate_fresh(
    r1cs: R1CS,
    z1: Seq<int>,
    u1: int,
    e1: Seq<int>,
    z2: Seq<int>,
    r: int,
)
    requires
        r1cs.wf(),
        z1.len() == r1cs.a.n_cols,
        z2.len() == r1cs.a.n_cols,
        all_in_field(z1),
        all_in_field(z2),
        all_in_field(e1),
        in_field(u1),
        in_field(r),
        e1.len() == r1cs.a.n_rows,
        relaxed_sat(r1cs, z1, u1, e1),
        strict_sat(r1cs, z2),
    ensures
        relaxed_sat(
            r1cs,
            svadd(z1, svscale(r, z2)),
            fadd(u1, fmul(r, 1)),
            fold_e(e1, zero_seq(r1cs.a.n_rows as int), cross_term(r1cs, z1, z2, u1, 1), r),
        ),
{
    let n = r1cs.a.n_rows as int;
    lemma_fresh_relaxed_iff_strict(r1cs, z2);
    lemma_fold_preserves_relaxed(r1cs, z1, z2, u1, 1, e1, zero_seq(n), r);
}

} // verus!
