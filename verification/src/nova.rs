//! The folding data: a public committed instance and the prover's secret
//! witness, together with the commitment step that ties them together.

use vstd::prelude::*;
use crate::field::Scalar;
use crate::pedersen::{commit_enc, Params as PedersenParams, Pedersen};
use crate::point::Point;
use crate::r1cs::{vals, vec_wf, zero_seq, zero_vec_fp};

verus! {

/// A committed relation instance: commitments to the error vector and the
/// witness, the relaxation scalar `u`, and the public input `x`. Public
/// data; carries no secret material.
#[derive(Clone, Debug, PartialEq, Eq)]
pub struct CommittedInstance {
    pub cm_e: Point,
    pub u: Scalar,
    pub cm_w: Point,
    pub x: Vec<Scalar>,
}

impl CommittedInstance {
    /// Every component is in canonical form.
    pub open spec fn wf(self) -> bool {
        self.cm_e.wf() && self.u.wf() && self.cm_w.wf() && vec_wf(self.x@)
    }

    /// The instance with identity commitments, `u = 1` and no public
    /// input.
    pub fn empty() -> (r: CommittedInstance)
        ensures
            r.wf(),
            r.cm_e.encoding() == seq![0int, 0int, 1int],
            r.u.val() == 1,
            r.cm_w.encoding() == seq![0int, 0int, 1int],
            r.x@.len() == 0,
    {
        CommittedInstance {
            cm_e: Point::identity(),
            u: Scalar::one(),
            cm_w: Point::identity(),
            x: Vec::new(),
        }
    }
}

/// The prover's secret material: the error vector `e` with its blinding
/// scalar, and the witness vector `w` with its blinding scalar.
#[derive(Clone, Debug, PartialEq, Eq)]
pub struct Witness {
    pub e: Vec<Scalar>,
    pub r_e: Scalar,
    pub w: Vec<Scalar>,
    pub r_w: Scalar,
}

impl Witness {
    /// Every component is in canonical form.
    pub open spec fn wf(self) -> bool {
        vec_wf(self.e@) && self.r_e.wf() && vec_wf(self.w@) && self.r_w.wf()
    }

    /// A fresh witness: zero error vector of the given length, blinding
    /// scalars fixed to one.
    pub fn new(witness: Vec<Scalar>, e_len: usize) -> (r: Witness)
        requires
            vec_wf(witness@),
        ensures
            r.wf(),
            vals(r.e@) == zero_seq(e_len as int),
            r.e@.len() == e_len,
            r.r_e.val() == 1,
            r.w@ == witness@,
            r.r_w.val() == 1,
    {
        Witness { e: zero_vec_fp(e_len), r_e: Scalar::one(), w: witness, r_w: Scalar::one() }
    }

    /// Commits to the error vector and the witness under their blinding
    /// scalars, producing an un-relaxed committed instance (`u = 1`) with
    /// the given public input.
    pub fn commit(&self, params: &PedersenParams, x: Vec<Scalar>) -> (ci: CommittedInstance)
        requires
            self.wf(),
            params.wf(),
            vec_wf(x@),
            self.e@.len() <= params.generators@.len(),
            self.w@.len() <= params.generators@.len(),
        ensures
            ci.wf(),
            ci.cm_e.encoding() == commit_enc(*params, self.r_e.val(), vals(self.e@)),
            ci.u.val() == 1,
            ci.cm_w.encoding() == commit_enc(*params, self.r_w.val(), vals(self.w@)),
            ci.x@ == x@,
    {
        let cm_e = Pedersen::commit(&self.r_e, params, &self.e);
        let cm_w = Pedersen::commit(&self.r_w, params, &self.w);
        CommittedInstance { cm_e, u: Scalar::one(), cm_w, x }
    }
}

} // verus!
