//! Customizable constraint systems: a weighted sum of Hadamard products of
//! matrix-vector products, generalizing R1CS, together with the exact
//! satisfaction check.

use vstd::prelude::*;
use vstd::arithmetic::power2::pow2;
use crate::field::{
    fadd, fmul, in_field, fmod, Scalar, lemma_fadd_zero, lemma_fmul_one, lemma_neg_one_cancel,
};
use crate::r1cs::{
    all_in_field, mvp, one_seq, svadd, svhad, svscale, vals, vec_add_vec, vec_mul_matrix,
    vec_wf, zero_seq, zero_vec_fp, one_vec_fp, hadamard, scalar_mul_vec, strict_sat, R1CS,
    SparseMatrix, lemma_mvp_props,
};

verus! {

/// The errors of the relation layer.
#[derive(Clone, Copy, Debug, PartialEq, Eq, Structural)]
pub enum Error {
    /// A declared assignment does not satisfy the constraint system.
    NotSatisfied,
}

/// A customizable constraint system over the scalar field.
#[derive(Clone, Debug, PartialEq, Eq)]
pub struct CCS {
    /// Number of rows of every matrix.
    pub m: usize,
    /// Number of columns of every matrix; also the assignment length.
    pub n: usize,
    /// Length of the public-input segment.
    pub l: usize,
    /// Number of matrices.
    pub t: usize,
    /// Number of summed terms.
    pub q: usize,
    /// Maximal multiset cardinality.
    pub d: usize,
    /// Ceiling of the base-two logarithm of `m`.
    pub s: usize,
    /// Ceiling of the base-two logarithm of `n`.
    pub s_prime: usize,
    /// The matrices.
    pub m_vec: Vec<SparseMatrix>,
    /// One multiset of matrix indices per term.
    pub s_vec: Vec<Vec<usize>>,
    /// One scalar coefficient per term.
    pub v: Vec<Scalar>,
}

impl CCS {
    /// Dimensions agree, every matrix index is in range and every value is
    /// canonical.
    pub open spec fn wf(self) -> bool {
        &&& self.m_vec@.len() == self.t
        &&& self.s_vec@.len() == self.q
        &&& self.v@.len() == self.q
        &&& forall|i: int|
            0 <= i < self.t ==> (#[trigger] self.m_vec@[i]).wf() && self.m_vec@[i].n_rows == self.m
                && self.m_vec@[i].n_cols == self.n
        &&& forall|i: int, k: int|
            0 <= i < self.q && 0 <= k < self.s_vec@[i]@.len() ==> (#[trigger] self.s_vec@[i]@[k])
                < self.t
        &&& forall|i: int| 0 <= i < self.q ==> (#[trigger] self.v@[i]).wf()
        &&& self.l + 1 <= self.n
    }
}

/// The Hadamard product of the first `cnt` matrix-vector products of term
/// `i`, folded left starting from the all-one vector.
pub open spec fn had_fold(ccs: CCS, z: Seq<int>, i: int, cnt: int) -> Seq<int>
    decreases cnt,
{
    if cnt <= 0 {
        one_seq(ccs.m as int)
    } else {
        svhad(
            had_fold(ccs, z, i, cnt - 1),
            mvp(ccs.m_vec@[ccs.s_vec@[i]@[cnt - 1] as int].vals@, z, ccs.m as int),
        )
    }
}

/// The weighted sum of the first `qi` terms of the constraint system.
pub open spec fn ccs_sum(ccs: CCS, z: Seq<int>, qi: int) -> Seq<int>
    decreases qi,
{
    if qi <= 0 {
        zero_seq(ccs.m as int)
    } else {
        svadd(
            ccs_sum(ccs, z, qi - 1),
            svscale(ccs.v@[qi - 1].val(), had_fold(ccs, z, qi - 1, ccs.s_vec@[qi - 1]@.len() as int)),
        )
    }
}

/// An assignment satisfies the constraint system when the weighted sum of
/// all terms is the zero vector.
pub open spec fn ccs_sat(ccs: CCS, z: Seq<int>) -> bool {
    ccs_sum(ccs, z, ccs.q as int) == zero_seq(ccs.m as int)
}

/// The smallest exponent `e` with `2^e >= x`.
pub open spec fn is_ceil_log2(e: int, x: int) -> bool {
    &&& e >= 0
    &&& pow2(e as nat) >= x
    &&& e > 0 ==> pow2((e - 1) as nat) < x
}

/// The constructed system is the canonical image of the R1CS: matrices
/// `[A, B, C]`, multisets `[[0, 1], [2]]` and coefficients `[1, -1]`.
pub open spec fn is_from_r1cs(ccs: CCS, r1cs: R1CS) -> bool {
    &&& ccs.m == r1cs.a.n_rows
    &&& ccs.n == r1cs.a.n_cols
    &&& ccs.l == r1cs.l
    &&& ccs.t == 3
    &&& ccs.q == 2
    &&& ccs.d == 2
    &&& is_ceil_log2(ccs.s as int, ccs.m as int)
    &&& is_ceil_log2(ccs.s_prime as int, ccs.n as int)
    &&& ccs.m_vec@ =~= seq![r1cs.a, r1cs.b, r1cs.c]
    &&& ccs.s_vec@.len() == 2
    &&& ccs.s_vec@[0]@ =~= seq![0usize, 1usize]
    &&& ccs.s_vec@[1]@ =~= seq![2usize]
    &&& ccs.v@.len() == 2
    &&& ccs.v@[0].val() == 1
    &&& ccs.v@[1].val() == fmod() - 1
}

/// The ceiling of the base-two logarithm, with `0` mapped to `0`.
pub fn log2_ceil(x: usize) -> (r: usize)
    ensures
        is_ceil_log2(r as int, x as int),
{
    let xx: u128 = x as u128;
    let mut e: usize = 0;
    let mut p: u128 = 1;
    proof {
        vstd::arithmetic::power2::lemma2_to64();
    }
    while p < xx
        invariant
            xx < 0x10000000000000000,
            p == pow2(e as nat),
            p <= 0x10000000000000000,
            e <= 64,
            e > 0 ==> pow2((e - 1) as nat) < xx,
        decreases 0x10000000000000000int - p,
    {
        proof {
            vstd::arithmetic::power2::lemma2_to64();
            vstd::arithmetic::power2::lemma2_to64_rest();
            if e >= 64 {
                assert(p >= 0x10000000000000000);
                assert(false);
            }
            vstd::arithmetic::power2::lemma_pow2_adds(e as nat, 1);
            if e + 1 <= 63 {
                vstd::arithmetic::power2::lemma_pow2_strictly_increases((e + 1) as nat, 64);
            }
        }
        p = p * 2;
        e = e + 1;
    }
    e
}

impl CCS {
    /// The canonical embedding of an R1CS relation: `t = 3`, `q = 2`,
    /// `d = 2`, matrices `[A, B, C]`, multisets `[[0, 1], [2]]` and
    /// coefficients `[1, -1]`, which recovers the R1CS relation as a sum of
    /// Hadamard products.
    pub fn from_r1cs(r1cs: R1CS) -> (r: CCS)
        requires
            r1cs.wf(),
        ensures
            r.wf(),
            is_from_r1cs(r, r1cs),
    {
        let m = r1cs.a.n_rows;
        let n = r1cs.a.n_cols;
        let s = log2_ceil(m);
        let s_prime = log2_ceil(n);
        let one = Scalar::one();
        let minus_one = one.neg_fp();
        let mut s0: Vec<usize> = Vec::new();
        s0.push(0);
        s0.push(1);
        let mut s1: Vec<usize> = Vec::new();
        s1.push(2);
        let mut s_vec: Vec<Vec<usize>> = Vec::new();
        s_vec.push(s0);
        s_vec.push(s1);
        let mut v: Vec<Scalar> = Vec::new();
        v.push(one);
        v.push(minus_one);
        let mut m_vec: Vec<SparseMatrix> = Vec::new();
        let l = r1cs.l;
        m_vec.push(r1cs.a);
        m_vec.push(r1cs.b);
        m_vec.push(r1cs.c);
        CCS { m, n, l, t: 3, q: 2, d: 2, s, s_prime, m_vec, s_vec, v }
    }

    /// The exact satisfaction check: accumulates every term of the weighted
    /// sum and succeeds exactly when the result is the zero vector,
    /// reporting `NotSatisfied` otherwise.
    pub fn is_satisfied(&self, z: &Vec<Scalar>) -> (r: Result<(), Error>)
        requires
            self.wf(),
            z@.len() == self.n,
            vec_wf(z@),
        ensures
            r is Ok <==> ccs_sat(*self, vals(z@)),
            r is Err ==> r == Err::<(), Error>(Error::NotSatisfied),
    {
        let mut racc = zero_vec_fp(self.m);
        assert(vals(racc@) == ccs_sum(*self, vals(z@), 0));
        let q_max = self.q;
        for q_i in 0..q_max
            invariant
                self.wf(),
                q_max == self.q,
                z@.len() == self.n,
                vec_wf(z@),
                racc@.len() == self.m,
                vec_wf(racc@),
                vals(racc@) == ccs_sum(*self, vals(z@), q_i as int),
        {
            let s_list = &self.s_vec[q_i];
            let mut acc = one_vec_fp(self.m);
            assert(vals(acc@) == had_fold(*self, vals(z@), q_i as int, 0));
            let cnt = s_list.len();
            for idx in 0..cnt
                invariant
                    self.wf(),
                    q_i < self.q,
                    cnt == s_list@.len(),
                    s_list@ == self.s_vec@[q_i as int]@,
                    z@.len() == self.n,
                    vec_wf(z@),
                    acc@.len() == self.m,
                    vec_wf(acc@),
                    vals(acc@) == had_fold(*self, vals(z@), q_i as int, idx as int),
            {
                let s = s_list[idx];
                let prod = vec_mul_matrix(z, &self.m_vec[s]);
                acc = hadamard(&acc, &prod);
            }
            let c_s = scalar_mul_vec(self.v[q_i], &acc);
            racc = vec_add_vec(&racc, &c_s);
        }
        let m_rows = self.m;
        for i in 0..m_rows
            invariant
                m_rows == self.m,
                racc@.len() == m_rows,
                vec_wf(racc@),
                vals(racc@) == ccs_sum(*self, vals(z@), self.q as int),
                forall|k: int| 0 <= k < i ==> (#[trigger] racc@[k]).val() == 0,
        {
            if !racc[i].is_zero_fp() {
                proof {
                    assert(ccs_sum(*self, vals(z@), self.q as int)[i as int] != 0);
                    assert(zero_seq(self.m as int)[i as int] == 0);
                }
                return Err(Error::NotSatisfied);
            }
        }
        proof {
            assert(ccs_sum(*self, vals(z@), self.q as int) =~= zero_seq(self.m as int));
        }
        Ok(())
    }
}

/// For the canonical image of an R1CS, the CCS satisfaction check agrees
/// exactly with the strict R1CS relation `(A.z) o (B.z) = C.z`.
pub proof fn lemma_from_r1cs_sat_iff(ccs: CCS, r1cs: R1CS, z: Seq<int>)
    requires
        r1cs.wf(),
        is_from_r1cs(ccs, r1cs),
        z.len() == r1cs.a.n_cols,
        all_in_field(z),
    ensures
        ccs_sat(ccs, z) <==> strict_sat(r1cs, z),
{
    let m = ccs.m as int;
    let az = mvp(r1cs.a.vals@, z, m);
    let bz = mvp(r1cs.b.vals@, z, m);
    let cz = mvp(r1cs.c.vals@, z, m);
    lemma_mvp_props(r1cs.a.vals@, z, m);
    lemma_mvp_props(r1cs.b.vals@, z, m);
    lemma_mvp_props(r1cs.c.vals@, z, m);
    let h0 = had_fold(ccs, z, 0, 2);
    let h1 = had_fold(ccs, z, 1, 1);
    assert(had_fold(ccs, z, 0, 0) == one_seq(m));
    assert(had_fold(ccs, z, 1, 0) == one_seq(m));
    assert(ccs.s_vec@[0]@[0] == 0usize && ccs.s_vec@[0]@[1] == 1usize);
    assert(ccs.s_vec@[1]@[0] == 2usize);
    assert(ccs.m_vec@[0] == r1cs.a && ccs.m_vec@[1] == r1cs.b && ccs.m_vec@[2] == r1cs.c);
    assert(had_fold(ccs, z, 0, 1) == svhad(one_seq(m), az));
    assert(h0 == svhad(had_fold(ccs, z, 0, 1), bz));
    assert(h1 == svhad(one_seq(m), cz));
    assert(svhad(one_seq(m), az) =~= az) by {
        assert forall|i: int| 0 <= i < m implies svhad(one_seq(m), az)[i] == az[i] by {
            lemma_fmul_one(az[i]);
        };
    };
    assert(svhad(one_seq(m), cz) =~= cz) by {
        assert forall|i: int| 0 <= i < m implies svhad(one_seq(m), cz)[i] == cz[i] by {
            lemma_fmul_one(cz[i]);
        };
    };
    let hb = svhad(az, bz);
    assert(h0 == hb);
    let s2 = ccs_sum(ccs, z, 2);
    assert(ccs.s_vec@[1]@.len() == 1 && ccs.s_vec@[0]@.len() == 2);
    assert(ccs_sum(ccs, z, 0) == zero_seq(m));
    assert(s2 == svadd(ccs_sum(ccs, z, 1), svscale(ccs.v@[1].val(), h1)));
    assert(ccs_sum(ccs, z, 1) == svadd(zero_seq(m), svscale(ccs.v@[0].val(), h0)));
    assert(ccs_sum(ccs, z, 1) == svadd(zero_seq(m), svscale(1, hb)));
    assert forall|i: int| 0 <= i < m implies ccs_sum(ccs, z, 1)[i] == hb[i] by {
        crate::field::lemma_f_ops_in_field(az[i], bz[i]);
        lemma_fmul_one(hb[i]);
        lemma_fadd_zero(hb[i]);
    };
    assert forall|i: int| 0 <= i < m implies (s2[i] == 0 <==> hb[i] == cz[i]) by {
        crate::field::lemma_f_ops_in_field(az[i], bz[i]);
        lemma_neg_one_cancel(hb[i], cz[i]);
        assert(s2[i] == fadd(ccs_sum(ccs, z, 1)[i], fmul(fmod() - 1, cz[i])));
    };
    if ccs_sat(ccs, z) {
        assert forall|i: int| 0 <= i < m implies hb[i] == cz[i] by {
            assert(s2[i] == zero_seq(m)[i]);
        };
        assert(hb =~= cz);
    }
    if strict_sat(r1cs, z) {
        assert forall|i: int| 0 <= i < m implies s2[i] == 0 by {
            assert(hb[i] == cz[i]);
        };
        assert(s2 =~= zero_seq(m));
    }
}

} // verus!
