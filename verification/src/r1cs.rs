//! Sparse matrices over the scalar field, the linear-algebra primitives of
//! the relation layer, and the R1CS structure with its assignment split.
//! The mathematical model works on sequences of canonical residues.

use vstd::prelude::*;
use crate::field::{
    fadd, fmul, fsub, in_field, fmod, Scalar, lemma_f_ops_in_field, lemma_accum_linear,
    lemma_in_field_mod, lemma_fmul_int,
};

verus! {

/// The integer values of a vector of field elements.
pub open spec fn vals(v: Seq<Scalar>) -> Seq<int> {
    v.map_values(|x: Scalar| x.val())
}

/// Every element of the vector is in canonical form.
pub open spec fn vec_wf(v: Seq<Scalar>) -> bool {
    forall|i: int| 0 <= i < v.len() ==> (#[trigger] v[i]).wf()
}

/// Every entry of the sequence is a reduced residue.
pub open spec fn all_in_field(s: Seq<int>) -> bool {
    forall|i: int| 0 <= i < s.len() ==> in_field(#[trigger] s[i])
}

/// The all-zero sequence of the given length.
pub open spec fn zero_seq(n: int) -> Seq<int> {
    Seq::new(n as nat, |i: int| 0)
}

/// The all-one sequence of the given length.
pub open spec fn one_seq(n: int) -> Seq<int> {
    Seq::new(n as nat, |i: int| 1)
}

/// Elementwise field addition.
pub open spec fn svadd(a: Seq<int>, b: Seq<int>) -> Seq<int>
    recommends
        a.len() == b.len(),
{
    Seq::new(a.len(), |i: int| fadd(a[i], b[i]))
}

/// Elementwise field subtraction.
pub open spec fn svsub(a: Seq<int>, b: Seq<int>) -> Seq<int>
    recommends
        a.len() == b.len(),
{
    Seq::new(a.len(), |i: int| fsub(a[i], b[i]))
}

/// Elementwise (Hadamard) field multiplication.
pub open spec fn svhad(a: Seq<int>, b: Seq<int>) -> Seq<int>
    recommends
        a.len() == b.len(),
{
    Seq::new(a.len(), |i: int| fmul(a[i], b[i]))
}

/// Multiplication of every entry by a scalar.
pub open spec fn svscale(c: int, v: Seq<int>) -> Seq<int> {
    Seq::new(v.len(), |i: int| fmul(c, v[i]))
}

/// A sparse matrix: dimensions and the nonzero entries `(row, col, value)`;
/// omitted positions are zero.
#[derive(Clone, Debug, PartialEq, Eq)]
pub struct SparseMatrix {
    pub n_rows: usize,
    pub n_cols: usize,
    pub vals: Vec<(usize, usize, Scalar)>,
}

impl SparseMatrix {
    /// All entries are in range and in canonical form.
    pub open spec fn wf(self) -> bool {
        forall|k: int|
            0 <= k < self.vals@.len() ==> (#[trigger] self.vals@[k]).0 < self.n_rows
                && self.vals@[k].1 < self.n_cols && self.vals@[k].2.wf()
    }
}

/// The sparse matrix-vector product, defined by accumulating the entries in
/// order into an all-zero vector of `n_rows` entries.
pub open spec fn mvp(entries: Seq<(usize, usize, Scalar)>, z: Seq<int>, n_rows: int) -> Seq<int>
    decreases entries.len(),
{
    if entries.len() == 0 {
        zero_seq(n_rows)
    } else {
        let prev = mvp(entries.drop_last(), z, n_rows);
        let e = entries.last();
        prev.update(e.0 as int, fadd(prev[e.0 as int], fmul(e.2.val(), z[e.1 as int])))
    }
}

/// The matrix-vector product has one entry per row, each a reduced residue.
pub proof fn lemma_mvp_props(entries: Seq<(usize, usize, Scalar)>, z: Seq<int>, n_rows: int)
    requires
        n_rows >= 0,
        forall|k: int| 0 <= k < entries.len() ==> (#[trigger] entries[k]).0 < n_rows,
    ensures
        mvp(entries, z, n_rows).len() == n_rows,
        all_in_field(mvp(entries, z, n_rows)),
    decreases entries.len(),
{
    if entries.len() == 0 {
    } else {
        lemma_mvp_props(entries.drop_last(), z, n_rows);
        let e = entries.last();
        let prev = mvp(entries.drop_last(), z, n_rows);
        let res = mvp(entries, z, n_rows);
        assert(entries[entries.len() - 1] == e);
        lemma_f_ops_in_field(prev[e.0 as int], fmul(e.2.val(), z[e.1 as int]));
        assert forall|i: int| 0 <= i < res.len() implies in_field(#[trigger] res[i]) by {
            if i != e.0 as int {
                assert(res[i] == prev[i]);
            }
        };
    }
}

/// Sparse matrix-vector multiplication `M . z`, accumulating the nonzero
/// entries in order.
pub fn vec_mul_matrix(z: &Vec<Scalar>, m: &SparseMatrix) -> (r: Vec<Scalar>)
    requires
        m.wf(),
        z@.len() == m.n_cols,
        vec_wf(z@),
    ensures
        r@.len() == m.n_rows,
        vec_wf(r@),
        vals(r@) == mvp(m.vals@, vals(z@), m.n_rows as int),
{
    let mut v: Vec<Scalar> = Vec::new();
    let n = m.n_rows;
    for i in 0..n
        invariant
            v@.len() == i,
            vec_wf(v@),
            forall|k: int| 0 <= k < i ==> (#[trigger] v@[k]).val() == 0,
    {
        v.push(Scalar::zero());
    }
    assert(vals(v@) =~= zero_seq(n as int));
    let k_max = m.vals.len();
    for k in 0..k_max
        invariant
            m.wf(),
            k_max == m.vals@.len(),
            z@.len() == m.n_cols,
            vec_wf(z@),
            v@.len() == m.n_rows,
            vec_wf(v@),
            vals(v@) == mvp(m.vals@.take(k as int), vals(z@), m.n_rows as int),
    {
        let (i, j, val) = m.vals[k];
        let add_term = val.mul_fp(&z[j]);
        let updated = v[i].add_fp(&add_term);
        v[i] = updated;
        proof {
            let pre = m.vals@.take(k as int);
            let post = m.vals@.take(k + 1int);
            assert(post.drop_last() =~= pre);
            assert(post.last() == m.vals@[k as int]);
            assert(vals(v@) =~= mvp(post, vals(z@), m.n_rows as int));
        }
    }
    proof {
        assert(m.vals@.take(m.vals@.len() as int) =~= m.vals@);
    }
    v
}

/// Elementwise product of two vectors of equal length.
pub fn hadamard(a: &Vec<Scalar>, b: &Vec<Scalar>) -> (r: Vec<Scalar>)
    requires
        a@.len() == b@.len(),
        vec_wf(a@),
        vec_wf(b@),
    ensures
        r@.len() == a@.len(),
        vec_wf(r@),
        vals(r@) == svhad(vals(a@), vals(b@)),
{
    let mut r: Vec<Scalar> = Vec::new();
    let n = a.len();
    for i in 0..n
        invariant
            a@.len() == n,
            b@.len() == n,
            vec_wf(a@),
            vec_wf(b@),
            r@.len() == i,
            vec_wf(r@),
            forall|k: int| 0 <= k < i ==> (#[trigger] r@[k]).val() == fmul(a@[k].val(), b@[k].val()),
    {
        r.push(a[i].mul_fp(&b[i]));
    }
    proof {
        assert(vals(r@) =~= svhad(vals(a@), vals(b@)));
    }
    r
}

/// Multiplication of every element of a vector by a scalar.
pub fn scalar_mul_vec(c: Scalar, v: &Vec<Scalar>) -> (r: Vec<Scalar>)
    requires
        c.wf(),
        vec_wf(v@),
    ensures
        r@.len() == v@.len(),
        vec_wf(r@),
        vals(r@) == svscale(c.val(), vals(v@)),
{
    let mut r: Vec<Scalar> = Vec::new();
    let n = v.len();
    for i in 0..n
        invariant
            v@.len() == n,
            c.wf(),
            vec_wf(v@),
            r@.len() == i,
            vec_wf(r@),
            forall|k: int| 0 <= k < i ==> (#[trigger] r@[k]).val() == fmul(c.val(), v@[k].val()),
    {
        r.push(c.mul_fp(&v[i]));
    }
    proof {
        assert(vals(r@) =~= svscale(c.val(), vals(v@)));
    }
    r
}

/// Elementwise sum of two vectors of equal length.
pub fn vec_add_vec(v1: &Vec<Scalar>, v2: &Vec<Scalar>) -> (r: Vec<Scalar>)
    requires
        v1@.len() == v2@.len(),
        vec_wf(v1@),
        vec_wf(v2@),
    ensures
        r@.len() == v1@.len(),
        vec_wf(r@),
        vals(r@) == svadd(vals(v1@), vals(v2@)),
{
    let mut r: Vec<Scalar> = Vec::new();
    let n = v1.len();
    for i in 0..n
        invariant
            v1@.len() == n,
            v2@.len() == n,
            vec_wf(v1@),
            vec_wf(v2@),
            r@.len() == i,
            vec_wf(r@),
            forall|k: int| 0 <= k < i ==> (#[trigger] r@[k]).val() == fadd(v1@[k].val(), v2@[k].val()),
    {
        r.push(v1[i].add_fp(&v2[i]));
    }
    proof {
        assert(vals(r@) =~= svadd(vals(v1@), vals(v2@)));
    }
    r
}

/// Elementwise difference of two vectors of equal length.
pub fn vec_sub_vec(v1: &Vec<Scalar>, v2: &Vec<Scalar>) -> (r: Vec<Scalar>)
    requires
        v1@.len() == v2@.len(),
        vec_wf(v1@),
        vec_wf(v2@),
    ensures
        r@.len() == v1@.len(),
        vec_wf(r@),
        vals(r@) == svsub(vals(v1@), vals(v2@)),
{
    let mut r: Vec<Scalar> = Vec::new();
    let n = v1.len();
    for i in 0..n
        invariant
            v1@.len() == n,
            v2@.len() == n,
            vec_wf(v1@),
            vec_wf(v2@),
            r@.len() == i,
            vec_wf(r@),
            forall|k: int| 0 <= k < i ==> (#[trigger] r@[k]).val() == fsub(v1@[k].val(), v2@[k].val()),
    {
        r.push(v1[i].sub_fp(&v2[i]));
    }
    proof {
        assert(vals(r@) =~= svsub(vals(v1@), vals(v2@)));
    }
    r
}

/// A vector of `n` zero elements.
pub fn zero_vec_fp(n: usize) -> (r: Vec<Scalar>)
    ensures
        r@.len() == n,
        vec_wf(r@),
        vals(r@) == zero_seq(n as int),
{
    let mut v: Vec<Scalar> = Vec::new();
    for i in 0..n
        invariant
            v@.len() == i,
            vec_wf(v@),
            forall|k: int| 0 <= k < i ==> (#[trigger] v@[k]).val() == 0,
    {
        v.push(Scalar::zero());
    }
    proof {
        assert(vals(v@) =~= zero_seq(n as int));
    }
    v
}

/// A vector of `n` one elements.
pub fn one_vec_fp(n: usize) -> (r: Vec<Scalar>)
    ensures
        r@.len() == n,
        vec_wf(r@),
        vals(r@) == one_seq(n as int),
{
    let mut v: Vec<Scalar> = Vec::new();
    for i in 0..n
        invariant
            v@.len() == i,
            vec_wf(v@),
            forall|k: int| 0 <= k < i ==> (#[trigger] v@[k]).val() == 1,
    {
        v.push(Scalar::one());
    }
    proof {
        assert(vals(v@) =~= one_seq(n as int));
    }
    v
}

/// The strict (un-relaxed) R1CS relation: `(A.z) o (B.z) = C.z`.
pub open spec fn strict_sat(r1cs: R1CS, z: Seq<int>) -> bool {
    svhad(mvp(r1cs.a.vals@, z, r1cs.a.n_rows as int), mvp(r1cs.b.vals@, z, r1cs.a.n_rows as int))
        == mvp(r1cs.c.vals@, z, r1cs.a.n_rows as int)
}

/// Strict lexicographic row-major order on two matrix entries.
pub open spec fn entry_lt(e1: (usize, usize, Scalar), e2: (usize, usize, Scalar)) -> bool {
    e1.0 < e2.0 || (e1.0 == e2.0 && e1.1 < e2.1)
}

/// A dense matrix: nonempty, rectangular, canonical elements.
pub open spec fn dense_wf(m: Seq<Vec<Scalar>>) -> bool {
    &&& m.len() > 0
    &&& forall|i: int| 0 <= i < m.len() ==> (#[trigger] m[i])@.len() == m[0]@.len()
    &&& forall|i: int, j: int|
        0 <= i < m.len() && 0 <= j < m[0]@.len() ==> (#[trigger] m[i]@[j]).wf()
}

/// The sparse matrix holds exactly the nonzero positions of the dense one,
/// in strictly increasing row-major order and with the same values.
pub open spec fn represents_dense(sm: SparseMatrix, m: Seq<Vec<Scalar>>) -> bool {
    &&& sm.n_rows == m.len()
    &&& m.len() > 0 && sm.n_cols == m[0]@.len()
    &&& forall|k: int|
        0 <= k < sm.vals@.len() ==> (#[trigger] sm.vals@[k]).0 < m.len() && sm.vals@[k].1
            < m[0]@.len() && sm.vals@[k].2 == m[sm.vals@[k].0 as int]@[sm.vals@[k].1 as int]
            && sm.vals@[k].2.val() != 0
    &&& forall|i: int, j: int|
        0 <= i < m.len() && 0 <= j < m[0]@.len() && (#[trigger] m[i]@[j]).val() != 0 ==> exists|
            k: int,
        |
            0 <= k < sm.vals@.len() && (#[trigger] sm.vals@[k]) == (
                i as usize,
                j as usize,
                m[i]@[j],
            )
    &&& forall|k1: int, k2: int|
        0 <= k1 < k2 < sm.vals@.len() ==> entry_lt(
            #[trigger] sm.vals@[k1],
            #[trigger] sm.vals@[k2],
        )
}

/// Builds the sparse representation of a dense matrix, keeping exactly the
/// nonzero coefficients in row-major order.
pub fn dense_matrix_to_sparse(m: Vec<Vec<Scalar>>) -> (r: SparseMatrix)
    requires
        dense_wf(m@),
    ensures
        r.wf(),
        represents_dense(r, m@),
{
    let n_rows = m.len();
    let n_cols = m[0].len();
    let mut entries: Vec<(usize, usize, Scalar)> = Vec::new();
    for i in 0..n_rows
        invariant
            dense_wf(m@),
            n_rows == m@.len(),
            n_cols == m@[0]@.len(),
            forall|k: int|
                0 <= k < entries@.len() ==> (#[trigger] entries@[k]).0 < i && entries@[k].1
                    < n_cols && entries@[k].2 == m@[entries@[k].0 as int]@[entries@[k].1 as int]
                    && entries@[k].2.val() != 0,
            forall|i2: int, j2: int|
                0 <= i2 < i && 0 <= j2 < n_cols && (#[trigger] m@[i2]@[j2]).val() != 0 ==> exists|
                    k: int,
                |
                    0 <= k < entries@.len() && (#[trigger] entries@[k]) == (
                        i2 as usize,
                        j2 as usize,
                        m@[i2]@[j2],
                    ),
            forall|k1: int, k2: int|
                0 <= k1 < k2 < entries@.len() ==> entry_lt(
                    #[trigger] entries@[k1],
                    #[trigger] entries@[k2],
                ),
    {
        let row = &m[i];
        let cols = row.len();
        assert(cols == n_cols);
        for j in 0..cols
            invariant
                dense_wf(m@),
                n_rows == m@.len(),
                n_cols == m@[0]@.len(),
                i < n_rows,
                cols == n_cols,
                row@ == m@[i as int]@,
                forall|k: int|
                    0 <= k < entries@.len() ==> ((#[trigger] entries@[k]).0 < i || (entries@[k].0
                        == i && entries@[k].1 < j)) && entries@[k].0 < n_rows && entries@[k].1
                        < n_cols && entries@[k].2 == m@[entries@[k].0 as int]@[entries@[k].1 as int]
                        && entries@[k].2.val() != 0,
                forall|i2: int, j2: int|
                    0 <= i2 < n_rows && 0 <= j2 < n_cols && (i2 < i || (i2 == i && j2 < j)) && (
                    #[trigger] m@[i2]@[j2]).val() != 0 ==> exists|k: int|
                        0 <= k < entries@.len() && (#[trigger] entries@[k]) == (
                            i2 as usize,
                            j2 as usize,
                            m@[i2]@[j2],
                        ),
                forall|k1: int, k2: int|
                    0 <= k1 < k2 < entries@.len() ==> entry_lt(
                        #[trigger] entries@[k1],
                        #[trigger] entries@[k2],
                    ),
        {
            let v = row[j];
            let ghost pre = entries@;
            if !v.is_zero_fp() {
                entries.push((i, j, v));
            }
            proof {
                assert forall|i2: int, j2: int|
                    0 <= i2 < n_rows && 0 <= j2 < n_cols && (i2 < i || (i2 == i && j2 <= j)) && (
                    #[trigger] m@[i2]@[j2]).val() != 0 implies exists|k: int|
                    0 <= k < entries@.len() && (#[trigger] entries@[k]) == (
                        i2 as usize,
                        j2 as usize,
                        m@[i2]@[j2],
                    ) by {
                    if i2 == i && j2 == j {
                        assert(entries@[pre.len() as int] == (
                            i2 as usize,
                            j2 as usize,
                            m@[i2]@[j2],
                        ));
                    } else {
                        let k = choose|k: int|
                            0 <= k < pre.len() && pre[k] == (i2 as usize, j2 as usize, m@[i2]@[j2]);
                        assert(entries@[k] == pre[k]);
                    }
                };
            }
        }
        proof {
            assert forall|i2: int, j2: int|
                0 <= i2 < i + 1 && 0 <= j2 < n_cols && (#[trigger] m@[i2]@[j2]).val()
                    != 0 implies exists|k: int|
                0 <= k < entries@.len() && (#[trigger] entries@[k]) == (
                    i2 as usize,
                    j2 as usize,
                    m@[i2]@[j2],
                ) by {
                assert(i2 < i || (i2 == i && j2 < n_cols));
            };
        }
    }
    let r = SparseMatrix { n_rows, n_cols, vals: entries };
    proof {
        assert(r.vals@ == entries@);
        assert(r.n_rows == m@.len());
        assert(forall|k: int|
            0 <= k < r.vals@.len() ==> (#[trigger] r.vals@[k]).0 < m@.len() && r.vals@[k].1
                < m@[0]@.len() && r.vals@[k].2 == m@[r.vals@[k].0 as int]@[r.vals@[k].1 as int]
                && r.vals@[k].2.val() != 0);
        assert forall|i2: int, j2: int|
            0 <= i2 < m@.len() && 0 <= j2 < m@[0]@.len() && (#[trigger] m@[i2]@[j2]).val()
                != 0 implies exists|k: int|
            0 <= k < r.vals@.len() && (#[trigger] r.vals@[k]) == (
                i2 as usize,
                j2 as usize,
                m@[i2]@[j2],
            ) by {
            let k = choose|k: int|
                0 <= k < entries@.len() && entries@[k] == (i2 as usize, j2 as usize, m@[i2]@[j2]);
            assert(r.vals@[k] == entries@[k]);
        };
    }
    r
}

/// Embeds a vector of machine integers into the field.
pub fn to_f_vec(v: Vec<usize>) -> (r: Vec<Scalar>)
    ensures
        r@.len() == v@.len(),
        vec_wf(r@),
        forall|k: int| 0 <= k < v@.len() ==> vals(r@)[k] == v@[k],
{
    let mut f_v: Vec<Scalar> = Vec::new();
    let n = v.len();
    for i in 0..n
        invariant
            v@.len() == n,
            f_v@.len() == i,
            vec_wf(f_v@),
            forall|k: int| 0 <= k < i ==> (#[trigger] f_v@[k]).val() == v@[k],
    {
        f_v.push(Scalar::from_u64(v[i] as u64));
    }
    f_v
}

/// Embeds a rectangular matrix of machine integers into the field.
pub fn to_f_matrix(m: Vec<Vec<usize>>) -> (r: Vec<Vec<Scalar>>)
    ensures
        r@.len() == m@.len(),
        forall|i: int| 0 <= i < m@.len() ==> (#[trigger] r@[i])@.len() == m@[i]@.len(),
        forall|i: int, j: int|
            0 <= i < m@.len() && 0 <= j < m@[i]@.len() ==> (#[trigger] r@[i]@[j]).wf()
                && r@[i]@[j].val() == m@[i]@[j],
{
    let mut f_m: Vec<Vec<Scalar>> = Vec::new();
    let n = m.len();
    for i in 0..n
        invariant
            m@.len() == n,
            f_m@.len() == i,
            forall|k: int| 0 <= k < i ==> (#[trigger] f_m@[k])@.len() == m@[k]@.len(),
            forall|k: int, j: int|
                0 <= k < i && 0 <= j < m@[k]@.len() ==> (#[trigger] f_m@[k]@[j]).wf()
                    && f_m@[k]@[j].val() == m@[k]@[j],
    {
        let row = to_f_vec_ref(&m[i]);
        f_m.push(row);
    }
    f_m
}

/// Embeds one row of machine integers into the field.
fn to_f_vec_ref(v: &Vec<usize>) -> (r: Vec<Scalar>)
    ensures
        r@.len() == v@.len(),
        vec_wf(r@),
        forall|k: int| 0 <= k < v@.len() ==> (#[trigger] r@[k]).val() == v@[k],
{
    let mut f_v: Vec<Scalar> = Vec::new();
    let n = v.len();
    for i in 0..n
        invariant
            v@.len() == n,
            f_v@.len() == i,
            vec_wf(f_v@),
            forall|k: int| 0 <= k < i ==> (#[trigger] f_v@[k]).val() == v@[k],
    {
        f_v.push(Scalar::from_u64(v[i] as u64));
    }
    f_v
}

/// An R1CS relation: three sparse matrices of equal shape and the length
/// `l` of the public-input segment of an assignment `z = (1, x, w)`.
#[derive(Clone, Debug, PartialEq, Eq)]
pub struct R1CS {
    pub l: usize,
    pub a: SparseMatrix,
    pub b: SparseMatrix,
    pub c: SparseMatrix,
}

impl R1CS {
    /// The three matrices share one shape, entries are in range, and a full
    /// assignment is long enough to hold the leading one and the public
    /// input.
    pub open spec fn wf(self) -> bool {
        self.a.wf() && self.b.wf() && self.c.wf() && self.b.n_rows == self.a.n_rows
            && self.c.n_rows == self.a.n_rows && self.b.n_cols == self.a.n_cols
            && self.c.n_cols == self.a.n_cols && self.l + 1 <= self.a.n_cols
    }

    /// Splits a full assignment `z = (1, x, w)` into the pair `(w, x)`.
    pub fn split_z(&self, z: &Vec<Scalar>) -> (r: (Vec<Scalar>, Vec<Scalar>))
        requires
            self.l + 1 <= z@.len(),
        ensures
            r.0@ == z@.subrange(self.l + 1, z@.len() as int),
            r.1@ == z@.subrange(1, self.l + 1),
    {
        let mut w: Vec<Scalar> = Vec::new();
        let mut x: Vec<Scalar> = Vec::new();
        let n = z.len();
        let l = self.l;
        for i in (l + 1)..n
            invariant
                z@.len() == n,
                l + 1 <= n,
                w@ =~= z@.subrange(l + 1, i as int),
        {
            w.push(z[i]);
        }
        for i in 1..(l + 1)
            invariant
                z@.len() == n,
                l + 1 <= n,
                x@ =~= z@.subrange(1, i as int),
        {
            x.push(z[i]);
        }
        proof {
            assert(w@ =~= z@.subrange(l + 1, n as int));
            assert(x@ =~= z@.subrange(1, l + 1));
        }
        (w, x)
    }
}

/// The relaxed R1CS invariant for assignment `z`, relaxation scalar `u` and
/// error vector `e`: `(A.z) o (B.z) = u * (C.z) + e`.
pub open spec fn relaxed_sat(r1cs: R1CS, z: Seq<int>, u: int, e: Seq<int>) -> bool {
    svhad(mvp(r1cs.a.vals@, z, r1cs.a.n_rows as int), mvp(r1cs.b.vals@, z, r1cs.a.n_rows as int))
        == svadd(e, svscale(u, mvp(r1cs.c.vals@, z, r1cs.a.n_rows as int)))
}

/// Matrix-vector multiplication is linear: applying a matrix to the
/// combination `z1 + r * z2` combines the two separate products.
pub proof fn lemma_mvp_linear(
    entries: Seq<(usize, usize, Scalar)>,
    z1: Seq<int>,
    z2: Seq<int>,
    r: int,
    n_rows: int,
    n_cols: int,
)
    requires
        n_rows >= 0,
        z1.len() == n_cols,
        z2.len() == n_cols,
        all_in_field(z1),
        all_in_field(z2),
        in_field(r),
        forall|k: int|
            0 <= k < entries.len() ==> (#[trigger] entries[k]).0 < n_rows && entries[k].1 < n_cols
                && entries[k].2.wf(),
    ensures
        mvp(entries, svadd(z1, svscale(r, z2)), n_rows) == svadd(
            mvp(entries, z1, n_rows),
            svscale(r, mvp(entries, z2, n_rows)),
        ),
    decreases entries.len(),
{
    let z3 = svadd(z1, svscale(r, z2));
    if entries.len() == 0 {
        assert forall|i: int| 0 <= i < n_rows implies svadd(
            mvp(entries, z1, n_rows),
            svscale(r, mvp(entries, z2, n_rows)),
        )[i] == 0 by {
            assert((0int + r * 0) % fmod() == 0);
            assert((0int + 0) % fmod() == 0);
        };
        assert(mvp(entries, z3, n_rows) =~= svadd(
            mvp(entries, z1, n_rows),
            svscale(r, mvp(entries, z2, n_rows)),
        ));
    } else {
        let tail = entries.drop_last();
        lemma_mvp_linear(tail, z1, z2, r, n_rows, n_cols);
        lemma_mvp_props(tail, z1, n_rows);
        lemma_mvp_props(tail, z2, n_rows);
        lemma_mvp_props(tail, z3, n_rows);
        let e = entries.last();
        let i = e.0 as int;
        let j = e.1 as int;
        let v = e.2.val();
        let p1 = mvp(tail, z1, n_rows);
        let p2 = mvp(tail, z2, n_rows);
        let p3 = mvp(tail, z3, n_rows);
        assert(entries[entries.len() - 1] == e);
        assert(e.0 < n_rows && e.1 < n_cols && e.2.wf());
        lemma_accum_linear(p1[i], p2[i], v, z1[j], z2[j], r);
        assert(mvp(entries, z3, n_rows) =~= svadd(
            mvp(entries, z1, n_rows),
            svscale(r, mvp(entries, z2, n_rows)),
        ));
    }
}

} // verus!
