//! Scalar-field elements of the Pallas curve, held as four 64-bit limbs in
//! little-endian order, with arithmetic carried out by `ark_ff` behind
//! trusted wrappers. Contracts speak of the integer value of the limbs
//! modulo the scalar-field modulus.

use vstd::prelude::*;
use vstd::arithmetic::div_mod::{
    lemma_add_mod_noop, lemma_mul_mod_noop_general, lemma_small_mod, lemma_sub_mod_noop,
    lemma_mod_bound, lemma_fundamental_div_mod_converse, lemma_mod_multiples_vanish,
    lemma_mod_twice, lemma_mul_mod_noop_right,
};
use ark_ff::PrimeField;
use vstd::arithmetic::mul::{
    lemma_mul_is_associative, lemma_mul_is_commutative, lemma_mul_is_distributive_add,
    lemma_mul_is_distributive_add_other_way, lemma_mul_is_distributive_sub,
};

verus! {

/// The modulus of the Pallas scalar field (`ark_pallas::Fr`).
pub open spec fn fmod() -> int {
    28948022309329048855892746252171976963363056481941647379679742748393362948097int
}

/// A field element in canonical (reduced) form.
pub open spec fn in_field(a: int) -> bool {
    0 <= a < fmod()
}

/// Field addition: addition of canonical representatives modulo `fmod()`.
pub open spec fn fadd(a: int, b: int) -> int {
    (a + b) % fmod()
}

/// Field subtraction modulo `fmod()`.
pub open spec fn fsub(a: int, b: int) -> int {
    (a - b) % fmod()
}

/// Field multiplication modulo `fmod()`.
pub open spec fn fmul(a: int, b: int) -> int {
    (a * b) % fmod()
}

/// The integer encoded by four little-endian 64-bit limbs.
pub open spec fn limbs_val(s: Seq<u64>) -> int
    recommends
        s.len() == 4,
{
    s[0] + s[1] * 0x10000000000000000int + s[2] * 0x100000000000000000000000000000000int + s[3]
        * 0x1000000000000000000000000000000000000000000000000int
}

/// A Pallas scalar-field element. The limbs always hold the canonical
/// representative, so two elements are equal exactly when their limbs are.
#[derive(Clone, Copy, Debug, PartialEq, Eq)]
pub struct Scalar {
    pub limbs: [u64; 4],
}

impl Scalar {
    /// The integer value of this element.
    pub open spec fn val(self) -> int {
        limbs_val(self.limbs@)
    }

    /// Canonical form: the value is a reduced residue.
    pub open spec fn wf(self) -> bool {
        self.val() < fmod()
    }

    /// The zero element.
    pub fn zero() -> (r: Scalar)
        ensures
            r.val() == 0,
            r.wf(),
    {
        Scalar { limbs: [0, 0, 0, 0] }
    }

    /// The one element.
    pub fn one() -> (r: Scalar)
        ensures
            r.val() == 1,
            r.wf(),
    {
        Scalar { limbs: [1, 0, 0, 0] }
    }

    /// Embeds a machine integer, which is always below the modulus.
    pub fn from_u64(x: u64) -> (r: Scalar)
        ensures
            r.val() == x,
            r.wf(),
    {
        Scalar { limbs: [x, 0, 0, 0] }
    }

    /// Field addition.
    pub fn add_fp(&self, other: &Scalar) -> (r: Scalar)
        requires
            self.wf(),
            other.wf(),
        ensures
            r.val() == fadd(self.val(), other.val()),
            r.wf(),
    {
        proof {
            lemma_mod_bound(self.val() + other.val(), fmod());
        }
        Scalar { limbs: fp_add_limbs(&self.limbs, &other.limbs) }
    }

    /// Field subtraction.
    pub fn sub_fp(&self, other: &Scalar) -> (r: Scalar)
        requires
            self.wf(),
            other.wf(),
        ensures
            r.val() == fsub(self.val(), other.val()),
            r.wf(),
    {
        proof {
            lemma_mod_bound(self.val() - other.val(), fmod());
        }
        Scalar { limbs: fp_sub_limbs(&self.limbs, &other.limbs) }
    }

    /// Field multiplication.
    pub fn mul_fp(&self, other: &Scalar) -> (r: Scalar)
        requires
            self.wf(),
            other.wf(),
        ensures
            r.val() == fmul(self.val(), other.val()),
            r.wf(),
    {
        proof {
            lemma_mod_bound(self.val() * other.val(), fmod());
        }
        Scalar { limbs: fp_mul_limbs(&self.limbs, &other.limbs) }
    }

    /// Additive inverse.
    pub fn neg_fp(&self) -> (r: Scalar)
        requires
            self.wf(),
        ensures
            r.val() == fsub(0, self.val()),
            r.wf(),
    {
        let z = Scalar::zero();
        z.sub_fp(self)
    }

    /// Equality of field elements; agrees with equality of values.
    pub fn eq_fp(&self, other: &Scalar) -> (r: bool)
        ensures
            r == (self.val() == other.val()),
    {
        let r = self.limbs[0] == other.limbs[0] && self.limbs[1] == other.limbs[1]
            && self.limbs[2] == other.limbs[2] && self.limbs[3] == other.limbs[3];
        proof {
            if !r {
                if self.val() == other.val() {
                    lemma_limbs_val_injective(self.limbs@, other.limbs@);
                }
            }
        }
        r
    }

    /// Whether this element is zero.
    pub fn is_zero_fp(&self) -> (r: bool)
        ensures
            r == (self.val() == 0),
    {
        let z = Scalar::zero();
        self.eq_fp(&z)
    }
}

/// Relies on `ark_ff` addition for `ark_pallas::Fr`: prime-field addition
/// modulo the scalar modulus, on canonical little-endian limb encodings.
#[verifier::external_body]
fn fp_add_limbs(a: &[u64; 4], b: &[u64; 4]) -> (r: [u64; 4])
    requires
        limbs_val(a@) < fmod(),
        limbs_val(b@) < fmod(),
    ensures
        limbs_val(r@) == (limbs_val(a@) + limbs_val(b@)) % fmod(),
{
    let x = ark_pallas::Fr::from_bigint(ark_ff::BigInt(*a)).unwrap();
    let y = ark_pallas::Fr::from_bigint(ark_ff::BigInt(*b)).unwrap();
    (x + y).into_bigint().0
}

/// Relies on `ark_ff` subtraction for `ark_pallas::Fr`: prime-field
/// subtraction modulo the scalar modulus, on canonical limb encodings.
#[verifier::external_body]
fn fp_sub_limbs(a: &[u64; 4], b: &[u64; 4]) -> (r: [u64; 4])
    requires
        limbs_val(a@) < fmod(),
        limbs_val(b@) < fmod(),
    ensures
        limbs_val(r@) == (limbs_val(a@) - limbs_val(b@)) % fmod(),
{
    let x = ark_pallas::Fr::from_bigint(ark_ff::BigInt(*a)).unwrap();
    let y = ark_pallas::Fr::from_bigint(ark_ff::BigInt(*b)).unwrap();
    (x - y).into_bigint().0
}

/// Relies on `ark_ff` multiplication for `ark_pallas::Fr`: prime-field
/// multiplication modulo the scalar modulus, on canonical limb encodings.
#[verifier::external_body]
fn fp_mul_limbs(a: &[u64; 4], b: &[u64; 4]) -> (r: [u64; 4])
    requires
        limbs_val(a@) < fmod(),
        limbs_val(b@) < fmod(),
    ensures
        limbs_val(r@) == (limbs_val(a@) * limbs_val(b@)) % fmod(),
{
    let x = ark_pallas::Fr::from_bigint(ark_ff::BigInt(*a)).unwrap();
    let y = ark_pallas::Fr::from_bigint(ark_ff::BigInt(*b)).unwrap();
    (x * y).into_bigint().0
}

/// Relies on `ark_ff::PrimeField::from_le_bytes_mod_order`: interprets the
/// limbs as a little-endian integer and reduces it modulo the scalar
/// modulus.
#[verifier::external_body]
pub fn fp_from_limbs_mod_order(a: &[u64; 4]) -> (r: Scalar)
    ensures
        r.val() == limbs_val(a@) % fmod(),
        r.wf(),
{
    let mut bytes = [0u8; 32];
    for i in 0..4 {
        bytes[i * 8..(i + 1) * 8].copy_from_slice(&a[i].to_le_bytes());
    }
    let x = ark_pallas::Fr::from_le_bytes_mod_order(&bytes);
    Scalar { limbs: x.into_bigint().0 }
}

/// Two canonical limb encodings of the same integer are identical.
pub proof fn lemma_limbs_val_injective(a: Seq<u64>, b: Seq<u64>)
    requires
        a.len() == 4,
        b.len() == 4,
        limbs_val(a) == limbs_val(b),
    ensures
        a =~= b,
{
    let base: int = 0x10000000000000000;
    lemma_limb_split(a);
    lemma_limb_split(b);
    let qa3: int = a[3] as int;
    let qb3: int = b[3] as int;
    let qa2 = a[2] + qa3 * base;
    let qb2 = b[2] + qb3 * base;
    let qa1 = a[1] + qa2 * base;
    let qb1 = b[1] + qb2 * base;
    lemma_fundamental_div_mod_converse(limbs_val(a), base, qa1, a[0] as int);
    lemma_fundamental_div_mod_converse(limbs_val(b), base, qb1, b[0] as int);
    assert(a[0] == b[0] && qa1 == qb1);
    lemma_fundamental_div_mod_converse(qa1, base, qa2, a[1] as int);
    lemma_fundamental_div_mod_converse(qb1, base, qb2, b[1] as int);
    assert(a[1] == b[1] && qa2 == qb2);
    lemma_fundamental_div_mod_converse(qa2, base, qa3, a[2] as int);
    lemma_fundamental_div_mod_converse(qb2, base, qb3, b[2] as int);
    assert(a[2] == b[2] && a[3] == b[3]);
}

/// Rewrites the limb value as nested division steps with base 2^64.
proof fn lemma_limb_split(a: Seq<u64>)
    requires
        a.len() == 4,
    ensures
        limbs_val(a) == (a[0] + (a[1] + (a[2] + (a[3] as int) * 0x10000000000000000)
            * 0x10000000000000000) * 0x10000000000000000),
{
    let a0 = a[0] as int;
    let a1 = a[1] as int;
    let a2 = a[2] as int;
    let a3 = a[3] as int;
    assert(a0 + a1 * 0x10000000000000000int + a2 * 0x100000000000000000000000000000000int + a3
        * 0x1000000000000000000000000000000000000000000000000int == a0 + (a1 + (a2 + a3
        * 0x10000000000000000int) * 0x10000000000000000int) * 0x10000000000000000int)
        by (nonlinear_arith);
}

/// Reduced residues are fixed by a further reduction.
pub proof fn lemma_in_field_mod(a: int)
    requires
        in_field(a),
    ensures
        a % fmod() == a,
{
    lemma_small_mod(a as nat, fmod() as nat);
}

/// Addition of residues agrees with addition of the underlying integers.
pub proof fn lemma_fadd_int(x: int, y: int)
    ensures
        fadd(x % fmod(), y % fmod()) == (x + y) % fmod(),
{
    lemma_add_mod_noop(x, y, fmod());
}

/// Subtraction of residues agrees with subtraction of the underlying
/// integers.
pub proof fn lemma_fsub_int(x: int, y: int)
    ensures
        fsub(x % fmod(), y % fmod()) == (x - y) % fmod(),
{
    lemma_sub_mod_noop(x, y, fmod());
}

/// Multiplication of residues agrees with multiplication of the underlying
/// integers.
pub proof fn lemma_fmul_int(x: int, y: int)
    ensures
        fmul(x % fmod(), y % fmod()) == (x * y) % fmod(),
{
    lemma_mul_mod_noop_general(x, y, fmod());
}

/// Accumulating one sparse-matrix entry commutes with taking a random
/// linear combination of the two assignments: adding `v * (x1 + r * x2)` to
/// `p1 + r * p2` is the same as combining the two separate accumulations.
pub proof fn lemma_accum_linear(p1: int, p2: int, v: int, x1: int, x2: int, r: int)
    requires
        in_field(p1),
        in_field(p2),
        in_field(v),
        in_field(x1),
        in_field(x2),
        in_field(r),
    ensures
        fadd(fadd(p1, fmul(r, p2)), fmul(v, fadd(x1, fmul(r, x2)))) == fadd(
            fadd(p1, fmul(v, x1)),
            fmul(r, fadd(p2, fmul(v, x2))),
        ),
{
    let m = fmod();
    lemma_in_field_mod(p1);
    lemma_in_field_mod(p2);
    lemma_in_field_mod(v);
    lemma_in_field_mod(x1);
    lemma_in_field_mod(x2);
    lemma_in_field_mod(r);
    assert(fadd(fadd(p1, fmul(r, p2)), fmul(v, fadd(x1, fmul(r, x2)))) == ((p1 + r * p2) + v * (x1
        + r * x2)) % m) by {
        lemma_fmul_int(r, x2);
        lemma_fadd_int(x1, r * x2);
        lemma_fmul_int(v, x1 + r * x2);
        lemma_fmul_int(r, p2);
        lemma_fadd_int(p1, r * p2);
        lemma_fadd_int(p1 + r * p2, v * (x1 + r * x2));
    };
    assert(fadd(fadd(p1, fmul(v, x1)), fmul(r, fadd(p2, fmul(v, x2)))) == ((p1 + v * x1) + r * (p2
        + v * x2)) % m) by {
        lemma_fmul_int(v, x1);
        lemma_fadd_int(p1, v * x1);
        lemma_fmul_int(v, x2);
        lemma_fadd_int(p2, v * x2);
        lemma_fmul_int(r, p2 + v * x2);
        lemma_fadd_int(p1 + v * x1, r * (p2 + v * x2));
    };
    assert((p1 + r * p2) + v * (x1 + r * x2) == (p1 + v * x1) + r * (p2 + v * x2))
        by (nonlinear_arith);
}

/// One is the multiplicative identity on canonical residues.
pub proof fn lemma_fmul_one(a: int)
    requires
        in_field(a),
    ensures
        fmul(1, a) == a,
{
    lemma_in_field_mod(a);
}

/// Zero is the additive identity on canonical residues.
pub proof fn lemma_fadd_zero(a: int)
    requires
        in_field(a),
    ensures
        fadd(0, a) == a,
{
    lemma_in_field_mod(a);
}

/// Adding `(fmod() - 1) * c`, the product with minus one, cancels `c`:
/// the sum with `h` is zero exactly when `h == c`.
pub proof fn lemma_neg_one_cancel(h: int, c: int)
    requires
        in_field(h),
        in_field(c),
    ensures
        fadd(h, fmul(fmod() - 1, c)) == 0 <==> h == c,
{
    let m = fmod();
    lemma_in_field_mod(h);
    lemma_in_field_mod(c);
    assert(fadd(h, fmul(m - 1, c)) == (h + (m - 1) * c) % m) by {
        lemma_fmul_int(m - 1, c);
        lemma_fadd_int(h, (m - 1) * c);
    };
    assert((m - 1) * c == c * m - c) by (nonlinear_arith);
    assert((h + (m - 1) * c) % m == (h - c) % m) by {
        lemma_mod_multiples_vanish(c, h - c, m);
    };
    if h == c {
        assert((h - c) % m == 0) by {
            lemma_small_mod(0, m as nat);
        };
    } else if h > c {
        lemma_small_mod((h - c) as nat, m as nat);
    } else {
        lemma_fundamental_div_mod_converse(h - c, m, -1, h - c + m);
    }
}

/// One entry of the cross term between two relaxed instances:
/// `a1 * b2 + a2 * b1 - u1 * c2 - u2 * c1` in the field.
pub open spec fn fcross(
    a1: int,
    b1: int,
    a2: int,
    b2: int,
    c1: int,
    c2: int,
    u1: int,
    u2: int,
) -> int {
    fsub(fsub(fadd(fmul(a1, b2), fmul(a2, b1)), fmul(u1, c2)), fmul(u2, c1))
}

/// The product of two binomials in the challenge `r`, expanded.
proof fn lemma_binomial(x1: int, x2: int, y1: int, y2: int, r: int)
    ensures
        (x1 + r * x2) * (y1 + r * y2) == x1 * y1 + r * (x1 * y2) + r * (x2 * y1) + (r * r) * (x2
            * y2),
{
    lemma_mul_is_distributive_add_other_way(y1 + r * y2, x1, r * x2);
    lemma_mul_is_distributive_add(x1, y1, r * y2);
    lemma_mul_is_distributive_add(r * x2, y1, r * y2);
    assert(x1 * (r * y2) == r * (x1 * y2)) by {
        lemma_mul_is_associative(x1, r, y2);
        lemma_mul_is_commutative(x1, r);
        lemma_mul_is_associative(r, x1, y2);
    };
    assert((r * x2) * y1 == r * (x2 * y1)) by {
        lemma_mul_is_associative(r, x2, y1);
    };
    assert((r * x2) * (r * y2) == (r * r) * (x2 * y2)) by {
        lemma_mul_is_associative(r * x2, r, y2);
        lemma_mul_is_associative(r, x2, r);
        lemma_mul_is_commutative(x2, r);
        lemma_mul_is_associative(r, r, x2);
        lemma_mul_is_associative(r * r, x2, y2);
    };
}

/// The integer-level ring identity behind folding: the product of the two
/// combined rows equals the combined right-hand side plus the two
/// satisfaction defects, weighted by one and by the squared challenge.
proof fn lemma_fold_int_identity(
    a1: int,
    b1: int,
    c1: int,
    e1: int,
    u1: int,
    a2: int,
    b2: int,
    c2: int,
    e2: int,
    u2: int,
    r: int,
)
    ensures
        (a1 + r * a2) * (b1 + r * b2) == (e1 + r * (a1 * b2 + a2 * b1 - u1 * c2 - u2 * c1) + (r
            * r) * e2 + (u1 + r * u2) * (c1 + r * c2)) + (a1 * b1 - (e1 + u1 * c1)) + (r * r) * (a2
            * b2 - (e2 + u2 * c2)),
{
    lemma_binomial(a1, a2, b1, b2, r);
    lemma_binomial(u1, u2, c1, c2, r);
    assert(r * (a1 * b2 + a2 * b1 - u1 * c2 - u2 * c1) == r * (a1 * b2) + r * (a2 * b1) - r * (u1
        * c2) - r * (u2 * c1)) by {
        lemma_mul_is_distributive_sub(r, a1 * b2 + a2 * b1 - u1 * c2, u2 * c1);
        lemma_mul_is_distributive_sub(r, a1 * b2 + a2 * b1, u1 * c2);
        lemma_mul_is_distributive_add(r, a1 * b2, a2 * b1);
    };
    assert((r * r) * (a2 * b2 - (e2 + u2 * c2)) == (r * r) * (a2 * b2) - (r * r) * e2 - (r * r)
        * (u2 * c2)) by {
        lemma_mul_is_distributive_sub(r * r, a2 * b2, e2 + u2 * c2);
        lemma_mul_is_distributive_add(r * r, e2, u2 * c2);
    };
}

/// Folding exactness, one row at a time: if both rows satisfy the relaxed
/// relation `a * b = e + u * c`, then the random linear combination of the
/// rows satisfies it with the folded error `e1 + r * t + r^2 * e2`, where
/// `t` is the cross term, and the folded scalar `u1 + r * u2`.
pub proof fn lemma_fold_pointwise(
    a1: int,
    b1: int,
    c1: int,
    e1: int,
    u1: int,
    a2: int,
    b2: int,
    c2: int,
    e2: int,
    u2: int,
    r: int,
)
    requires
        in_field(a1),
        in_field(b1),
        in_field(c1),
        in_field(e1),
        in_field(u1),
        in_field(a2),
        in_field(b2),
        in_field(c2),
        in_field(e2),
        in_field(u2),
        in_field(r),
        fmul(a1, b1) == fadd(e1, fmul(u1, c1)),
        fmul(a2, b2) == fadd(e2, fmul(u2, c2)),
    ensures
        fmul(fadd(a1, fmul(r, a2)), fadd(b1, fmul(r, b2))) == fadd(
            fadd(fadd(e1, fmul(r, fcross(a1, b1, a2, b2, c1, c2, u1, u2))), fmul(fmul(r, r), e2)),
            fmul(fadd(u1, fmul(r, u2)), fadd(c1, fmul(r, c2))),
        ),
{
    let m = fmod();
    lemma_in_field_mod(a1);
    lemma_in_field_mod(b1);
    lemma_in_field_mod(c1);
    lemma_in_field_mod(e1);
    lemma_in_field_mod(u1);
    lemma_in_field_mod(a2);
    lemma_in_field_mod(b2);
    lemma_in_field_mod(c2);
    lemma_in_field_mod(e2);
    lemma_in_field_mod(u2);
    lemma_in_field_mod(r);
    let p = a1 * b2 + a2 * b1 - u1 * c2 - u2 * c1;
    assert(fmul(fadd(a1, fmul(r, a2)), fadd(b1, fmul(r, b2))) == ((a1 + r * a2) * (b1 + r * b2))
        % m) by {
        lemma_fmul_int(r, a2);
        lemma_fadd_int(a1, r * a2);
        lemma_fmul_int(r, b2);
        lemma_fadd_int(b1, r * b2);
        lemma_fmul_int(a1 + r * a2, b1 + r * b2);
    };
    assert(fcross(a1, b1, a2, b2, c1, c2, u1, u2) == p % m) by {
        lemma_fadd_int(a1 * b2, a2 * b1);
        lemma_fsub_int(a1 * b2 + a2 * b1, u1 * c2);
        lemma_fsub_int(a1 * b2 + a2 * b1 - u1 * c2, u2 * c1);
    };
    let y = e1 + r * p + (r * r) * e2 + (u1 + r * u2) * (c1 + r * c2);
    assert(fadd(
        fadd(fadd(e1, fmul(r, fcross(a1, b1, a2, b2, c1, c2, u1, u2))), fmul(fmul(r, r), e2)),
        fmul(fadd(u1, fmul(r, u2)), fadd(c1, fmul(r, c2))),
    ) == y % m) by {
        lemma_fmul_int(r, p);
        lemma_fadd_int(e1, r * p);
        lemma_fmul_int(r * r, e2);
        lemma_fadd_int(e1 + r * p, (r * r) * e2);
        lemma_fmul_int(r, u2);
        lemma_fadd_int(u1, r * u2);
        lemma_fmul_int(r, c2);
        lemma_fadd_int(c1, r * c2);
        lemma_fmul_int(u1 + r * u2, c1 + r * c2);
        lemma_fadd_int(e1 + r * p + (r * r) * e2, (u1 + r * u2) * (c1 + r * c2));
    };
    let d1 = a1 * b1 - (e1 + u1 * c1);
    let d2 = a2 * b2 - (e2 + u2 * c2);
    assert(d1 % m == 0 && d2 % m == 0) by {
        lemma_fadd_int(e1, u1 * c1);
        lemma_fadd_int(e2, u2 * c2);
        lemma_sub_mod_noop(a1 * b1, e1 + u1 * c1, m);
        lemma_sub_mod_noop(a2 * b2, e2 + u2 * c2, m);
        lemma_small_mod(0, m as nat);
    };
    lemma_fold_int_identity(a1, b1, c1, e1, u1, a2, b2, c2, e2, u2, r);
    assert((y + d1 + (r * r) * d2) % m == y % m) by {
        assert(((r * r) * d2) % m == 0) by {
            lemma_mul_mod_noop_right(r * r, d2, m);
            lemma_small_mod(0, m as nat);
        };
        assert((y + d1) % m == y % m) by {
            lemma_add_mod_noop(y, d1, m);
            lemma_mod_twice(y, m);
            lemma_small_mod(0, m as nat);
        };
        lemma_add_mod_noop(y + d1, (r * r) * d2, m);
        lemma_mod_twice(y + d1, m);
    };
}

/// Field operations return reduced residues.
pub proof fn lemma_f_ops_in_field(a: int, b: int)
    ensures
        in_field(fadd(a, b)),
        in_field(fsub(a, b)),
        in_field(fmul(a, b)),
{
    lemma_mod_bound(a + b, fmod());
    lemma_mod_bound(a - b, fmod());
    lemma_mod_bound(a * b, fmod());
}

} // verus!
