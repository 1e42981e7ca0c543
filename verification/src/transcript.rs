//! The Fiat-Shamir transcript over a Poseidon sponge. The sponge state is
//! modelled by the sequence of events it went through: each absorb records
//! the absorbed field elements, each squeeze records how many elements
//! came out. The squeezed values are a deterministic function of the event
//! history, named by an uninterpreted function; every challenge draw
//! re-absorbs the produced elements, so the history evolves with each call.

use vstd::prelude::*;
use crate::field::{fmod, Scalar, fp_from_limbs_mod_order, limbs_val};
use crate::point::Point;
use crate::r1cs::{vals, vec_wf};
use ark_crypto_primitives::sponge::poseidon::{
    find_poseidon_ark_and_mds, PoseidonConfig, PoseidonSponge,
};
use ark_crypto_primitives::sponge::CryptographicSponge;
use ark_ff::PrimeField;

verus! {

/// One absorb event: the marker zero followed by the absorbed elements.
pub open spec fn ev_absorb(elems: Seq<int>) -> Seq<int> {
    seq![0int] + elems
}

/// One squeeze event: the marker one and the number of squeezed elements.
pub open spec fn ev_squeeze(n: int) -> Seq<int> {
    seq![1int, n]
}

/// The elements squeezed out of a sponge that went through the given event
/// history, when asked for `n` elements. The Poseidon permutation is fixed
/// by the scheme's parameters, so the output depends on the history alone.
pub uninterp spec fn squeeze_of(hist: Seq<Seq<int>>, n: int) -> Seq<int>;

/// The first element squeezed after the given history.
pub open spec fn challenge1(hist: Seq<Seq<int>>) -> int {
    squeeze_of(hist, 1)[0]
}

/// The history after absorbing the given elements.
pub open spec fn ts_after_absorb(hist: Seq<Seq<int>>, elems: Seq<int>) -> Seq<Seq<int>> {
    hist.push(ev_absorb(elems))
}

/// The history after drawing `n` challenges: the squeeze, then the
/// re-absorption of the squeezed elements.
pub open spec fn ts_after_challenges(hist: Seq<Seq<int>>, n: int) -> Seq<Seq<int>> {
    hist.push(ev_squeeze(n)).push(ev_absorb(squeeze_of(hist, n)))
}

/// The two scalar-field elements a point contributes when absorbed: its
/// affine coordinates reduced into the scalar field.
pub open spec fn point_absorb_elems(enc: Seq<int>) -> Seq<int> {
    seq![enc[0] % fmod(), enc[1] % fmod()]
}

/// A Fiat-Shamir transcript backed by a Poseidon sponge over the Pallas
/// scalar field, with the event history carried alongside as ghost state.
pub struct PoseidonTranscript {
    pub sponge: SpongeBox,
    pub ops: Ghost<Seq<Seq<int>>>,
}

/// The Poseidon sponge itself, opaque to the verifier; its behaviour is
/// captured by the event-history contracts of the transcript methods.
#[verifier::external_body]
pub struct SpongeBox {
    sponge: PoseidonSponge<ark_pallas::Fr>,
}

impl PoseidonTranscript {
    /// A fresh transcript: a sponge with the scheme's fixed parameters and
    /// an empty event history.
    pub fn new() -> (r: PoseidonTranscript)
        ensures
            r.ops@ == Seq::<Seq<int>>::empty(),
    {
        PoseidonTranscript { sponge: sponge_new(), ops: Ghost(Seq::empty()) }
    }

    /// Relies on `PoseidonSponge::absorb` for one native field element:
    /// records one absorb event with that element.
    #[verifier::external_body]
    pub fn absorb(&mut self, v: &Scalar)
        requires
            v.wf(),
        ensures
            final(self).ops@ == old(self).ops@.push(ev_absorb(seq![v.val()])),
    {
        let f = ark_pallas::Fr::from_bigint(ark_ff::BigInt(v.limbs)).unwrap();
        self.sponge.sponge.absorb(&f);
    }

    /// Relies on `PoseidonSponge::absorb` for a slice of native field
    /// elements: records one absorb event with those elements in order.
    #[verifier::external_body]
    pub fn absorb_vec(&mut self, v: &Vec<Scalar>)
        requires
            vec_wf(v@),
        ensures
            final(self).ops@ == old(self).ops@.push(ev_absorb(vals(v@))),
    {
        let fs: Vec<ark_pallas::Fr> =
            v.iter().map(|s| ark_pallas::Fr::from_bigint(ark_ff::BigInt(s.limbs)).unwrap()).collect();
        self.sponge.sponge.absorb(&fs.as_slice());
    }

    /// Relies on `CryptographicSponge::squeeze_field_elements` and
    /// `absorb`: squeezes `n` native field elements, re-absorbs them, and
    /// returns them in canonical form.
    #[verifier::external_body]
    fn squeeze_absorb(&mut self, n: usize) -> (r: Vec<Scalar>)
        ensures
            r@.len() == n,
            vec_wf(r@),
            vals(r@) == squeeze_of(old(self).ops@, n as int),
            final(self).ops@ == ts_after_challenges(old(self).ops@, n as int),
    {
        let c: Vec<ark_pallas::Fr> = self.sponge.sponge.squeeze_field_elements(n);
        self.sponge.sponge.absorb(&c.as_slice());
        c.iter().map(|f| Scalar { limbs: f.into_bigint().0 }).collect()
    }

    /// Draws one challenge: squeezes one element and re-absorbs it.
    pub fn get_challenge(&mut self) -> (c: Scalar)
        ensures
            c.wf(),
            c.val() == challenge1(old(self).ops@),
            final(self).ops@ == ts_after_challenges(old(self).ops@, 1),
    {
        let v = self.squeeze_absorb(1);
        v[0]
    }

    /// Draws `n` challenges: squeezes `n` elements and re-absorbs them.
    pub fn get_challenges(&mut self, n: usize) -> (c: Vec<Scalar>)
        ensures
            c@.len() == n,
            vec_wf(c@),
            vals(c@) == squeeze_of(old(self).ops@, n as int),
            final(self).ops@ == ts_after_challenges(old(self).ops@, n as int),
    {
        self.squeeze_absorb(n)
    }

    /// Absorbs a point by its two affine coordinates, each reduced into
    /// the scalar field; the identity contributes two zeros.
    pub fn absorb_point(&mut self, p: &Point)
        requires
            p.wf(),
        ensures
            final(self).ops@ == ts_after_absorb(old(self).ops@, point_absorb_elems(p.encoding())),
    {
        let fx = fp_from_limbs_mod_order(&p.x);
        let fy = fp_from_limbs_mod_order(&p.y);
        let mut v: Vec<Scalar> = Vec::new();
        v.push(fx);
        v.push(fy);
        proof {
            assert(vals(v@) =~= point_absorb_elems(p.encoding()));
        }
        self.absorb_vec(&v);
    }
}

/// Relies on `PoseidonSponge::new` with the scheme's fixed parameters:
/// rate 2, capacity 1, 8 full and 31 partial rounds, alpha 5, and the
/// round matrices derived deterministically by `find_poseidon_ark_and_mds`
/// for the 255-bit Pallas scalar field. Every transcript is seeded with
/// this one configuration, so squeezed elements depend on the absorb and
/// squeeze history alone.
#[verifier::external_body]
fn sponge_new() -> (r: SpongeBox) {
    let (ark, mds) = find_poseidon_ark_and_mds(ark_pallas::Fr::MODULUS_BIT_SIZE as u64, 2, 8, 31, 0);
    let config = PoseidonConfig::new(8, 31, 5, mds, ark, 2, 1);
    SpongeBox { sponge: PoseidonSponge::new(&config) }
}

/// Determinism of the transcript: two transcripts that went through the
/// same event history yield the same challenges, in the same order.
pub proof fn lemma_transcript_deterministic(t1: PoseidonTranscript, t2: PoseidonTranscript, n: int)
    requires
        t1.ops@ == t2.ops@,
    ensures
        squeeze_of(t1.ops@, n) == squeeze_of(t2.ops@, n),
        ts_after_challenges(t1.ops@, n) == ts_after_challenges(t2.ops@, n),
{
}

} // verus!
