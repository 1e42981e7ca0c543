use ark_ff::PrimeField;
use ark_std::UniformRand;
use nifs::field::Scalar;
use nifs::pedersen::Pedersen;
use nifs::transcript::PoseidonTranscript;

fn rand_scalar(rng: &mut rand::rngs::StdRng) -> Scalar {
    let f = ark_pallas::Fr::rand(rng);
    Scalar { limbs: f.into_bigint().0 }
}

#[test]
fn test_pedersen_vec() {
    let mut rng = nifs::point::rng_from_seed(0);
    let max: usize = 10;
    let params = Pedersen::new_params(&mut rng, max);

    let mut ts_prove = PoseidonTranscript::new();
    let mut ts_verify = PoseidonTranscript::new();
    let v = vec![rand_scalar(&mut rng); max];
    let r = rand_scalar(&mut rng);
    let cm = Pedersen::commit(&r, &params, &v);
    let proof = Pedersen::prove(&cm, &v, &r, &params, &mut ts_prove);
    let verify = Pedersen::verify(cm, proof, &params, &mut ts_verify);
    assert!(verify);
}

#[test]
fn test_pedersen_rejects_tampered_proof() {
    let mut rng = nifs::point::rng_from_seed(0);
    let max: usize = 10;
    let params = Pedersen::new_params(&mut rng, max);
    let v: Vec<Scalar> = (0..max).map(|_| rand_scalar(&mut rng)).collect();
    let r = rand_scalar(&mut rng);
    let cm = Pedersen::commit(&r, &params, &v);
    let one = Scalar::one();

    let mut ts_prove = PoseidonTranscript::new();
    let proof = Pedersen::prove(&cm, &v, &r, &params, &mut ts_prove);

    let mut bad = proof.clone();
    bad.r_u = bad.r_u.add_fp(&one);
    let mut ts = PoseidonTranscript::new();
    assert!(!Pedersen::verify(cm.clone(), bad, &params, &mut ts));

    let mut bad = proof.clone();
    bad.u[0] = bad.u[0].add_fp(&one);
    let mut ts = PoseidonTranscript::new();
    assert!(!Pedersen::verify(cm.clone(), bad, &params, &mut ts));

    // a desynchronized transcript also breaks verification
    let mut ts = PoseidonTranscript::new();
    ts.absorb(&one);
    assert!(!Pedersen::verify(cm, proof, &params, &mut ts));
}

#[test]
fn test_pedersen_proofs_are_deterministic() {
    let mut rng = nifs::point::rng_from_seed(0);
    let max: usize = 8;
    let params = Pedersen::new_params(&mut rng, max);
    let v: Vec<Scalar> = (0..max).map(|_| rand_scalar(&mut rng)).collect();
    let r = rand_scalar(&mut rng);
    let cm = Pedersen::commit(&r, &params, &v);
    let mut ts1 = PoseidonTranscript::new();
    let mut ts2 = PoseidonTranscript::new();
    let p1 = Pedersen::prove(&cm, &v, &r, &params, &mut ts1);
    let p2 = Pedersen::prove(&cm, &v, &r, &params, &mut ts2);
    assert_eq!(p1, p2);
}

#[test]
fn test_scalar_arithmetic_exact() {
    let three = Scalar::from_u64(3);
    let five = Scalar::from_u64(5);
    assert_eq!(three.add_fp(&five), Scalar::from_u64(8));
    assert_eq!(three.mul_fp(&five), Scalar::from_u64(15));
    assert_eq!(five.sub_fp(&three), Scalar::from_u64(2));
    // the additive inverse wraps to the modulus minus one and cancels
    let minus_one = Scalar::one().neg_fp();
    assert_ne!(minus_one, Scalar::one());
    assert_eq!(minus_one.add_fp(&Scalar::one()), Scalar::zero());
    // reduction of the modulus itself yields zero
    let modulus_limbs: [u64; 4] = [
        0x8C46EB2100000001,
        0x224698FC0994A8DD,
        0x0000000000000000,
        0x4000000000000000,
    ];
    assert_eq!(nifs::field::fp_from_limbs_mod_order(&modulus_limbs), Scalar::zero());
}
