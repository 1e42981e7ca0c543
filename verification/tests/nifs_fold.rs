use ark_ff::PrimeField;
use ark_std::UniformRand;
use nifs::field::Scalar;
use nifs::nifs::NIFS;
use nifs::nova::Witness;
use nifs::pedersen::Pedersen;
use nifs::r1cs::{
    dense_matrix_to_sparse, hadamard, scalar_mul_vec, to_f_matrix, to_f_vec, vec_add_vec,
    vec_mul_matrix, R1CS,
};
use nifs::transcript::PoseidonTranscript;

fn get_test_r1cs() -> R1CS {
    // x^3 + x + 5 = y, with z = (1, x, y, z1, z2, z3)
    let a = dense_matrix_to_sparse(to_f_matrix(vec![
        vec![0, 1, 0, 0, 0, 0],
        vec![0, 0, 0, 1, 0, 0],
        vec![0, 1, 0, 0, 1, 0],
        vec![5, 0, 0, 0, 0, 1],
    ]));
    let b = dense_matrix_to_sparse(to_f_matrix(vec![
        vec![0, 1, 0, 0, 0, 0],
        vec![0, 1, 0, 0, 0, 0],
        vec![1, 0, 0, 0, 0, 0],
        vec![1, 0, 0, 0, 0, 0],
    ]));
    let c = dense_matrix_to_sparse(to_f_matrix(vec![
        vec![0, 0, 0, 1, 0, 0],
        vec![0, 0, 0, 0, 1, 0],
        vec![0, 0, 0, 0, 0, 1],
        vec![0, 0, 1, 0, 0, 0],
    ]));
    R1CS { l: 1, a, b, c }
}

fn get_test_z(input: usize) -> Vec<Scalar> {
    to_f_vec(vec![
        1,
        input,
        input * input * input + input + 5,
        input * input,
        input * input * input,
        input * input * input + input,
    ])
}

fn rand_scalar(rng: &mut rand::rngs::StdRng) -> Scalar {
    let f = ark_pallas::Fr::rand(rng);
    Scalar { limbs: f.into_bigint().0 }
}

fn check_relaxed_r1cs(r1cs: &R1CS, z: Vec<Scalar>, u: Scalar, e: &Vec<Scalar>) {
    let az = vec_mul_matrix(&z, &r1cs.a);
    let bz = vec_mul_matrix(&z, &r1cs.b);
    let cz = vec_mul_matrix(&z, &r1cs.c);
    assert!(hadamard(&az, &bz) == vec_add_vec(e, &scalar_mul_vec(u, &cz)));
}

#[test]
fn test_nifs_fold_one() {
    let r1cs = get_test_r1cs();
    let z1 = get_test_z(3);
    let z2 = get_test_z(4);
    let (w1, x1) = r1cs.split_z(&z1);
    let (w2, x2) = r1cs.split_z(&z2);
    let w1 = Witness::new(w1.clone(), r1cs.a.n_rows);
    let w2 = Witness::new(w2.clone(), r1cs.a.n_rows);

    let mut rng = nifs::point::rng_from_seed(0);
    let params = Pedersen::new_params(&mut rng, r1cs.a.n_cols);

    let r = rand_scalar(&mut rng);
    let ci1 = w1.commit(&params, x1);
    let ci2 = w2.commit(&params, x2);

    let (w, _, t, cm_t) = NIFS::prove(&params, r, &r1cs, &w1, &ci1, &w2, &ci2);
    let ci = NIFS::verify(r, &ci1, &ci2, &cm_t);

    let z = [vec![ci.u], ci.x.to_vec(), w.w.to_vec()].concat();
    let z_aux = vec_add_vec(&z1, &scalar_mul_vec(r, &z2));
    assert_eq!(z, z_aux);

    check_relaxed_r1cs(&r1cs, z1, ci1.u, &w1.e);
    check_relaxed_r1cs(&r1cs, z2, ci2.u, &w2.e);
    check_relaxed_r1cs(&r1cs, z, ci.u, &w.e);

    let ci_expected = w.commit(&params, ci.x.clone());
    assert_eq!(ci_expected.cm_e, ci.cm_e);
    assert!(NIFS::verify_fold_instance(r, &ci, &ci1, &ci2, &cm_t));

    let mut ts_prove = PoseidonTranscript::new();
    let mut ts_verify = PoseidonTranscript::new();
    let (cm_t_proof, cm_w_proof, cm_e_proof) =
        NIFS::prove_commitments(&mut ts_prove, &params, &w, &ci, &t, &cm_t);
    let v = NIFS::verify_commitments(
        &mut ts_verify,
        &params,
        &ci,
        cm_t,
        cm_t_proof,
        cm_w_proof,
        cm_e_proof,
    );
    assert!(v);
}

#[test]
fn test_nifs_fold_loop() {
    let r1cs = get_test_r1cs();
    let mut z1 = get_test_z(3);
    let (w1, x1) = r1cs.split_z(&z1);

    let mut rng = nifs::point::rng_from_seed(0);
    let params = Pedersen::new_params(&mut rng, r1cs.a.n_cols);

    let mut w1 = Witness::new(w1.clone(), r1cs.a.n_rows);
    let mut ci1 = w1.commit(&params, x1);
    let mut t1 = Vec::new();
    let mut cm_t1 = ci1.cm_w.clone();
    check_relaxed_r1cs(&r1cs, z1.clone(), ci1.u, &w1.e);

    let n = 10;
    for i in 0..n {
        let z2 = get_test_z(i + 4);
        let (w2, x2) = r1cs.split_z(&z2);
        let w2 = Witness::new(w2.clone(), r1cs.a.n_rows);
        let ci2 = w2.commit(&params, x2);
        check_relaxed_r1cs(&r1cs, z2.clone(), ci2.u, &w2.e);

        let r = rand_scalar(&mut rng);
        let (w3, _, t, cm_t) = NIFS::prove(&params, r, &r1cs, &w1, &ci1, &w2, &ci2);
        let ci3 = NIFS::verify(r, &ci1, &ci2, &cm_t);

        let z3 = [vec![ci3.u], ci3.x.to_vec(), w3.w.to_vec()].concat();
        let z_aux = vec_add_vec(&z1, &scalar_mul_vec(r, &z2));
        assert_eq!(z3, z_aux);
        check_relaxed_r1cs(&r1cs, z3.clone(), ci3.u, &w3.e);

        let ci_expected = w3.commit(&params, ci3.x.clone());
        assert_eq!(ci_expected.cm_e, ci3.cm_e);
        assert!(NIFS::verify_fold_instance(r, &ci3, &ci1, &ci2, &cm_t));

        z1 = z3;
        w1 = w3;
        ci1 = ci3;
        cm_t1 = cm_t;
        t1 = t;
    }
    let mut ts_prove = PoseidonTranscript::new();
    let mut ts_verify = PoseidonTranscript::new();
    let (cm_t_proof, cm_w_proof, cm_e_proof) =
        NIFS::prove_commitments(&mut ts_prove, &params, &w1, &ci1, &t1, &cm_t1);
    let v = NIFS::verify_commitments(
        &mut ts_verify,
        &params,
        &ci1,
        cm_t1,
        cm_t_proof,
        cm_w_proof,
        cm_e_proof,
    );
    assert!(v);
}

#[test]
fn test_verify_fold_instance_rejects_corruption() {
    let r1cs = get_test_r1cs();
    let z1 = get_test_z(3);
    let z2 = get_test_z(4);
    let (w1, x1) = r1cs.split_z(&z1);
    let (w2, x2) = r1cs.split_z(&z2);
    let w1 = Witness::new(w1, r1cs.a.n_rows);
    let w2 = Witness::new(w2, r1cs.a.n_rows);
    let mut rng = nifs::point::rng_from_seed(0);
    let params = Pedersen::new_params(&mut rng, r1cs.a.n_cols);
    let r = rand_scalar(&mut rng);
    let ci1 = w1.commit(&params, x1);
    let ci2 = w2.commit(&params, x2);
    let (_, ci, _, cm_t) = NIFS::prove(&params, r, &r1cs, &w1, &ci1, &w2, &ci2);
    assert!(NIFS::verify_fold_instance(r, &ci, &ci1, &ci2, &cm_t));

    let one = Scalar::one();
    let mut bad = ci.clone();
    bad.u = bad.u.add_fp(&one);
    assert!(!NIFS::verify_fold_instance(r, &bad, &ci1, &ci2, &cm_t));

    let mut bad = ci.clone();
    bad.cm_e = ci.cm_w.clone();
    assert!(!NIFS::verify_fold_instance(r, &bad, &ci1, &ci2, &cm_t));

    let mut bad = ci.clone();
    bad.cm_w = ci.cm_e.clone();
    assert!(!NIFS::verify_fold_instance(r, &bad, &ci1, &ci2, &cm_t));

    let mut bad = ci.clone();
    bad.x[0] = bad.x[0].add_fp(&one);
    assert!(!NIFS::verify_fold_instance(r, &bad, &ci1, &ci2, &cm_t));
}
