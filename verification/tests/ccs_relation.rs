use nifs::ccs::{Error, CCS};
use nifs::field::Scalar;
use nifs::r1cs::{dense_matrix_to_sparse, to_f_matrix, to_f_vec, R1CS};

fn get_test_r1cs() -> R1CS {
    // x^3 + x + 5 = y, with z = (1, x, y, z1, z2, z3)
    let a = dense_matrix_to_sparse(to_f_matrix(vec![
        vec![0, 1, 0, 0, 0, 0],
        vec![0, 0, 0, 1, 0, 0],
        vec![0, 1, 0, 0, 1, 0],
        vec![5, 0, 0, 0, 0, 1],
    ]));
    let b = dense_matrix_to_sparse(to_f_matrix(vec![
        vec![0, 1, 0, 0, 0, 0],
        vec![0, 1, 0, 0, 0, 0],
        vec![1, 0, 0, 0, 0, 0],
        vec![1, 0, 0, 0, 0, 0],
    ]));
    let c = dense_matrix_to_sparse(to_f_matrix(vec![
        vec![0, 0, 0, 1, 0, 0],
        vec![0, 0, 0, 0, 1, 0],
        vec![0, 0, 0, 0, 0, 1],
        vec![0, 0, 1, 0, 0, 0],
    ]));
    R1CS { l: 1, a, b, c }
}

fn get_test_z(input: usize) -> Vec<Scalar> {
    to_f_vec(vec![
        1,
        input,
        input * input * input + input + 5,
        input * input,
        input * input * input,
        input * input * input + input,
    ])
}

#[test]
fn test_ccs() {
    let ccs = CCS::from_r1cs(get_test_r1cs());
    let z = get_test_z(2);
    ccs.is_satisfied(&z).unwrap();
}

#[test]
fn test_ccs_satisfied_x3() {
    let ccs = CCS::from_r1cs(get_test_r1cs());
    let z = get_test_z(3);
    assert!(ccs.is_satisfied(&z).is_ok());
}

#[test]
fn test_ccs_perturbed_entry_fails() {
    let ccs = CCS::from_r1cs(get_test_r1cs());
    let base = get_test_z(3);
    assert!(ccs.is_satisfied(&base).is_ok());
    let one = Scalar::one();
    for i in 0..base.len() {
        let mut z = base.clone();
        z[i] = z[i].add_fp(&one);
        assert_eq!(ccs.is_satisfied(&z), Err(Error::NotSatisfied));
    }
}

#[test]
fn test_from_r1cs_shape() {
    let ccs = CCS::from_r1cs(get_test_r1cs());
    assert_eq!(ccs.m, 4);
    assert_eq!(ccs.n, 6);
    assert_eq!(ccs.l, 1);
    assert_eq!(ccs.t, 3);
    assert_eq!(ccs.q, 2);
    assert_eq!(ccs.d, 2);
    assert_eq!(ccs.s, 2);
    assert_eq!(ccs.s_prime, 3);
    assert_eq!(ccs.s_vec, vec![vec![0, 1], vec![2]]);
    assert_eq!(ccs.v[0], Scalar::one());
    assert_eq!(ccs.v[1], Scalar::zero().sub_fp(&Scalar::one()));
}
