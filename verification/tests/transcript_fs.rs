use nifs::field::Scalar;
use nifs::transcript::PoseidonTranscript;

#[test]
fn test_transcript_challenge() {
    let mut tr = PoseidonTranscript::new();
    tr.absorb(&Scalar::from_u64(42));
    let _c = tr.get_challenge();
}

#[test]
fn test_transcript_deterministic_challenges() {
    let mut t1 = PoseidonTranscript::new();
    let mut t2 = PoseidonTranscript::new();
    for i in 0..5u64 {
        t1.absorb(&Scalar::from_u64(i * 7 + 1));
        t2.absorb(&Scalar::from_u64(i * 7 + 1));
    }
    let v = vec![Scalar::from_u64(9), Scalar::from_u64(11)];
    t1.absorb_vec(&v);
    t2.absorb_vec(&v);
    let c1 = t1.get_challenge();
    let c2 = t2.get_challenge();
    assert_eq!(c1, c2);
    let m1 = t1.get_challenges(3);
    let m2 = t2.get_challenges(3);
    assert_eq!(m1, m2);
}

#[test]
fn test_transcript_state_evolves() {
    let mut tr = PoseidonTranscript::new();
    tr.absorb(&Scalar::from_u64(1));
    let c1 = tr.get_challenge();
    let c2 = tr.get_challenge();
    assert_ne!(c1, c2);
}

#[test]
fn test_transcript_diverges_on_different_absorbs() {
    let mut t1 = PoseidonTranscript::new();
    let mut t2 = PoseidonTranscript::new();
    t1.absorb(&Scalar::from_u64(1));
    t2.absorb(&Scalar::from_u64(2));
    assert_ne!(t1.get_challenge(), t2.get_challenge());
}
