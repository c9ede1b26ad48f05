use ark_ff::{Field, PrimeField};
use ark_std::UniformRand;
use poseidon_hash::{
    absorb, ark, hash, linear_layer, pad, poseidon_permutation, sbox, squeeze, Constants,
    FieldElement, HashError, Scalar,
};

type ArkFr = ark_bls12_381::Fr;

fn to_scalar(x: ArkFr) -> Scalar {
    Scalar::from_limbs(x.into_bigint().0).unwrap()
}

fn small(values: &[u64]) -> Vec<Scalar> {
    values.iter().map(|v| Scalar::from_u64(*v)).collect()
}

fn limbs_of(v: &[Scalar]) -> Vec<[u64; 4]> {
    v.iter().map(|x| x.limbs()).collect()
}

fn identity(t: usize) -> Vec<Vec<Scalar>> {
    (0..t)
        .map(|i| (0..t).map(|j| Scalar::from_u64(if i == j { 1 } else { 0 })).collect())
        .collect()
}

/// A well-formed parameter set of width 5 with 8 full and 56 partial
/// rounds, whose constants and matrix entries are small distinct integers.
fn sample_constants() -> Constants<Scalar> {
    let t: usize = 5;
    let c: Vec<Scalar> = (0..(64 * t) as u64).map(|i| Scalar::from_u64(3 * i + 1)).collect();
    let m: Vec<Vec<Scalar>> = (0..t)
        .map(|i| (0..t).map(|j| Scalar::from_u64((i * t + j + 2) as u64)).collect())
        .collect();
    Constants::new(c, m, t, 56, 8, 5).unwrap()
}

#[test]
fn padd_test() {
    let state = small(&[1, 2, 3, 4, 5, 6, 7, 8]);
    let new_state = pad(&state, 3);
    assert_eq!(new_state.len(), 9);
}

#[test]
fn ark_test() {
    let mut rng = ark_std::test_rng();
    let t: usize = 5;
    let mut state: Vec<Scalar> = Vec::new();
    let mut c: Vec<Scalar> = Vec::new();
    let mut result: Vec<[u64; 4]> = Vec::new();
    for _ in 0..t {
        let s = ArkFr::rand(&mut rng);
        let k = ArkFr::rand(&mut rng);
        state.push(to_scalar(s));
        c.push(to_scalar(k));
        result.push((s + k).into_bigint().0);
    }
    let constants = Constants { c, m: identity(t), t, partial_rounds: 56, full_rounds: 8, alpha: 5 };
    ark(&mut state, &constants, 0);
    assert_eq!(limbs_of(&state), result);
}

#[test]
fn scalar_arithmetic_matches_small_integers() {
    let a = Scalar::from_u64(2);
    let b = Scalar::from_u64(3);
    assert_eq!(a.add(&b).limbs(), [5, 0, 0, 0]);
    assert_eq!(a.mul(&b).limbs(), [6, 0, 0, 0]);
    assert_eq!(a.pow(5).limbs(), [32, 0, 0, 0]);
    assert_eq!(b.pow(0).limbs(), [1, 0, 0, 0]);
    assert_eq!(Scalar::zero().limbs(), [0, 0, 0, 0]);
}

#[test]
fn scalar_arithmetic_wraps_at_the_modulus() {
    let p_minus_one = [0xffff_ffff_0000_0000, 0x53bd_a402_fffe_5bfe, 0x3339_d808_09a1_d805, 0x73ed_a753_299d_7d48];
    let top = Scalar::from_limbs(p_minus_one).unwrap();
    assert_eq!(top.add(&Scalar::from_u64(1)).limbs(), [0, 0, 0, 0]);
    assert_eq!(top.add(&Scalar::from_u64(5)).limbs(), [4, 0, 0, 0]);
    assert_eq!(top.mul(&top).limbs(), [1, 0, 0, 0]);
    let mut rng = ark_std::test_rng();
    let x = ArkFr::rand(&mut rng);
    let y = ArkFr::rand(&mut rng);
    assert_eq!(to_scalar(x).mul(&to_scalar(y)).limbs(), (x * y).into_bigint().0);
    assert_eq!(to_scalar(x).pow(5).limbs(), x.pow([5u64]).into_bigint().0);
}

#[test]
fn from_limbs_rejects_the_modulus() {
    let p = [0xffff_ffff_0000_0001, 0x53bd_a402_fffe_5bfe, 0x3339_d808_09a1_d805, 0x73ed_a753_299d_7d48];
    assert!(Scalar::from_limbs(p).is_none());
    assert!(Scalar::from_limbs([u64::MAX; 4]).is_none());
    assert_eq!(Scalar::from_limbs([7, 0, 0, 0]).unwrap().limbs(), [7, 0, 0, 0]);
}

#[test]
fn pad_of_a_multiple_appends_nothing() {
    let input = small(&[1, 2, 3, 4, 5, 6]);
    let padded = pad(&input, 3);
    assert_eq!(limbs_of(&padded), limbs_of(&input));
}

#[test]
fn pad_appends_rate_minus_remainder_zeros() {
    let input = small(&[9, 8, 7, 6, 5, 4, 3]);
    let padded = pad(&input, 5);
    assert_eq!(padded.len(), 10);
    assert_eq!(limbs_of(&padded[..7]), limbs_of(&input));
    for x in &padded[7..] {
        assert_eq!(x.limbs(), [0, 0, 0, 0]);
    }
    assert_eq!(pad(&Vec::<Scalar>::new(), 4).len(), 0);
}

#[test]
fn sbox_window_with_eight_full_and_fifty_six_partial_rounds() {
    let constants = sample_constants();
    let start = small(&[2, 3, 4, 5, 6]);
    let full = small(&[32, 243, 1024, 3125, 7776]);
    let partial = small(&[32, 3, 4, 5, 6]);
    for round in [0usize, 3, 4, 30, 59, 60, 63] {
        let mut state = start.clone();
        sbox(&mut state, &constants, round);
        let expected = if (4..60).contains(&round) { &partial } else { &full };
        assert_eq!(limbs_of(&state), limbs_of(expected), "round {}", round);
    }
}

#[test]
fn linear_layer_multiplies_by_the_matrix() {
    let constants = Constants::new(
        small(&[0, 0]),
        vec![small(&[1, 2]), small(&[3, 4])],
        2,
        0,
        1,
        5,
    )
    .unwrap();
    let mut state = small(&[5, 6]);
    linear_layer(&mut state, &constants);
    assert_eq!(limbs_of(&state), limbs_of(&small(&[17, 39])));
}

#[test]
fn one_round_identity_matrix_absorb() {
    let constants = Constants::new(small(&[2, 3]), identity(2), 2, 0, 1, 5).unwrap();
    let state = absorb(&small(&[0]), &constants, 1);
    assert_eq!(limbs_of(&state), limbs_of(&small(&[32, 243])));

    let mut rng = ark_std::test_rng();
    let c0 = ArkFr::rand(&mut rng);
    let c1 = ArkFr::rand(&mut rng);
    let constants = Constants::new(vec![to_scalar(c0), to_scalar(c1)], identity(2), 2, 0, 1, 5).unwrap();
    let state = absorb(&small(&[0]), &constants, 1);
    let expected = vec![c0.pow([5u64]).into_bigint().0, c1.pow([5u64]).into_bigint().0];
    assert_eq!(limbs_of(&state), expected);
}

#[test]
fn permutation_of_zero_state_in_one_round() {
    let constants = Constants::new(small(&[2, 3]), identity(2), 2, 0, 1, 5).unwrap();
    let mut state = small(&[0, 0]);
    poseidon_permutation(&mut state, &constants);
    assert_eq!(limbs_of(&state), limbs_of(&small(&[32, 243])));
}

#[test]
fn hash_is_deterministic() {
    let constants = sample_constants();
    let input = small(&(1..=100).collect::<Vec<u64>>());
    let a = hash(&input, &constants, 3, 3).unwrap();
    let b = hash(&input, &constants, 3, 3).unwrap();
    assert_eq!(limbs_of(&a), limbs_of(&b));
    assert_eq!(a.len(), 3);
}

#[test]
fn hash_equals_absorb_then_squeeze() {
    let constants = sample_constants();
    let input = small(&[4, 5, 6, 7]);
    let mut state = absorb(&input, &constants, 2);
    let expected = squeeze(&mut state, &constants, 4, 2);
    let out = hash(&input, &constants, 4, 2).unwrap();
    assert_eq!(limbs_of(&out), limbs_of(&expected));
}

#[test]
fn squeeze_output_lengths() {
    let constants = sample_constants();
    let base = absorb(&small(&[1, 2, 3]), &constants, 3);
    for (requested, rate, kept) in [(1u32, 3usize, 1usize), (3, 3, 3), (4, 3, 4), (5, 2, 5), (7, 3, 7), (2, 3, 2), (1, 1, 1)] {
        let mut state = base.clone();
        let out = squeeze(&mut state, &constants, requested, rate);
        assert_eq!(out.len(), kept, "requested {} at rate {}", requested, rate);
    }
}

#[test]
fn squeeze_takes_rate_slots_then_permutes() {
    let constants = sample_constants();
    let start = absorb(&small(&[1, 2, 3]), &constants, 3);
    let mut state = start.clone();
    let out = squeeze(&mut state, &constants, 5, 3);
    let mut expected_state = start.clone();
    let mut expected: Vec<[u64; 4]> = limbs_of(&expected_state[..3]);
    poseidon_permutation(&mut expected_state, &constants);
    expected.extend(limbs_of(&expected_state[..3]));
    poseidon_permutation(&mut expected_state, &constants);
    expected.truncate(5);
    assert_eq!(limbs_of(&out), expected);
    assert_eq!(limbs_of(&state), limbs_of(&expected_state));
}

#[test]
fn hash_rejects_malformed_parameters() {
    let mut constants = sample_constants();
    constants.c.pop();
    assert_eq!(hash(&small(&[1]), &constants, 1, 1).unwrap_err(), HashError::MalformedParameters);
    let mut constants = sample_constants();
    constants.m[2].pop();
    assert_eq!(hash(&small(&[1]), &constants, 1, 1).unwrap_err(), HashError::MalformedParameters);
}

#[test]
fn hash_rejects_bad_rate_and_length() {
    let constants = sample_constants();
    let input = small(&[1, 2]);
    assert_eq!(hash(&input, &constants, 1, 0).unwrap_err(), HashError::InvalidRate);
    assert_eq!(hash(&input, &constants, 1, 6).unwrap_err(), HashError::InvalidRate);
    assert_eq!(hash(&input, &constants, 0, 2).unwrap_err(), HashError::InvalidOutputLength);
    assert_eq!(hash(&input, &constants, 1, 5).unwrap().len(), 1);
}

#[test]
fn constants_new_validates_shape() {
    assert!(Constants::new(small(&[1, 2, 3]), identity(2), 2, 0, 1, 5).is_err());
    assert!(Constants::new(small(&[1, 2]), identity(3), 2, 0, 1, 5).is_err());
    assert!(Constants::<Scalar>::new(Vec::new(), Vec::new(), 0, 0, 0, 5).is_err());
    assert_eq!(
        Constants::new(small(&[1, 2]), vec![small(&[1, 0]), small(&[0])], 2, 0, 1, 5).unwrap_err(),
        HashError::MalformedParameters
    );
    assert!(Constants::new(small(&[1, 2]), identity(2), 2, 0, 1, 5).is_ok());
}
