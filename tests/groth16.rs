use bellperson::groth16::{generate_random_parameters, Parameters as BellParameters};
use bellperson::{Circuit as BellCircuit, ConstraintSystem, SynthesisError as BellError};
use fff::{Field, PrimeField};
use groupy::{CurveAffine, EncodedPoint};
use paired::bls12_381::{Bls12, Fr};
use rand_core::SeedableRng;
use rand_xorshift::XorShiftRng;

use groth_batch::circuit::{Circuit, Constraint};
use groth_batch::compound::{
    batch_verify, prove, setup, verify, verify_each, ChallengeRequirements, CompoundError, MultiProof,
    PublicInputs, SetupParams, VanillaParams, PROOF_LEN,
};
use groth_batch::error::SynthesisError;
use groth_batch::field::Scalar;
use groth_batch::lc::{LinearCombination, Variable};
use groth_batch::prover::{create_proof_batch_priority, Parameters, VerifyingKey};

/// The circuit `x * x = y` with `y` public, for the parameter generator.
struct Square {
    x: Option<u64>,
}

impl BellCircuit<Bls12> for Square {
    fn synthesize<CS: ConstraintSystem<Bls12>>(self, cs: &mut CS) -> Result<(), BellError> {
        let x_val = self.x.map(|v| Fr::from_str(&v.to_string()).unwrap());
        let y_val = x_val.map(|mut v| {
            v.square();
            v
        });
        let y = cs.alloc_input(|| "y", || y_val.ok_or(BellError::AssignmentMissing))?;
        let x = cs.alloc(|| "x", || x_val.ok_or(BellError::AssignmentMissing))?;
        cs.enforce(|| "square", |lc| lc + x, |lc| lc + x, |lc| lc + y);
        Ok(())
    }
}

fn point_bytes<G: CurveAffine>(p: &G) -> Vec<u8> {
    p.into_compressed().as_ref().to_vec()
}

fn to_params(p: &BellParameters<Bls12>) -> Parameters {
    Parameters {
        vk: VerifyingKey {
            alpha_g1: point_bytes(&p.vk.alpha_g1),
            beta_g1: point_bytes(&p.vk.beta_g1),
            beta_g2: point_bytes(&p.vk.beta_g2),
            gamma_g2: point_bytes(&p.vk.gamma_g2),
            delta_g1: point_bytes(&p.vk.delta_g1),
            delta_g2: point_bytes(&p.vk.delta_g2),
            ic: p.vk.ic.iter().map(point_bytes).collect(),
        },
        h: p.h.iter().map(point_bytes).collect(),
        l: p.l.iter().map(point_bytes).collect(),
        a: p.a.iter().map(point_bytes).collect(),
        b_g1: p.b_g1.iter().map(point_bytes).collect(),
        b_g2: p.b_g2.iter().map(point_bytes).collect(),
    }
}

fn square_params() -> Parameters {
    let mut rng = XorShiftRng::from_seed([7u8; 16]);
    let p = generate_random_parameters::<Bls12, _, _>(Square { x: None }, &mut rng).unwrap();
    to_params(&p)
}

fn term(v: Variable) -> LinearCombination {
    let mut lc = LinearCombination::zero();
    lc.add_term(v, Scalar::one());
    lc
}

/// The library's description of `x * x = y` with the witness `x`.
fn square_circuit(x: u64) -> Circuit {
    Circuit {
        inputs: vec![Some(Scalar::from_u64(x * x))],
        aux: vec![Some(Scalar::from_u64(x))],
        constraints: vec![Constraint {
            a: term(Variable::Aux(0)),
            b: term(Variable::Aux(0)),
            c: term(Variable::Input(1)),
        }],
    }
}

fn public_params(partitions: Option<usize>) -> groth_batch::compound::PublicParams {
    setup(&SetupParams {
        vanilla_params: VanillaParams { challenges_per_partition: 1 },
        partitions,
        priority: false,
    })
    .unwrap()
}

fn statement(y: u64, partitions: usize) -> PublicInputs {
    PublicInputs { partitions: (0..partitions).map(|_| vec![Scalar::from_u64(y)]).collect() }
}

fn requirements() -> ChallengeRequirements {
    ChallengeRequirements { minimum_challenges: 1 }
}

fn copy_key(vk: &VerifyingKey) -> VerifyingKey {
    VerifyingKey {
        alpha_g1: vk.alpha_g1.clone(),
        beta_g1: vk.beta_g1.clone(),
        beta_g2: vk.beta_g2.clone(),
        gamma_g2: vk.gamma_g2.clone(),
        delta_g1: vk.delta_g1.clone(),
        delta_g2: vk.delta_g2.clone(),
        ic: vk.ic.clone(),
    }
}

fn square_multiproof(params: &Parameters, partitions: usize) -> MultiProof {
    let pp = public_params(Some(partitions));
    let circuits = (0..partitions).map(|_| square_circuit(3)).collect();
    prove(&pp, true, circuits, params).unwrap()
}

#[test]
fn square_proof_verifies_for_its_input_only() {
    let params = square_params();
    let pp = public_params(None);
    let mp = prove(&pp, true, vec![square_circuit(3)], &params).unwrap();
    assert_eq!(mp.circuit_proofs.len(), 1);
    assert_eq!(verify(&pp, &statement(9, 1), &mp, &requirements()), Ok(true));
    assert_eq!(verify(&pp, &statement(10, 1), &mp, &requirements()), Ok(false));
}

#[test]
fn proofs_with_fixed_randomizers_verify() {
    let params = square_params();
    let r = vec![Scalar::from_u64(5), Scalar::from_u64(6)];
    let s = vec![Scalar::from_u64(7), Scalar::from_u64(8)];
    let proofs = create_proof_batch_priority(
        vec![square_circuit(3), square_circuit(4)],
        &params,
        r,
        s,
        false,
    )
    .unwrap();
    assert_eq!(proofs.len(), 2);
    let pp = public_params(None);
    let mut it = proofs.into_iter();
    for y in [9u64, 16] {
        let mp = MultiProof { circuit_proofs: vec![it.next().unwrap()], verifying_key: copy_key(&params.vk) };
        assert_eq!(verify(&pp, &statement(y, 1), &mp, &requirements()), Ok(true));
    }
}

#[test]
fn same_randomizers_give_same_proof() {
    let params = square_params();
    let make = || {
        create_proof_batch_priority(
            vec![square_circuit(3)],
            &params,
            vec![Scalar::from_u64(11)],
            vec![Scalar::from_u64(13)],
            true,
        )
        .unwrap()
    };
    let a = make();
    let b = make();
    assert_eq!(a[0].to_bytes(), b[0].to_bytes());
    let c = create_proof_batch_priority(
        vec![square_circuit(3)],
        &params,
        vec![Scalar::from_u64(12)],
        vec![Scalar::from_u64(13)],
        true,
    )
    .unwrap();
    assert_ne!(a[0].to_bytes(), c[0].to_bytes());
}

#[test]
fn flipped_byte_never_verifies() {
    let params = square_params();
    let pp = public_params(None);
    let mp = square_multiproof(&params, 1);
    let bytes = mp.to_bytes();
    assert_eq!(bytes.len(), PROOF_LEN);
    for i in 0..bytes.len() {
        let mut b = bytes.clone();
        b[i] ^= 0x01;
        match MultiProof::from_bytes(1, &b, copy_key(&params.vk)) {
            Err(e) => assert_eq!(e, CompoundError::MalformedProof),
            Ok(m) => assert_eq!(verify(&pp, &statement(9, 1), &m, &requirements()), Ok(false)),
        }
    }
}

#[test]
fn singleton_batch_matches_verify() {
    let params = square_params();
    let pp = public_params(None);
    let mp = square_multiproof(&params, 1);
    for y in [9u64, 10] {
        let single = verify(&pp, &statement(y, 1), &mp, &requirements());
        let mp2 = MultiProof::from_bytes(1, &mp.to_bytes(), copy_key(&params.vk)).unwrap();
        let batch = batch_verify(&pp, &vec![statement(y, 1)], &vec![mp2], &requirements());
        assert_eq!(single, batch);
    }
}

#[test]
fn batch_of_two_statements_verifies() {
    let params = square_params();
    let pp = public_params(None);
    let a = square_multiproof(&params, 1);
    let b = MultiProof::from_bytes(1, &a.to_bytes(), copy_key(&params.vk)).unwrap();
    let ok = batch_verify(&pp, &vec![statement(9, 1), statement(9, 1)], &vec![a, b], &requirements());
    assert_eq!(ok, Ok(true));
}

#[test]
fn identity_delta_is_refused() {
    let mut params = square_params();
    let mut id1 = vec![0u8; 48];
    id1[0] = 0xc0;
    params.vk.delta_g1 = id1;
    let r = create_proof_batch_priority(
        vec![square_circuit(3)],
        &params,
        vec![Scalar::from_u64(1)],
        vec![Scalar::from_u64(2)],
        false,
    );
    assert!(matches!(r, Err(SynthesisError::UnexpectedIdentity)));

    let mut params = square_params();
    let mut id2 = vec![0u8; 96];
    id2[0] = 0xc0;
    params.vk.delta_g2 = id2;
    let r = create_proof_batch_priority(
        vec![square_circuit(3)],
        &params,
        vec![Scalar::from_u64(1)],
        vec![Scalar::from_u64(2)],
        false,
    );
    assert!(matches!(r, Err(SynthesisError::UnexpectedIdentity)));
}

#[test]
fn differing_sizes_are_refused() {
    let params = square_params();
    let mut bigger = square_circuit(3);
    bigger.constraints.push(Constraint {
        a: term(Variable::Aux(0)),
        b: term(Variable::Aux(0)),
        c: term(Variable::Input(1)),
    });
    let r = create_proof_batch_priority(
        vec![square_circuit(3), bigger],
        &params,
        vec![Scalar::from_u64(1), Scalar::from_u64(1)],
        vec![Scalar::from_u64(2), Scalar::from_u64(2)],
        false,
    );
    assert!(matches!(r, Err(SynthesisError::SizeMismatch)));
}

#[test]
fn three_partitions_serialize_to_three_proofs() {
    let params = square_params();
    let mp = square_multiproof(&params, 3);
    assert_eq!(mp.circuit_proofs.len(), 3);
    assert_eq!(mp.to_bytes().len(), 3 * PROOF_LEN);
    let back = MultiProof::from_bytes(3, &mp.to_bytes(), copy_key(&params.vk)).unwrap();
    assert_eq!(back.to_bytes(), mp.to_bytes());
    let pp = public_params(Some(3));
    assert_eq!(verify(&pp, &statement(9, 3), &back, &requirements()), Ok(true));
}

#[test]
fn missing_witness_is_reported() {
    let params = square_params();
    let mut c = square_circuit(3);
    c.aux[0] = None;
    let r = create_proof_batch_priority(
        vec![c],
        &params,
        vec![Scalar::from_u64(1)],
        vec![Scalar::from_u64(2)],
        false,
    );
    assert!(matches!(r, Err(SynthesisError::AssignmentMissing)));
}

#[test]
fn unknown_variable_is_reported() {
    let params = square_params();
    let mut c = square_circuit(3);
    c.constraints[0].a = term(Variable::Aux(5));
    let r = create_proof_batch_priority(
        vec![c],
        &params,
        vec![Scalar::from_u64(1)],
        vec![Scalar::from_u64(2)],
        false,
    );
    assert!(matches!(r, Err(SynthesisError::MalformedCircuit)));
}

#[test]
fn short_key_is_reported() {
    let mut params = square_params();
    params.l.clear();
    let r = create_proof_batch_priority(
        vec![square_circuit(3)],
        &params,
        vec![Scalar::from_u64(1)],
        vec![Scalar::from_u64(2)],
        false,
    );
    assert!(matches!(r, Err(SynthesisError::MalformedParameters)));
}

#[test]
fn undecodable_key_point_is_reported() {
    let mut params = square_params();
    params.vk.alpha_g1 = vec![0xffu8; 48];
    let r = create_proof_batch_priority(
        vec![square_circuit(3)],
        &params,
        vec![Scalar::from_u64(1)],
        vec![Scalar::from_u64(2)],
        false,
    );
    assert!(matches!(r, Err(SynthesisError::MalformedParameters)));
}

#[test]
fn failed_sanity_check_stops_proving() {
    let params = square_params();
    let pp = public_params(None);
    assert!(matches!(prove(&pp, false, vec![square_circuit(3)], &params), Err(CompoundError::SanityCheckFailed)));
    assert!(matches!(
        prove(&pp, true, vec![square_circuit(3), square_circuit(3)], &params),
        Err(CompoundError::InconsistentInputs)
    ));
}

#[test]
fn verification_errors_and_requirements() {
    let params = square_params();
    let pp = public_params(None);
    let mp = square_multiproof(&params, 1);
    let strict = ChallengeRequirements { minimum_challenges: 2 };
    assert_eq!(verify(&pp, &statement(9, 1), &mp, &strict), Ok(false));
    assert_eq!(verify(&pp, &statement(9, 2), &mp, &requirements()), Err(CompoundError::InconsistentInputs));
    let pp3 = public_params(Some(3));
    assert_eq!(verify(&pp3, &statement(9, 3), &mp, &requirements()), Err(CompoundError::InconsistentInputs));
    let wide = PublicInputs { partitions: vec![vec![Scalar::from_u64(9), Scalar::from_u64(1)]] };
    assert_eq!(verify(&pp, &wide, &mp, &requirements()), Err(CompoundError::MalformedVerifyingKey));
    assert_eq!(batch_verify(&pp, &vec![], &vec![], &requirements()), Err(CompoundError::EmptyBatch));
    assert_eq!(
        batch_verify(&pp, &vec![statement(9, 1)], &vec![], &requirements()),
        Err(CompoundError::InconsistentInputs)
    );
}

#[test]
fn short_bytes_are_malformed() {
    let params = square_params();
    let mp = square_multiproof(&params, 1);
    let mut bytes = mp.to_bytes();
    bytes.pop();
    assert!(matches!(MultiProof::from_bytes(1, &bytes, copy_key(&params.vk)), Err(CompoundError::MalformedProof)));
    assert!(matches!(MultiProof::from_bytes(2, &mp.to_bytes(), copy_key(&params.vk)), Err(CompoundError::MalformedProof)));
}

#[test]
fn curve_points_of_key_are_accepted() {
    let params = square_params();
    assert!(params.check());
    assert!(!params.vk.has_identity_delta());
    let one = Fr::one();
    assert_eq!(Scalar::one().limbs(), one.into_repr().0);
}

#[test]
fn single_proof_checks_match_the_batched_check() {
    let params = square_params();
    let pp = public_params(Some(3));
    let mp = square_multiproof(&params, 3);
    assert_eq!(verify_each(&pp, &statement(9, 3), &mp, &requirements()), Ok(true));
    assert_eq!(verify_each(&pp, &statement(10, 3), &mp, &requirements()), Ok(false));
    assert_eq!(verify(&pp, &statement(9, 3), &mp, &requirements()), Ok(true));
    let strict = ChallengeRequirements { minimum_challenges: 4 };
    assert_eq!(verify_each(&pp, &statement(9, 3), &mp, &strict), Ok(false));
    assert_eq!(
        verify_each(&pp, &statement(9, 2), &mp, &requirements()),
        Err(CompoundError::InconsistentInputs)
    );
}
