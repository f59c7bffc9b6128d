use fff::{Field, PrimeField};
use paired::bls12_381::{Fr, FrRepr};

use groth_batch::circuit::{synthesize, Circuit, Constraint};
use groth_batch::compound::{
    partition_count, satisfies_requirements, setup, ChallengeRequirements, CompoundError,
    PublicInputs, SetupParams, VanillaParams,
};
use groth_batch::density::DensityTracker;
use groth_batch::domain::{compute_h, domain_size, evaluate, interpolate, pad};
use groth_batch::error::SynthesisError;
use groth_batch::field::Scalar;
use groth_batch::flarp::{
    augment_with_op_measurements, run, CircuitOutputs, FlarpError, FlarpInputs, FlarpOutputs,
    Measured, Measurements, OpMeasurement, Operation, PostMeasurements,
};
use groth_batch::lc::{eval, LinearCombination, Variable};
use groth_batch::prover::VerifyingKey;
use groth_batch::seal::{verify_batch_seal, PoRepConfig, SealError};

fn s(v: u64) -> Scalar {
    Scalar::from_u64(v)
}

fn lc(terms: &[(Variable, u64)]) -> LinearCombination {
    let mut l = LinearCombination::zero();
    for (v, c) in terms {
        l.add_term(*v, s(*c));
    }
    l
}

fn single(v: Variable) -> LinearCombination {
    lc(&[(v, 1)])
}

#[test]
fn eval_sums_weighted_values() {
    let inputs = vec![s(1), s(4)];
    let aux = vec![s(10), s(20)];
    let l = lc(&[(Variable::Input(1), 3), (Variable::Aux(0), 1), (Variable::Aux(1), 2)]);
    assert_eq!(eval(&l, &inputs, &aux), s(3 * 4 + 10 + 2 * 20));
    assert_eq!(eval(&LinearCombination::zero(), &inputs, &aux), s(0));
}

#[test]
fn eval_is_linear_on_an_example() {
    let inputs = vec![s(1), s(5)];
    let aux = vec![s(7), s(11)];
    let lc1 = [(Variable::Input(1), 2u64), (Variable::Aux(0), 3)];
    let lc2 = [(Variable::Aux(1), 4u64), (Variable::Input(0), 6)];
    let (c1, c2) = (9u64, 13u64);
    let mut combined: Vec<(Variable, u64)> = lc1.iter().map(|(v, c)| (*v, c1 * c)).collect();
    combined.extend(lc2.iter().map(|(v, c)| (*v, c2 * c)));
    let e1 = 2 * 5 + 3 * 7;
    let e2 = 4 * 11 + 6;
    assert_eq!(eval(&lc(&lc1), &inputs, &aux), s(e1));
    assert_eq!(eval(&lc(&lc2), &inputs, &aux), s(e2));
    assert_eq!(eval(&lc(&combined), &inputs, &aux), s(c1 * e1 + c2 * e2));
}

#[test]
fn eval_reduces_modulo_the_field_order() {
    // r - 1, the largest field element.
    let top = Scalar::from_limbs([
        0xffffffff00000000,
        0x53bda402fffe5bfe,
        0x3339d80809a1d805,
        0x73eda753299d7d48,
    ]);
    assert!(top.is_reduced());
    let inputs = vec![s(1)];
    let aux = vec![top, s(3)];
    let l = lc(&[(Variable::Aux(0), 1), (Variable::Aux(1), 1)]);
    assert_eq!(eval(&l, &inputs, &aux), s(2));
    let doubled = lc(&[(Variable::Aux(0), 2)]);
    assert_eq!(eval(&doubled, &inputs, &aux), Scalar::from_limbs([
        0xfffffffeffffffff,
        0x53bda402fffe5bfe,
        0x3339d80809a1d805,
        0x73eda753299d7d48,
    ]));
}

#[test]
fn modulus_is_not_reduced() {
    let r = Scalar::from_limbs([
        0xffffffff00000001,
        0x53bda402fffe5bfe,
        0x3339d80809a1d805,
        0x73eda753299d7d48,
    ]);
    assert!(!r.is_reduced());
    assert!(s(0).is_reduced());
    assert!(s(1).is_one());
    assert!(!s(2).is_one());
}

#[test]
fn density_counts_distinct_touches() {
    let mut t = DensityTracker::new();
    t.add_element();
    t.add_element();
    t.add_element();
    assert_eq!(t.get_total_density(), 0);
    t.inc(1);
    t.inc(1);
    assert_eq!(t.get_total_density(), 1);
    t.inc(2);
    assert_eq!(t.get_total_density(), 2);
    assert!(!t.is_set(0));
    assert!(t.is_set(1));
    assert_eq!(t.len(), 3);
}

#[test]
fn one_reference_per_constraint_gives_density_k() {
    let k = 3;
    let circuit = Circuit {
        inputs: vec![],
        aux: vec![Some(s(2)), Some(s(3)), Some(s(4)), Some(s(5))],
        constraints: (0..k)
            .map(|j| Constraint {
                a: single(Variable::Aux(j)),
                b: single(Variable::Input(0)),
                c: single(Variable::Aux(j)),
            })
            .collect(),
    };
    let p = synthesize(&circuit).unwrap();
    assert_eq!(p.a_aux_density.get_total_density(), k);
    assert!(!p.a_aux_density.is_set(3));
    assert_eq!(p.b_aux_density.get_total_density(), 0);
    assert_eq!(p.b_input_density.get_total_density(), 1);
    assert_eq!(p.a.len(), k + 1);
    assert_eq!(p.a[3], s(1));
    assert_eq!(p.b[3], s(0));
}

#[test]
fn synthesis_allocates_one_then_inputs() {
    let circuit = Circuit {
        inputs: vec![Some(s(9))],
        aux: vec![Some(s(3))],
        constraints: vec![Constraint {
            a: single(Variable::Aux(0)),
            b: single(Variable::Aux(0)),
            c: single(Variable::Input(1)),
        }],
    };
    let p = synthesize(&circuit).unwrap();
    assert_eq!(p.input_assignment, vec![s(1), s(9)]);
    assert_eq!(p.aux_assignment, vec![s(3)]);
    assert_eq!(p.a, vec![s(3), s(1), s(9)]);
    assert_eq!(p.b, vec![s(3), s(0), s(0)]);
    assert_eq!(p.c, vec![s(9), s(0), s(0)]);
}

#[test]
fn synthesis_errors() {
    let missing = Circuit { inputs: vec![None], aux: vec![], constraints: vec![] };
    assert!(matches!(synthesize(&missing), Err(SynthesisError::AssignmentMissing)));
    let bad = Circuit {
        inputs: vec![],
        aux: vec![],
        constraints: vec![Constraint {
            a: single(Variable::Aux(0)),
            b: LinearCombination::zero(),
            c: LinearCombination::zero(),
        }],
    };
    assert!(matches!(synthesize(&bad), Err(SynthesisError::MalformedCircuit)));
}

#[test]
fn domain_sizes() {
    assert_eq!(domain_size(0), Ok((1, 0)));
    assert_eq!(domain_size(1), Ok((1, 0)));
    assert_eq!(domain_size(5), Ok((8, 3)));
    assert_eq!(domain_size(8), Ok((8, 3)));
    assert_eq!(domain_size(9), Ok((16, 4)));
    assert_eq!(domain_size((1usize << 31) + 1), Err(SynthesisError::PolynomialDegreeTooLarge));
}

#[test]
fn padding_appends_zeros() {
    let v = vec![s(1), s(2), s(3)];
    assert_eq!(pad(&v), Ok(vec![s(1), s(2), s(3), s(0)]));
}

#[test]
fn interpolate_undoes_evaluate() {
    let p = vec![s(3), s(1), s(4), s(1), s(5)];
    let e = evaluate(&p).unwrap();
    assert_eq!(e.len(), 8);
    assert_ne!(e, pad(&p).unwrap());
    // A constant polynomial takes its value everywhere.
    assert_eq!(evaluate(&vec![s(7)]).unwrap(), vec![s(7)]);
    let back = interpolate(&e).unwrap();
    assert_eq!(back, pad(&p).unwrap());
}

#[test]
fn quotient_of_satisfied_constants_is_zero() {
    let ones = vec![s(1), s(1), s(1), s(1)];
    let h = compute_h(&ones, &ones, &ones).unwrap();
    assert_eq!(h, vec![s(0), s(0), s(0)]);
}

#[test]
fn quotient_of_constant_gap_divides_by_z_on_the_coset() {
    // A = B = 2 and C = 0 on four rows: A * B - C = 4 everywhere, and on the
    // coset of the generator 7 the vanishing polynomial is 7^4 - 1 = 2400.
    let twos = vec![s(2), s(2), s(2), s(2)];
    let zeros = vec![s(0), s(0), s(0), s(0)];
    let h = compute_h(&twos, &twos, &zeros).unwrap();
    assert_eq!(h.len(), 3);
    assert_eq!(h[1], s(0));
    assert_eq!(h[2], s(0));
    let mut x = Fr::from_repr(FrRepr(h[0].limbs())).unwrap();
    x.mul_assign(&Fr::from_str("600").unwrap());
    assert_eq!(x, Fr::one());
}

#[test]
fn quotient_of_no_constraint_is_an_error() {
    let none: Vec<Scalar> = vec![];
    assert_eq!(compute_h(&none, &none, &none), Err(SynthesisError::EmptyConstraintSystem));
}

#[test]
fn quotient_has_one_coefficient_fewer() {
    // Three satisfied constraints: a * b = c in each row.
    let a = vec![s(2), s(3), s(4)];
    let b = vec![s(5), s(6), s(7)];
    let c = vec![s(10), s(18), s(28)];
    let h = compute_h(&a, &b, &c).unwrap();
    assert_eq!(h.len(), 3);
}

#[test]
fn partition_counts() {
    let sp = |partitions| SetupParams {
        vanilla_params: VanillaParams { challenges_per_partition: 4 },
        partitions,
        priority: true,
    };
    assert_eq!(setup(&sp(Some(0))), Err(CompoundError::ZeroPartitions));
    assert_eq!(partition_count(&setup(&sp(None)).unwrap()), 1);
    assert_eq!(partition_count(&setup(&sp(Some(3))).unwrap()), 3);
    let v = VanillaParams { challenges_per_partition: 4 };
    assert!(satisfies_requirements(&v, &ChallengeRequirements { minimum_challenges: 12 }, 3));
    assert!(!satisfies_requirements(&v, &ChallengeRequirements { minimum_challenges: 13 }, 3));
    let huge = VanillaParams { challenges_per_partition: usize::MAX };
    assert!(satisfies_requirements(&huge, &ChallengeRequirements { minimum_challenges: usize::MAX }, 2));
}

fn dummy_key() -> VerifyingKey {
    VerifyingKey {
        alpha_g1: vec![],
        beta_g1: vec![],
        beta_g2: vec![],
        gamma_g2: vec![],
        delta_g1: vec![],
        delta_g2: vec![],
        ic: vec![],
    }
}

fn config(partitions: u8) -> PoRepConfig {
    PoRepConfig { sector_size: 2048, partitions, challenges_per_partition: 1, minimum_challenges: 1 }
}

#[test]
fn seal_batch_checks_its_lists() {
    let c = [1u8; 32];
    let zero = [0u8; 32];
    let ins = || vec![PublicInputs { partitions: vec![vec![s(1)]] }];
    let proofs = || vec![vec![0u8; 192]];
    assert_eq!(
        verify_batch_seal(&config(1), &vec![], &vec![], &vec![], &vec![], &dummy_key()),
        Err(SealError::EmptyBatch)
    );
    assert_eq!(
        verify_batch_seal(&config(1), &vec![c], &vec![c, c], &ins(), &proofs(), &dummy_key()),
        Err(SealError::InconsistentInputs)
    );
    assert_eq!(
        verify_batch_seal(&config(1), &vec![c], &vec![zero], &ins(), &proofs(), &dummy_key()),
        Err(SealError::ZeroCommD)
    );
    assert_eq!(
        verify_batch_seal(&config(1), &vec![zero], &vec![c], &ins(), &proofs(), &dummy_key()),
        Err(SealError::ZeroCommR)
    );
    assert_eq!(
        verify_batch_seal(&config(0), &vec![c], &vec![c], &ins(), &proofs(), &dummy_key()),
        Err(SealError::Compound(CompoundError::ZeroPartitions))
    );
    assert_eq!(
        verify_batch_seal(&config(2), &vec![c], &vec![c], &ins(), &proofs(), &dummy_key()),
        Err(SealError::Compound(CompoundError::MalformedProof))
    );
}

fn flarp_inputs(size: &str, num_sectors: u64) -> FlarpInputs {
    FlarpInputs {
        sector_size: size.to_string(),
        drg_parents: 6,
        expander_parents: 8,
        porep_challenges: 1,
        porep_partitions: 1,
        post_challenges: 1,
        post_challenged_nodes: 1,
        stacked_layers: 4,
        num_sectors,
    }
}

fn m(cpu: u64, wall: u64) -> Measured {
    Measured { cpu_time_ms: cpu, wall_time_ms: wall }
}

fn measurements(post: Option<PostMeasurements>) -> Measurements {
    Measurements {
        replication: m(100, 50),
        seal_proofs: vec![m(10, 5), m(20, 7)],
        post,
        ops: vec![
            OpMeasurement { op: Operation::CommD, cpu_time_ms: 1, wall_time_ms: 2 },
            OpMeasurement { op: Operation::CommD, cpu_time_ms: 3, wall_time_ms: 4 },
            OpMeasurement { op: Operation::GenerateTreeC, cpu_time_ms: 5, wall_time_ms: 6 },
        ],
        circuits: CircuitOutputs { porep_constraints: 7, post_constraints: 8, kdf_constraints: 9 },
    }
}

fn post(verified: bool) -> PostMeasurements {
    PostMeasurements { candidates: m(30, 31), proof: m(40, 41), verify: m(50, 51), verified }
}

#[test]
fn sector_size_parses() {
    assert_eq!(flarp_inputs("2KiB", 1).sector_size_bytes(), Some(2048));
    assert_eq!(flarp_inputs("1KB", 1).sector_size_bytes(), Some(1000));
    assert_eq!(flarp_inputs("lots", 1).sector_size_bytes(), None);
    // An Arabic-Indic digit: not ASCII, so no size.
    assert_eq!(flarp_inputs("\u{0663}KiB", 1).sector_size_bytes(), None);
    assert!(matches!(
        run(flarp_inputs("\u{0663}KiB", 1), false, true, false, &measurements(None)),
        Err(FlarpError::InvalidSectorSize)
    ));
}

#[test]
fn later_op_record_wins() {
    let mut out = FlarpOutputs::default();
    augment_with_op_measurements(&mut out, &measurements(None).ops);
    assert_eq!(out.comm_d_cpu_time_ms, 3);
    assert_eq!(out.comm_d_wall_time_ms, 4);
    assert_eq!(out.generate_tree_c_cpu_time_ms, 5);
    assert_eq!(out.generate_tree_c_wall_time_ms, 6);
    assert_eq!(out.tree_r_last_cpu_time_ms, 0);
}

#[test]
fn full_run_reports_every_step() {
    let rep = run(flarp_inputs("2KiB", 1), false, false, false, &measurements(Some(post(true)))).unwrap();
    let o = rep.outputs;
    assert_eq!((o.porep_proof_gen_cpu_time_ms, o.porep_proof_gen_wall_time_ms), (30, 12));
    assert_eq!((o.epost_cpu_time_ms, o.epost_wall_time_ms), (30, 31));
    assert_eq!((o.post_proof_gen_cpu_time_ms, o.post_proof_gen_wall_time_ms), (40, 41));
    assert_eq!((o.post_verify_cpu_time_ms, o.post_verify_wall_time_ms), (50, 51));
    assert_eq!((o.encoding_cpu_time_ms, o.encoding_wall_time_ms), (100, 50));
    assert_eq!(o.comm_d_cpu_time_ms, 3);
    assert_eq!(o.circuits.kdf_constraints, 9);
    assert_eq!(rep.inputs.sector_size, "2KiB");
}

#[test]
fn replicate_only_reports_operations() {
    let rep = run(flarp_inputs("2KiB", 1), false, false, true, &measurements(None)).unwrap();
    assert_eq!(rep.outputs.porep_proof_gen_cpu_time_ms, 0);
    assert_eq!(rep.outputs.comm_d_wall_time_ms, 4);
    assert_eq!(rep.outputs.circuits.porep_constraints, 0);
}

#[test]
fn skipped_steps_stay_zero() {
    let rep = run(flarp_inputs("2KiB", 1), true, true, false, &measurements(None)).unwrap();
    assert_eq!(rep.outputs.porep_proof_gen_cpu_time_ms, 0);
    assert_eq!(rep.outputs.epost_cpu_time_ms, 0);
    assert_eq!(rep.outputs.circuits.post_constraints, 8);
    let mut big = measurements(None);
    big.seal_proofs = vec![m(u64::MAX, 1), m(1, 1)];
    let rep = run(flarp_inputs("2KiB", 1), false, true, false, &big).unwrap();
    assert_eq!(rep.outputs.porep_proof_gen_cpu_time_ms, u64::MAX);
    assert_eq!(rep.outputs.porep_proof_gen_wall_time_ms, 2);
}

#[test]
fn run_errors() {
    assert!(matches!(
        run(flarp_inputs("nonsense", 1), false, false, false, &measurements(None)),
        Err(FlarpError::InvalidSectorSize)
    ));
    assert!(matches!(
        run(flarp_inputs("2KiB", 0), false, false, false, &measurements(None)),
        Err(FlarpError::MissingNumSectors)
    ));
    assert!(matches!(
        run(flarp_inputs("2KiB", 1), false, false, false, &measurements(None)),
        Err(FlarpError::MissingPost)
    ));
    assert!(matches!(
        run(flarp_inputs("2KiB", 1), false, false, false, &measurements(Some(post(false)))),
        Err(FlarpError::InvalidPost)
    ));
}
