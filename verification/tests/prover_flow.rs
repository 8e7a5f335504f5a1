use plonk_prover::field::{fe_add, fe_inv, fe_mul, fe_sub, P};
use plonk_prover::index::{Gate, Index};
use plonk_prover::poly::interpolate;
use plonk_prover::prover::{Blinders, ProofError, ProverProof};
use plonk_prover::rng::create_with_os_rng;
use plonk_prover::sponge::Sponge;

/// A two-row circuit of multiplication gates: `l · r = o` on each row.
fn mul_circuit_index(sigmal: Vec<Vec<u64>>) -> Index {
    let n = 2usize;
    let sid = vec![1u64, P - 1];
    let sigmam: Vec<Vec<u64>> = sigmal
        .iter()
        .map(|col| interpolate(col, &sid).unwrap())
        .collect();
    Index {
        n,
        public: 0,
        gates: vec![Gate { l: 0, r: 2, o: 4 }, Gate { l: 1, r: 3, o: 5 }],
        sid,
        group_gen: P - 1,
        qm: vec![1],
        ql: Vec::new(),
        qr: Vec::new(),
        qo: vec![P - 1],
        qc: Vec::new(),
        sigmam,
        sigmal,
        r: 2,
        o: 3,
        max_poly_size: 16,
    }
}

/// Identity wiring: no copy constraints.
fn trivial_sigmal() -> Vec<Vec<u64>> {
    let sid = vec![1u64, P - 1];
    vec![
        sid.clone(),
        sid.iter().map(|s| (s * 2) % P).collect(),
        sid.iter().map(|s| (s * 3) % P).collect(),
    ]
}

/// One copy constraint: the output wire of row 0 equals the left wire of
/// row 1 (their position labels are exchanged).
fn copy_sigmal() -> Vec<Vec<u64>> {
    let sid = vec![1u64, P - 1];
    let id1: Vec<u64> = sid.iter().map(|s| (s * 2) % P).collect();
    let id2: Vec<u64> = sid.iter().map(|s| (s * 3) % P).collect();
    vec![vec![sid[0], id2[0]], id1, vec![sid[1], id2[1]]]
}

fn blinders_a() -> Blinders {
    Blinders { l0: 11, l1: 22, r0: 33, r1: 44, o0: 55, o1: 66, opening: 77 }
}

fn blinders_b() -> Blinders {
    Blinders { l0: 101, l1: 202, r0: 303, r1: 404, o0: 505, o1: 606, opening: 707 }
}

#[test]
fn satisfying_witness_succeeds() {
    let index = mul_circuit_index(trivial_sigmal());
    let witness = vec![2, 3, 5, 4, 10, 12];
    let res = ProverProof::create(&witness, &index, &blinders_a());
    assert!(res.is_ok());
}

#[test]
fn satisfying_witness_with_copy_constraint_succeeds() {
    let index = mul_circuit_index(copy_sigmal());
    // o(row 0) = 10 equals l(row 1) = 10, as the wiring demands
    let witness = vec![2, 10, 5, 1, 10, 10];
    let res = ProverProof::create(&witness, &index, &blinders_a());
    assert!(res.is_ok());
}

#[test]
fn wrong_witness_length_is_input_error() {
    let index = mul_circuit_index(trivial_sigmal());
    let short = vec![2, 3, 5, 4, 10];
    assert_eq!(
        ProverProof::create(&short, &index, &blinders_a()).unwrap_err(),
        ProofError::WitnessCsInconsistent
    );
    let long = vec![2, 3, 5, 4, 10, 12, 1];
    assert_eq!(
        ProverProof::create(&long, &index, &blinders_a()).unwrap_err(),
        ProofError::WitnessCsInconsistent
    );
}

#[test]
fn copy_constraint_violation_fails_grand_product() {
    let index = mul_circuit_index(copy_sigmal());
    // every gate holds (2·5 = 10, 7·1 = 7) but the two wires declared
    // equal carry 10 and 7, so the grand product cannot close at one
    let witness = vec![2, 7, 5, 1, 10, 7];
    assert_eq!(
        ProverProof::create(&witness, &index, &blinders_a()).unwrap_err(),
        ProofError::ProofCreation
    );
}

#[test]
fn gate_violation_fails_quotient_division() {
    let index = mul_circuit_index(trivial_sigmal());
    // flip the second multiplication gate's output: 3·4 != 13; the
    // wiring is the identity, so the failure surfaces as a nonzero
    // remainder in the quotient division
    let witness = vec![2, 3, 5, 4, 10, 13];
    assert_eq!(
        ProverProof::create(&witness, &index, &blinders_a()).unwrap_err(),
        ProofError::PolyDivision
    );
}

#[test]
fn fixed_blinders_reproduce_the_proof() {
    let index = mul_circuit_index(trivial_sigmal());
    let witness = vec![2, 3, 5, 4, 10, 12];
    let p1 = ProverProof::create(&witness, &index, &blinders_a()).unwrap();
    let p2 = ProverProof::create(&witness, &index, &blinders_a()).unwrap();
    assert_eq!(p1.l_comm.unshifted, p2.l_comm.unshifted);
    assert_eq!(p1.r_comm.unshifted, p2.r_comm.unshifted);
    assert_eq!(p1.o_comm.unshifted, p2.o_comm.unshifted);
    assert_eq!(p1.z_comm.unshifted, p2.z_comm.unshifted);
    assert_eq!(p1.t_comm.unshifted, p2.t_comm.unshifted);
    assert_eq!(p1.opening.digest, p2.opening.digest);
}

#[test]
fn different_blinders_change_the_wire_commitments() {
    let index = mul_circuit_index(trivial_sigmal());
    let witness = vec![2, 3, 5, 4, 10, 12];
    let p1 = ProverProof::create(&witness, &index, &blinders_a()).unwrap();
    let p2 = ProverProof::create(&witness, &index, &blinders_b()).unwrap();
    assert_ne!(p1.l_comm.unshifted, p2.l_comm.unshifted);
}

#[test]
fn swapped_commitment_absorption_changes_beta() {
    let index = mul_circuit_index(trivial_sigmal());
    let witness = vec![2, 3, 5, 4, 10, 12];
    let pf = ProverProof::create(&witness, &index, &blinders_a()).unwrap();
    let mut honest = Sponge::new();
    honest.absorb_vec(&pf.public);
    honest.absorb_vec(&pf.l_comm.unshifted);
    honest.absorb_vec(&pf.r_comm.unshifted);
    honest.absorb_vec(&pf.o_comm.unshifted);
    let mut swapped = Sponge::new();
    swapped.absorb_vec(&pf.public);
    swapped.absorb_vec(&pf.r_comm.unshifted);
    swapped.absorb_vec(&pf.l_comm.unshifted);
    swapped.absorb_vec(&pf.o_comm.unshifted);
    assert_ne!(honest.challenge(), swapped.challenge());
}

#[test]
fn linearized_identity_holds_at_zeta() {
    let index = mul_circuit_index(trivial_sigmal());
    let witness = vec![2, 3, 5, 4, 10, 12];
    let pf = ProverProof::create(&witness, &index, &blinders_a()).unwrap();

    // replay the transcript to recover the challenges
    let mut sp = Sponge::new();
    sp.absorb_vec(&pf.public);
    sp.absorb_vec(&pf.l_comm.unshifted);
    sp.absorb_vec(&pf.r_comm.unshifted);
    sp.absorb_vec(&pf.o_comm.unshifted);
    let beta = sp.challenge();
    let gamma = sp.challenge();
    sp.absorb_vec(&pf.z_comm.unshifted);
    let alpha = sp.challenge();
    sp.absorb_vec(&pf.t_comm.unshifted);
    let zeta = sp.challenge();

    // every polynomial fits in one chunk here
    let e0 = &pf.evals[0];
    let e1 = &pf.evals[1];
    let l = e0.l[0];
    let r = e0.r[0];
    let o = e0.o[0];
    let z = e0.z[0];
    let t = e0.t[0];
    let z_next = e1.z[0];

    // gate identity at zeta (the public polynomial is zero here)
    let t1 = fe_add(
        fe_add(
            fe_add(
                fe_add(fe_mul(fe_mul(l, r), e0.qm[0]), fe_mul(l, e0.ql[0])),
                fe_mul(r, e0.qr[0]),
            ),
            fe_mul(o, e0.qo[0]),
        ),
        e0.qc[0],
    );
    // permutation identity, identity side
    let f1 = fe_add(fe_add(l, fe_mul(beta, zeta)), gamma);
    let f2 = fe_add(fe_add(r, fe_mul(fe_mul(beta, index.r), zeta)), gamma);
    let f3 = fe_add(fe_add(o, fe_mul(fe_mul(beta, index.o), zeta)), gamma);
    let t2 = fe_mul(fe_mul(fe_mul(f1, f2), f3), z);
    // permutation identity, permutation side, with z at zeta·g
    let g1 = fe_add(fe_add(l, fe_mul(beta, e0.sigma[0][0])), gamma);
    let g2 = fe_add(fe_add(r, fe_mul(beta, e0.sigma[1][0])), gamma);
    let g3 = fe_add(fe_add(o, fe_mul(beta, e0.sigma[2][0])), gamma);
    let t3 = fe_mul(fe_mul(fe_mul(g1, g2), g3), z_next);
    // boundary quotient at zeta: (z(zeta) - 1)/(zeta - 1)
    let t4 = fe_mul(fe_sub(z, 1), fe_inv(fe_sub(zeta, 1)));

    let vanish = fe_sub(fe_mul(zeta, zeta), 1);
    let alpsq = fe_mul(alpha, alpha);
    let lhs = fe_mul(t, vanish);
    let rhs = fe_add(
        fe_add(t1, fe_mul(alpha, fe_sub(t2, t3))),
        fe_mul(alpsq, fe_mul(t4, vanish)),
    );
    assert_eq!(lhs, rhs);
}

#[test]
fn evaluations_match_direct_evaluation_of_the_selectors() {
    let index = mul_circuit_index(trivial_sigmal());
    let witness = vec![2, 3, 5, 4, 10, 12];
    let pf = ProverProof::create(&witness, &index, &blinders_a()).unwrap();
    let mut sp = Sponge::new();
    sp.absorb_vec(&pf.public);
    sp.absorb_vec(&pf.l_comm.unshifted);
    sp.absorb_vec(&pf.r_comm.unshifted);
    sp.absorb_vec(&pf.o_comm.unshifted);
    let _beta = sp.challenge();
    let _gamma = sp.challenge();
    sp.absorb_vec(&pf.z_comm.unshifted);
    let _alpha = sp.challenge();
    sp.absorb_vec(&pf.t_comm.unshifted);
    let zeta = sp.challenge();
    let zeta_g = fe_mul(zeta, index.group_gen);
    // the returned selector evaluations equal direct evaluation of the
    // committed (public) selector polynomials at the two points
    assert_eq!(pf.evals[0].qm[0], plonk_prover::poly::peval_at(&index.qm, zeta));
    assert_eq!(pf.evals[0].qo[0], plonk_prover::poly::peval_at(&index.qo, zeta));
    assert_eq!(pf.evals[1].qm[0], plonk_prover::poly::peval_at(&index.qm, zeta_g));
    assert_eq!(
        pf.evals[0].sigma[1][0],
        plonk_prover::poly::peval_at(&index.sigmam[1], zeta)
    );
    assert_eq!(
        pf.evals[1].sigma[2][0],
        plonk_prover::poly::peval_at(&index.sigmam[2], zeta_g)
    );
}

#[test]
fn public_input_row_is_absorbed_and_returned() {
    // row 0 is a public-input row (l + PI = 0 via the left selector),
    // row 1 a multiplication gate
    let n = 2usize;
    let sid = vec![1u64, P - 1];
    let sigmal = trivial_sigmal();
    let sigmam: Vec<Vec<u64>> = sigmal
        .iter()
        .map(|col| interpolate(col, &sid).unwrap())
        .collect();
    let index = Index {
        n,
        public: 1,
        gates: vec![Gate { l: 0, r: 2, o: 4 }, Gate { l: 1, r: 3, o: 5 }],
        sid: sid.clone(),
        group_gen: P - 1,
        qm: interpolate(&vec![0, 1], &sid).unwrap(),
        ql: interpolate(&vec![1, 0], &sid).unwrap(),
        qr: Vec::new(),
        qo: interpolate(&vec![0, P - 1], &sid).unwrap(),
        qc: Vec::new(),
        sigmam,
        sigmal,
        r: 2,
        o: 3,
        max_poly_size: 16,
    };
    assert!(index.validate());
    let witness = vec![7, 3, 0, 4, 0, 12];
    let pf = ProverProof::create(&witness, &index, &blinders_a()).unwrap();
    assert_eq!(pf.public, vec![7]);
    // breaking the multiplication row still fails the quotient division
    let bad = vec![7, 3, 0, 4, 0, 13];
    assert_eq!(
        ProverProof::create(&bad, &index, &blinders_a()).unwrap_err(),
        ProofError::PolyDivision
    );
}

#[test]
fn index_validation_accepts_the_circuit_and_rejects_corruption() {
    let index = mul_circuit_index(trivial_sigmal());
    assert!(index.validate());
    let mut bad = mul_circuit_index(trivial_sigmal());
    bad.sid = vec![1, 5];  // 5 is not a square root of one
    assert!(!bad.validate());
    let mut bad2 = mul_circuit_index(trivial_sigmal());
    bad2.gates[1].o = 99;  // wire position outside the witness
    assert!(!bad2.validate());
}

#[test]
fn os_rng_construction_succeeds() {
    let index = mul_circuit_index(trivial_sigmal());
    let witness = vec![2, 3, 5, 4, 10, 12];
    let res = create_with_os_rng(&witness, &index);
    assert!(res.is_ok());
    let short = vec![1, 2, 3];
    assert_eq!(
        create_with_os_rng(&short, &index).unwrap_err(),
        ProofError::WitnessCsInconsistent
    );
}
