use neutron_fold::commitment::CommitmentKey;
use neutron_fold::errors::FoldError;
use neutron_fold::nifs::{nsc_pc_to_sumfold_inputs, nsc_to_sumfold_inputs, NIFS};
use neutron_fold::r1cs::{R1CSInstance, R1CSShape, R1CSWitness, SparseMatrix};
use neutron_fold::running::{genesis, RunningZFInstance, RunningZFWitness};
use neutron_fold::sumfold::{relation_sum, Relation};

// Four constraints over z = (w0, w1, w2, w3, 1, x0):
//   w0 * w0 = w1,  w1 * w0 = w2,  (w2 + w0) * 1 = w3,  (w3 + 5) * 1 = x0.
fn cubic_shape() -> R1CSShape {
    R1CSShape {
        num_cons: 4,
        log_num_cons: 2,
        num_vars: 4,
        num_io: 1,
        a: SparseMatrix {
            entries: vec![(0, 0, 1), (1, 1, 1), (2, 2, 1), (2, 0, 1), (3, 3, 1), (3, 4, 5)],
        },
        b: SparseMatrix { entries: vec![(0, 0, 1), (1, 0, 1), (2, 4, 1), (3, 4, 1)] },
        c: SparseMatrix { entries: vec![(0, 1, 1), (1, 2, 1), (2, 3, 1), (3, 5, 1)] },
    }
}

fn cubic_step(a: u64) -> (R1CSInstance, R1CSWitness) {
    let b = a * a;
    let c = b * a;
    let d = c + a;
    (R1CSInstance { x: vec![d + 5] }, R1CSWitness { w: vec![a, b, c, d] })
}

fn key(n: usize) -> CommitmentKey {
    CommitmentKey { gens: (0..n as u64).map(|i| 3 * i + 2).collect(), h: 7 }
}

fn fold_once(
    s: &R1CSShape,
    ck: &CommitmentKey,
    u1: &RunningZFInstance,
    w1: &RunningZFWitness,
    u2: &R1CSInstance,
    w2: &R1CSWitness,
    r_e: u64,
) -> (NIFS, RunningZFInstance, RunningZFWitness) {
    let (nifs, (u, w)) = NIFS::prove_with_blinding(s, ck, u1, w1, u2, w2, r_e).unwrap();
    (nifs, u, w)
}

#[test]
fn genesis_then_one_fold_verifies_to_the_prover_instance() {
    let s = cubic_shape();
    let ck = key(4);
    let (u1, w1) = genesis(&s);
    let (u2, w2) = cubic_step(3);
    let (nifs, (u, _w)) = NIFS::prove(&s, &ck, &u1, &w1, &u2, &w2).unwrap();
    let v = nifs.verify(&u1, &u2).unwrap();
    assert_eq!(v, u);
}

#[test]
fn chain_of_folds_verifies_at_every_step() {
    let s = cubic_shape();
    let ck = key(4);
    let (mut u, mut w) = genesis(&s);
    for (k, a) in [2u64, 3, 4, 10].iter().enumerate() {
        let (u2, w2) = cubic_step(*a);
        let (nifs, nu, nw) = fold_once(&s, &ck, &u, &w, &u2, &w2, 11 + k as u64);
        assert_eq!(nifs.verify(&u, &u2), Ok(nu.clone()));
        u = nu;
        w = nw;
    }
}

#[test]
fn same_inputs_and_blinding_give_the_same_proof() {
    let s = cubic_shape();
    let ck = key(4);
    let (u1, w1) = genesis(&s);
    let (u2, w2) = cubic_step(5);
    let (n1, a1, b1) = fold_once(&s, &ck, &u1, &w1, &u2, &w2, 99);
    let (n2, a2, b2) = fold_once(&s, &ck, &u1, &w1, &u2, &w2, 99);
    assert_eq!(n1, n2);
    assert_eq!(a1, a2);
    assert_eq!(b1, b2);
    assert_eq!(n1.verify(&u1, &u2), n2.verify(&u1, &u2));
    let (n3, _, _) = fold_once(&s, &ck, &u1, &w1, &u2, &w2, 100);
    assert_ne!(n1.comm_e, n3.comm_e);
}

#[test]
fn random_blinding_differs_between_runs() {
    let s = cubic_shape();
    let ck = key(4);
    let (u1, w1) = genesis(&s);
    let (u2, w2) = cubic_step(5);
    let (n1, _) = NIFS::prove(&s, &ck, &u1, &w1, &u2, &w2).unwrap();
    let (n2, _) = NIFS::prove(&s, &ck, &u1, &w1, &u2, &w2).unwrap();
    assert_ne!(n1.comm_e, n2.comm_e);
    assert!(n1.verify(&u1, &u2).is_ok());
    assert!(n2.verify(&u1, &u2).is_ok());
}

#[test]
fn trivial_fresh_step_keeps_genesis_errors_zero() {
    // w0 * w0 = w1, w1 * w1 = w2, w2 * w0 = w3, w3 * w3 = w3: the zero assignment satisfies all.
    let s = R1CSShape {
        num_cons: 4,
        log_num_cons: 2,
        num_vars: 4,
        num_io: 1,
        a: SparseMatrix { entries: vec![(0, 0, 1), (1, 1, 1), (2, 2, 1), (3, 3, 1)] },
        b: SparseMatrix { entries: vec![(0, 0, 1), (1, 1, 1), (2, 0, 1), (3, 3, 1)] },
        c: SparseMatrix { entries: vec![(0, 1, 1), (1, 2, 1), (2, 3, 1), (3, 3, 1)] },
    };
    let ck = key(4);
    let (u1, w1) = genesis(&s);
    let u2 = R1CSInstance { x: vec![0] };
    let w2 = R1CSWitness { w: vec![0, 0, 0, 0] };
    let (nifs, u, _w) = fold_once(&s, &ck, &u1, &w1, &u2, &w2, 17);
    assert_eq!(u.nsc.t, 0);
    assert_eq!(u.nsc_pc.t, 0);
    assert_eq!(nifs.verify(&u1, &u2), Ok(u));
}

#[test]
fn folded_witness_sums_to_the_recorded_errors() {
    let s = cubic_shape();
    let ck = key(4);
    let (mut u, mut w) = genesis(&s);
    for (k, a) in [7u64, 8, 9].iter().enumerate() {
        let (u2, w2) = cubic_step(*a);
        let (_nifs, nu, nw) = fold_once(&s, &ck, &u, &w, &u2, &w2, 5 + k as u64);
        u = nu;
        w = nw;
        let g = nsc_to_sumfold_inputs(&s, &u.nsc.u, &w.nsc.w, &w.nsc.e);
        assert_eq!(relation_sum(Relation::Constraint, &g, &g, 0), u.nsc.t);
        let g_pc = nsc_pc_to_sumfold_inputs(&w.nsc_pc.e, &w.nsc_pc.new_e, u.nsc_pc.tau);
        assert_eq!(relation_sum(Relation::PowerConsistency, &g_pc, &g_pc, 0), u.nsc_pc.t);
        assert_eq!(ck.commit(&w.nsc.e, w.nsc.r_e), u.nsc.comm_e);
        assert_eq!(ck.commit(&w.nsc_pc.e, w.nsc_pc.r_e), u.nsc_pc.comm_e);
        assert_eq!(ck.commit(&w.nsc_pc.new_e, w.nsc_pc.new_r_e), u.nsc_pc.comm_new_e);
        assert_eq!(ck.commit(&w.zc_pc.e, w.zc_pc.r_e), u.zc_pc.comm_e);
    }
}

#[test]
fn single_constraint_folds_and_verifies() {
    // w0 * w0 = x0
    let s = R1CSShape {
        num_cons: 1,
        log_num_cons: 0,
        num_vars: 1,
        num_io: 1,
        a: SparseMatrix { entries: vec![(0, 0, 1)] },
        b: SparseMatrix { entries: vec![(0, 0, 1)] },
        c: SparseMatrix { entries: vec![(0, 2, 1)] },
    };
    let ck = key(1);
    let (mut u, mut w) = genesis(&s);
    for (k, a) in [6u64, 12].iter().enumerate() {
        let u2 = R1CSInstance { x: vec![a * a] };
        let w2 = R1CSWitness { w: vec![*a] };
        let (nifs, nu, nw) = fold_once(&s, &ck, &u, &w, &u2, &w2, 21 + k as u64);
        assert_eq!(nw.zc_pc.e, vec![1]);
        assert_eq!(nifs.verify(&u, &u2), Ok(nu.clone()));
        u = nu;
        w = nw;
    }
}

#[test]
fn unsatisfied_step_is_rejected() {
    let s = cubic_shape();
    let ck = key(4);
    let (u1, w1) = genesis(&s);
    let (u2, mut w2) = cubic_step(3);
    w2.w[2] = 28;
    let (nifs, _, _) = fold_once(&s, &ck, &u1, &w1, &u2, &w2, 3);
    assert_eq!(nifs.verify(&u1, &u2), Err(FoldError::ProofVerifyError));
}

#[test]
fn tampered_proofs_are_rejected() {
    let s = cubic_shape();
    let ck = key(4);
    let (u1, w1) = genesis(&s);
    let (u2, w2) = cubic_step(4);
    let (u_mid, w_mid) = {
        let (_, u, w) = fold_once(&s, &ck, &u1, &w1, &u2, &w2, 8);
        (u, w)
    };
    let (u3, w3) = cubic_step(6);
    let (nifs, _, _) = fold_once(&s, &ck, &u_mid, &w_mid, &u3, &w3, 9);
    assert!(nifs.verify(&u_mid, &u3).is_ok());

    let mut bad = nifs.clone();
    bad.t = (bad.t + 1) % neutron_fold::field::MODULUS;
    assert_eq!(bad.verify(&u_mid, &u3), Err(FoldError::ProofVerifyError));

    let mut bad = nifs.clone();
    bad.t_pc = (bad.t_pc + 1) % neutron_fold::field::MODULUS;
    assert_eq!(bad.verify(&u_mid, &u3), Err(FoldError::ProofVerifyError));

    let mut bad = nifs.clone();
    bad.comm_e = (bad.comm_e + 1) % neutron_fold::field::MODULUS;
    assert_eq!(bad.verify(&u_mid, &u3), Err(FoldError::ProofVerifyError));

    for i in 0..nifs.sf_proof.evals.len() {
        let mut bad = nifs.clone();
        bad.sf_proof.evals[i] = (bad.sf_proof.evals[i] + 1) % neutron_fold::field::MODULUS;
        assert_eq!(bad.verify(&u_mid, &u3), Err(FoldError::ProofVerifyError));
    }

    let mut bad = nifs.clone();
    bad.sf_proof.evals.pop();
    assert_eq!(bad.verify(&u_mid, &u3), Err(FoldError::ProofVerifyError));

    let mut bad = nifs.clone();
    bad.t = neutron_fold::field::MODULUS;
    assert_eq!(bad.verify(&u_mid, &u3), Err(FoldError::ProofVerifyError));
}

#[test]
fn proof_for_another_step_is_rejected() {
    let s = cubic_shape();
    let ck = key(4);
    let (u1, w1) = genesis(&s);
    let (u2, w2) = cubic_step(3);
    let (other, _) = cubic_step(4);
    let (nifs, _, _) = fold_once(&s, &ck, &u1, &w1, &u2, &w2, 4);
    assert_eq!(nifs.verify(&u1, &other), Err(FoldError::ProofVerifyError));
}
