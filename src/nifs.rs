//! The non-interactive folding scheme: a zero-check reduction of the fresh constraint
//! instance, then one sum-fold of the constraint and power-consistency relations.
use vstd::prelude::*;
use vstd::arithmetic::div_mod::{lemma_fundamental_div_mod, lemma_div_pos_is_pos};
use vstd::arithmetic::mul::lemma_mul_nonnegative;
use vstd::arithmetic::power2::{pow2, lemma_pow2_pos, lemma_pow2_strictly_increases};
use crate::field::{Scalar, is_scalar, fadd, fmul, fpow, flerp, inverse_of, field_add, field_mul, invert, reduce};
use crate::commitment::{Commitment, CommitmentKey, all_scalars, commit_spec};
use crate::poly::{PowPoly, pow2_usize, eq_spec, eq_evaluate, interpolate_spec};
use crate::r1cs::{R1CSShape, R1CSInstance, R1CSWitness, mat_vec, z_of};
use crate::transcript::{Transcript, mix, absorb_all};
use crate::sumfold::{
    SumFoldInputs, SumFoldInputsView, SumFoldProof, Relation, rel_sum, honest_evals,
    sum_check_passes, LABEL_BETA, LABEL_EVALS, LABEL_R_B,
};
use crate::sumfold;
use crate::running::{
    NSCInstance, NSCWitness, NSCPCInstance, NSCPCWitness, ZCPCInstance, ZCPCWitness,
    RunningZFInstance, RunningZFWitness, lerp_seq, copy_vec,
};
use crate::errors::FoldError;

verus! {

/// Transcript label of the protocol.
pub const LABEL_PROTOCOL: u64 = 0x4e6575744e6f76;

/// Transcript label of the fresh instance.
pub const LABEL_U2: u64 = 0x5532;

/// Transcript label of the challenge `tau`.
pub const LABEL_TAU: u64 = 0x746175;

/// Transcript label of the commitment to the new power polynomial.
pub const LABEL_COMM_E: u64 = 0x636f6d6d5f65;

/// Transcript label of the batching coefficient `gamma`.
pub const LABEL_GAMMA: u64 = 0x67616d6d61;

/// Transcript label of the constraint relation's final sum.
pub const LABEL_T: u64 = 0x54;

/// Transcript label of the power-consistency relation's final sum.
pub const LABEL_T_PC: u64 = 0x545f7063;

/// The proof of one fold.
#[derive(Clone, Debug, PartialEq, Eq)]
pub struct NIFS {
    pub comm_e: Commitment,
    pub sf_proof: SumFoldProof,
    pub t: Scalar,
    pub t_pc: Scalar,
}

/// `(1, tau, ..., tau^(n-1))`.
pub open spec fn pow_seq(tau: int, n: nat) -> Seq<Scalar> {
    Seq::new(n, |i: int| fpow(tau, i as nat) as u64)
}

/// The size of the low half when a power polynomial is split into two factors.
pub open spec fn split_size(ell: nat) -> nat {
    pow2(ell / 2)
}

/// `h1[i] = e[i mod m]`.
pub open spec fn low_part(e: Seq<Scalar>, m: nat) -> Seq<Scalar> {
    Seq::new(e.len(), |i: int| e[i % (m as int)])
}

/// `h2[i] = e[i - (i mod m)]`; for a power polynomial `h1[i] * h2[i] = e[i]`.
pub open spec fn high_part(e: Seq<Scalar>, m: nat) -> Seq<Scalar> {
    Seq::new(e.len(), |i: int| e[i - i % (m as int)])
}

/// The inputs of the constraint relation: `Az, Bz, Cz` and the two factors of `e`.
pub open spec fn nsc_inputs(s: &R1CSShape, x: Seq<Scalar>, w: Seq<Scalar>, e: Seq<Scalar>) -> SumFoldInputsView {
    let z = z_of(w, x);
    let m = split_size(s.log_num_cons as nat);
    SumFoldInputsView {
        v0: mat_vec(s.a.entries@, z, s.num_cons as nat),
        v1: mat_vec(s.b.entries@, z, s.num_cons as nat),
        v2: mat_vec(s.c.entries@, z, s.num_cons as nat),
        v3: low_part(e, m),
        v4: high_part(e, m),
    }
}

/// The inputs of the power-consistency relation: entry `i` checks
/// `new_e[i] == new_e[i-1] * tau` (and `new_e[0] == 1`), weighted by the previous `e[i]`.
pub open spec fn pc_inputs(e: Seq<Scalar>, new_e: Seq<Scalar>, tau: int) -> SumFoldInputsView {
    SumFoldInputsView {
        v0: new_e,
        v1: Seq::new(new_e.len(), |i: int| if i == 0 { 1u64 } else { new_e[i - 1] }),
        v2: Seq::new(new_e.len(), |i: int| if i == 0 { 1u64 } else { tau as u64 }),
        v3: e,
        v4: Seq::new(new_e.len(), |i: int| 1u64),
    }
}

/// Builds the constraint relation's inputs from an instance, a witness and its weights `e`.
pub fn nsc_to_sumfold_inputs(s: &R1CSShape, u: &R1CSInstance, w: &R1CSWitness, e: &Vec<Scalar>) -> (r: SumFoldInputs)
    requires
        s.wf(),
        s.fits(u, w),
        e@.len() == s.num_cons,
        all_scalars(e@),
    ensures
        r@ == nsc_inputs(s, u.x@, w.w@, e@),
        r@.wf(s.num_cons as nat),
{
    let (az, bz, cz) = s.multiply_vec(u, w);
    let n = s.num_cons;
    let m = pow2_usize(s.log_num_cons / 2);
    proof {
        lemma_pow2_pos((s.log_num_cons / 2) as nat);
        if s.log_num_cons / 2 < s.log_num_cons {
            lemma_pow2_strictly_increases((s.log_num_cons / 2) as nat, s.log_num_cons as nat);
        }
    }
    let mut h1: Vec<Scalar> = Vec::new();
    let mut h2: Vec<Scalar> = Vec::new();
    let mut i: usize = 0;
    while i < n
        invariant
            n == e@.len(),
            all_scalars(e@),
            0 < m <= n,
            m == split_size(s.log_num_cons as nat),
            i <= n,
            h1@ == low_part(e@, m as nat).subrange(0, i as int),
            h2@ == high_part(e@, m as nat).subrange(0, i as int),
            all_scalars(h1@),
            all_scalars(h2@),
        decreases n - i,
    {
        let lo = i % m;
        proof {
            lemma_fundamental_div_mod(i as int, m as int);
            lemma_div_pos_is_pos(i as int, m as int);
            lemma_mul_nonnegative(m as int, (i / m) as int);
        }
        h1.push(e[lo]);
        h2.push(e[i - lo]);
        i = i + 1;
    }
    assert(h1@ == low_part(e@, m as nat));
    assert(h2@ == high_part(e@, m as nat));
    SumFoldInputs { v0: az, v1: bz, v2: cz, v3: h1, v4: h2 }
}

/// Builds the power-consistency relation's inputs.
pub fn nsc_pc_to_sumfold_inputs(e: &Vec<Scalar>, new_e: &Vec<Scalar>, tau: Scalar) -> (r: SumFoldInputs)
    requires
        e@.len() == new_e@.len(),
        all_scalars(e@),
        all_scalars(new_e@),
        is_scalar(tau as int),
    ensures
        r@ == pc_inputs(e@, new_e@, tau as int),
        r@.wf(new_e@.len()),
{
    let n = new_e.len();
    let ghost p = pc_inputs(e@, new_e@, tau as int);
    let mut v1: Vec<Scalar> = Vec::new();
    let mut v2: Vec<Scalar> = Vec::new();
    let mut v4: Vec<Scalar> = Vec::new();
    let mut i: usize = 0;
    while i < n
        invariant
            n == new_e@.len(),
            all_scalars(new_e@),
            is_scalar(tau as int),
            p == pc_inputs(e@, new_e@, tau as int),
            i <= n,
            v1@ == p.v1.subrange(0, i as int),
            v2@ == p.v2.subrange(0, i as int),
            v4@ == p.v4.subrange(0, i as int),
            all_scalars(v1@),
            all_scalars(v2@),
            all_scalars(v4@),
        decreases n - i,
    {
        if i == 0 {
            v1.push(1);
            v2.push(1);
        } else {
            v1.push(new_e[i - 1]);
            v2.push(tau);
        }
        v4.push(1);
        i = i + 1;
    }
    assert(v1@ == p.v1);
    assert(v2@ == p.v2);
    assert(v4@ == p.v4);
    SumFoldInputs { v0: copy_vec(new_e), v1, v2, v3: copy_vec(e), v4 }
}

/// The transcript state once the fresh instance with public inputs `x2` is absorbed.
pub open spec fn start_state(x2: Seq<Scalar>) -> int {
    absorb_all(mix(0, LABEL_PROTOCOL as int), LABEL_U2 as int, x2)
}

/// The challenge `tau` of the zero-check reduction.
pub open spec fn tau_of(x2: Seq<Scalar>) -> int {
    mix(start_state(x2), LABEL_TAU as int)
}

/// The batching coefficient `gamma`, once the commitment `comm` is absorbed.
pub open spec fn gamma_of(x2: Seq<Scalar>, comm: int) -> int {
    mix(mix(mix(tau_of(x2), LABEL_COMM_E as int), comm), LABEL_GAMMA as int)
}

/// The sum-fold challenge `beta`.
pub open spec fn beta_of(x2: Seq<Scalar>, comm: int) -> int {
    mix(gamma_of(x2, comm), LABEL_BETA as int)
}

/// The challenge `r_b` that pins both relations, once the sum-fold evaluations are absorbed.
pub open spec fn r_b_of(x2: Seq<Scalar>, comm: int, evals: Seq<Scalar>) -> int {
    mix(absorb_all(beta_of(x2, comm), LABEL_EVALS as int, evals), LABEL_R_B as int)
}

/// Whether `u` is the running instance `u1` folded at `r_b` with the fresh instance `x2`, whose
/// new power polynomial has commitment `comm` and challenge `tau`, the new sums being `t` and
/// `t_pc`.
pub open spec fn folded_instance(
    u: &RunningZFInstance,
    u1: &RunningZFInstance,
    x2: Seq<Scalar>,
    comm: int,
    tau: int,
    r_b: int,
    t: int,
    t_pc: int,
) -> bool {
    &&& u.nsc.t == t
    &&& u.nsc.u.x@ == lerp_seq(u1.nsc.u.x@, x2, r_b)
    &&& u.nsc.comm_e == flerp(u1.nsc.comm_e as int, comm, r_b)
    &&& u.nsc_pc.t == t_pc
    &&& u.nsc_pc.comm_e == flerp(u1.nsc_pc.comm_e as int, u1.zc_pc.comm_e as int, r_b)
    &&& u.nsc_pc.tau == flerp(u1.nsc_pc.tau as int, tau, r_b)
    &&& u.nsc_pc.comm_new_e == flerp(u1.nsc_pc.comm_new_e as int, comm, r_b)
    &&& u.zc_pc.comm_e == comm
    &&& u.zc_pc.tau == tau
}

/// Whether `w` is the running witness `w1` folded at `r_b` with the fresh witness `w2`, whose
/// new power polynomial `e` has blinding `r_e`.
pub open spec fn folded_witness(
    w: &RunningZFWitness,
    w1: &RunningZFWitness,
    w2: Seq<Scalar>,
    e: Seq<Scalar>,
    r_e: int,
    r_b: int,
) -> bool {
    &&& w.nsc.w.w@ == lerp_seq(w1.nsc.w.w@, w2, r_b)
    &&& w.nsc.e@ == lerp_seq(w1.nsc.e@, e, r_b)
    &&& w.nsc.r_e == flerp(w1.nsc.r_e as int, r_e, r_b)
    &&& w.nsc_pc.e@ == lerp_seq(w1.nsc_pc.e@, w1.zc_pc.e@, r_b)
    &&& w.nsc_pc.new_e@ == lerp_seq(w1.nsc_pc.new_e@, e, r_b)
    &&& w.nsc_pc.r_e == flerp(w1.nsc_pc.r_e as int, w1.zc_pc.r_e as int, r_b)
    &&& w.nsc_pc.new_r_e == flerp(w1.nsc_pc.new_r_e as int, r_e, r_b)
    &&& w.zc_pc.e@ == e
    &&& w.zc_pc.r_e == r_e
}

/// What `prove` returns with blinding `r_e`: the proof, and the folded instance and witness.
pub open spec fn prove_outcome(
    s: &R1CSShape,
    ck: &CommitmentKey,
    u1: &RunningZFInstance,
    w1: &RunningZFWitness,
    u2: &R1CSInstance,
    w2: &R1CSWitness,
    r_e: int,
    nifs: &NIFS,
    u: &RunningZFInstance,
    w: &RunningZFWitness,
) -> bool {
    let n = s.num_cons as nat;
    let tau = tau_of(u2.x@);
    let e = pow_seq(tau, n);
    let comm = commit_spec(ck.gens@, ck.h, e, r_e as u64);
    let g = nsc_inputs(s, u1.nsc.u.x@, w1.nsc.w.w@, w1.nsc.e@);
    let h = nsc_inputs(s, u2.x@, w2.w@, e);
    let g_pc = pc_inputs(w1.nsc_pc.e@, w1.nsc_pc.new_e@, u1.nsc_pc.tau as int);
    let h_pc = pc_inputs(w1.zc_pc.e@, e, tau);
    let evals = honest_evals(g, h, g_pc, h_pc, gamma_of(u2.x@, comm), beta_of(u2.x@, comm));
    let r_b = r_b_of(u2.x@, comm, evals);
    &&& nifs.comm_e == comm
    &&& nifs.sf_proof.evals@ == evals
    &&& nifs.t == rel_sum(Relation::Constraint, g, h, r_b, n)
    &&& nifs.t_pc == rel_sum(Relation::PowerConsistency, g_pc, h_pc, r_b, n)
    &&& folded_instance(u, u1, u2.x@, comm, tau, r_b, nifs.t as int, nifs.t_pc as int)
    &&& folded_witness(w, w1, w2.w@, e, r_e, r_b)
    &&& u.wf(s)
    &&& w.wf(s)
}

/// Whether the verifier accepts `nifs` for the running instance `u1` and the fresh `u2`:
/// the proof's scalars are canonical, the sum-fold proof meets the combined claim, and
/// `Q(r_b) / eq(beta, r_b) == T + gamma * T_pc`.
pub open spec fn verify_accepts(nifs: &NIFS, u1: &RunningZFInstance, u2: &R1CSInstance) -> bool {
    let comm = nifs.comm_e as int;
    let gamma = gamma_of(u2.x@, comm);
    let beta = beta_of(u2.x@, comm);
    let evals = nifs.sf_proof.evals@;
    let r_b = r_b_of(u2.x@, comm, evals);
    let claim = fadd(u1.nsc.t as int, fmul(gamma, u1.nsc_pc.t as int));
    &&& is_scalar(comm)
    &&& is_scalar(nifs.t as int)
    &&& is_scalar(nifs.t_pc as int)
    &&& sum_check_passes(evals, beta, claim, 0)
    &&& interpolate_spec(evals, r_b) is Some
    &&& inverse_of(eq_spec(beta, r_b)) is Some
    &&& fmul(interpolate_spec(evals, r_b)->0, inverse_of(eq_spec(beta, r_b))->0)
        == fadd(nifs.t as int, fmul(gamma, nifs.t_pc as int))
}

/// What `verify` returns: the folded instance exactly when the verifier accepts, and
/// `ProofVerifyError` otherwise.
pub open spec fn verify_outcome(
    nifs: &NIFS,
    u1: &RunningZFInstance,
    u2: &R1CSInstance,
    r: Result<RunningZFInstance, FoldError>,
) -> bool {
    &&& r is Ok <==> verify_accepts(nifs, u1, u2)
    &&& r matches Ok(u) ==> folded_instance(
        &u,
        u1,
        u2.x@,
        nifs.comm_e as int,
        tau_of(u2.x@),
        r_b_of(u2.x@, nifs.comm_e as int, nifs.sf_proof.evals@),
        nifs.t as int,
        nifs.t_pc as int,
    )
    &&& r matches Err(e) ==> e == FoldError::ProofVerifyError
}

/// The zero-check reduction of a fresh constraint instance into the three sub-claims.
pub struct ZeroCheckReduction;

impl ZeroCheckReduction {
    /// Prover side: draws `tau`, commits to the power polynomial of `tau` with blinding `r_e`,
    /// and builds the constraint, power-consistency and new zero-check views.
    pub fn prove(
        ck: &CommitmentKey,
        transcript: &mut Transcript,
        zc_u: &ZCPCInstance,
        zc_w: &ZCPCWitness,
        u: R1CSInstance,
        w: R1CSWitness,
        ell: usize,
        r_e: Scalar,
    ) -> (r: (NSCInstance, NSCWitness, NSCPCInstance, NSCPCWitness, ZCPCInstance, ZCPCWitness))
        requires
            old(transcript).wf(),
            ck.wf(),
            ell < 31,
            ck.gens@.len() >= pow2(ell as nat),
            zc_u.wf(),
            all_scalars(zc_w.e@),
            is_scalar(zc_w.r_e as int),
            is_scalar(r_e as int),
        ensures
            ({
                let tau = mix(old(transcript).state as int, LABEL_TAU as int);
                let e = pow_seq(tau, pow2(ell as nat));
                let comm = commit_spec(ck.gens@, ck.h, e, r_e);
                &&& final(transcript).state == mix(mix(tau, LABEL_COMM_E as int), comm)
                &&& r.0.t == 0 && r.0.u.x@ == u.x@ && r.0.comm_e == comm
                &&& r.1.w.w@ == w.w@ && r.1.e@ == e && r.1.r_e == r_e
                &&& r.2.t == 0 && r.2.comm_e == zc_u.comm_e && r.2.tau == tau
                &&& r.2.comm_new_e == comm
                &&& r.3.e@ == zc_w.e@ && r.3.new_e@ == e && r.3.r_e == zc_w.r_e
                &&& r.3.new_r_e == r_e
                &&& r.4.comm_e == comm && r.4.tau == tau
                &&& r.5.e@ == e && r.5.r_e == r_e
            }),
            final(transcript).wf(),
            r.4.wf(),
            all_scalars(r.5.e@),
    {
        let tau = transcript.squeeze(LABEL_TAU);
        let e = PowPoly::new(tau, ell);
        assert(e.evals@ == pow_seq(tau as int, pow2(ell as nat)));
        let comm_e = ck.commit(&e.evals, r_e);
        transcript.absorb(LABEL_COMM_E, comm_e);
        let nsc_u = NSCInstance { t: 0, u, comm_e };
        let nsc_w = NSCWitness { w, e: copy_vec(&e.evals), r_e };
        let nsc_pc_u = NSCPCInstance { t: 0, comm_e: zc_u.comm_e, tau, comm_new_e: comm_e };
        let nsc_pc_w = NSCPCWitness {
            e: copy_vec(&zc_w.e),
            new_e: copy_vec(&e.evals),
            r_e: zc_w.r_e,
            new_r_e: r_e,
        };
        let new_zc_u = ZCPCInstance { comm_e, tau };
        let new_zc_w = ZCPCWitness { e: e.evals, r_e };
        (nsc_u, nsc_w, nsc_pc_u, nsc_pc_w, new_zc_u, new_zc_w)
    }

    /// Verifier side: the same challenge and absorption order, with the commitment `comm_e`
    /// taken from the proof.
    pub fn verify(transcript: &mut Transcript, zc_u: &ZCPCInstance, u: R1CSInstance, comm_e: Commitment) -> (r: (
        NSCInstance,
        NSCPCInstance,
        ZCPCInstance,
    ))
        requires
            old(transcript).wf(),
            zc_u.wf(),
            is_scalar(comm_e as int),
        ensures
            ({
                let tau = mix(old(transcript).state as int, LABEL_TAU as int);
                &&& final(transcript).state == mix(mix(tau, LABEL_COMM_E as int), comm_e as int)
                &&& r.0.t == 0 && r.0.u.x@ == u.x@ && r.0.comm_e == comm_e
                &&& r.1.t == 0 && r.1.comm_e == zc_u.comm_e && r.1.tau == tau
                &&& r.1.comm_new_e == comm_e
                &&& r.2.comm_e == comm_e && r.2.tau == tau
            }),
            final(transcript).wf(),
            r.1.wf(),
            r.2.wf(),
    {
        let tau = transcript.squeeze(LABEL_TAU);
        transcript.absorb(LABEL_COMM_E, comm_e);
        let nsc_u = NSCInstance { t: 0, u, comm_e };
        let nsc_pc_u = NSCPCInstance { t: 0, comm_e: zc_u.comm_e, tau, comm_new_e: comm_e };
        let new_zc_u = ZCPCInstance { comm_e, tau };
        (nsc_u, nsc_pc_u, new_zc_u)
    }
}

impl NIFS {
    /// The folding prover, with the blinding scalar `r_e` of the new power polynomial given.
    pub fn prove_with_blinding(
        s: &R1CSShape,
        ck: &CommitmentKey,
        u1: &RunningZFInstance,
        w1: &RunningZFWitness,
        u2: &R1CSInstance,
        w2: &R1CSWitness,
        r_e: Scalar,
    ) -> (r: Result<(NIFS, (RunningZFInstance, RunningZFWitness)), FoldError>)
        requires
            s.wf(),
            ck.wf(),
            ck.gens@.len() >= s.num_cons,
            u1.wf(s),
            w1.wf(s),
            s.fits(u2, w2),
            is_scalar(r_e as int),
        ensures
            r matches Ok((nifs, (u, w))) && prove_outcome(s, ck, u1, w1, u2, w2, r_e as int, &nifs, &u, &w),
    {
        let mut transcript = Transcript::new(LABEL_PROTOCOL);
        transcript.absorb_vec(LABEL_U2, &u2.x);
        let fresh_u = R1CSInstance { x: copy_vec(&u2.x) };
        let fresh_w = R1CSWitness { w: copy_vec(&w2.w) };
        let (nsc_u2, nsc_w2, nsc_pc_u2, nsc_pc_w2, new_zc_u, new_zc_w) = ZeroCheckReduction::prove(
            ck,
            &mut transcript,
            &u1.zc_pc,
            &w1.zc_pc,
            fresh_u,
            fresh_w,
            s.log_num_cons,
            r_e,
        );
        let g = nsc_to_sumfold_inputs(s, &u1.nsc.u, &w1.nsc.w, &w1.nsc.e);
        let h = nsc_to_sumfold_inputs(s, &nsc_u2.u, &nsc_w2.w, &nsc_w2.e);
        let g_pc = nsc_pc_to_sumfold_inputs(&w1.nsc_pc.e, &w1.nsc_pc.new_e, u1.nsc_pc.tau);
        let h_pc = nsc_pc_to_sumfold_inputs(&nsc_pc_w2.e, &nsc_pc_w2.new_e, nsc_pc_u2.tau);
        let gamma = transcript.squeeze(LABEL_GAMMA);
        let (sf_proof, r_b, t, t_pc) = sumfold::prove(&mut transcript, &g, &h, &g_pc, &h_pc, gamma);
        transcript.absorb(LABEL_T, t);
        transcript.absorb(LABEL_T_PC, t_pc);
        let nifs = NIFS { comm_e: new_zc_u.comm_e, sf_proof, t, t_pc };
        let u = u1.fold(&nsc_u2, r_b, t, &nsc_pc_u2, t_pc, new_zc_u);
        let w = w1.fold(&nsc_w2, r_b, &nsc_pc_w2, new_zc_w);
        Ok((nifs, (u, w)))
    }

    /// The folding prover: folds the fresh `(u2, w2)` into the running `(u1, w1)`, blinding the
    /// new power polynomial with a scalar drawn from the operating system. Fails with
    /// `RandomnessError`, and only with it, where the operating system's source reports an error.
    pub fn prove(
        s: &R1CSShape,
        ck: &CommitmentKey,
        u1: &RunningZFInstance,
        w1: &RunningZFWitness,
        u2: &R1CSInstance,
        w2: &R1CSWitness,
    ) -> (r: Result<(NIFS, (RunningZFInstance, RunningZFWitness)), FoldError>)
        requires
            s.wf(),
            ck.wf(),
            ck.gens@.len() >= s.num_cons,
            u1.wf(s),
            w1.wf(s),
            s.fits(u2, w2),
        ensures
            r matches Ok((nifs, (u, w))) ==> exists|r_e: int|
                is_scalar(r_e) && prove_outcome(s, ck, u1, w1, u2, w2, r_e, &nifs, &u, &w),
            r matches Err(e) ==> e == FoldError::RandomnessError,
    {
        match crate::rng::os_random_u64() {
            None => Err(FoldError::RandomnessError),
            Some(x) => Self::prove_with_blinding(s, ck, u1, w1, u2, w2, reduce(x)),
        }
    }

    /// The folding verifier: re-derives the transcript, checks the sum-fold proof and
    /// `Q(r_b) / eq(beta, r_b) == T + gamma * T_pc`, and returns the folded running instance.
    pub fn verify(&self, u1: &RunningZFInstance, u2: &R1CSInstance) -> (r: Result<RunningZFInstance, FoldError>)
        requires
            is_scalar(u1.nsc.t as int),
            is_scalar(u1.nsc.comm_e as int),
            all_scalars(u1.nsc.u.x@),
            u1.nsc_pc.wf(),
            u1.zc_pc.wf(),
            all_scalars(u2.x@),
            u2.x@.len() == u1.nsc.u.x@.len(),
        ensures
            verify_outcome(self, u1, u2, r),
    {
        if self.comm_e >= crate::field::MODULUS || self.t >= crate::field::MODULUS
            || self.t_pc >= crate::field::MODULUS {
            return Err(FoldError::ProofVerifyError);
        }
        let mut transcript = Transcript::new(LABEL_PROTOCOL);
        transcript.absorb_vec(LABEL_U2, &u2.x);
        let fresh_u = R1CSInstance { x: copy_vec(&u2.x) };
        let (nsc_u2, nsc_pc_u2, new_zc_u) = ZeroCheckReduction::verify(
            &mut transcript,
            &u1.zc_pc,
            fresh_u,
            self.comm_e,
        );
        let gamma = transcript.squeeze(LABEL_GAMMA);
        let claim = field_add(u1.nsc.t, field_mul(gamma, u1.nsc_pc.t));
        let (c, beta, r_b) = match self.sf_proof.verify(&mut transcript, claim, 0) {
            Err(e) => {
                return Err(e);
            },
            Ok(v) => v,
        };
        transcript.absorb(LABEL_T, self.t);
        transcript.absorb(LABEL_T_PC, self.t_pc);
        let inv = match invert(eq_evaluate(beta, r_b)) {
            None => {
                return Err(FoldError::ProofVerifyError);
            },
            Some(i) => i,
        };
        let t_gamma = field_mul(c, inv);
        if t_gamma != field_add(self.t, field_mul(gamma, self.t_pc)) {
            return Err(FoldError::ProofVerifyError);
        }
        Ok(u1.fold(&nsc_u2, r_b, self.t, &nsc_pc_u2, self.t_pc, new_zc_u))
    }
}

} // verus!
