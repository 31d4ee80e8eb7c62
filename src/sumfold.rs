//! Sum-fold of two instances of two hypercube-sum relations under one random combination.
//!
//! Each relation sums an integrand of five inputs over the hypercube. The running and the
//! fresh instance are joined by the line `b -> (1 - b) * running + b * fresh` through their
//! inputs; the prover sends `Q(b) = eq(beta, b) * (S(b) + gamma * S_pc(b))` at `b = 0..5`,
//! and both sides then pin `b` to a challenge `r_b`.
use vstd::prelude::*;
use crate::field::{Scalar, is_scalar, fadd, fsub, fmul, flerp, field_add, field_sub, field_mul};
use crate::commitment::all_scalars;
use crate::poly::{eq_spec, eq_evaluate, interpolate, interpolate_spec};
use crate::transcript::{Transcript, mix, absorb_all};
use crate::errors::FoldError;

verus! {

/// The number of evaluations in a sum-fold proof: the combined polynomial has degree five.
pub const NUM_EVALS: usize = 6;

/// Transcript label of the challenge `beta`.
pub const LABEL_BETA: u64 = 0x62657461;

/// Transcript label of the sum-fold evaluations.
pub const LABEL_EVALS: u64 = 0x6576616c73;

/// Transcript label of the challenge `r_b`.
pub const LABEL_R_B: u64 = 0x725f62;

/// Which of the two relations an integrand belongs to.
#[derive(Clone, Copy, PartialEq, Eq, Debug)]
pub enum Relation {
    /// `(az * bz - cz) * h1 * h2`
    Constraint,
    /// `(g1 - g2 * g3) * h1 * h2`
    PowerConsistency,
}

/// The five input vectors of one relation, one entry per hypercube point.
#[derive(Clone, Debug, PartialEq, Eq)]
pub struct SumFoldInputs {
    pub v0: Vec<Scalar>,
    pub v1: Vec<Scalar>,
    pub v2: Vec<Scalar>,
    pub v3: Vec<Scalar>,
    pub v4: Vec<Scalar>,
}

/// The five input vectors as sequences.
pub struct SumFoldInputsView {
    pub v0: Seq<Scalar>,
    pub v1: Seq<Scalar>,
    pub v2: Seq<Scalar>,
    pub v3: Seq<Scalar>,
    pub v4: Seq<Scalar>,
}

impl View for SumFoldInputs {
    type V = SumFoldInputsView;

    open spec fn view(&self) -> SumFoldInputsView {
        SumFoldInputsView { v0: self.v0@, v1: self.v1@, v2: self.v2@, v3: self.v3@, v4: self.v4@ }
    }
}

/// A sum-fold proof: `Q(0), ..., Q(5)`.
#[derive(Clone, Debug, PartialEq, Eq)]
pub struct SumFoldProof {
    pub evals: Vec<Scalar>,
}

pub open spec fn integrand(rel: Relation, a: int, b: int, c: int, d: int, e: int) -> int {
    match rel {
        Relation::Constraint => fmul(fmul(fsub(fmul(a, b), c), d), e),
        Relation::PowerConsistency => fmul(fmul(fsub(a, fmul(b, c)), d), e),
    }
}

impl SumFoldInputsView {
    pub open spec fn wf(&self, n: nat) -> bool {
        &&& self.v0.len() == n && all_scalars(self.v0)
        &&& self.v1.len() == n && all_scalars(self.v1)
        &&& self.v2.len() == n && all_scalars(self.v2)
        &&& self.v3.len() == n && all_scalars(self.v3)
        &&& self.v4.len() == n && all_scalars(self.v4)
    }
}

/// The integrand at hypercube point `i`, on the line from `g` to `h` at `b`.
pub open spec fn term(rel: Relation, g: SumFoldInputsView, h: SumFoldInputsView, i: int, b: int) -> int {
    integrand(
        rel,
        flerp(g.v0[i] as int, h.v0[i] as int, b),
        flerp(g.v1[i] as int, h.v1[i] as int, b),
        flerp(g.v2[i] as int, h.v2[i] as int, b),
        flerp(g.v3[i] as int, h.v3[i] as int, b),
        flerp(g.v4[i] as int, h.v4[i] as int, b),
    )
}

/// `sum_{i < k} term(rel, g, h, i, b)`.
pub open spec fn rel_sum(rel: Relation, g: SumFoldInputsView, h: SumFoldInputsView, b: int, k: nat) -> int
    decreases k,
{
    if k == 0 {
        0
    } else {
        fadd(rel_sum(rel, g, h, b, (k - 1) as nat), term(rel, g, h, k - 1, b))
    }
}

/// `S(b) + gamma * S_pc(b)`.
pub open spec fn combined(
    g: SumFoldInputsView,
    h: SumFoldInputsView,
    g_pc: SumFoldInputsView,
    h_pc: SumFoldInputsView,
    gamma: int,
    b: int,
) -> int {
    fadd(
        rel_sum(Relation::Constraint, g, h, b, g.v0.len()),
        fmul(gamma, rel_sum(Relation::PowerConsistency, g_pc, h_pc, b, g_pc.v0.len())),
    )
}

/// The evaluations an honest prover sends: `eq(beta, b) * combined(b)` for `b = 0..5`.
pub open spec fn honest_evals(
    g: SumFoldInputsView,
    h: SumFoldInputsView,
    g_pc: SumFoldInputsView,
    h_pc: SumFoldInputsView,
    gamma: int,
    beta: int,
) -> Seq<Scalar> {
    Seq::new(
        NUM_EVALS as nat,
        |b: int| fmul(eq_spec(beta, b), combined(g, h, g_pc, h_pc, gamma, b)) as u64,
    )
}

/// The sum of one relation over the hypercube, at point `b` of the line from `g` to `h`.
pub fn relation_sum(rel: Relation, g: &SumFoldInputs, h: &SumFoldInputs, b: Scalar) -> (r: Scalar)
    requires
        g@.wf(g.v0@.len()),
        h@.wf(g.v0@.len()),
        is_scalar(b as int),
    ensures
        r == rel_sum(rel, g@, h@, b as int, g.v0@.len()),
        is_scalar(r as int),
{
    let n = g.v0.len();
    let one_b = field_sub(1, b);
    let mut acc: Scalar = 0;
    let mut i: usize = 0;
    while i < n
        invariant
            n == g.v0@.len(),
            g@.wf(n as nat),
            h@.wf(n as nat),
            is_scalar(b as int),
            one_b == fsub(1, b as int),
            i <= n,
            acc == rel_sum(rel, g@, h@, b as int, i as nat),
            is_scalar(acc as int),
        decreases n - i,
    {
        let a = field_add(field_mul(one_b, g.v0[i]), field_mul(b, h.v0[i]));
        let bb = field_add(field_mul(one_b, g.v1[i]), field_mul(b, h.v1[i]));
        let c = field_add(field_mul(one_b, g.v2[i]), field_mul(b, h.v2[i]));
        let d = field_add(field_mul(one_b, g.v3[i]), field_mul(b, h.v3[i]));
        let e = field_add(field_mul(one_b, g.v4[i]), field_mul(b, h.v4[i]));
        let core = match rel {
            Relation::Constraint => field_sub(field_mul(a, bb), c),
            Relation::PowerConsistency => field_sub(a, field_mul(bb, c)),
        };
        let t = field_mul(field_mul(core, d), e);
        acc = field_add(acc, t);
        i = i + 1;
    }
    acc
}

fn combined_at(
    g: &SumFoldInputs,
    h: &SumFoldInputs,
    g_pc: &SumFoldInputs,
    h_pc: &SumFoldInputs,
    gamma: Scalar,
    b: Scalar,
) -> (r: Scalar)
    requires
        g@.wf(g.v0@.len()),
        h@.wf(g.v0@.len()),
        g_pc@.wf(g_pc.v0@.len()),
        h_pc@.wf(g_pc.v0@.len()),
        is_scalar(gamma as int),
        is_scalar(b as int),
    ensures
        r == combined(g@, h@, g_pc@, h_pc@, gamma as int, b as int),
        is_scalar(r as int),
{
    let s = relation_sum(Relation::Constraint, g, h, b);
    let s_pc = relation_sum(Relation::PowerConsistency, g_pc, h_pc, b);
    field_add(s, field_mul(gamma, s_pc))
}

/// Runs the sum-fold prover: returns the proof, the challenge `r_b`, and the sums of the two
/// relations at `r_b`.
pub fn prove(
    transcript: &mut Transcript,
    g: &SumFoldInputs,
    h: &SumFoldInputs,
    g_pc: &SumFoldInputs,
    h_pc: &SumFoldInputs,
    gamma: Scalar,
) -> (r: (SumFoldProof, Scalar, Scalar, Scalar))
    requires
        old(transcript).wf(),
        g@.wf(g.v0@.len()),
        h@.wf(g.v0@.len()),
        g_pc@.wf(g_pc.v0@.len()),
        h_pc@.wf(g_pc.v0@.len()),
        is_scalar(gamma as int),
    ensures
        ({
            let beta = mix(old(transcript).state as int, LABEL_BETA as int);
            let evals = honest_evals(g@, h@, g_pc@, h_pc@, gamma as int, beta);
            let r_b = mix(absorb_all(beta, LABEL_EVALS as int, evals), LABEL_R_B as int);
            &&& r.0.evals@ == evals
            &&& r.1 == r_b
            &&& r.2 == rel_sum(Relation::Constraint, g@, h@, r_b, g.v0@.len())
            &&& r.3 == rel_sum(Relation::PowerConsistency, g_pc@, h_pc@, r_b, g_pc.v0@.len())
            &&& final(transcript).state == r_b
        }),
        all_scalars(r.0.evals@),
        is_scalar(r.1 as int),
        is_scalar(r.2 as int),
        is_scalar(r.3 as int),
        final(transcript).wf(),
{
    let beta = transcript.squeeze(LABEL_BETA);
    let mut evals: Vec<Scalar> = Vec::new();
    let mut b: usize = 0;
    while b < NUM_EVALS
        invariant
            g@.wf(g.v0@.len()),
            h@.wf(g.v0@.len()),
            g_pc@.wf(g_pc.v0@.len()),
            h_pc@.wf(g_pc.v0@.len()),
            is_scalar(gamma as int),
            is_scalar(beta as int),
            b <= NUM_EVALS,
            evals@ == honest_evals(g@, h@, g_pc@, h_pc@, gamma as int, beta as int).subrange(0, b as int),
            all_scalars(evals@),
        decreases NUM_EVALS - b,
    {
        let s = combined_at(g, h, g_pc, h_pc, gamma, b as u64);
        let q = field_mul(eq_evaluate(beta, b as u64), s);
        evals.push(q);
        b = b + 1;
    }
    assert(evals@ == honest_evals(g@, h@, g_pc@, h_pc@, gamma as int, beta as int));
    transcript.absorb_vec(LABEL_EVALS, &evals);
    let r_b = transcript.squeeze(LABEL_R_B);
    let t = relation_sum(Relation::Constraint, g, h, r_b);
    let t_pc = relation_sum(Relation::PowerConsistency, g_pc, h_pc, r_b);
    (SumFoldProof { evals }, r_b, t, t_pc)
}

/// Whether every entry of `v` is a canonical field element.
pub fn all_canonical(v: &Vec<Scalar>) -> (r: bool)
    ensures
        r == all_scalars(v@),
{
    let mut i: usize = 0;
    while i < v.len()
        invariant
            i <= v@.len(),
            all_scalars(v@.subrange(0, i as int)),
        decreases v@.len() - i,
    {
        if v[i] >= crate::field::MODULUS {
            assert(v@.subrange(0, i + 1)[i as int] == v@[i as int]);
            return false;
        }
        assert forall|j: int| 0 <= j < i + 1 implies is_scalar(#[trigger] v@.subrange(0, i + 1)[j] as int) by {
            if j < i {
                assert(v@.subrange(0, i + 1)[j] == v@.subrange(0, i as int)[j]);
            }
        }
        i = i + 1;
    }
    assert(v@.subrange(0, v@.len() as int) == v@);
    true
}

/// Whether a proof has the right size and its evaluations meet the claim:
/// `Q(0) + Q(1) == (1 - beta) * claim + beta * target`.
pub open spec fn sum_check_passes(evals: Seq<Scalar>, beta: int, claim: int, target: int) -> bool {
    &&& evals.len() == NUM_EVALS
    &&& all_scalars(evals)
    &&& fadd(evals[0] as int, evals[1] as int) == fadd(fmul(fsub(1, beta), claim), fmul(beta, target))
}

impl SumFoldProof {
    /// Checks the proof against `claim` for the running instance and `target` for the fresh
    /// one; on success returns `(Q(r_b), beta, r_b)`.
    pub fn verify(&self, transcript: &mut Transcript, claim: Scalar, target: Scalar) -> (r: Result<
        (Scalar, Scalar, Scalar),
        FoldError,
    >)
        requires
            old(transcript).wf(),
            is_scalar(claim as int),
            is_scalar(target as int),
        ensures
            ({
                let beta = mix(old(transcript).state as int, LABEL_BETA as int);
                let r_b = mix(absorb_all(beta, LABEL_EVALS as int, self.evals@), LABEL_R_B as int);
                let ok = sum_check_passes(self.evals@, beta, claim as int, target as int)
                    && interpolate_spec(self.evals@, r_b) is Some;
                &&& r is Ok <==> ok
                &&& r matches Ok(v) ==> {
                    &&& Some(v.0 as int) == interpolate_spec(self.evals@, r_b)
                    &&& v.1 == beta
                    &&& v.2 == r_b
                    &&& final(transcript).state == r_b
                    &&& is_scalar(v.0 as int)
                    &&& is_scalar(v.1 as int)
                    &&& is_scalar(v.2 as int)
                }
                &&& r matches Err(e) ==> e == FoldError::ProofVerifyError
            }),
            final(transcript).wf(),
    {
        let beta = transcript.squeeze(LABEL_BETA);
        if self.evals.len() != NUM_EVALS || !all_canonical(&self.evals) {
            return Err(FoldError::ProofVerifyError);
        }
        let lhs = field_add(self.evals[0], self.evals[1]);
        let rhs = field_add(field_mul(field_sub(1, beta), claim), field_mul(beta, target));
        if lhs != rhs {
            return Err(FoldError::ProofVerifyError);
        }
        transcript.absorb_vec(LABEL_EVALS, &self.evals);
        let r_b = transcript.squeeze(LABEL_R_B);
        match interpolate(&self.evals, r_b) {
            None => Err(FoldError::ProofVerifyError),
            Some(c) => Ok((c, beta, r_b)),
        }
    }
}

} // verus!
