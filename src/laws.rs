//! Properties of the folding scheme, stated over the contracts of `prove` and `verify`.
use vstd::prelude::*;
use vstd::arithmetic::div_mod::{
    lemma_small_mod, lemma_mod_bound, lemma_mul_mod_noop_left, lemma_mul_mod_noop_right,
    lemma_add_mod_noop, lemma_add_mod_noop_right,
};
use vstd::arithmetic::mul::lemma_mul_basics;
use vstd::arithmetic::power::{pow, lemma_pow_adds, lemma_pow0, lemma_pow1};
use crate::field::{Scalar, p, is_scalar, fadd, fsub, fmul, flerp, inverse_of};
use crate::commitment::{CommitmentKey, all_scalars, commit_spec, inner_product};
use crate::r1cs::{R1CSShape, R1CSInstance, R1CSWitness, mat_vec, matrix_wf};
use crate::sumfold::{SumFoldInputsView, Relation, rel_sum, term, sum_check_passes};
use crate::poly::eq_spec;
use crate::running::{
    RunningZFInstance, RunningZFWitness, is_genesis, zeros, same_instance, same_witness, lerp_seq,
};
use crate::nifs::{NIFS, prove_outcome, verify_outcome, verify_accepts, nsc_inputs, pc_inputs, pow_seq};
use crate::errors::FoldError;

verus! {

proof fn lemma_lerp_same(a: int, r: int)
    requires
        is_scalar(a),
    ensures
        flerp(a, a, r) == a,
{
    lemma_mul_mod_noop_left(1 - r, a, p());
    lemma_add_mod_noop((1 - r) * a, r * a, p());
    assert((1 - r) * a + r * a == a) by (nonlinear_arith);
    lemma_small_mod(a as nat, p() as nat);
}

proof fn lemma_mul_zero(x: int)
    ensures
        fmul(x, 0) == 0,
        fmul(0, x) == 0,
{
    lemma_mul_basics(x);
    lemma_small_mod(0, p() as nat);
}

proof fn lemma_mat_vec_scalars(m: Seq<(usize, usize, Scalar)>, z: Seq<Scalar>, rows: nat, cols: nat)
    requires
        matrix_wf(m, rows, cols),
    ensures
        mat_vec(m, z, rows).len() == rows,
        all_scalars(mat_vec(m, z, rows)),
    decreases m.len(),
{
    if m.len() > 0 {
        let prev = mat_vec(m.drop_last(), z, rows);
        assert(matrix_wf(m.drop_last(), rows, cols)) by {
            assert forall|k: int| 0 <= k < m.drop_last().len() implies (#[trigger] m.drop_last()[k]).0 < rows
                && m.drop_last()[k].1 < cols && is_scalar(m.drop_last()[k].2 as int) by {
                assert(m.drop_last()[k] == m[k]);
            }
        }
        lemma_mat_vec_scalars(m.drop_last(), z, rows, cols);
        let (r, c, v) = m.last();
        assert(m[m.len() - 1] == m.last());
        lemma_mod_bound(prev[r as int] as int + fmul(v as int, z[c as int] as int), p());
    }
}

proof fn lemma_rel_sum_zero(rel: Relation, g: SumFoldInputsView, h: SumFoldInputsView, b: int, k: nat)
    requires
        forall|i: int| 0 <= i < k ==> term(rel, g, h, i, b) == 0,
    ensures
        rel_sum(rel, g, h, b, k) == 0,
    decreases k,
{
    if k > 0 {
        lemma_rel_sum_zero(rel, g, h, b, (k - 1) as nat);
        lemma_small_mod(0, p() as nat);
    }
}

proof fn lemma_mod_lin(c1: int, x1: int, c2: int, x2: int)
    ensures
        (c1 * (x1 % p()) + c2 * (x2 % p())) % p() == (c1 * x1 + c2 * x2) % p(),
{
    lemma_mul_mod_noop_right(c1, x1, p());
    lemma_mul_mod_noop_right(c2, x2, p());
    lemma_add_mod_noop(c1 * (x1 % p()), c2 * (x2 % p()), p());
    lemma_add_mod_noop(c1 * x1, c2 * x2, p());
}

proof fn lemma_flerp_mod(a: int, b: int, r: int)
    ensures
        flerp(a, b, r) == ((1 - r) * a + r * b) % p(),
{
    lemma_mul_mod_noop_left(1 - r, a, p());
    lemma_add_mod_noop((1 - r) * a, r * b, p());
}

/// One step of a sparse product commutes with the line through two vectors.
proof fn lemma_lerp_mac(a1: int, a2: int, v: int, b1: int, b2: int, r: int)
    requires
        is_scalar(a1),
        is_scalar(a2),
    ensures
        fadd(flerp(a1, a2, r), fmul(v, flerp(b1, b2, r))) == flerp(
            fadd(a1, fmul(v, b1)),
            fadd(a2, fmul(v, b2)),
            r,
        ),
{
    let big_a = (1 - r) * a1 + r * a2;
    let big_b = (1 - r) * b1 + r * b2;
    lemma_flerp_mod(a1, a2, r);
    lemma_flerp_mod(b1, b2, r);
    lemma_mul_mod_noop_right(v, big_b, p());
    lemma_add_mod_noop(big_a, v * big_b, p());
    lemma_add_mod_noop_right(a1, v * b1, p());
    lemma_add_mod_noop_right(a2, v * b2, p());
    lemma_flerp_mod(fadd(a1, fmul(v, b1)), fadd(a2, fmul(v, b2)), r);
    lemma_mod_lin(1 - r, a1 + v * b1, r, a2 + v * b2);
    assert((1 - r) * (a1 + v * b1) + r * (a2 + v * b2) == big_a + v * big_b) by (nonlinear_arith)
        requires
            big_a == (1 - r) * a1 + r * a2,
            big_b == (1 - r) * b1 + r * b2;
}

/// The sparse product is linear: on the line between `z1` and `z2` it is the line between the
/// two products.
proof fn lemma_mat_vec_lerp(
    m: Seq<(usize, usize, Scalar)>,
    z1: Seq<Scalar>,
    z2: Seq<Scalar>,
    r: int,
    rows: nat,
)
    requires
        matrix_wf(m, rows, z1.len()),
        z1.len() == z2.len(),
    ensures
        mat_vec(m, lerp_seq(z1, z2, r), rows).len() == rows,
        forall|i: int|
            0 <= i < rows ==> #[trigger] mat_vec(m, lerp_seq(z1, z2, r), rows)[i] as int == flerp(
                mat_vec(m, z1, rows)[i] as int,
                mat_vec(m, z2, rows)[i] as int,
                r,
            ),
    decreases m.len(),
{
    let zl = lerp_seq(z1, z2, r);
    lemma_mat_vec_scalars(m, z1, rows, z1.len());
    lemma_mat_vec_scalars(m, z2, rows, z1.len());
    lemma_mat_vec_scalars(m, zl, rows, z1.len());
    if m.len() == 0 {
        assert forall|i: int| 0 <= i < rows implies #[trigger] mat_vec(m, zl, rows)[i] as int == flerp(
            mat_vec(m, z1, rows)[i] as int,
            mat_vec(m, z2, rows)[i] as int,
            r,
        ) by {
            lemma_lerp_same(0, r);
        }
    } else {
        let d = m.drop_last();
        assert(matrix_wf(d, rows, z1.len())) by {
            assert forall|k: int| 0 <= k < d.len() implies (#[trigger] d[k]).0 < rows && d[k].1 < z1.len()
                && is_scalar(d[k].2 as int) by {
                assert(d[k] == m[k]);
            }
        }
        lemma_mat_vec_lerp(d, z1, z2, r, rows);
        lemma_mat_vec_scalars(d, z1, rows, z1.len());
        lemma_mat_vec_scalars(d, z2, rows, z1.len());
        let (ro, c, v) = m.last();
        assert(m[m.len() - 1] == m.last());
        let p1 = mat_vec(d, z1, rows);
        let p2 = mat_vec(d, z2, rows);
        lemma_lerp_mac(p1[ro as int] as int, p2[ro as int] as int, v as int, z1[c as int] as int, z2[c as int] as int, r);
        lemma_mod_bound(flerp(z1[c as int] as int, z2[c as int] as int, r), p());
    }
}

/// The fresh claims hold with zero error: for a step that satisfies its constraints, the
/// constraint relation sums to zero over the hypercube whatever the weights `e`, and for the
/// power polynomial of any `tau` the power-consistency relation sums to zero whatever the
/// previous weights.
pub proof fn lemma_fresh_claims_vanish(
    s: &R1CSShape,
    u2: &R1CSInstance,
    w2: &R1CSWitness,
    e: Seq<Scalar>,
    old_e: Seq<Scalar>,
    tau: Scalar,
    b: int,
)
    requires
        s.wf(),
        s.fits(u2, w2),
        s.is_sat(u2, w2),
        e.len() == s.num_cons,
        all_scalars(e),
        old_e.len() == s.num_cons,
        all_scalars(old_e),
        is_scalar(tau as int),
    ensures
        ({
            let h = nsc_inputs(s, u2.x@, w2.w@, e);
            rel_sum(Relation::Constraint, h, h, b, s.num_cons as nat) == 0
        }),
        ({
            let new_e = pow_seq(tau as int, s.num_cons as nat);
            let h_pc = pc_inputs(old_e, new_e, tau as int);
            rel_sum(Relation::PowerConsistency, h_pc, h_pc, b, s.num_cons as nat) == 0
        }),
{
    let n = s.num_cons as nat;
    let z = crate::r1cs::z_of(w2.w@, u2.x@);
    let h = nsc_inputs(s, u2.x@, w2.w@, e);
    lemma_mat_vec_scalars(s.a.entries@, z, n, s.num_cols());
    lemma_mat_vec_scalars(s.b.entries@, z, n, s.num_cols());
    lemma_mat_vec_scalars(s.c.entries@, z, n, s.num_cols());
    assert forall|i: int| 0 <= i < n implies term(Relation::Constraint, h, h, i, b) == 0 by {
        lemma_lerp_same(h.v0[i] as int, b);
        lemma_lerp_same(h.v1[i] as int, b);
        lemma_lerp_same(h.v2[i] as int, b);
        assert(fmul(s.az(u2, w2)[i] as int, s.bz(u2, w2)[i] as int) == s.cz(u2, w2)[i] as int);
        lemma_small_mod(0, p() as nat);
        lemma_mul_zero(flerp(h.v3[i] as int, h.v3[i] as int, b));
        lemma_mul_zero(flerp(h.v4[i] as int, h.v4[i] as int, b));
    }
    lemma_rel_sum_zero(Relation::Constraint, h, h, b, n);

    let new_e = pow_seq(tau as int, n);
    let h_pc = pc_inputs(old_e, new_e, tau as int);
    assert forall|i: int| 0 <= i < n implies term(Relation::PowerConsistency, h_pc, h_pc, i, b) == 0 by {
        lemma_mod_bound(pow(tau as int, i as nat), p());
        lemma_lerp_same(h_pc.v0[i] as int, b);
        lemma_small_mod(1, p() as nat);
        lemma_small_mod(0, p() as nat);
        if i == 0 {
            lemma_lerp_same(1, b);
            lemma_pow0(tau as int);
            lemma_mul_basics(1);
            assert(fsub(h_pc.v0[i] as int, fmul(h_pc.v1[i] as int, h_pc.v2[i] as int)) == 0);
        } else {
            lemma_mod_bound(pow(tau as int, (i - 1) as nat), p());
            lemma_lerp_same(h_pc.v1[i] as int, b);
            lemma_lerp_same(h_pc.v2[i] as int, b);
            lemma_pow_adds(tau as int, (i - 1) as nat, 1);
            lemma_pow1(tau as int);
            lemma_mul_mod_noop_left(pow(tau as int, (i - 1) as nat), tau as int, p());
            assert(fsub(h_pc.v0[i] as int, fmul(h_pc.v1[i] as int, h_pc.v2[i] as int)) == 0);
        }
        lemma_mul_zero(flerp(h_pc.v3[i] as int, h_pc.v3[i] as int, b));
        lemma_mul_zero(flerp(h_pc.v4[i] as int, h_pc.v4[i] as int, b));
    }
    lemma_rel_sum_zero(Relation::PowerConsistency, h_pc, h_pc, b, n);
}

/// Two prover runs on the same inputs with the same blinding produce the same proof and the
/// same folded instance and witness.
pub proof fn lemma_prove_deterministic(
    s: &R1CSShape,
    ck: &CommitmentKey,
    u1: &RunningZFInstance,
    w1: &RunningZFWitness,
    u2: &R1CSInstance,
    w2: &R1CSWitness,
    r_e: int,
    n1: &NIFS,
    a1: &RunningZFInstance,
    b1: &RunningZFWitness,
    n2: &NIFS,
    a2: &RunningZFInstance,
    b2: &RunningZFWitness,
)
    requires
        prove_outcome(s, ck, u1, w1, u2, w2, r_e, n1, a1, b1),
        prove_outcome(s, ck, u1, w1, u2, w2, r_e, n2, a2, b2),
    ensures
        n1.comm_e == n2.comm_e,
        n1.sf_proof.evals@ == n2.sf_proof.evals@,
        n1.t == n2.t,
        n1.t_pc == n2.t_pc,
        same_instance(a1, a2),
        same_witness(b1, b2),
{
}

/// Two verifier runs on the same proof and instances agree: both accept with the same folded
/// instance, or both reject with the same error.
pub proof fn lemma_verify_deterministic(
    nifs: &NIFS,
    u1: &RunningZFInstance,
    u2: &R1CSInstance,
    r1: Result<RunningZFInstance, FoldError>,
    r2: Result<RunningZFInstance, FoldError>,
)
    requires
        verify_outcome(nifs, u1, u2, r1),
        verify_outcome(nifs, u1, u2, r2),
    ensures
        r1 is Ok <==> r2 is Ok,
        r1 matches Ok(a) ==> r2 matches Ok(b) && same_instance(&a, &b),
        r1 matches Err(e1) ==> r2 matches Err(e2) && e1 == e2,
{
}

/// Folding a trivially satisfied fresh step (all-zero public inputs and witness that satisfy
/// the constraints) into the genesis accumulator leaves both error claims at zero.
pub proof fn lemma_genesis_fold_keeps_errors_zero(
    s: &R1CSShape,
    ck: &CommitmentKey,
    u1: &RunningZFInstance,
    w1: &RunningZFWitness,
    u2: &R1CSInstance,
    w2: &R1CSWitness,
    r_e: int,
    nifs: &NIFS,
    u: &RunningZFInstance,
    w: &RunningZFWitness,
)
    requires
        s.wf(),
        is_genesis(s, u1, w1),
        u2.x@ == zeros(s.num_io as nat),
        w2.w@ == zeros(s.num_vars as nat),
        s.is_sat(u2, w2),
        prove_outcome(s, ck, u1, w1, u2, w2, r_e, nifs, u, w),
    ensures
        u.nsc.t == 0,
        u.nsc_pc.t == 0,
{
    let n = s.num_cons as nat;
    let tau = crate::nifs::tau_of(u2.x@);
    let e = pow_seq(tau, n);
    let g = nsc_inputs(s, u1.nsc.u.x@, w1.nsc.w.w@, w1.nsc.e@);
    let h = nsc_inputs(s, u2.x@, w2.w@, e);
    let g_pc = pc_inputs(w1.nsc_pc.e@, w1.nsc_pc.new_e@, u1.nsc_pc.tau as int);
    let h_pc = pc_inputs(w1.zc_pc.e@, e, tau);
    let comm = crate::commitment::commit_spec(ck.gens@, ck.h, e, r_e as u64);
    let r_b = crate::nifs::r_b_of(u2.x@, comm, nifs.sf_proof.evals@);
    let z = crate::r1cs::z_of(w2.w@, u2.x@);
    assert(g.v0 == h.v0 && g.v1 == h.v1 && g.v2 == h.v2);
    lemma_mat_vec_scalars(s.a.entries@, z, n, s.num_cols());
    lemma_mat_vec_scalars(s.b.entries@, z, n, s.num_cols());
    lemma_mat_vec_scalars(s.c.entries@, z, n, s.num_cols());
    assert forall|i: int| 0 <= i < n implies term(Relation::Constraint, g, h, i, r_b) == 0 by {
        lemma_lerp_same(h.v0[i] as int, r_b);
        lemma_lerp_same(h.v1[i] as int, r_b);
        lemma_lerp_same(h.v2[i] as int, r_b);
        assert(fmul(s.az(u2, w2)[i] as int, s.bz(u2, w2)[i] as int) == s.cz(u2, w2)[i] as int);
        lemma_small_mod(0, p() as nat);
        lemma_mul_zero(flerp(g.v3[i] as int, h.v3[i] as int, r_b));
        lemma_mul_zero(flerp(g.v4[i] as int, h.v4[i] as int, r_b));
    }
    lemma_rel_sum_zero(Relation::Constraint, g, h, r_b, n);
    assert forall|i: int| 0 <= i < n implies term(Relation::PowerConsistency, g_pc, h_pc, i, r_b) == 0 by {
        lemma_lerp_same(0, r_b);
        assert(g_pc.v3[i] == 0 && h_pc.v3[i] == 0);
        let core = fsub(
            flerp(g_pc.v0[i] as int, h_pc.v0[i] as int, r_b),
            fmul(flerp(g_pc.v1[i] as int, h_pc.v1[i] as int, r_b), flerp(g_pc.v2[i] as int, h_pc.v2[i] as int, r_b)),
        );
        lemma_mul_zero(core);
        lemma_mul_zero(flerp(g_pc.v4[i] as int, h_pc.v4[i] as int, r_b));
    }
    lemma_rel_sum_zero(Relation::PowerConsistency, g_pc, h_pc, r_b, n);
}

proof fn lemma_rel_sum_congruent(
    rel: Relation,
    g1: SumFoldInputsView,
    h1: SumFoldInputsView,
    b1: int,
    g2: SumFoldInputsView,
    h2: SumFoldInputsView,
    b2: int,
    k: nat,
)
    requires
        forall|i: int| 0 <= i < k ==> term(rel, g1, h1, i, b1) == term(rel, g2, h2, i, b2),
    ensures
        rel_sum(rel, g1, h1, b1, k) == rel_sum(rel, g2, h2, b2, k),
    decreases k,
{
    if k > 0 {
        lemma_rel_sum_congruent(rel, g1, h1, b1, g2, h2, b2, (k - 1) as nat);
    }
}

/// Where every input of `gf` at `i` is the point at `r` on the line from `g` to `h`, the
/// integrand of `gf` alone at `i` is the integrand on that line.
proof fn lemma_term_on_line(rel: Relation, gf: SumFoldInputsView, g: SumFoldInputsView, h: SumFoldInputsView, i: int, r: int)
    requires
        gf.v0[i] as int == flerp(g.v0[i] as int, h.v0[i] as int, r),
        gf.v1[i] as int == flerp(g.v1[i] as int, h.v1[i] as int, r),
        gf.v2[i] as int == flerp(g.v2[i] as int, h.v2[i] as int, r),
        gf.v3[i] as int == flerp(g.v3[i] as int, h.v3[i] as int, r),
        gf.v4[i] as int == flerp(g.v4[i] as int, h.v4[i] as int, r),
    ensures
        term(rel, gf, gf, i, 0) == term(rel, g, h, i, r),
{
    lemma_flerp_mod(g.v0[i] as int, h.v0[i] as int, r);
    lemma_flerp_mod(g.v1[i] as int, h.v1[i] as int, r);
    lemma_flerp_mod(g.v2[i] as int, h.v2[i] as int, r);
    lemma_flerp_mod(g.v3[i] as int, h.v3[i] as int, r);
    lemma_flerp_mod(g.v4[i] as int, h.v4[i] as int, r);
    lemma_mod_bound((1 - r) * (g.v0[i] as int) + r * (h.v0[i] as int), p());
    lemma_mod_bound((1 - r) * (g.v1[i] as int) + r * (h.v1[i] as int), p());
    lemma_mod_bound((1 - r) * (g.v2[i] as int) + r * (h.v2[i] as int), p());
    lemma_mod_bound((1 - r) * (g.v3[i] as int) + r * (h.v3[i] as int), p());
    lemma_mod_bound((1 - r) * (g.v4[i] as int) + r * (h.v4[i] as int), p());
    lemma_lerp_same(gf.v0[i] as int, 0);
    lemma_lerp_same(gf.v1[i] as int, 0);
    lemma_lerp_same(gf.v2[i] as int, 0);
    lemma_lerp_same(gf.v3[i] as int, 0);
    lemma_lerp_same(gf.v4[i] as int, 0);
}

/// The witness of a folded accumulator carries the recorded errors: evaluated directly over
/// the hypercube, the constraint relation `(Az * Bz - Cz) * h1 * h2` of the folded witness sums
/// to the new `T`, and the power-consistency relation of the folded witness sums to the new
/// `T_pc`.
pub proof fn lemma_folded_witness_carries_errors(
    s: &R1CSShape,
    ck: &CommitmentKey,
    u1: &RunningZFInstance,
    w1: &RunningZFWitness,
    u2: &R1CSInstance,
    w2: &R1CSWitness,
    r_e: int,
    nifs: &NIFS,
    u: &RunningZFInstance,
    w: &RunningZFWitness,
)
    requires
        s.wf(),
        u1.wf(s),
        w1.wf(s),
        s.fits(u2, w2),
        prove_outcome(s, ck, u1, w1, u2, w2, r_e, nifs, u, w),
    ensures
        carries_errors(s, u, w),
{
    let n = s.num_cons as nat;
    let tau = crate::nifs::tau_of(u2.x@);
    let e = pow_seq(tau, n);
    let comm = crate::commitment::commit_spec(ck.gens@, ck.h, e, r_e as u64);
    let g = nsc_inputs(s, u1.nsc.u.x@, w1.nsc.w.w@, w1.nsc.e@);
    let h = nsc_inputs(s, u2.x@, w2.w@, e);
    let g_pc = pc_inputs(w1.nsc_pc.e@, w1.nsc_pc.new_e@, u1.nsc_pc.tau as int);
    let h_pc = pc_inputs(w1.zc_pc.e@, e, tau);
    let r_b = crate::nifs::r_b_of(u2.x@, comm, nifs.sf_proof.evals@);
    let gf = nsc_inputs(s, u.nsc.u.x@, w.nsc.w.w@, w.nsc.e@);
    let gf_pc = pc_inputs(w.nsc_pc.e@, w.nsc_pc.new_e@, u.nsc_pc.tau as int);

    // z of the folded step is the line between the two z's.
    let z1 = crate::r1cs::z_of(w1.nsc.w.w@, u1.nsc.u.x@);
    let z2 = crate::r1cs::z_of(w2.w@, u2.x@);
    let zf = crate::r1cs::z_of(w.nsc.w.w@, u.nsc.u.x@);
    lemma_lerp_same(1, r_b);
    assert(zf =~= lerp_seq(z1, z2, r_b));
    lemma_mat_vec_lerp(s.a.entries@, z1, z2, r_b, n);
    lemma_mat_vec_lerp(s.b.entries@, z1, z2, r_b, n);
    lemma_mat_vec_lerp(s.c.entries@, z1, z2, r_b, n);

    let m = crate::nifs::split_size(s.log_num_cons as nat);
    vstd::arithmetic::power2::lemma_pow2_pos((s.log_num_cons / 2) as nat);
    if s.log_num_cons / 2 < s.log_num_cons {
        vstd::arithmetic::power2::lemma_pow2_strictly_increases((s.log_num_cons / 2) as nat, s.log_num_cons as nat);
    }
    assert forall|i: int| 0 <= i < n implies term(Relation::Constraint, gf, gf, i, 0)
        == term(Relation::Constraint, g, h, i, r_b) by {
        vstd::arithmetic::div_mod::lemma_fundamental_div_mod(i, m as int);
        lemma_mod_bound(i, m as int);
        vstd::arithmetic::div_mod::lemma_div_pos_is_pos(i, m as int);
        vstd::arithmetic::mul::lemma_mul_nonnegative(m as int, i / (m as int));
        lemma_mod_bound(flerp(w1.nsc.e@[i % (m as int)] as int, e[i % (m as int)] as int, r_b), p());
        lemma_mod_bound(flerp(w1.nsc.e@[i - i % (m as int)] as int, e[i - i % (m as int)] as int, r_b), p());
        lemma_term_on_line(Relation::Constraint, gf, g, h, i, r_b);
    }
    lemma_rel_sum_congruent(Relation::Constraint, gf, gf, 0, g, h, r_b, n);

    assert forall|i: int| 0 <= i < n implies term(Relation::PowerConsistency, gf_pc, gf_pc, i, 0)
        == term(Relation::PowerConsistency, g_pc, h_pc, i, r_b) by {
        lemma_mod_bound(flerp(w1.nsc_pc.e@[i] as int, w1.zc_pc.e@[i] as int, r_b), p());
        lemma_mod_bound(flerp(w1.nsc_pc.new_e@[i] as int, e[i] as int, r_b), p());
        lemma_mod_bound(flerp(u1.nsc_pc.tau as int, tau, r_b), p());
        if i > 0 {
            lemma_mod_bound(flerp(w1.nsc_pc.new_e@[i - 1] as int, e[i - 1] as int, r_b), p());
        }
        lemma_term_on_line(Relation::PowerConsistency, gf_pc, g_pc, h_pc, i, r_b);
    }
    lemma_rel_sum_congruent(Relation::PowerConsistency, gf_pc, gf_pc, 0, g_pc, h_pc, r_b, n);
}

/// Whether the witness of an accumulator carries its error claims: evaluated directly over the
/// hypercube, its constraint relation sums to `T` and its power-consistency relation to `T_pc`.
pub open spec fn carries_errors(s: &R1CSShape, u: &RunningZFInstance, w: &RunningZFWitness) -> bool {
    let g = nsc_inputs(s, u.nsc.u.x@, w.nsc.w.w@, w.nsc.e@);
    let g_pc = pc_inputs(w.nsc_pc.e@, w.nsc_pc.new_e@, u.nsc_pc.tau as int);
    &&& rel_sum(Relation::Constraint, g, g, 0, s.num_cons as nat) == u.nsc.t
    &&& rel_sum(Relation::PowerConsistency, g_pc, g_pc, 0, s.num_cons as nat) == u.nsc_pc.t
}

/// The genesis accumulator carries its (zero) error claims.
pub proof fn lemma_genesis_carries_errors(s: &R1CSShape, u: &RunningZFInstance, w: &RunningZFWitness)
    requires
        s.wf(),
        is_genesis(s, u, w),
    ensures
        carries_errors(s, u, w),
{
    let n = s.num_cons as nat;
    let g = nsc_inputs(s, u.nsc.u.x@, w.nsc.w.w@, w.nsc.e@);
    let g_pc = pc_inputs(w.nsc_pc.e@, w.nsc_pc.new_e@, u.nsc_pc.tau as int);
    let m = crate::nifs::split_size(s.log_num_cons as nat);
    vstd::arithmetic::power2::lemma_pow2_pos((s.log_num_cons / 2) as nat);
    if s.log_num_cons / 2 < s.log_num_cons {
        vstd::arithmetic::power2::lemma_pow2_strictly_increases((s.log_num_cons / 2) as nat, s.log_num_cons as nat);
    }
    lemma_lerp_same(0, 0);
    assert forall|i: int| 0 <= i < n implies term(Relation::Constraint, g, g, i, 0) == 0 by {
        lemma_mod_bound(i, m as int);
        assert(g.v3[i] == 0);
        let core = fsub(
            fmul(flerp(g.v0[i] as int, g.v0[i] as int, 0), flerp(g.v1[i] as int, g.v1[i] as int, 0)),
            flerp(g.v2[i] as int, g.v2[i] as int, 0),
        );
        lemma_mul_zero(core);
        lemma_mul_zero(flerp(g.v4[i] as int, g.v4[i] as int, 0));
    }
    lemma_rel_sum_zero(Relation::Constraint, g, g, 0, n);
    assert forall|i: int| 0 <= i < n implies term(Relation::PowerConsistency, g_pc, g_pc, i, 0) == 0 by {
        assert(g_pc.v3[i] == 0);
        let core = fsub(
            flerp(g_pc.v0[i] as int, g_pc.v0[i] as int, 0),
            fmul(flerp(g_pc.v1[i] as int, g_pc.v1[i] as int, 0), flerp(g_pc.v2[i] as int, g_pc.v2[i] as int, 0)),
        );
        lemma_mul_zero(core);
        lemma_mul_zero(flerp(g_pc.v4[i] as int, g_pc.v4[i] as int, 0));
    }
    lemma_rel_sum_zero(Relation::PowerConsistency, g_pc, g_pc, 0, n);
}

proof fn lemma_term_at_ends(rel: Relation, g: SumFoldInputsView, h: SumFoldInputsView, i: int)
    ensures
        term(rel, g, h, i, 0) == term(rel, g, g, i, 0),
        term(rel, g, h, i, 1) == term(rel, h, h, i, 1),
{
    lemma_flerp_mod(g.v0[i] as int, h.v0[i] as int, 0);
    lemma_flerp_mod(g.v1[i] as int, h.v1[i] as int, 0);
    lemma_flerp_mod(g.v2[i] as int, h.v2[i] as int, 0);
    lemma_flerp_mod(g.v3[i] as int, h.v3[i] as int, 0);
    lemma_flerp_mod(g.v4[i] as int, h.v4[i] as int, 0);
    lemma_flerp_mod(g.v0[i] as int, g.v0[i] as int, 0);
    lemma_flerp_mod(g.v1[i] as int, g.v1[i] as int, 0);
    lemma_flerp_mod(g.v2[i] as int, g.v2[i] as int, 0);
    lemma_flerp_mod(g.v3[i] as int, g.v3[i] as int, 0);
    lemma_flerp_mod(g.v4[i] as int, g.v4[i] as int, 0);
    lemma_flerp_mod(g.v0[i] as int, h.v0[i] as int, 1);
    lemma_flerp_mod(g.v1[i] as int, h.v1[i] as int, 1);
    lemma_flerp_mod(g.v2[i] as int, h.v2[i] as int, 1);
    lemma_flerp_mod(g.v3[i] as int, h.v3[i] as int, 1);
    lemma_flerp_mod(g.v4[i] as int, h.v4[i] as int, 1);
    lemma_flerp_mod(h.v0[i] as int, h.v0[i] as int, 1);
    lemma_flerp_mod(h.v1[i] as int, h.v1[i] as int, 1);
    lemma_flerp_mod(h.v2[i] as int, h.v2[i] as int, 1);
    lemma_flerp_mod(h.v3[i] as int, h.v3[i] as int, 1);
    lemma_flerp_mod(h.v4[i] as int, h.v4[i] as int, 1);
}

/// The part of completeness that the verifier's first check rests on: folding a satisfied step
/// into an accumulator that carries its error claims yields evaluations with
/// `Q(0) + Q(1) == (1 - beta) * (T + gamma * T_pc) + beta * 0`, where `T` and `T_pc` are the
/// running claims.
pub proof fn lemma_honest_proof_passes_sum_check(
    s: &R1CSShape,
    ck: &CommitmentKey,
    u1: &RunningZFInstance,
    w1: &RunningZFWitness,
    u2: &R1CSInstance,
    w2: &R1CSWitness,
    r_e: int,
    nifs: &NIFS,
    u: &RunningZFInstance,
    w: &RunningZFWitness,
)
    requires
        s.wf(),
        u1.wf(s),
        w1.wf(s),
        s.fits(u2, w2),
        s.is_sat(u2, w2),
        carries_errors(s, u1, w1),
        prove_outcome(s, ck, u1, w1, u2, w2, r_e, nifs, u, w),
    ensures
        ({
            let comm = nifs.comm_e as int;
            let gamma = crate::nifs::gamma_of(u2.x@, comm);
            let claim = fadd(u1.nsc.t as int, fmul(gamma, u1.nsc_pc.t as int));
            sum_check_passes(nifs.sf_proof.evals@, crate::nifs::beta_of(u2.x@, comm), claim, 0)
        }),
{
    let n = s.num_cons as nat;
    let tau = crate::nifs::tau_of(u2.x@);
    let e = pow_seq(tau, n);
    let comm = nifs.comm_e as int;
    let gamma = crate::nifs::gamma_of(u2.x@, comm);
    let beta = crate::nifs::beta_of(u2.x@, comm);
    let g = nsc_inputs(s, u1.nsc.u.x@, w1.nsc.w.w@, w1.nsc.e@);
    let h = nsc_inputs(s, u2.x@, w2.w@, e);
    let g_pc = pc_inputs(w1.nsc_pc.e@, w1.nsc_pc.new_e@, u1.nsc_pc.tau as int);
    let h_pc = pc_inputs(w1.zc_pc.e@, e, tau);
    let evals = nifs.sf_proof.evals@;
    let claim = fadd(u1.nsc.t as int, fmul(gamma, u1.nsc_pc.t as int));

    // b = 0: the running claims.
    assert forall|i: int| 0 <= i < n implies term(Relation::Constraint, g, h, i, 0)
        == term(Relation::Constraint, g, g, i, 0) by {
        lemma_term_at_ends(Relation::Constraint, g, h, i);
    }
    lemma_rel_sum_congruent(Relation::Constraint, g, h, 0, g, g, 0, n);
    assert forall|i: int| 0 <= i < n implies term(Relation::PowerConsistency, g_pc, h_pc, i, 0)
        == term(Relation::PowerConsistency, g_pc, g_pc, i, 0) by {
        lemma_term_at_ends(Relation::PowerConsistency, g_pc, h_pc, i);
    }
    lemma_rel_sum_congruent(Relation::PowerConsistency, g_pc, h_pc, 0, g_pc, g_pc, 0, n);

    // b = 1: the fresh claims, which vanish.
    assert forall|i: int| 0 <= i < n implies term(Relation::Constraint, g, h, i, 1)
        == term(Relation::Constraint, h, h, i, 1) by {
        lemma_term_at_ends(Relation::Constraint, g, h, i);
    }
    lemma_rel_sum_congruent(Relation::Constraint, g, h, 1, h, h, 1, n);
    assert forall|i: int| 0 <= i < n implies term(Relation::PowerConsistency, g_pc, h_pc, i, 1)
        == term(Relation::PowerConsistency, h_pc, h_pc, i, 1) by {
        lemma_term_at_ends(Relation::PowerConsistency, g_pc, h_pc, i);
    }
    lemma_rel_sum_congruent(Relation::PowerConsistency, g_pc, h_pc, 1, h_pc, h_pc, 1, n);
    let k = crate::transcript::ROUND_CONSTANT as int;
    lemma_mod_bound(pow(fadd(fadd(crate::nifs::start_state(u2.x@), crate::nifs::LABEL_TAU as int), k), 5), p());
    lemma_mod_bound(pow(fadd(fadd(gamma, crate::sumfold::LABEL_BETA as int), k), 5), p());
    assert forall|i: int| 0 <= i < n implies is_scalar(#[trigger] e[i] as int) by {
        lemma_mod_bound(pow(tau, i as nat), p());
    }
    lemma_fresh_claims_vanish(s, u2, w2, e, w1.zc_pc.e@, tau as u64, 1);
    lemma_mat_vec_scalars(s.a.entries@, crate::r1cs::z_of(w1.nsc.w.w@, u1.nsc.u.x@), n, s.num_cols());

    // Q(0) = (1 - beta) * claim and Q(1) = 0.
    lemma_small_mod(0, p() as nat);
    lemma_small_mod(1, p() as nat);
    lemma_mul_zero(gamma);
    lemma_mul_zero(beta);
    lemma_mul_zero(fsub(1, beta));
    let f = fsub(1, beta);
    lemma_mod_bound(1 - beta, p());
    lemma_mul_basics(f);
    lemma_small_mod(f as nat, p() as nat);
    assert(eq_spec(beta, 0) == f);
    lemma_mod_bound(u1.nsc.t as int + fmul(gamma, u1.nsc_pc.t as int), p());
    lemma_mod_bound(f * claim, p());
    lemma_mul_zero(eq_spec(beta, 1));
    assert forall|b: int| 0 <= b < evals.len() implies is_scalar(#[trigger] evals[b] as int) by {
        lemma_mod_bound(eq_spec(beta, b) * crate::sumfold::combined(g, h, g_pc, h_pc, gamma, b), p());
    }
    assert(evals[0] as int == fmul(f, claim));
    assert(evals[1] as int == 0);
    lemma_small_mod(fmul(f, claim) as nat, p() as nat);
}

proof fn lemma_add_cancel(a: int, b: int, y: int)
    requires
        is_scalar(a),
        is_scalar(b),
        fadd(a, y) == fadd(b, y),
    ensures
        a == b,
{
    vstd::arithmetic::div_mod::lemma_fundamental_div_mod(a + y, p());
    vstd::arithmetic::div_mod::lemma_fundamental_div_mod(b + y, p());
    let q1 = (a + y) / p();
    let q2 = (b + y) / p();
    assert(a - b == p() * (q1 - q2));
    assert(q1 == q2) by (nonlinear_arith)
        requires
            a - b == p() * (q1 - q2),
            -p() < a - b < p(),
            p() > 0;
}

proof fn lemma_mul_cancel(g: int, a: int, b: int)
    requires
        is_scalar(a),
        is_scalar(b),
        inverse_of(g) is Some,
        fmul(g, a) == fmul(g, b),
    ensures
        a == b,
{
    let v = inverse_of(g)->0;
    // v * (g * a) == (v * g) * a == a, and likewise for b.
    lemma_mul_mod_noop_right(v, g * a, p());
    lemma_mul_mod_noop_right(v, g * b, p());
    lemma_mul_mod_noop_left(v * g, a, p());
    lemma_mul_mod_noop_left(v * g, b, p());
    assert(v * (g * a) == (v * g) * a) by (nonlinear_arith);
    assert(v * (g * b) == (v * g) * b) by (nonlinear_arith);
    assert(v * g == g * v) by (nonlinear_arith);
    lemma_mul_basics(a);
    lemma_mul_basics(b);
    lemma_small_mod(a as nat, p() as nat);
    lemma_small_mod(b as nat, p() as nat);
}

/// A proof that differs from an accepted one in its claimed `T` alone is rejected.
pub proof fn lemma_changed_t_rejected(nifs: &NIFS, other: &NIFS, u1: &RunningZFInstance, u2: &R1CSInstance)
    requires
        verify_accepts(nifs, u1, u2),
        other.comm_e == nifs.comm_e,
        other.sf_proof.evals@ == nifs.sf_proof.evals@,
        other.t_pc == nifs.t_pc,
        other.t != nifs.t,
    ensures
        !verify_accepts(other, u1, u2),
{
    if verify_accepts(other, u1, u2) {
        let gamma = crate::nifs::gamma_of(u2.x@, nifs.comm_e as int);
        lemma_add_cancel(nifs.t as int, other.t as int, fmul(gamma, nifs.t_pc as int));
    }
}

/// A proof that differs from an accepted one in its claimed `T_pc` alone is rejected, whenever
/// the batching coefficient `gamma` is invertible (it fails to be only when `gamma` is zero).
pub proof fn lemma_changed_t_pc_rejected(nifs: &NIFS, other: &NIFS, u1: &RunningZFInstance, u2: &R1CSInstance)
    requires
        verify_accepts(nifs, u1, u2),
        other.comm_e == nifs.comm_e,
        other.sf_proof.evals@ == nifs.sf_proof.evals@,
        other.t == nifs.t,
        other.t_pc != nifs.t_pc,
        inverse_of(crate::nifs::gamma_of(u2.x@, nifs.comm_e as int)) is Some,
    ensures
        !verify_accepts(other, u1, u2),
{
    if verify_accepts(other, u1, u2) {
        let gamma = crate::nifs::gamma_of(u2.x@, nifs.comm_e as int);
        let x1 = fmul(gamma, nifs.t_pc as int);
        let x2 = fmul(gamma, other.t_pc as int);
        lemma_mod_bound(gamma * (nifs.t_pc as int), p());
        lemma_mod_bound(gamma * (other.t_pc as int), p());
        lemma_small_mod(nifs.t as nat, p() as nat);
        lemma_add_mod_noop_right(nifs.t as int, x1, p());
        lemma_add_mod_noop(nifs.t as int, x1, p());
        lemma_add_mod_noop(nifs.t as int, x2, p());
        assert(fadd(x1, nifs.t as int) == fadd(x2, nifs.t as int));
        lemma_add_cancel(x1, x2, nifs.t as int);
        lemma_mul_cancel(gamma, nifs.t_pc as int, other.t_pc as int);
    }
}

proof fn lemma_inner_product_lerp(g: Seq<Scalar>, v1: Seq<Scalar>, v2: Seq<Scalar>, r: int, k: nat)
    requires
        v1.len() == v2.len(),
        k <= v1.len(),
    ensures
        inner_product(g, lerp_seq(v1, v2, r), k) == flerp(inner_product(g, v1, k), inner_product(g, v2, k), r),
        is_scalar(inner_product(g, v1, k)),
        is_scalar(inner_product(g, v2, k)),
    decreases k,
{
    if k == 0 {
        lemma_lerp_same(0, r);
    } else {
        let j = (k - 1) as nat;
        lemma_inner_product_lerp(g, v1, v2, r, j);
        lemma_mod_bound(flerp(v1[j as int] as int, v2[j as int] as int, r), p());
        lemma_lerp_mac(
            inner_product(g, v1, j),
            inner_product(g, v2, j),
            g[j as int] as int,
            v1[j as int] as int,
            v2[j as int] as int,
            r,
        );
        lemma_mod_bound(inner_product(g, v1, j) + fmul(g[j as int] as int, v1[j as int] as int), p());
        lemma_mod_bound(inner_product(g, v2, j) + fmul(g[j as int] as int, v2[j as int] as int), p());
    }
}

/// Commitments are linear: on the line between two (vector, blinding) pairs, the commitment is
/// the line between the two commitments.
proof fn lemma_commit_lerp(ck: &CommitmentKey, v1: Seq<Scalar>, r1: Scalar, v2: Seq<Scalar>, r2: Scalar, r: int)
    requires
        v1.len() == v2.len(),
    ensures
        commit_spec(ck.gens@, ck.h, lerp_seq(v1, v2, r), flerp(r1 as int, r2 as int, r) as u64)
            == flerp(commit_spec(ck.gens@, ck.h, v1, r1), commit_spec(ck.gens@, ck.h, v2, r2), r),
{
    lemma_inner_product_lerp(ck.gens@, v1, v2, r, v1.len());
    lemma_mod_bound(flerp(r1 as int, r2 as int, r), p());
    lemma_lerp_mac(
        inner_product(ck.gens@, v1, v1.len()),
        inner_product(ck.gens@, v2, v2.len()),
        ck.h as int,
        r1 as int,
        r2 as int,
        r,
    );
}

/// Whether every commitment of the instance opens to the matching vector and blinding of the
/// witness.
pub open spec fn commitments_open(ck: &CommitmentKey, u: &RunningZFInstance, w: &RunningZFWitness) -> bool {
    &&& u.nsc.comm_e == commit_spec(ck.gens@, ck.h, w.nsc.e@, w.nsc.r_e)
    &&& u.nsc_pc.comm_e == commit_spec(ck.gens@, ck.h, w.nsc_pc.e@, w.nsc_pc.r_e)
    &&& u.nsc_pc.comm_new_e == commit_spec(ck.gens@, ck.h, w.nsc_pc.new_e@, w.nsc_pc.new_r_e)
    &&& u.zc_pc.comm_e == commit_spec(ck.gens@, ck.h, w.zc_pc.e@, w.zc_pc.r_e)
}

/// The commitments of the genesis accumulator open to its (zero) witness.
pub proof fn lemma_genesis_commitments_open(s: &R1CSShape, ck: &CommitmentKey, u: &RunningZFInstance, w: &RunningZFWitness)
    requires
        is_genesis(s, u, w),
    ensures
        commitments_open(ck, u, w),
{
    let z = zeros(s.num_cons as nat);
    lemma_inner_product_zeros(ck.gens@, z, z.len());
    lemma_mul_zero(ck.h as int);
    lemma_small_mod(0, p() as nat);
}

proof fn lemma_inner_product_zeros(g: Seq<Scalar>, z: Seq<Scalar>, k: nat)
    requires
        k <= z.len(),
        forall|i: int| 0 <= i < z.len() ==> z[i] == 0,
    ensures
        inner_product(g, z, k) == 0,
    decreases k,
{
    if k > 0 {
        lemma_inner_product_zeros(g, z, (k - 1) as nat);
        lemma_mul_zero(g[k - 1] as int);
        lemma_small_mod(0, p() as nat);
    }
}

/// Folding keeps the commitments open: where the running accumulator's commitments open to its
/// witness, the folded accumulator's commitments open to the folded weights and blindings.
pub proof fn lemma_fold_keeps_commitments_open(
    s: &R1CSShape,
    ck: &CommitmentKey,
    u1: &RunningZFInstance,
    w1: &RunningZFWitness,
    u2: &R1CSInstance,
    w2: &R1CSWitness,
    r_e: int,
    nifs: &NIFS,
    u: &RunningZFInstance,
    w: &RunningZFWitness,
)
    requires
        u1.wf(s),
        w1.wf(s),
        is_scalar(r_e),
        commitments_open(ck, u1, w1),
        prove_outcome(s, ck, u1, w1, u2, w2, r_e, nifs, u, w),
    ensures
        commitments_open(ck, u, w),
{
    let n = s.num_cons as nat;
    let tau = crate::nifs::tau_of(u2.x@);
    let e = pow_seq(tau, n);
    let comm = commit_spec(ck.gens@, ck.h, e, r_e as u64);
    let r_b = crate::nifs::r_b_of(u2.x@, comm, nifs.sf_proof.evals@);
    lemma_commit_lerp(ck, w1.nsc.e@, w1.nsc.r_e, e, r_e as u64, r_b);
    lemma_commit_lerp(ck, w1.nsc_pc.e@, w1.nsc_pc.r_e, w1.zc_pc.e@, w1.zc_pc.r_e, r_b);
    lemma_commit_lerp(ck, w1.nsc_pc.new_e@, w1.nsc_pc.new_r_e, e, r_e as u64, r_b);
    lemma_mod_bound(flerp(w1.nsc.r_e as int, r_e, r_b), p());
    lemma_mod_bound(flerp(w1.nsc_pc.r_e as int, w1.zc_pc.r_e as int, r_b), p());
    lemma_mod_bound(flerp(w1.nsc_pc.new_r_e as int, r_e, r_b), p());
}

} // verus!
