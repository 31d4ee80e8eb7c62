//! The power polynomial, the one-variable equality polynomial, and interpolation through
//! evaluations at `0, 1, ..., d`.
use vstd::prelude::*;
use vstd::arithmetic::power::*;
use vstd::arithmetic::power2::*;
use vstd::arithmetic::div_mod::*;
use crate::field::{
    Scalar, p, is_scalar, fadd, fsub, fmul, fpow, inverse_of, field_add, field_sub, field_mul, invert,
};

verus! {

/// Whether `e` is `(1, tau, tau^2, ..., tau^(2^ell - 1))`.
pub open spec fn is_power_poly(e: Seq<Scalar>, tau: int, ell: nat) -> bool {
    &&& e.len() == pow2(ell)
    &&& forall|i: int| 0 <= i < e.len() ==> #[trigger] e[i] == fpow(tau, i as nat)
}

/// The vector of consecutive powers of a challenge `tau`.
pub struct PowPoly {
    pub evals: Vec<Scalar>,
}

/// `2^ell`, for the sizes that a power polynomial may have.
pub fn pow2_usize(ell: usize) -> (r: usize)
    requires
        ell < 31,
    ensures
        r == pow2(ell as nat),
{
    let mut n: usize = 1;
    let mut k: usize = 0;
    proof {
        lemma2_to64();
    }
    while k < ell
        invariant
            k <= ell < 31,
            n == pow2(k as nat),
        decreases ell - k,
    {
        proof {
            lemma_pow2_unfold((k + 1) as nat);
            lemma_pow2_strictly_increases((k + 1) as nat, 32);
            lemma2_to64();
        }
        n = n * 2;
        k = k + 1;
    }
    n
}

impl PowPoly {
    /// The power polynomial of `tau` with `2^ell` entries.
    pub fn new(tau: Scalar, ell: usize) -> (r: PowPoly)
        requires
            is_scalar(tau as int),
            ell < 31,
        ensures
            is_power_poly(r.evals@, tau as int, ell as nat),
            forall|i: int| 0 <= i < r.evals@.len() ==> is_scalar(#[trigger] r.evals@[i] as int),
    {
        let n = pow2_usize(ell);
        proof {
            lemma_pow2_pos(ell as nat);
            lemma_pow0(tau as int);
            lemma_small_mod(1, p() as nat);
        }
        let mut evals: Vec<Scalar> = Vec::new();
        let mut cur: Scalar = 1;
        let mut i: usize = 0;
        while i < n
            invariant
                is_scalar(tau as int),
                i <= n,
                evals@.len() == i,
                cur == fpow(tau as int, i as nat),
                is_scalar(cur as int),
                forall|j: int| 0 <= j < i ==> #[trigger] evals@[j] == fpow(tau as int, j as nat),
                forall|j: int| 0 <= j < i ==> is_scalar(#[trigger] evals@[j] as int),
            decreases n - i,
        {
            evals.push(cur);
            proof {
                lemma_mul_mod_noop_general(tau as int, pow(tau as int, i as nat), p());
                lemma_small_mod(tau as nat, p() as nat);
                lemma_pow_adds(tau as int, 1, i as nat);
                lemma_pow1(tau as int);
            }
            cur = field_mul(tau, cur);
            i = i + 1;
        }
        PowPoly { evals }
    }
}

/// `eq(beta, r) = beta * r + (1 - beta) * (1 - r)`: 1 where `r == beta` on `{0, 1}`.
pub open spec fn eq_spec(beta: int, r: int) -> int {
    fadd(fmul(beta, r), fmul(fsub(1, beta), fsub(1, r)))
}

/// The equality polynomial of one variable, evaluated at `r`.
pub fn eq_evaluate(beta: Scalar, r: Scalar) -> (out: Scalar)
    requires
        is_scalar(beta as int),
        is_scalar(r as int),
    ensures
        out == eq_spec(beta as int, r as int),
        is_scalar(out as int),
{
    let one_b = field_sub(1, beta);
    let one_r = field_sub(1, r);
    field_add(field_mul(beta, r), field_mul(one_b, one_r))
}

/// `prod_{j < k, j != i} (x - j)`.
pub open spec fn node_prod(x: int, i: int, k: nat) -> int
    decreases k,
{
    if k == 0 {
        1
    } else if k - 1 == i {
        node_prod(x, i, (k - 1) as nat)
    } else {
        fmul(node_prod(x, i, (k - 1) as nat), fsub(x, k - 1))
    }
}

/// Whether every Lagrange denominator for the nodes `0..n` can be inverted.
pub open spec fn denominators_invertible(n: nat) -> bool {
    forall|i: int| 0 <= i < n ==> (#[trigger] inverse_of(node_prod(i, i, n))) is Some
}

/// `sum_{i < k} ys[i] * L_i(x)`, where `L_i` is the Lagrange basis polynomial of node `i` among
/// the nodes `0..ys.len()`.
pub open spec fn lagrange_sum(ys: Seq<Scalar>, x: int, k: nat) -> int
    decreases k,
{
    if k == 0 {
        0
    } else {
        let i = k - 1;
        let basis = fmul(node_prod(x, i, ys.len()), inverse_of(node_prod(i, i, ys.len()))->0);
        fadd(lagrange_sum(ys, x, (k - 1) as nat), fmul(ys[i] as int, basis))
    }
}

/// The polynomial of degree below `ys.len()` through `(i, ys[i])`, evaluated at `x`.
pub open spec fn interpolate_spec(ys: Seq<Scalar>, x: int) -> Option<int> {
    if denominators_invertible(ys.len()) {
        Some(lagrange_sum(ys, x, ys.len()))
    } else {
        None
    }
}

fn node_product(x: Scalar, i: usize, n: usize) -> (r: Scalar)
    requires
        is_scalar(x as int),
        n < 64,
    ensures
        r == node_prod(x as int, i as int, n as nat),
        is_scalar(r as int),
{
    let mut acc: Scalar = 1;
    let mut k: usize = 0;
    while k < n
        invariant
            is_scalar(x as int),
            k <= n < 64,
            acc == node_prod(x as int, i as int, k as nat),
            is_scalar(acc as int),
        decreases n - k,
    {
        if k != i {
            acc = field_mul(acc, field_sub(x, k as u64));
        }
        k = k + 1;
    }
    acc
}

/// Evaluates at `x` the polynomial through `(0, ys[0]), (1, ys[1]), ...`.
pub fn interpolate(ys: &Vec<Scalar>, x: Scalar) -> (r: Option<Scalar>)
    requires
        is_scalar(x as int),
        ys@.len() < 64,
        forall|i: int| 0 <= i < ys@.len() ==> is_scalar(#[trigger] ys@[i] as int),
    ensures
        r matches Some(v) ==> Some(v as int) == interpolate_spec(ys@, x as int),
        r is None <==> interpolate_spec(ys@, x as int) is None,
        r matches Some(v) ==> is_scalar(v as int),
{
    let n = ys.len();
    let mut acc: Scalar = 0;
    let mut i: usize = 0;
    while i < n
        invariant
            n == ys@.len() < 64,
            i <= n,
            is_scalar(x as int),
            forall|j: int| 0 <= j < n ==> is_scalar(#[trigger] ys@[j] as int),
            forall|j: int| 0 <= j < i ==> (#[trigger] inverse_of(node_prod(j, j, n as nat))) is Some,
            acc == lagrange_sum(ys@, x as int, i as nat),
            is_scalar(acc as int),
        decreases n - i,
    {
        let den = node_product(i as u64, i, n);
        match invert(den) {
            None => {
                return None;
            },
            Some(inv) => {
                let basis = field_mul(node_product(x, i, n), inv);
                acc = field_add(acc, field_mul(ys[i], basis));
            },
        }
        i = i + 1;
    }
    Some(acc)
}

} // verus!
