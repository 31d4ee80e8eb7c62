//! Arithmetic in the prime field of order `2^61 - 1`.
use vstd::prelude::*;
use vstd::arithmetic::div_mod::*;
use vstd::arithmetic::power::*;
use vstd::arithmetic::mul::*;

verus! {

/// The field modulus.
pub const MODULUS: u64 = 2305843009213693951;

/// A field element, held as its canonical representative in `[0, MODULUS)`.
pub type Scalar = u64;

pub open spec fn p() -> int {
    MODULUS as int
}

pub open spec fn is_scalar(x: int) -> bool {
    0 <= x < p()
}

pub open spec fn fadd(a: int, b: int) -> int {
    (a + b) % p()
}

pub open spec fn fsub(a: int, b: int) -> int {
    (a - b) % p()
}

pub open spec fn fmul(a: int, b: int) -> int {
    (a * b) % p()
}

/// `x^n` in the field.
pub open spec fn fpow(x: int, n: nat) -> int {
    pow(x, n) % p()
}

/// `(1 - b) * x + b * y`: the line through `x` (at 0) and `y` (at 1), evaluated at `b`.
pub open spec fn flerp(x: int, y: int, b: int) -> int {
    fadd(fmul(fsub(1, b), x), fmul(b, y))
}

/// What `invert` hands back: Fermat's candidate `x^(p-2)`, kept only where it checks out.
pub open spec fn inverse_of(x: int) -> Option<int> {
    if fmul(x, fpow(x, (p() - 2) as nat)) == 1 {
        Some(fpow(x, (p() - 2) as nat))
    } else {
        None
    }
}

pub fn field_add(a: Scalar, b: Scalar) -> (r: Scalar)
    requires
        is_scalar(a as int),
        is_scalar(b as int),
    ensures
        r == fadd(a as int, b as int),
        is_scalar(r as int),
{
    let s: u64 = a + b;
    if s >= MODULUS {
        proof {
            lemma_mod_subtraction_one(s as int);
        }
        s - MODULUS
    } else {
        proof {
            lemma_small_mod(s as nat, p() as nat);
        }
        s
    }
}

proof fn lemma_mod_subtraction_one(s: int)
    requires
        p() <= s < 2 * p(),
    ensures
        s % p() == s - p(),
{
    lemma_small_mod((s - p()) as nat, p() as nat);
    lemma_mod_add_multiples_vanish(s - p(), p());
}

pub fn field_sub(a: Scalar, b: Scalar) -> (r: Scalar)
    requires
        is_scalar(a as int),
        is_scalar(b as int),
    ensures
        r == fsub(a as int, b as int),
        is_scalar(r as int),
{
    if a >= b {
        proof {
            lemma_small_mod((a - b) as nat, p() as nat);
        }
        a - b
    } else {
        proof {
            lemma_small_mod((a - b + p()) as nat, p() as nat);
            lemma_mod_add_multiples_vanish(a - b, p());
        }
        MODULUS - b + a
    }
}

pub fn field_mul(a: Scalar, b: Scalar) -> (r: Scalar)
    requires
        is_scalar(a as int),
        is_scalar(b as int),
    ensures
        r == fmul(a as int, b as int),
        is_scalar(r as int),
{
    proof {
        assert((a as int) * (b as int) <= p() * p()) by (nonlinear_arith)
            requires 0 <= a < p(), 0 <= b < p();
        lemma_mul_nonnegative(a as int, b as int);
        lemma_mod_bound((a * b) as int, p());
    }
    let m: u128 = (a as u128) * (b as u128);
    (m % (MODULUS as u128)) as u64
}

pub fn neg(a: Scalar) -> (r: Scalar)
    requires
        is_scalar(a as int),
    ensures
        r == fsub(0, a as int),
        is_scalar(r as int),
{
    field_sub(0, a)
}

/// Reduces any 64-bit integer into the field.
pub fn reduce(x: u64) -> (r: Scalar)
    ensures
        r == (x as int) % p(),
        is_scalar(r as int),
{
    x % MODULUS
}

proof fn lemma_fpow_step(x: int, a: nat, b: nat)
    requires
        is_scalar(x),
    ensures
        fmul(fpow(x, a), fpow(x, b)) == fpow(x, a + b),
{
    lemma_pow_adds(x, a, b);
    lemma_mul_mod_noop_general(pow(x, a), pow(x, b), p());
}

/// `x^n` by square-and-multiply.
pub fn pow_vartime(x: Scalar, n: u64) -> (r: Scalar)
    requires
        is_scalar(x as int),
    ensures
        r == fpow(x as int, n as nat),
        is_scalar(r as int),
{
    let mut acc: Scalar = 1;
    let mut base: Scalar = x;
    let mut e: u64 = n;
    let ghost mut a: nat = 0;
    let ghost mut b: nat = 1;
    proof {
        lemma_pow0(x as int);
        lemma_pow1(x as int);
        lemma_small_mod(1, p() as nat);
        lemma_small_mod(x as nat, p() as nat);
    }
    while e > 0
        invariant
            is_scalar(x as int),
            is_scalar(acc as int),
            is_scalar(base as int),
            acc == fpow(x as int, a),
            base == fpow(x as int, b),
            a + b * e == n,
        decreases e,
    {
        let ghost e0: nat = e as nat;
        proof {
            lemma_fundamental_div_mod(e as int, 2);
        }
        if e % 2 == 1 {
            proof {
                lemma_fpow_step(x as int, a, b);
                assert(b * e0 == b + (2 * b) * (e0 / 2)) by (nonlinear_arith)
                    requires e0 == 2 * (e0 / 2) + 1;
                a = a + b;
            }
            acc = field_mul(acc, base);
        } else {
            proof {
                assert(b * e0 == (2 * b) * (e0 / 2)) by (nonlinear_arith)
                    requires e0 == 2 * (e0 / 2);
            }
        }
        proof {
            lemma_fpow_step(x as int, b, b);
            b = b + b;
        }
        base = field_mul(base, base);
        e = e / 2;
    }
    acc
}

/// The multiplicative inverse of `x`, found as `x^(p-2)` and checked before it is handed back.
pub fn invert(x: Scalar) -> (r: Option<Scalar>)
    requires
        is_scalar(x as int),
    ensures
        r matches Some(y) ==> Some(y as int) == inverse_of(x as int) && is_scalar(y as int)
            && fmul(x as int, y as int) == 1,
        r is None <==> inverse_of(x as int) is None,
        x == 0 ==> r is None,
{
    let y = pow_vartime(x, MODULUS - 2);
    proof {
        lemma_mul_basics(y as int);
        lemma_small_mod(0, p() as nat);
    }
    if field_mul(x, y) == 1 {
        Some(y)
    } else {
        None
    }
}

} // verus!
