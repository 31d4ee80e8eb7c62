use neutron_fold::commitment::CommitmentKey;
use neutron_fold::field::{field_add, field_mul, field_sub, invert, pow_vartime, MODULUS};
use neutron_fold::poly::{eq_evaluate, interpolate, PowPoly};
use neutron_fold::r1cs::{multiply, SparseMatrix};
use neutron_fold::transcript::Transcript;

#[test]
fn field_operations_wrap_at_the_modulus() {
    assert_eq!(field_add(MODULUS - 1, 2), 1);
    assert_eq!(field_sub(1, 2), MODULUS - 1);
    assert_eq!(field_mul(MODULUS - 1, MODULUS - 1), 1);
    assert_eq!(field_mul(1 << 40, 1 << 40), 1 << 19);
    assert_eq!(pow_vartime(3, 4), 81);
    assert_eq!(pow_vartime(2, 61), 1);
}

#[test]
fn invert_gives_the_inverse_and_fails_on_zero() {
    assert_eq!(invert(0), None);
    assert_eq!(invert(1), Some(1));
    assert_eq!(invert(2), Some((MODULUS + 1) / 2));
    let y = invert(123456789).unwrap();
    assert_eq!(field_mul(123456789, y), 1);
}

#[test]
fn power_polynomial_holds_consecutive_powers() {
    assert_eq!(PowPoly::new(3, 2).evals, vec![1, 3, 9, 27]);
    assert_eq!(PowPoly::new(5, 0).evals, vec![1]);
    assert_eq!(PowPoly::new(0, 1).evals, vec![1, 0]);
}

#[test]
fn equality_polynomial_on_the_cube_and_off_it() {
    assert_eq!(eq_evaluate(0, 0), 1);
    assert_eq!(eq_evaluate(1, 1), 1);
    assert_eq!(eq_evaluate(0, 1), 0);
    // 2 * 3 + (1 - 2) * (1 - 3) = 8
    assert_eq!(eq_evaluate(2, 3), 8);
}

#[test]
fn interpolation_recovers_a_quintic() {
    // q(x) = x^5 + 2x + 7 at x = 0..5
    let q = |x: u64| x.pow(5) + 2 * x + 7;
    let ys: Vec<u64> = (0..6).map(q).collect();
    assert_eq!(interpolate(&ys, 10), Some(q(10)));
    assert_eq!(interpolate(&ys, 3), Some(q(3)));
    assert_eq!(interpolate(&ys, 100), Some(q(100) % MODULUS));
}

#[test]
fn commitment_is_the_weighted_sum() {
    let ck = CommitmentKey { gens: vec![2, 3, 5], h: 7 };
    assert_eq!(ck.commit(&vec![1, 1, 1], 1), 17);
    assert_eq!(ck.commit(&vec![4, 0], 0), 8);
}

#[test]
fn sparse_product_adds_repeated_entries() {
    let m = SparseMatrix { entries: vec![(0, 0, 2), (0, 1, 3), (1, 1, 1), (0, 0, 1)] };
    assert_eq!(multiply(&m, &vec![10, 100], 3), vec![330, 100, 0]);
}

#[test]
fn transcript_challenges_depend_on_what_was_absorbed() {
    let mut a = Transcript::new(1);
    let mut b = Transcript::new(1);
    assert_eq!(a.squeeze(2), b.squeeze(2));
    a.absorb(3, 4);
    b.absorb(3, 5);
    assert_ne!(a.squeeze(2), b.squeeze(2));
    let mut c = Transcript::new(1);
    c.absorb_vec(9, &vec![1, 2]);
    let mut d = Transcript::new(1);
    d.absorb_vec(9, &vec![2, 1]);
    assert_ne!(c.state, d.state);
}
