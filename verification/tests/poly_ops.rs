use plonk_prover::field::{fe_mul, P};
use plonk_prover::poly::{
    divide_by_vanishing, interpolate, is_zero_vec, padd, peval_at, pmul, pmul_vanishing, pneg,
    pscale, psub, pzip_mul,
};

#[test]
fn addition_and_subtraction_are_coefficientwise() {
    let a = vec![1u64, 2, 3];
    let b = vec![10u64, 20];
    assert_eq!(padd(&a, &b), vec![11, 22, 3]);
    assert_eq!(psub(&a, &b), vec![P - 9, P - 18, 3]);
    assert_eq!(pneg(&a), vec![P - 1, P - 2, P - 3]);
    assert_eq!(pscale(2, &a), vec![2, 4, 6]);
    assert_eq!(pzip_mul(&a, &b), vec![10, 40]);
}

#[test]
fn multiplication_is_convolution() {
    // (1 + 2x)(3 + x) = 3 + 7x + 2x^2
    let a = vec![1u64, 2];
    let b = vec![3u64, 1];
    assert_eq!(pmul(&a, &b), vec![3, 7, 2]);
    let empty: Vec<u64> = Vec::new();
    assert_eq!(pmul(&a, &empty), empty);
}

#[test]
fn evaluation_is_horner() {
    // 5 + 3x + x^2 at x = 4: 5 + 12 + 16 = 33
    let p = vec![5u64, 3, 1];
    assert_eq!(peval_at(&p, 4), 33);
    assert_eq!(peval_at(&Vec::new(), 4), 0);
}

#[test]
fn vanishing_multiple_evaluates_to_zero_on_domain() {
    // (7 + 5x)·(x^2 - 1) vanishes at the square roots of one
    let b = vec![7u64, 5];
    let m = pmul_vanishing(&b, 2);
    assert_eq!(m.len(), 4);
    assert_eq!(peval_at(&m, 1), 0);
    assert_eq!(peval_at(&m, P - 1), 0);
    // off the domain it does not vanish
    assert_ne!(peval_at(&m, 2), 0);
}

#[test]
fn exact_division_by_vanishing_polynomial() {
    // (3 + 4x)·(x^2 - 1) divided by x^2 - 1 leaves no remainder
    let q_in = vec![3u64, 4];
    let c = pmul_vanishing(&q_in, 2);
    let (q, rem) = divide_by_vanishing(&c, 2);
    assert!(is_zero_vec(&rem));
    assert_eq!(q, q_in);
}

#[test]
fn inexact_division_leaves_remainder() {
    // x^2 + 1 = 1·(x^2 - 1) + 2
    let c = vec![1u64, 0, 1];
    let (q, rem) = divide_by_vanishing(&c, 2);
    assert_eq!(q, vec![1]);
    assert_eq!(rem, vec![2, 0]);
    assert!(!is_zero_vec(&rem));
}

#[test]
fn interpolation_reproduces_values_on_domain() {
    let points = vec![1u64, P - 1];
    let values = vec![10u64, 4];
    let c = interpolate(&values, &points).unwrap();
    assert_eq!(c.len(), 2);
    assert_eq!(peval_at(&c, 1), 10);
    assert_eq!(peval_at(&c, P - 1), 4);
    // (10 + 4)/2 = 7 constant term, (10 - 4)/2 = 3 linear term
    assert_eq!(c, vec![7, 3]);
}

#[test]
fn interpolation_on_larger_power_of_two_domain() {
    // domain of size 4: powers of a fourth root of unity
    let w = {
        // 11 generates the multiplicative group; raise to (P-1)/4
        plonk_prover::field::fe_pow(11, (P - 1) / 4)
    };
    let points = vec![1u64, w, fe_mul(w, w), fe_mul(fe_mul(w, w), w)];
    assert_eq!(fe_mul(fe_mul(w, w), fe_mul(w, w)), 1);
    let values = vec![3u64, 1, 4, 1];
    let c = interpolate(&values, &points).unwrap();
    for (x, v) in points.iter().zip(values.iter()) {
        assert_eq!(peval_at(&c, *x), *v);
    }
    assert_eq!(c.len(), 4);
}
