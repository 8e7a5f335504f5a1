use plonk_prover::field::{batch_invert, fe_add, fe_inv, fe_mul, fe_neg, fe_pow, fe_sub, P};

#[test]
fn addition_wraps_at_modulus() {
    assert_eq!(fe_add(1, 2), 3);
    assert_eq!(fe_add(P - 1, 1), 0);
    assert_eq!(fe_add(P - 1, P - 1), P - 2);
}

#[test]
fn subtraction_and_negation() {
    assert_eq!(fe_sub(5, 3), 2);
    assert_eq!(fe_sub(3, 5), P - 2);
    assert_eq!(fe_neg(0), 0);
    assert_eq!(fe_neg(1), P - 1);
    assert_eq!(fe_add(fe_neg(1234), 1234), 0);
}

#[test]
fn multiplication_reduces() {
    assert_eq!(fe_mul(3, 4), 12);
    assert_eq!(fe_mul(P - 1, P - 1), 1);
    assert_eq!(fe_mul(12288, 2), 12287);
}

#[test]
fn powers() {
    assert_eq!(fe_pow(2, 0), 1);
    assert_eq!(fe_pow(2, 13), 8192);
    assert_eq!(fe_pow(2, 14), 4095);
    assert_eq!(fe_pow(P - 1, 2), 1);
}

#[test]
fn inverses_satisfy_defining_equation() {
    assert_eq!(fe_inv(1), 1);
    assert_eq!(fe_inv(0), 0);
    for a in [2u64, 3, 7, 12288, 6144, 9999] {
        let r = fe_inv(a);
        assert_eq!(fe_mul(a, r), 1);
    }
}

#[test]
fn batched_inversion_matches_per_row_inversion() {
    let v: Vec<u64> = vec![1, 2, 0, 7, 12288, 6144, 0, 9999, 3];
    let batched = batch_invert(&v);
    let rowwise: Vec<u64> = v.iter().map(|&a| fe_inv(a)).collect();
    assert_eq!(batched, rowwise);
    for (a, r) in v.iter().zip(batched.iter()) {
        if *a != 0 {
            assert_eq!(fe_mul(*a, *r), 1);
        } else {
            assert_eq!(*r, 0);
        }
    }
}
