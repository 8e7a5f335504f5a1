//! Cross-cutting laws of the construction, proved once and for all.

use vstd::prelude::*;
use crate::field::{
    fmul, fpow, fsub, in_f, inv_f, lemma_fadd_zero, lemma_fmul_comm, lemma_fmul_dist_sub,
    lemma_fmul_one_zero, lemma_fsub_cancel, lemma_fsub_self, P,
};
use crate::index::Index;
use crate::poly::{
    coef, dvq, dvr, interp_candidate, interp_checks_out, lemma_peval_coef_ext,
    lemma_peval_from_add, lemma_peval_from_sub, lemma_peval_from_unfold, lemma_peval_in_f,
    lemma_peval_shiftn, lemma_ps_add_ok, lemma_ps_sub_ok, peval, peval_from, poly_ok, ps_add,
    ps_shiftn, ps_sub,
};
use crate::prover::{
    blind_seq, copy_constraints_hold, create_ok, dv_exact, dvq_seq, dvr_seq, gate_poly,
    grand_product_fails, is_blinded_wire, t_combined, Blinders, ProverProof,
};

verus! {

broadcast use vstd::arithmetic::div_mod::lemma_mod_bound;

/// Exact division by `x^m - 1` certifies the dividend: the dividend is
/// the quotient times the vanishing polynomial, at every point.
pub proof fn lemma_exact_division_certifies(c: Seq<u64>, m: nat, x: int)
    requires
        1 <= m,
        poly_ok(c),
        dv_exact(c, m),
    ensures
        peval(c, x) == fmul(peval(dvq_seq(c, m), x), fsub(fpow(x, m), 1)),
{
    let q = dvq_seq(c, m);
    let r = dvr_seq(c, m);
    let a = ps_add(r, ps_shiftn(q, m));
    let e = ps_sub(a, q);
    assert forall|j: int| j >= 0 implies coef(q, j) == dvq(c, m, j) by {
        if j >= q.len() {
            assert(j + m >= c.len());
        }
    }
    assert forall|j: int| j >= 0 implies coef(c, j) == coef(e, j) by {
        assert(in_f(dvq(c, m, j))) by {
            if !(m == 0 || j < 0 || j + m >= c.len()) {
                assert(0 < P as int);
            }
        }
        let qj = dvq(c, m, j);
        let cj = coef(c, j);
        if j >= e.len() {
            assert(j >= c.len());
        } else if j < m {
            // e[j] = (r[j] + q[j-m]) - q[j] with q[j-m] = 0 and
            // r[j] = c[j] + q[j]
            assert(coef(e, j) == fsub(crate::field::fadd(crate::field::fadd(cj, qj), 0), qj));
            lemma_fadd_zero(crate::field::fadd(cj, qj));
            lemma_fsub_cancel(cj, qj);
        } else {
            // e[j] = (0 + q[j-m]) - q[j] with q[j-m] = c[j] + q[j]
            assert(j < c.len());
            assert(dvq(c, m, j - m) == crate::field::fadd(cj, qj));
            assert(coef(e, j) == fsub(crate::field::fadd(0, crate::field::fadd(cj, qj)), qj));
            lemma_fadd_zero(crate::field::fadd(cj, qj));
            lemma_fsub_cancel(cj, qj);
        }
    }
    lemma_peval_coef_ext(c, e, x, 0);
    lemma_peval_from_sub(a, q, x, 0);
    lemma_peval_from_add(r, ps_shiftn(q, m), x, 0);
    lemma_peval_shiftn(q, m, x);
    // the remainder is zero everywhere, so it evaluates to zero
    assert forall|j: int| j >= 0 implies coef(r, j) == coef(Seq::<u64>::empty(), j) by {
        assert(in_f(dvr(c, m, j)));
    }
    lemma_peval_coef_ext(r, Seq::<u64>::empty(), x, 0);
    let pq = peval(q, x);
    let u = fpow(x, m);
    lemma_peval_in_f(q, x, 0);
    lemma_fadd_zero(fmul(u, pq));
    // peval(c, x) == fsub(fmul(u, pq), pq) == fmul(pq, fsub(u, 1))
    lemma_fmul_dist_sub(pq, u, 1);
    lemma_fmul_one_zero(pq);
    lemma_fmul_comm(pq, u);
}

/// An exactly divisible constraint polynomial vanishes on every domain
/// point: the soundness heart of the quotient step.  A proof is only
/// assembled after both divisions come out exact, so the combined gate,
/// permutation and boundary constraint evaluates to zero wherever
/// `x^m == 1`.
pub proof fn lemma_constraints_vanish_on_domain(c: Seq<u64>, m: nat, x: int)
    requires
        1 <= m,
        poly_ok(c),
        dv_exact(c, m),
        fpow(x, m) == 1,
    ensures
        peval(c, x) == 0,
{
    lemma_exact_division_certifies(c, m, x);
    lemma_fsub_self(1);
    lemma_peval_in_f(dvq_seq(c, m), x, 0);
    lemma_fmul_one_zero(peval(dvq_seq(c, m), x));
}

/// Every produced proof certifies its circuit: the two divisions come
/// out exact only when the combined gate and permutation constraint
/// polynomial evaluates to zero at every domain point and the
/// permutation polynomial takes the value one at the point one — the
/// boundary condition of the grand product.  Both exactness facts are
/// stated of every finished proof, for the challenges the transcript
/// derived.
pub proof fn lemma_produced_proof_certifies(
    ix: Index,
    lp: Seq<u64>,
    rp: Seq<u64>,
    op: Seq<u64>,
    pp: Seq<u64>,
    zp: Seq<u64>,
    beta: int,
    gamma: int,
    alpha: int,
    j: int,
)
    requires
        ix.wf(),
        dv_exact(t_combined(lp, rp, op, pp, zp, ix, beta, gamma, alpha), ix.n as nat),
        dv_exact(ps_sub(zp, seq![1u64]), 1),
        0 <= j < ix.n,
    ensures
        peval(t_combined(lp, rp, op, pp, zp, ix, beta, gamma, alpha), ix.sid@[j] as int) == 0,
        peval(zp, 1) == 1,
{
    let comb = t_combined(lp, rp, op, pp, zp, ix, beta, gamma, alpha);
    lemma_ps_add_ok(
        gate_poly(lp, rp, op, pp, ix),
        crate::poly::ps_scale(
            alpha,
            ps_sub(
                crate::prover::perm_t2(lp, rp, op, zp, ix, beta, gamma),
                crate::prover::perm_t3(lp, rp, op, zp, ix, beta, gamma),
            ),
        ),
    );
    lemma_constraints_vanish_on_domain(comb, ix.n as nat, ix.sid@[j] as int);

    // boundary: z - 1 is exactly divisible by x - 1, and 1^1 == 1
    let zm1 = ps_sub(zp, seq![1u64]);
    lemma_ps_sub_ok(zp, seq![1u64]);
    lemma_fmul_one_zero(1);
    assert(fpow(1, 1) == fmul(1, fpow(1, 0)));
    assert(fpow(1, 1) == 1);
    lemma_constraints_vanish_on_domain(zm1, 1, 1);
    lemma_peval_from_sub(zp, seq![1u64], 1, 0);
    // the constant polynomial one evaluates to one
    lemma_peval_from_unfold(seq![1u64], 1, 0);
    assert(peval_from(seq![1u64], 1, 1) == 0);
    assert(fmul(1, 0) == 0);
    assert(peval(seq![1u64], 1) == crate::field::fadd(1, 0));
    lemma_fadd_zero(1);
    lemma_peval_in_f(zp, 1, 0);
    crate::field::lemma_fsub_eq(peval(zp, 1), 1);
}

/// Batched inversion agrees with independent per-row inversion: any two
/// vectors meeting the batched-inversion contract and the element-wise
/// inversion contract over the same inputs are equal, row for row.
pub proof fn lemma_batched_matches_per_row(vals: Seq<u64>, batched: Seq<u64>, rowwise: Seq<u64>)
    requires
        batched.len() == vals.len(),
        rowwise.len() == vals.len(),
        forall|i: int| 0 <= i < vals.len() ==> batched[i] as int == inv_f(vals[i] as int),
        forall|i: int| 0 <= i < vals.len() ==> rowwise[i] as int == inv_f(vals[i] as int),
    ensures
        batched == rowwise,
{
    assert(batched =~= rowwise);
}

/// Blinding changes nothing in-domain: two blinded wire polynomials over
/// the same wire values — whatever their blinding coefficients — evaluate
/// to exactly those wire values at every domain point.  Off-domain they
/// may differ; in-domain the witness pins them down.
pub proof fn lemma_blinded_wires_agree_on_domain(
    pa: Seq<u64>,
    pb: Seq<u64>,
    vals: Seq<u64>,
    ix: Index,
    a0: u64,
    a1: u64,
    b0: u64,
    b1: u64,
    j: int,
)
    requires
        ix.wf(),
        vals.len() == ix.n,
        is_blinded_wire(pa, vals, ix, a0, a1),
        is_blinded_wire(pb, vals, ix, b0, b1),
        interp_checks_out(vals, ix.sid@),
        0 <= j < ix.n,
    ensures
        peval(pa, ix.sid@[j] as int) == vals[j] as int,
        peval(pb, ix.sid@[j] as int) == vals[j] as int,
        peval(pa, ix.sid@[j] as int) == peval(pb, ix.sid@[j] as int),
{
    let ip = interp_candidate(vals, ix.sid@);
    crate::poly::lemma_blind_preserves_domain_eval(
        ip,
        blind_seq(a0, a1),
        ix.n as nat,
        ix.sid@[j] as int,
    );
    crate::poly::lemma_blind_preserves_domain_eval(
        ip,
        blind_seq(b0, b1),
        ix.n as nat,
        ix.sid@[j] as int,
    );
}

/// A witness that satisfies the copy constraints never fails the grand
/// product: whatever blinders a construction draws — and so whatever
/// challenges its transcript derives — the product closes at one.
pub proof fn lemma_copy_satisfaction_closes_grand_product(w: Seq<u64>, ix: Index, bl: Blinders)
    requires
        copy_constraints_hold(w, ix),
    ensures
        !grand_product_fails(w, ix, bl),
{
}

/// The blinding is visible off-domain: the two coefficients above the
/// interpolant's degree are exactly the blinding coefficients, so two
/// blinded wires over the same values with different blinders are
/// different polynomials — even though they agree at every domain point.
/// (At any single off-domain point the two may still collide, since
/// their difference is a degree-one multiple of the vanishing
/// polynomial and has roots; the difference is a fact about the
/// polynomials, which this lemma states.)
pub proof fn lemma_different_blinders_differ(
    pa: Seq<u64>,
    pb: Seq<u64>,
    vals: Seq<u64>,
    ix: Index,
    a0: u64,
    a1: u64,
    b0: u64,
    b1: u64,
)
    requires
        ix.wf(),
        2 <= ix.n,
        vals.len() == ix.n,
        a0 < P,
        a1 < P,
        b0 < P,
        b1 < P,
        is_blinded_wire(pa, vals, ix, a0, a1),
        is_blinded_wire(pb, vals, ix, b0, b1),
        a0 != b0 || a1 != b1,
    ensures
        pa[ix.n as int] == a0,
        pa[ix.n as int + 1] == a1,
        pb[ix.n as int] == b0,
        pb[ix.n as int + 1] == b1,
        pa != pb,
{
    let n = ix.n as int;
    lemma_fadd_zero(a0 as int);
    lemma_fsub_cancel(a0 as int, 0);
    lemma_fadd_zero(a1 as int);
    lemma_fsub_cancel(a1 as int, 0);
    lemma_fadd_zero(b0 as int);
    lemma_fsub_cancel(b0 as int, 0);
    lemma_fadd_zero(b1 as int);
    lemma_fsub_cancel(b1 as int, 0);
    assert(pa[n] == a0);
    assert(pa[n + 1] == a1);
    assert(pb[n] == b0);
    assert(pb[n + 1] == b1);
}

/// With fixed blinders the construction is deterministic: any two
/// finished proofs over the same witness, index and blinders carry
/// identical commitments (unshifted digests and shifted parts alike),
/// the same opening digest and the same public input.
#[verifier::rlimit(100)]
pub proof fn lemma_fixed_blinders_reproduce(
    pf1: ProverProof,
    pf2: ProverProof,
    w: Seq<u64>,
    ix: Index,
    bl: Blinders,
)
    requires
        create_ok(pf1, w, ix, bl),
        create_ok(pf2, w, ix, bl),
    ensures
        pf1.l_comm.unshifted@ == pf2.l_comm.unshifted@,
        pf1.r_comm.unshifted@ == pf2.r_comm.unshifted@,
        pf1.o_comm.unshifted@ == pf2.o_comm.unshifted@,
        pf1.z_comm.unshifted@ == pf2.z_comm.unshifted@,
        pf1.t_comm.unshifted@ == pf2.t_comm.unshifted@,
        pf1.t_comm.shifted == pf2.t_comm.shifted,
        pf1.opening.digest == pf2.opening.digest,
        pf1.public@ == pf2.public@,
{
    assert(pf1.public@ == pf2.public@);
    assert(pf1.l_comm.unshifted@ =~= pf2.l_comm.unshifted@);
    assert(pf1.r_comm.unshifted@ =~= pf2.r_comm.unshifted@);
    assert(pf1.o_comm.unshifted@ =~= pf2.o_comm.unshifted@);
    assert(pf1.z_comm.unshifted@ =~= pf2.z_comm.unshifted@);
    assert(pf1.t_comm.unshifted@ =~= pf2.t_comm.unshifted@);
}

} // verus!
