//! Proof construction: from (witness, index) to a succinct proof.
//!
//! The pipeline follows the protocol exactly: interpolate and blind the
//! three wire polynomials, commit, absorb in fixed order and squeeze
//! `beta, gamma`; build the copy-constraint grand product with one batched
//! inversion, check that it closes at one, commit, absorb, squeeze
//! `alpha`; combine gate, permutation and boundary constraints into
//! the quotient, dividing exactly by the vanishing polynomial; commit,
//! absorb, squeeze `zeta`; evaluate all twelve committed polynomials at
//! `zeta` and `zeta·g`; squeeze `v, u` and produce the aggregated opening.
//! Each step's contract is stated over the spec-level pipeline below.

use vstd::prelude::*;
use crate::field::{fadd, fmul, inv_f, fe_add, fe_mul, P};
use crate::poly::{
    chunk_of, dvq, dvq_len, dvr, interp_candidate, interp_checks_out, n_chunks, poly_ok, peval,
    ps_add, ps_mbv, ps_mul, ps_neg, ps_scale, ps_sub, ps_zip_mul, interpolate, is_zero_vec, padd,
    pmul, pmul_vanishing, pneg, pscale, psub, pzip_mul, divide_by_vanishing,
    lemma_blind_preserves_domain_eval,
};
use crate::sponge::{sp_absorb_seq, sp_squeeze, Sponge, SPONGE_IV};
use crate::commit::{
    commit, eval_chunked, is_chunked_eval, is_commit, open, open_digest, vec_digest, OpenItem,
    OpeningProof, PolyComm,
};
use crate::index::{Gate, Index};

verus! {

/// Construction failures.  `WitnessCsInconsistent` is the input error,
/// raised before any transcript interaction; the other two report an
/// internal integrity failure: no valid proof exists for the pairing.
#[derive(Clone, Copy, PartialEq, Eq, Structural, Debug)]
pub enum ProofError {
    /// The witness length is not three times the domain size.
    WitnessCsInconsistent,
    /// The permutation grand product failed to close at one, or an
    /// interpolation integrity check failed.
    ProofCreation,
    /// A polynomial division left a nonzero remainder.
    PolyDivision,
}

/// The six Fiat-Shamir challenges, in derivation order; all zero until
/// each is squeezed from the transcript, once, in strict order.
pub struct RandomOracles {
    pub beta: u64,
    pub gamma: u64,
    pub alpha: u64,
    pub zeta: u64,
    pub v: u64,
    pub u: u64,
}

impl RandomOracles {
    pub fn zero() -> (r: RandomOracles)
        ensures
            r.beta == 0,
            r.gamma == 0,
            r.alpha == 0,
            r.zeta == 0,
            r.v == 0,
            r.u == 0,
    {
        RandomOracles { beta: 0, gamma: 0, alpha: 0, zeta: 0, v: 0, u: 0 }
    }
}

/// Chunk-wise values of every committed polynomial at one point.
#[derive(Clone, Debug)]
pub struct ProofEvaluations<Fs> {
    pub l: Fs,
    pub r: Fs,
    pub o: Fs,
    pub z: Fs,
    pub t: Fs,
    pub ql: Fs,
    pub qr: Fs,
    pub qo: Fs,
    pub qm: Fs,
    pub qc: Fs,
    pub sigma: [Fs; 3],
}

/// The finished proof: five commitments, the aggregated opening, the
/// evaluation records at `zeta` and `zeta·g`, and the public input.
#[derive(Clone, Debug)]
pub struct ProverProof {
    pub l_comm: PolyComm,
    pub r_comm: PolyComm,
    pub o_comm: PolyComm,
    pub z_comm: PolyComm,
    pub t_comm: PolyComm,
    pub opening: OpeningProof,
    pub evals: [ProofEvaluations<Vec<u64>>; 2],
    pub public: Vec<u64>,
}

/// The prover's secret randomness for one construction: a degree-one
/// blinding polynomial per wire column and the opening's own blinding.
pub struct Blinders {
    pub l0: u64,
    pub l1: u64,
    pub r0: u64,
    pub r1: u64,
    pub o0: u64,
    pub o1: u64,
    pub opening: u64,
}

impl Blinders {
    pub open spec fn wf(self) -> bool {
        self.l0 < P && self.l1 < P && self.r0 < P && self.r1 < P && self.o0 < P && self.o1 < P
            && self.opening < P
    }
}

/// The left-wire values in gate order.
pub open spec fn wire_l(w: Seq<u64>, gates: Seq<Gate>) -> Seq<u64> {
    Seq::new(gates.len(), |j: int| w[gates[j].l as int])
}

pub open spec fn wire_r(w: Seq<u64>, gates: Seq<Gate>) -> Seq<u64> {
    Seq::new(gates.len(), |j: int| w[gates[j].r as int])
}

pub open spec fn wire_o(w: Seq<u64>, gates: Seq<Gate>) -> Seq<u64> {
    Seq::new(gates.len(), |j: int| w[gates[j].o as int])
}

/// The public-input block of the witness, padded with zeros to the
/// domain size.
pub open spec fn padded_public(w: Seq<u64>, ix: Index) -> Seq<u64> {
    Seq::new(ix.n as nat, |j: int| if j < ix.public { w[j] } else { 0u64 })
}

/// The degree-one blinding polynomial with the given coefficients.
pub open spec fn blind_seq(b0: u64, b1: u64) -> Seq<u64> {
    seq![b0, b1]
}

/// `pl` is the interpolation of `vals` on the domain plus the blinding
/// multiple of the vanishing polynomial — a closed formula of the wire
/// values and the blinding coefficients, so the blinded wires are
/// deterministic.
pub open spec fn is_blinded_wire(pl: Seq<u64>, vals: Seq<u64>, ix: Index, b0: u64, b1: u64) -> bool {
    pl == ps_add(interp_candidate(vals, ix.sid@), ps_mbv(blind_seq(b0, b1), ix.n as nat))
}

/// Numerator of row `j` of the grand product: the three wire values
/// shifted by `beta` times the permutation labels, plus `gamma`.
pub open spec fn perm_num(w: Seq<u64>, ix: Index, beta: int, gamma: int, j: int) -> int {
    let n = ix.n as int;
    fmul(
        fmul(
            fadd(fadd(w[j] as int, fmul(ix.sigmal@[0]@[j] as int, beta)), gamma),
            fadd(fadd(w[j + n] as int, fmul(ix.sigmal@[1]@[j] as int, beta)), gamma),
        ),
        fadd(fadd(w[j + 2 * n] as int, fmul(ix.sigmal@[2]@[j] as int, beta)), gamma),
    )
}

/// The three denominator factors of row `j`: the same shape over the
/// identity labels, the second and third scaled by the coset constants.
pub open spec fn perm_den1(w: Seq<u64>, ix: Index, beta: int, gamma: int, j: int) -> int {
    fadd(fadd(w[j] as int, fmul(ix.sid@[j] as int, beta)), gamma)
}

pub open spec fn perm_den2(w: Seq<u64>, ix: Index, beta: int, gamma: int, j: int) -> int {
    fadd(
        fadd(w[j + ix.n] as int, fmul(fmul(ix.sid@[j] as int, beta), ix.r as int)),
        gamma,
    )
}

pub open spec fn perm_den3(w: Seq<u64>, ix: Index, beta: int, gamma: int, j: int) -> int {
    fadd(
        fadd(w[j + 2 * ix.n] as int, fmul(fmul(ix.sid@[j] as int, beta), ix.o as int)),
        gamma,
    )
}

/// The grand-product sequence: `z[0] = 1` and each step multiplies by the
/// identity-side factors and the inverted permutation-side product.  For
/// a witness respecting the circuit wiring it telescopes to `z[n] == 1`.
pub open spec fn zfold(w: Seq<u64>, ix: Index, beta: int, gamma: int, j: nat) -> int
    decreases j,
{
    if j == 0 {
        1
    } else {
        let i = (j - 1) as int;
        fmul(
            inv_f(perm_num(w, ix, beta, gamma, i)),
            fmul(
                fmul(
                    fmul(zfold(w, ix, beta, gamma, (j - 1) as nat), perm_den1(w, ix, beta, gamma, i)),
                    perm_den2(w, ix, beta, gamma, i),
                ),
                perm_den3(w, ix, beta, gamma, i),
            ),
        )
    }
}

/// The first `n` grand-product entries, as the values interpolated into
/// the permutation polynomial.
pub open spec fn zvals(w: Seq<u64>, ix: Index, beta: int, gamma: int) -> Seq<u64> {
    Seq::new(ix.n as nat, |j: int| (zfold(w, ix, beta, gamma, j as nat) as u64))
}

/// Transcript state after round one: public input then the three wire
/// commitments, in that order.
pub open spec fn round1_state(public: Seq<u64>, lc: Seq<u64>, rc: Seq<u64>, oc: Seq<u64>) -> int {
    sp_absorb_seq(
        sp_absorb_seq(sp_absorb_seq(sp_absorb_seq(SPONGE_IV as int, public), lc), rc),
        oc,
    )
}

pub open spec fn beta_spec(public: Seq<u64>, lc: Seq<u64>, rc: Seq<u64>, oc: Seq<u64>) -> int {
    sp_squeeze(round1_state(public, lc, rc, oc))
}

pub open spec fn gamma_spec(public: Seq<u64>, lc: Seq<u64>, rc: Seq<u64>, oc: Seq<u64>) -> int {
    sp_squeeze(beta_spec(public, lc, rc, oc))
}

pub open spec fn alpha_spec(
    public: Seq<u64>,
    lc: Seq<u64>,
    rc: Seq<u64>,
    oc: Seq<u64>,
    zc: Seq<u64>,
) -> int {
    sp_squeeze(sp_absorb_seq(gamma_spec(public, lc, rc, oc), zc))
}

pub open spec fn zeta_spec(
    public: Seq<u64>,
    lc: Seq<u64>,
    rc: Seq<u64>,
    oc: Seq<u64>,
    zc: Seq<u64>,
    tc: Seq<u64>,
) -> int {
    sp_squeeze(sp_absorb_seq(alpha_spec(public, lc, rc, oc, zc), tc))
}

pub open spec fn v_spec(
    public: Seq<u64>,
    lc: Seq<u64>,
    rc: Seq<u64>,
    oc: Seq<u64>,
    zc: Seq<u64>,
    tc: Seq<u64>,
) -> int {
    sp_squeeze(zeta_spec(public, lc, rc, oc, zc, tc))
}

pub open spec fn u_spec(
    public: Seq<u64>,
    lc: Seq<u64>,
    rc: Seq<u64>,
    oc: Seq<u64>,
    zc: Seq<u64>,
    tc: Seq<u64>,
) -> int {
    sp_squeeze(v_spec(public, lc, rc, oc, zc, tc))
}

/// Gate constraint in polynomial form:
/// `l·r·qm + l·ql + r·qr + o·qo + qc + p`.
pub open spec fn gate_poly(
    lp: Seq<u64>,
    rp: Seq<u64>,
    op: Seq<u64>,
    pp: Seq<u64>,
    ix: Index,
) -> Seq<u64> {
    ps_add(
        ps_add(
            ps_add(
                ps_add(ps_add(ps_mul(lp, ps_mul(rp, ix.qm@)), ps_mul(lp, ix.ql@)), ps_mul(rp, ix.qr@)),
                ps_mul(op, ix.qo@),
            ),
            ix.qc@,
        ),
        pp,
    )
}

/// Identity side of the permutation identity:
/// `(l + γ + βx)(r + γ + βr̂x)(o + γ + βôx) · z`.
pub open spec fn perm_t2(
    lp: Seq<u64>,
    rp: Seq<u64>,
    op: Seq<u64>,
    zp: Seq<u64>,
    ix: Index,
    beta: int,
    gamma: int,
) -> Seq<u64> {
    ps_mul(
        ps_mul(
            ps_mul(
                ps_add(lp, seq![gamma as u64, beta as u64]),
                ps_add(rp, seq![gamma as u64, fmul(beta, ix.r as int) as u64]),
            ),
            ps_add(op, seq![gamma as u64, fmul(beta, ix.o as int) as u64]),
        ),
        zp,
    )
}

/// Permutation side of the permutation identity:
/// `(l + γ + βσ0)(r + γ + βσ1)(o + γ + βσ2) · z(gx)`, where `z(gx)` is
/// `z` with coefficient `i` scaled by the `i`-th domain power.
pub open spec fn perm_t3(
    lp: Seq<u64>,
    rp: Seq<u64>,
    op: Seq<u64>,
    zp: Seq<u64>,
    ix: Index,
    beta: int,
    gamma: int,
) -> Seq<u64> {
    ps_mul(
        ps_mul(
            ps_mul(
                ps_add(ps_add(lp, seq![gamma as u64]), ps_scale(beta, ix.sigmam@[0]@)),
                ps_add(ps_add(rp, seq![gamma as u64]), ps_scale(beta, ix.sigmam@[1]@)),
            ),
            ps_add(ps_add(op, seq![gamma as u64]), ps_scale(beta, ix.sigmam@[2]@)),
        ),
        ps_zip_mul(zp, ix.sid@),
    )
}

/// The combined identity fed to the vanishing division:
/// `t1 + α·(t2 - t3)`.
pub open spec fn t_combined(
    lp: Seq<u64>,
    rp: Seq<u64>,
    op: Seq<u64>,
    pp: Seq<u64>,
    zp: Seq<u64>,
    ix: Index,
    beta: int,
    gamma: int,
    alpha: int,
) -> Seq<u64> {
    ps_add(
        gate_poly(lp, rp, op, pp, ix),
        ps_scale(alpha, ps_sub(perm_t2(lp, rp, op, zp, ix, beta, gamma), perm_t3(lp, rp, op, zp, ix, beta, gamma))),
    )
}

/// The quotient of `c` by `x^m - 1`, as a sequence.
pub open spec fn dvq_seq(c: Seq<u64>, m: nat) -> Seq<u64> {
    Seq::new(dvq_len(c.len(), m), |k: int| (dvq(c, m, k) as u64))
}

/// The remainder of `c` divided by `x^m - 1`, as a sequence.
pub open spec fn dvr_seq(c: Seq<u64>, m: nat) -> Seq<u64> {
    Seq::new(m, |k: int| (dvr(c, m, k) as u64))
}

/// The division of `c` by `x^m - 1` is exact: every remainder
/// coefficient is zero.
pub open spec fn dv_exact(c: Seq<u64>, m: nat) -> bool {
    forall|k: int| 0 <= k < m ==> dvr(c, m, k) == 0
}

/// The full quotient polynomial: the main quotient plus `α²` times the
/// boundary quotient `(z - 1)/(x - 1)`.
pub open spec fn t_spec(
    lp: Seq<u64>,
    rp: Seq<u64>,
    op: Seq<u64>,
    pp: Seq<u64>,
    zp: Seq<u64>,
    ix: Index,
    beta: int,
    gamma: int,
    alpha: int,
) -> Seq<u64> {
    ps_add(
        dvq_seq(t_combined(lp, rp, op, pp, zp, ix, beta, gamma, alpha), ix.n as nat),
        ps_scale(fmul(alpha, alpha), dvq_seq(ps_sub(zp, seq![1u64]), 1)),
    )
}

/// One evaluation record is correct for the given polynomials at `x`.
pub open spec fn evals_ok(
    ev: ProofEvaluations<Vec<u64>>,
    lp: Seq<u64>,
    rp: Seq<u64>,
    op: Seq<u64>,
    zp: Seq<u64>,
    t: Seq<u64>,
    ix: Index,
    x: int,
) -> bool {
    let max = ix.max_poly_size as nat;
    &&& is_chunked_eval(ev.l@, lp, max, x)
    &&& is_chunked_eval(ev.r@, rp, max, x)
    &&& is_chunked_eval(ev.o@, op, max, x)
    &&& is_chunked_eval(ev.z@, zp, max, x)
    &&& is_chunked_eval(ev.t@, t, max, x)
    &&& is_chunked_eval(ev.ql@, ix.ql@, max, x)
    &&& is_chunked_eval(ev.qr@, ix.qr@, max, x)
    &&& is_chunked_eval(ev.qo@, ix.qo@, max, x)
    &&& is_chunked_eval(ev.qm@, ix.qm@, max, x)
    &&& is_chunked_eval(ev.qc@, ix.qc@, max, x)
    &&& is_chunked_eval(ev.sigma[0]@, ix.sigmam@[0]@, max, x)
    &&& is_chunked_eval(ev.sigma[1]@, ix.sigmam@[1]@, max, x)
    &&& is_chunked_eval(ev.sigma[2]@, ix.sigmam@[2]@, max, x)
}

/// The whole pipeline, relative to the intermediate polynomials
/// `lp, rp, op` (blinded wires), `pp` (negated public polynomial) and
/// `zp` (permutation polynomial): commitments commit to them, the
/// challenges are the transcript chain over the absorbed data in protocol
/// order, the grand product closes at one, both divisions are exact, and
/// the evaluation records and opening digest are exactly the spec values
/// at `zeta` and `zeta·g`.
pub open spec fn proof_parts_ok(
    pf: ProverProof,
    w: Seq<u64>,
    ix: Index,
    bl: Blinders,
    lp: Seq<u64>,
    rp: Seq<u64>,
    op: Seq<u64>,
    pp: Seq<u64>,
    zp: Seq<u64>,
) -> bool {
    let n = ix.n as nat;
    let max = ix.max_poly_size as nat;
    let public = pf.public@;
    let lc = pf.l_comm.unshifted@;
    let rc = pf.r_comm.unshifted@;
    let oc = pf.o_comm.unshifted@;
    let zc = pf.z_comm.unshifted@;
    let tc = pf.t_comm.unshifted@;
    let beta = beta_spec(public, lc, rc, oc);
    let gamma = gamma_spec(public, lc, rc, oc);
    let alpha = alpha_spec(public, lc, rc, oc, zc);
    let zeta = zeta_spec(public, lc, rc, oc, zc, tc);
    let vv = v_spec(public, lc, rc, oc, zc, tc);
    let uu = u_spec(public, lc, rc, oc, zc, tc);
    let t = t_spec(lp, rp, op, pp, zp, ix, beta, gamma, alpha);
    &&& is_blinded_wire(lp, wire_l(w, ix.gates@), ix, bl.l0, bl.l1)
    &&& is_blinded_wire(rp, wire_r(w, ix.gates@), ix, bl.r0, bl.r1)
    &&& is_blinded_wire(op, wire_o(w, ix.gates@), ix, bl.o0, bl.o1)
    &&& (forall|j: int|
        0 <= j < n ==> peval(lp, ix.sid@[j] as int) == wire_l(w, ix.gates@)[j] as int)
    &&& (forall|j: int|
        0 <= j < n ==> peval(rp, ix.sid@[j] as int) == wire_r(w, ix.gates@)[j] as int)
    &&& (forall|j: int|
        0 <= j < n ==> peval(op, ix.sid@[j] as int) == wire_o(w, ix.gates@)[j] as int)
    &&& interp_checks_out(wire_l(w, ix.gates@), ix.sid@)
    &&& interp_checks_out(wire_r(w, ix.gates@), ix.sid@)
    &&& interp_checks_out(wire_o(w, ix.gates@), ix.sid@)
    &&& pp == ps_neg(interp_candidate(padded_public(w, ix), ix.sid@))
    &&& interp_checks_out(padded_public(w, ix), ix.sid@)
    &&& pf.public@ == w.subrange(0, ix.public as int)
    &&& zp == interp_candidate(zvals(w, ix, beta, gamma), ix.sid@)
    &&& interp_checks_out(zvals(w, ix, beta, gamma), ix.sid@)
    &&& zfold(w, ix, beta, gamma, n) == 1
    &&& dv_exact(ps_sub(zp, seq![1u64]), 1)
    &&& dv_exact(t_combined(lp, rp, op, pp, zp, ix, beta, gamma, alpha), n)
    &&& poly_ok(lp) && poly_ok(rp) && poly_ok(op) && poly_ok(pp) && poly_ok(zp)
    &&& is_commit(pf.l_comm, lp, max, None)
    &&& is_commit(pf.r_comm, rp, max, None)
    &&& is_commit(pf.o_comm, op, max, None)
    &&& is_commit(pf.z_comm, zp, max, None)
    &&& is_commit(pf.t_comm, t, max, Some((3 * n + 3) as nat))
    &&& evals_ok(pf.evals[0], lp, rp, op, zp, t, ix, zeta)
    &&& evals_ok(pf.evals[1], lp, rp, op, zp, t, ix, fmul(zeta, ix.group_gen as int))
    &&& pf.opening.digest as int == open_digest(
        seq![
            lp,
            rp,
            op,
            zp,
            t,
            ix.ql@,
            ix.qr@,
            ix.qo@,
            ix.qm@,
            ix.qc@,
            ix.sigmam@[0]@,
            ix.sigmam@[1]@,
            ix.sigmam@[2]@,
        ],
        seq![zeta as u64, fmul(zeta, ix.group_gen as int) as u64],
        vv,
        uu,
        uu,
        bl.opening as int,
    )
}

/// The unshifted digest sequence a commitment to `p` carries.
pub open spec fn commit_unshifted(p: Seq<u64>, max: nat) -> Seq<u64> {
    Seq::new(n_chunks(p.len(), max), |i: int| (vec_digest(chunk_of(p, max, i)) as u64))
}

/// The public-input block of the witness.
pub open spec fn public_of(w: Seq<u64>, ix: Index) -> Seq<u64> {
    w.subrange(0, ix.public as int)
}

/// The blinded left wire polynomial of a construction.
pub open spec fn lp_of(w: Seq<u64>, ix: Index, bl: Blinders) -> Seq<u64> {
    ps_add(
        interp_candidate(wire_l(w, ix.gates@), ix.sid@),
        ps_mbv(blind_seq(bl.l0, bl.l1), ix.n as nat),
    )
}

pub open spec fn rp_of(w: Seq<u64>, ix: Index, bl: Blinders) -> Seq<u64> {
    ps_add(
        interp_candidate(wire_r(w, ix.gates@), ix.sid@),
        ps_mbv(blind_seq(bl.r0, bl.r1), ix.n as nat),
    )
}

pub open spec fn op_of(w: Seq<u64>, ix: Index, bl: Blinders) -> Seq<u64> {
    ps_add(
        interp_candidate(wire_o(w, ix.gates@), ix.sid@),
        ps_mbv(blind_seq(bl.o0, bl.o1), ix.n as nat),
    )
}

/// The negated public polynomial of a construction.
pub open spec fn pp_of(w: Seq<u64>, ix: Index) -> Seq<u64> {
    ps_neg(interp_candidate(padded_public(w, ix), ix.sid@))
}

/// The first challenge of a construction: the transcript chain over the
/// public input and the three (deterministic) wire commitments.
pub open spec fn beta_of(w: Seq<u64>, ix: Index, bl: Blinders) -> int {
    beta_spec(
        public_of(w, ix),
        commit_unshifted(lp_of(w, ix, bl), ix.max_poly_size as nat),
        commit_unshifted(rp_of(w, ix, bl), ix.max_poly_size as nat),
        commit_unshifted(op_of(w, ix, bl), ix.max_poly_size as nat),
    )
}

pub open spec fn gamma_of(w: Seq<u64>, ix: Index, bl: Blinders) -> int {
    gamma_spec(
        public_of(w, ix),
        commit_unshifted(lp_of(w, ix, bl), ix.max_poly_size as nat),
        commit_unshifted(rp_of(w, ix, bl), ix.max_poly_size as nat),
        commit_unshifted(op_of(w, ix, bl), ix.max_poly_size as nat),
    )
}

/// The grand-product values a construction interpolates.
pub open spec fn zvals_of(w: Seq<u64>, ix: Index, bl: Blinders) -> Seq<u64> {
    zvals(w, ix, beta_of(w, ix, bl), gamma_of(w, ix, bl))
}

/// The permutation polynomial of a construction.
pub open spec fn zp_of(w: Seq<u64>, ix: Index, bl: Blinders) -> Seq<u64> {
    interp_candidate(zvals_of(w, ix, bl), ix.sid@)
}

pub open spec fn alpha_of(w: Seq<u64>, ix: Index, bl: Blinders) -> int {
    alpha_spec(
        public_of(w, ix),
        commit_unshifted(lp_of(w, ix, bl), ix.max_poly_size as nat),
        commit_unshifted(rp_of(w, ix, bl), ix.max_poly_size as nat),
        commit_unshifted(op_of(w, ix, bl), ix.max_poly_size as nat),
        commit_unshifted(zp_of(w, ix, bl), ix.max_poly_size as nat),
    )
}

/// One of the four interpolation re-checks fails.  Over a proper
/// multiplicative domain none does; the predicate is what the re-checks
/// decide.
pub open spec fn interp_fail(w: Seq<u64>, ix: Index) -> bool {
    ||| !interp_checks_out(padded_public(w, ix), ix.sid@)
    ||| !interp_checks_out(wire_l(w, ix.gates@), ix.sid@)
    ||| !interp_checks_out(wire_r(w, ix.gates@), ix.sid@)
    ||| !interp_checks_out(wire_o(w, ix.gates@), ix.sid@)
}

/// The copy-constraint grand product fails to close at one.
pub open spec fn grand_product_fails(w: Seq<u64>, ix: Index, bl: Blinders) -> bool {
    zfold(w, ix, beta_of(w, ix, bl), gamma_of(w, ix, bl), ix.n as nat) != 1
}

/// The causes of a `ProofCreation` error, exactly: an interpolation
/// re-check fails, the grand product does not close at one, or the
/// grand-product interpolation re-check fails.
pub open spec fn construction_integrity_fails(w: Seq<u64>, ix: Index, bl: Blinders) -> bool {
    ||| interp_fail(w, ix)
    ||| grand_product_fails(w, ix, bl)
    ||| !interp_checks_out(zvals_of(w, ix, bl), ix.sid@)
}

/// The causes of a `PolyDivision` error, exactly: the boundary division
/// `(z - 1)/(x - 1)` or the vanishing division of the combined constraint
/// leaves a nonzero remainder.
pub open spec fn division_fails(w: Seq<u64>, ix: Index, bl: Blinders) -> bool {
    ||| !dv_exact(ps_sub(zp_of(w, ix, bl), seq![1u64]), 1)
    ||| !dv_exact(
        t_combined(
            lp_of(w, ix, bl),
            rp_of(w, ix, bl),
            op_of(w, ix, bl),
            pp_of(w, ix),
            zp_of(w, ix, bl),
            ix,
            beta_of(w, ix, bl),
            gamma_of(w, ix, bl),
            alpha_of(w, ix, bl),
        ),
        ix.n as nat,
    )
}

/// The witness satisfies every gate constraint: each row's gate
/// identity `l·r·qm + l·ql + r·qr + o·qo + qc + PI` vanishes, with the
/// selectors evaluated at the row's domain point and `PI` the negated
/// public-input value of the row.
pub open spec fn gate_constraints_hold(w: Seq<u64>, ix: Index) -> bool {
    forall|j: int|
        0 <= j < ix.n ==> fadd(
            fadd(
                fadd(
                    fadd(
                        fadd(
                            fmul(
                                fmul(
                                    wire_l(w, ix.gates@)[j] as int,
                                    wire_r(w, ix.gates@)[j] as int,
                                ),
                                peval(ix.qm@, ix.sid@[j] as int),
                            ),
                            fmul(wire_l(w, ix.gates@)[j] as int, peval(ix.ql@, ix.sid@[j] as int)),
                        ),
                        fmul(wire_r(w, ix.gates@)[j] as int, peval(ix.qr@, ix.sid@[j] as int)),
                    ),
                    fmul(wire_o(w, ix.gates@)[j] as int, peval(ix.qo@, ix.sid@[j] as int)),
                ),
                peval(ix.qc@, ix.sid@[j] as int),
            ),
            crate::field::fneg(padded_public(w, ix)[j] as int),
        ) == 0
}

/// The witness satisfies every copy constraint: the grand product
/// telescopes to one for every pair of challenge values — the
/// challenge-independent form of "wiring-respecting equals identity",
/// row multiset against row multiset.
pub open spec fn copy_constraints_hold(w: Seq<u64>, ix: Index) -> bool {
    forall|beta: int, gamma: int| zfold(w, ix, beta, gamma, ix.n as nat) == 1
}

/// A finished proof is the correct run of the (deterministic) pipeline:
/// every intermediate polynomial is the closed-form value of the witness,
/// the index and the blinders.
pub open spec fn create_ok(pf: ProverProof, w: Seq<u64>, ix: Index, bl: Blinders) -> bool {
    proof_parts_ok(
        pf,
        w,
        ix,
        bl,
        lp_of(w, ix, bl),
        rp_of(w, ix, bl),
        op_of(w, ix, bl),
        pp_of(w, ix),
        zp_of(w, ix, bl),
    )
}

fn vec_dup(v: &Vec<u64>) -> (r: Vec<u64>)
    ensures
        r@ == v@,
{
    let mut out: Vec<u64> = Vec::new();
    proof {
        assert(out@ =~= v@.subrange(0, 0));
    }
    let mut i: usize = 0;
    while i < v.len()
        invariant
            i <= v@.len(),
            out@ == v@.subrange(0, i as int),
        decreases v@.len() - i,
    {
        out.push(v[i]);
        proof {
            assert(out@ =~= v@.subrange(0, i as int + 1));
        }
        i = i + 1;
    }
    proof {
        assert(v@.subrange(0, v@.len() as int) =~= v@);
    }
    out
}

fn gather_wire_l(witness: &Vec<u64>, ix: &Index) -> (r: Vec<u64>)
    requires
        ix.wf(),
        poly_ok(witness@),
        witness@.len() == 3 * ix.n,
    ensures
        r@ == wire_l(witness@, ix.gates@),
        poly_ok(r@),
        r@.len() == ix.n,
{
    let mut out: Vec<u64> = Vec::new();
    let mut j: usize = 0;
    while j < ix.gates.len()
        invariant
            ix.wf(),
            poly_ok(witness@),
            witness@.len() == 3 * ix.n,
            j <= ix.gates@.len(),
            out@.len() == j,
            forall|i: int| 0 <= i < j ==> out@[i] == wire_l(witness@, ix.gates@)[i] && out@[i] < P,
        decreases ix.gates@.len() - j,
    {
        let g = ix.gates[j];
        out.push(witness[g.l]);
        j = j + 1;
    }
    proof {
        assert(out@ =~= wire_l(witness@, ix.gates@));
    }
    out
}

fn gather_wire_r(witness: &Vec<u64>, ix: &Index) -> (r: Vec<u64>)
    requires
        ix.wf(),
        poly_ok(witness@),
        witness@.len() == 3 * ix.n,
    ensures
        r@ == wire_r(witness@, ix.gates@),
        poly_ok(r@),
        r@.len() == ix.n,
{
    let mut out: Vec<u64> = Vec::new();
    let mut j: usize = 0;
    while j < ix.gates.len()
        invariant
            ix.wf(),
            poly_ok(witness@),
            witness@.len() == 3 * ix.n,
            j <= ix.gates@.len(),
            out@.len() == j,
            forall|i: int| 0 <= i < j ==> out@[i] == wire_r(witness@, ix.gates@)[i] && out@[i] < P,
        decreases ix.gates@.len() - j,
    {
        let g = ix.gates[j];
        out.push(witness[g.r]);
        j = j + 1;
    }
    proof {
        assert(out@ =~= wire_r(witness@, ix.gates@));
    }
    out
}

fn gather_wire_o(witness: &Vec<u64>, ix: &Index) -> (r: Vec<u64>)
    requires
        ix.wf(),
        poly_ok(witness@),
        witness@.len() == 3 * ix.n,
    ensures
        r@ == wire_o(witness@, ix.gates@),
        poly_ok(r@),
        r@.len() == ix.n,
{
    let mut out: Vec<u64> = Vec::new();
    let mut j: usize = 0;
    while j < ix.gates.len()
        invariant
            ix.wf(),
            poly_ok(witness@),
            witness@.len() == 3 * ix.n,
            j <= ix.gates@.len(),
            out@.len() == j,
            forall|i: int| 0 <= i < j ==> out@[i] == wire_o(witness@, ix.gates@)[i] && out@[i] < P,
        decreases ix.gates@.len() - j,
    {
        let g = ix.gates[j];
        out.push(witness[g.o]);
        j = j + 1;
    }
    proof {
        assert(out@ =~= wire_o(witness@, ix.gates@));
    }
    out
}

/// Interpolates one wire column on the domain and adds the blinding
/// multiple of the vanishing polynomial: in-domain evaluations equal the
/// wire values, while off-domain evaluations depend on the blinding.
fn blinded_wire_poly(vals: &Vec<u64>, ix: &Index, b0: u64, b1: u64) -> (res: Result<
    Vec<u64>,
    ProofError,
>)
    requires
        ix.wf(),
        poly_ok(vals@),
        vals@.len() == ix.n,
        b0 < P,
        b1 < P,
    ensures
        res is Ok <==> interp_checks_out(vals@, ix.sid@),
        res matches Ok(p) ==> is_blinded_wire(p@, vals@, *ix, b0, b1) && poly_ok(p@) && p@.len()
            == ix.n + 2 && (forall|j: int|
            0 <= j < ix.n ==> peval(p@, ix.sid@[j] as int) == vals@[j] as int),
        res matches Err(e) ==> e == ProofError::ProofCreation,
{
    let ip = match interpolate(vals, &ix.sid) {
        Some(ip) => ip,
        None => {
            return Err(ProofError::ProofCreation);
        },
    };
    let mut bl: Vec<u64> = Vec::new();
    bl.push(b0);
    bl.push(b1);
    proof {
        assert(bl@ =~= blind_seq(b0, b1));
    }
    let mbv = pmul_vanishing(&bl, ix.n);
    let out = padd(&ip, &mbv);
    proof {
        assert(out@ == ps_add(interp_candidate(vals@, ix.sid@), ps_mbv(blind_seq(b0, b1), ix.n as nat)));
        assert(is_blinded_wire(out@, vals@, *ix, b0, b1));
        assert forall|j: int|
            0 <= j < ix.n implies peval(out@, ix.sid@[j] as int) == vals@[j] as int by {
            lemma_blind_preserves_domain_eval(ip@, blind_seq(b0, b1), ix.n as nat, ix.sid@[j] as int);
        }
    }
    Ok(out)
}

/// Builds the grand-product sequence `z[0..=n]`: the permutation-side
/// product for every row, one batched inversion over all of them, then
/// the running product of identity-side factors times inverted
/// permutation factors.
fn perm_z_evals(witness: &Vec<u64>, ix: &Index, beta: u64, gamma: u64) -> (z: Vec<u64>)
    requires
        ix.wf(),
        poly_ok(witness@),
        witness@.len() == 3 * ix.n,
        beta < P,
        gamma < P,
    ensures
        z@.len() == ix.n + 1,
        poly_ok(z@),
        forall|j: int|
            0 <= j <= ix.n ==> z@[j] as int == zfold(
                witness@,
                *ix,
                beta as int,
                gamma as int,
                j as nat,
            ),
{
    let n = ix.n;
    let s0 = &ix.sigmal[0];
    let s1 = &ix.sigmal[1];
    let s2 = &ix.sigmal[2];
    let mut nums: Vec<u64> = Vec::new();
    let mut j: usize = 0;
    while j < n
        invariant
            ix.wf(),
            poly_ok(witness@),
            witness@.len() == 3 * ix.n,
            beta < P,
            gamma < P,
            n == ix.n,
            s0@ == ix.sigmal@[0]@,
            s1@ == ix.sigmal@[1]@,
            s2@ == ix.sigmal@[2]@,
            j <= n,
            nums@.len() == j,
            forall|i: int|
                0 <= i < j ==> nums@[i] as int == perm_num(witness@, *ix, beta as int, gamma as int, i)
                    && nums@[i] < P,
        decreases n - j,
    {
        let f1 = fe_add(fe_add(witness[j], fe_mul(s0[j], beta)), gamma);
        let f2 = fe_add(fe_add(witness[j + n], fe_mul(s1[j], beta)), gamma);
        let f3 = fe_add(fe_add(witness[j + 2 * n], fe_mul(s2[j], beta)), gamma);
        nums.push(fe_mul(fe_mul(f1, f2), f3));
        j = j + 1;
    }
    let invs = crate::field::batch_invert(&nums);
    let sid = &ix.sid;
    let mut z: Vec<u64> = Vec::new();
    z.push(1);
    let mut j: usize = 0;
    while j < n
        invariant
            ix.wf(),
            poly_ok(witness@),
            witness@.len() == 3 * ix.n,
            beta < P,
            gamma < P,
            n == ix.n,
            sid@ == ix.sid@,
            nums@.len() == n,
            forall|i: int|
                0 <= i < n ==> nums@[i] as int == perm_num(witness@, *ix, beta as int, gamma as int, i),
            invs@.len() == n,
            forall|i: int|
                0 <= i < n ==> invs@[i] as int == inv_f(nums@[i] as int) && invs@[i] < P,
            j <= n,
            z@.len() == j + 1,
            forall|i: int|
                0 <= i <= j ==> z@[i] as int == zfold(witness@, *ix, beta as int, gamma as int, i as nat)
                    && z@[i] < P,
        decreases n - j,
    {
        let zj = z[j];
        let d1 = fe_add(fe_add(witness[j], fe_mul(sid[j], beta)), gamma);
        let d2 = fe_add(fe_add(witness[j + n], fe_mul(fe_mul(sid[j], beta), ix.r)), gamma);
        let d3 = fe_add(fe_add(witness[j + 2 * n], fe_mul(fe_mul(sid[j], beta), ix.o)), gamma);
        let cur = fe_mul(fe_mul(fe_mul(zj, d1), d2), d3);
        let nxt = fe_mul(invs[j], cur);
        z.push(nxt);
        j = j + 1;
    }
    z
}

/// Evaluates every committed polynomial, chunk-wise, at one point.
fn make_evals(
    lp: &Vec<u64>,
    rp: &Vec<u64>,
    op: &Vec<u64>,
    zp: &Vec<u64>,
    t: &Vec<u64>,
    ix: &Index,
    x: u64,
) -> (ev: ProofEvaluations<Vec<u64>>)
    requires
        ix.wf(),
        poly_ok(lp@),
        poly_ok(rp@),
        poly_ok(op@),
        poly_ok(zp@),
        poly_ok(t@),
        lp@.len() <= 100000,
        rp@.len() <= 100000,
        op@.len() <= 100000,
        zp@.len() <= 100000,
        t@.len() <= 100000,
        x < P,
    ensures
        evals_ok(ev, lp@, rp@, op@, zp@, t@, *ix, x as int),
{
    let max = ix.max_poly_size;
    let e_l = eval_chunked(lp, max, x);
    let e_r = eval_chunked(rp, max, x);
    let e_o = eval_chunked(op, max, x);
    let e_z = eval_chunked(zp, max, x);
    let e_t = eval_chunked(t, max, x);
    let e_ql = eval_chunked(&ix.ql, max, x);
    let e_qr = eval_chunked(&ix.qr, max, x);
    let e_qo = eval_chunked(&ix.qo, max, x);
    let e_qm = eval_chunked(&ix.qm, max, x);
    let e_qc = eval_chunked(&ix.qc, max, x);
    let e_s0 = eval_chunked(&ix.sigmam[0], max, x);
    let e_s1 = eval_chunked(&ix.sigmam[1], max, x);
    let e_s2 = eval_chunked(&ix.sigmam[2], max, x);
    ProofEvaluations {
        l: e_l,
        r: e_r,
        o: e_o,
        z: e_z,
        t: e_t,
        ql: e_ql,
        qr: e_qr,
        qo: e_qo,
        qm: e_qm,
        qc: e_qc,
        sigma: [e_s0, e_s1, e_s2],
    }
}

/// Builds the quotient polynomial from gate identity, the two
/// sides of the permutation identity and the boundary identity, divides
/// the combination exactly by the vanishing polynomial and folds in the
/// boundary quotient scaled by `alpha²`.  A nonzero remainder in either
/// division aborts: no valid quotient exists.
#[verifier::rlimit(100)]
fn build_quotient(
    lp: &Vec<u64>,
    rp: &Vec<u64>,
    op: &Vec<u64>,
    pp: &Vec<u64>,
    zp: &Vec<u64>,
    ix: &Index,
    beta: u64,
    gamma: u64,
    alpha: u64,
) -> (res: Result<Vec<u64>, ProofError>)
    requires
        ix.wf(),
        poly_ok(lp@),
        poly_ok(rp@),
        poly_ok(op@),
        poly_ok(pp@),
        poly_ok(zp@),
        lp@.len() == ix.n + 2,
        rp@.len() == ix.n + 2,
        op@.len() == ix.n + 2,
        pp@.len() <= ix.n,
        zp@.len() == ix.n,
        beta < P,
        gamma < P,
        alpha < P,
    ensures
        res is Ok <==> dv_exact(ps_sub(zp@, seq![1u64]), 1) && dv_exact(
            t_combined(lp@, rp@, op@, pp@, zp@, *ix, beta as int, gamma as int, alpha as int),
            ix.n as nat,
        ),
        res matches Ok(t) ==> t@ == t_spec(
            lp@,
            rp@,
            op@,
            pp@,
            zp@,
            *ix,
            beta as int,
            gamma as int,
            alpha as int,
        ) && poly_ok(t@) && t@.len() <= 100000,
        res matches Err(e) ==> e == ProofError::PolyDivision,
{
    let n = ix.n;
    let alpsq = fe_mul(alpha, alpha);

    // gate identity
    let rq = pmul(rp, &ix.qm);
    let t1a = pmul(lp, &rq);
    let t1b = padd(&t1a, &pmul(lp, &ix.ql));
    let t1c = padd(&t1b, &pmul(rp, &ix.qr));
    let t1d = padd(&t1c, &pmul(op, &ix.qo));
    let t1e = padd(&t1d, &ix.qc);
    let t1 = padd(&t1e, pp);

    // permutation identity, identity side
    let mut d1: Vec<u64> = Vec::new();
    d1.push(gamma);
    d1.push(beta);
    let mut d2: Vec<u64> = Vec::new();
    d2.push(gamma);
    d2.push(fe_mul(beta, ix.r));
    let mut d3: Vec<u64> = Vec::new();
    d3.push(gamma);
    d3.push(fe_mul(beta, ix.o));
    let t2a = pmul(&padd(lp, &d1), &padd(rp, &d2));
    let t2b = pmul(&t2a, &padd(op, &d3));
    let t2 = pmul(&t2b, zp);

    // permutation identity, permutation side
    let mut gseq: Vec<u64> = Vec::new();
    gseq.push(gamma);
    let e1 = padd(&padd(lp, &gseq), &pscale(beta, &ix.sigmam[0]));
    let e2 = padd(&padd(rp, &gseq), &pscale(beta, &ix.sigmam[1]));
    let e3 = padd(&padd(op, &gseq), &pscale(beta, &ix.sigmam[2]));
    let t3a = pmul(&e1, &e2);
    let t3b = pmul(&t3a, &e3);
    let zs = pzip_mul(zp, &ix.sid);
    let t3 = pmul(&t3b, &zs);

    // boundary identity: (z - 1) exactly divisible by (x - 1)
    let mut one_vec: Vec<u64> = Vec::new();
    one_vec.push(1);
    proof {
        assert(one_vec@ =~= seq![1u64]);
    }
    let zm1 = psub(zp, &one_vec);
    let (t4, res4) = divide_by_vanishing(&zm1, 1);
    if !is_zero_vec(&res4) {
        proof {
            assert(exists|k: int| 0 <= k < res4@.len() && res4@[k] != 0u64);
            let k = choose|k: int| 0 <= k < res4@.len() && res4@[k] != 0u64;
            assert(dvr(ps_sub(zp@, seq![1u64]), 1, k) != 0);
            assert(!dv_exact(ps_sub(zp@, seq![1u64]), 1));
        }
        return Err(ProofError::PolyDivision);
    }

    // combine and divide by the vanishing polynomial
    let diff = psub(&t2, &t3);
    let combined = padd(&t1, &pscale(alpha, &diff));
    proof {
        let b = beta as int;
        let g = gamma as int;
        let a = alpha as int;
        assert(d1@ =~= seq![gamma, beta]);
        assert(d2@ =~= seq![gamma, fmul(b, ix.r as int) as u64]);
        assert(d3@ =~= seq![gamma, fmul(b, ix.o as int) as u64]);
        assert(gseq@ =~= seq![gamma]);
        assert(t1@ == gate_poly(lp@, rp@, op@, pp@, *ix));
        assert(t2@ == perm_t2(lp@, rp@, op@, zp@, *ix, b, g));
        assert(t3@ == perm_t3(lp@, rp@, op@, zp@, *ix, b, g));
        assert(combined@ == t_combined(lp@, rp@, op@, pp@, zp@, *ix, b, g, a));
    }
    let (t_main, res_m) = divide_by_vanishing(&combined, n);
    if !is_zero_vec(&res_m) {
        proof {
            let nn = ix.n as nat;
            let comb = t_combined(
                lp@,
                rp@,
                op@,
                pp@,
                zp@,
                *ix,
                beta as int,
                gamma as int,
                alpha as int,
            );
            assert(exists|k: int| 0 <= k < res_m@.len() && res_m@[k] != 0u64);
            let k = choose|k: int| 0 <= k < res_m@.len() && res_m@[k] != 0u64;
            assert(dvr(comb, nn, k) != 0);
            assert(!dv_exact(comb, nn));
        }
        return Err(ProofError::PolyDivision);
    }
    let t_poly = padd(&t_main, &pscale(alpsq, &t4));
    proof {
        let b = beta as int;
        let g = gamma as int;
        let a = alpha as int;
        let nn = ix.n as nat;
        let comb = t_combined(lp@, rp@, op@, pp@, zp@, *ix, b, g, a);
        assert(t4@ =~= dvq_seq(ps_sub(zp@, seq![1u64]), 1));
        assert(t_main@ =~= dvq_seq(comb, nn));
        assert(t_poly@ == t_spec(lp@, rp@, op@, pp@, zp@, *ix, b, g, a));
        assert(dv_exact(ps_sub(zp@, seq![1u64]), 1)) by {
            assert forall|k: int| 0 <= k < 1 implies dvr(ps_sub(zp@, seq![1u64]), 1, k) == 0 by {
                assert(res4@[k] as int == dvr(zm1@, 1, k));
            }
        }
        assert(dv_exact(comb, nn)) by {
            assert forall|k: int| 0 <= k < nn implies dvr(comb, nn, k) == 0 by {
                assert(res_m@[k] as int == dvr(combined@, nn, k));
            }
        }
    }
    Ok(t_poly)
}

/// Produces the aggregated opening proof over the twelve committed
/// polynomials, in the protocol's fixed order, from the transcript
/// snapshot taken before evaluations were derived.
fn make_opening(
    lp: &Vec<u64>,
    rp: &Vec<u64>,
    op: &Vec<u64>,
    zp: &Vec<u64>,
    t: &Vec<u64>,
    ix: &Index,
    zeta: u64,
    zeta_g: u64,
    v: u64,
    u: u64,
    snapshot: Sponge,
    blind: u64,
    bound: usize,
) -> (pf: OpeningProof)
    requires
        ix.wf(),
        poly_ok(lp@),
        poly_ok(rp@),
        poly_ok(op@),
        poly_ok(zp@),
        poly_ok(t@),
        zeta < P,
        zeta_g < P,
        v < P,
        u < P,
        snapshot.wf(),
        blind < P,
    ensures
        pf.digest as int == open_digest(
            seq![
                lp@,
                rp@,
                op@,
                zp@,
                t@,
                ix.ql@,
                ix.qr@,
                ix.qo@,
                ix.qm@,
                ix.qc@,
                ix.sigmam@[0]@,
                ix.sigmam@[1]@,
                ix.sigmam@[2]@,
            ],
            seq![zeta, zeta_g],
            v as int,
            u as int,
            snapshot.state as int,
            blind as int,
        ),
        pf.digest < P,
{
    let mut items: Vec<OpenItem> = Vec::new();
    items.push(OpenItem { poly: vec_dup(lp), bound: None });
    items.push(OpenItem { poly: vec_dup(rp), bound: None });
    items.push(OpenItem { poly: vec_dup(op), bound: None });
    items.push(OpenItem { poly: vec_dup(zp), bound: None });
    items.push(OpenItem { poly: vec_dup(t), bound: Some(bound) });
    items.push(OpenItem { poly: vec_dup(&ix.ql), bound: None });
    items.push(OpenItem { poly: vec_dup(&ix.qr), bound: None });
    items.push(OpenItem { poly: vec_dup(&ix.qo), bound: None });
    items.push(OpenItem { poly: vec_dup(&ix.qm), bound: None });
    items.push(OpenItem { poly: vec_dup(&ix.qc), bound: None });
    items.push(OpenItem { poly: vec_dup(&ix.sigmam[0]), bound: None });
    items.push(OpenItem { poly: vec_dup(&ix.sigmam[1]), bound: None });
    items.push(OpenItem { poly: vec_dup(&ix.sigmam[2]), bound: None });
    let mut evlp: Vec<u64> = Vec::new();
    evlp.push(zeta);
    evlp.push(zeta_g);
    proof {
        assert(items@.map_values(|it: OpenItem| it.poly@) =~= seq![
            lp@,
            rp@,
            op@,
            zp@,
            t@,
            ix.ql@,
            ix.qr@,
            ix.qo@,
            ix.qm@,
            ix.qc@,
            ix.sigmam@[0]@,
            ix.sigmam@[1]@,
            ix.sigmam@[2]@,
        ]);
        assert(evlp@ =~= seq![zeta, zeta_g]);
    }
    open(&items, &evlp, v, u, snapshot, blind)
}

/// A commitment's unshifted digests equal the spec-level digest sequence.
proof fn lemma_cu_matches(c: PolyComm, p: Seq<u64>, max: nat)
    requires
        c.unshifted@.len() == n_chunks(p.len(), max),
        forall|i: int|
            0 <= i < c.unshifted@.len() ==> c.unshifted@[i] as int == vec_digest(
                chunk_of(p, max, i),
            ),
    ensures
        c.unshifted@ == commit_unshifted(p, max),
{
    assert(c.unshifted@ =~= commit_unshifted(p, max));
}

impl ProverProof {
    /// Constructs the prover's proof from the witness and the index, with
    /// the given blinding randomness.  The contract is an exact
    /// trichotomy: the input error exactly for a wrong witness length,
    /// `ProofCreation` exactly when a construction integrity check fails
    /// (an interpolation re-check, or the grand product not closing at
    /// one), `PolyDivision` exactly when a division leaves a remainder,
    /// and otherwise success, with every part of the proof the spec-level
    /// pipeline value of (witness, index, blinders).  A witness meeting
    /// `copy_constraints_hold` never trips the grand product (see the
    /// laws module); that one meeting `gate_constraints_hold` over a
    /// geometric domain also passes the re-checks and divisions is the
    /// completeness direction, which rests on roots-of-unity facts not
    /// proved here.
    #[verifier::rlimit(100)]
    pub fn create(witness: &Vec<u64>, index: &Index, blinders: &Blinders) -> (res: Result<
        ProverProof,
        ProofError,
    >)
        requires
            index.wf(),
            poly_ok(witness@),
            blinders.wf(),
        ensures
            witness@.len() != 3 * index.n ==> res == Err::<ProverProof, ProofError>(
                ProofError::WitnessCsInconsistent,
            ),
            witness@.len() == 3 * index.n ==> (res == Err::<ProverProof, ProofError>(
                ProofError::ProofCreation,
            ) <==> construction_integrity_fails(witness@, *index, *blinders)),
            witness@.len() == 3 * index.n ==> (res == Err::<ProverProof, ProofError>(
                ProofError::PolyDivision,
            ) <==> !construction_integrity_fails(witness@, *index, *blinders) && division_fails(
                witness@,
                *index,
                *blinders,
            )),
            res is Ok <==> witness@.len() == 3 * index.n && !construction_integrity_fails(
                witness@,
                *index,
                *blinders,
            ) && !division_fails(witness@, *index, *blinders),
            res matches Ok(pf) ==> pf.public@ == witness@.subrange(0, index.public as int)
                && create_ok(pf, witness@, *index, *blinders),
    {
        let n = index.n;
        if witness.len() != 3 * n {
            return Err(ProofError::WitnessCsInconsistent);
        }
        let mut oracles = RandomOracles::zero();
        let mut fq_sponge = Sponge::new();

        // public-input block and the (negated) public polynomial
        let mut public: Vec<u64> = Vec::new();
        proof {
            assert(public@ =~= witness@.subrange(0, 0));
        }
        let mut i: usize = 0;
        while i < index.public
            invariant
                index.wf(),
                poly_ok(witness@),
                witness@.len() == 3 * index.n,
                i <= index.public,
                public@ == witness@.subrange(0, i as int),
            decreases index.public - i,
        {
            public.push(witness[i]);
            proof {
                assert(public@ =~= witness@.subrange(0, i as int + 1));
            }
            i = i + 1;
        }
        let mut pv: Vec<u64> = Vec::new();
        let mut i: usize = 0;
        while i < n
            invariant
                index.wf(),
                poly_ok(witness@),
                witness@.len() == 3 * index.n,
                n == index.n,
                i <= n,
                pv@.len() == i,
                forall|k: int|
                    0 <= k < i ==> pv@[k] == padded_public(witness@, *index)[k] && pv@[k] < P,
            decreases n - i,
        {
            if i < index.public {
                pv.push(witness[i]);
            } else {
                pv.push(0);
            }
            i = i + 1;
        }
        proof {
            assert(pv@ =~= padded_public(witness@, *index));
        }
        let p_ip = match interpolate(&pv, &index.sid) {
            Some(x) => x,
            None => {
                proof {
                    assert(interp_fail(witness@, *index));
                }
                return Err(ProofError::ProofCreation);
            },
        };
        let p_poly = pneg(&p_ip);

        // blinded wire polynomials
        let lv = gather_wire_l(witness, index);
        let rv = gather_wire_r(witness, index);
        let ov = gather_wire_o(witness, index);
        let l_poly = match blinded_wire_poly(&lv, index, blinders.l0, blinders.l1) {
            Ok(x) => x,
            Err(e) => {
                proof {
                    assert(interp_fail(witness@, *index));
                }
                return Err(e);
            },
        };
        let r_poly = match blinded_wire_poly(&rv, index, blinders.r0, blinders.r1) {
            Ok(x) => x,
            Err(e) => {
                proof {
                    assert(interp_fail(witness@, *index));
                }
                return Err(e);
            },
        };
        let o_poly = match blinded_wire_poly(&ov, index, blinders.o0, blinders.o1) {
            Ok(x) => x,
            Err(e) => {
                proof {
                    assert(interp_fail(witness@, *index));
                }
                return Err(e);
            },
        };

        // round 1: commit, absorb in fixed order, squeeze beta and gamma
        let l_comm = commit(&l_poly, index.max_poly_size, None);
        let r_comm = commit(&r_poly, index.max_poly_size, None);
        let o_comm = commit(&o_poly, index.max_poly_size, None);
        fq_sponge.absorb_vec(&public);
        fq_sponge.absorb_vec(&l_comm.unshifted);
        fq_sponge.absorb_vec(&r_comm.unshifted);
        fq_sponge.absorb_vec(&o_comm.unshifted);
        oracles.beta = fq_sponge.challenge();
        oracles.gamma = fq_sponge.challenge();
        proof {
            let max = index.max_poly_size as nat;
            assert(l_poly@ == lp_of(witness@, *index, *blinders));
            assert(r_poly@ == rp_of(witness@, *index, *blinders));
            assert(o_poly@ == op_of(witness@, *index, *blinders));
            lemma_cu_matches(l_comm, lp_of(witness@, *index, *blinders), max);
            lemma_cu_matches(r_comm, rp_of(witness@, *index, *blinders), max);
            lemma_cu_matches(o_comm, op_of(witness@, *index, *blinders), max);
            assert(public@ == public_of(witness@, *index));
            assert(oracles.beta as int == beta_of(witness@, *index, *blinders));
            assert(oracles.gamma as int == gamma_of(witness@, *index, *blinders));
        }

        // permutation polynomial
        let z_evals = perm_z_evals(witness, index, oracles.beta, oracles.gamma);
        if z_evals[n] != 1 {
            proof {
                assert(grand_product_fails(witness@, *index, *blinders));
            }
            return Err(ProofError::ProofCreation);
        }
        let mut z_vals: Vec<u64> = Vec::new();
        let mut i: usize = 0;
        while i < n
            invariant
                index.wf(),
                n == index.n,
                i <= n,
                z_evals@.len() == n + 1,
                poly_ok(z_evals@),
                forall|j: int|
                    0 <= j <= n ==> z_evals@[j] as int == zfold(
                        witness@,
                        *index,
                        oracles.beta as int,
                        oracles.gamma as int,
                        j as nat,
                    ),
                z_vals@.len() == i,
                forall|k: int|
                    0 <= k < i ==> z_vals@[k] == zvals(
                        witness@,
                        *index,
                        oracles.beta as int,
                        oracles.gamma as int,
                    )[k] && z_vals@[k] < P,
            decreases n - i,
        {
            z_vals.push(z_evals[i]);
            i = i + 1;
        }
        proof {
            assert(z_vals@ =~= zvals(witness@, *index, oracles.beta as int, oracles.gamma as int));
        }
        proof {
            assert(z_vals@ == zvals_of(witness@, *index, *blinders));
        }
        let z_poly = match interpolate(&z_vals, &index.sid) {
            Some(x) => x,
            None => {
                proof {
                    assert(!interp_checks_out(zvals_of(witness@, *index, *blinders), index.sid@));
                }
                return Err(ProofError::ProofCreation);
            },
        };
        proof {
            assert(z_poly@ == zp_of(witness@, *index, *blinders));
        }

        // round 2: commit z, absorb, squeeze alpha
        let z_comm = commit(&z_poly, index.max_poly_size, None);
        fq_sponge.absorb_vec(&z_comm.unshifted);
        oracles.alpha = fq_sponge.challenge();
        proof {
            lemma_cu_matches(z_comm, zp_of(witness@, *index, *blinders), index.max_poly_size as nat);
            assert(oracles.alpha as int == alpha_of(witness@, *index, *blinders));
            assert(!construction_integrity_fails(witness@, *index, *blinders));
        }

        // the quotient polynomial
        let t_poly = match build_quotient(
            &l_poly,
            &r_poly,
            &o_poly,
            &p_poly,
            &z_poly,
            index,
            oracles.beta,
            oracles.gamma,
            oracles.alpha,
        ) {
            Ok(x) => x,
            Err(e) => {
                proof {
                    assert(division_fails(witness@, *index, *blinders));
                }
                return Err(e);
            },
        };
        proof {
            assert(!division_fails(witness@, *index, *blinders));
        }

        // round 3: commit t under its degree bound, absorb, squeeze zeta
        let t_comm = commit(&t_poly, index.max_poly_size, Some(3 * n + 3));
        fq_sponge.absorb_vec(&t_comm.unshifted);
        oracles.zeta = fq_sponge.challenge();

        // evaluations at zeta and zeta·g
        let zeta = oracles.zeta;
        let zeta_g = fe_mul(zeta, index.group_gen);
        let ev0 = make_evals(&l_poly, &r_poly, &o_poly, &z_poly, &t_poly, index, zeta);
        let ev1 = make_evals(&l_poly, &r_poly, &o_poly, &z_poly, &t_poly, index, zeta_g);

        // aggregation challenges and the transcript snapshot for the
        // opening (evaluations are never absorbed into this transcript)
        oracles.v = fq_sponge.challenge();
        oracles.u = fq_sponge.challenge();
        let fq_sponge_before_evaluations = fq_sponge;

        // aggregated opening over all twelve polynomials, fixed order
        let opening = make_opening(
            &l_poly,
            &r_poly,
            &o_poly,
            &z_poly,
            &t_poly,
            index,
            zeta,
            zeta_g,
            oracles.v,
            oracles.u,
            fq_sponge_before_evaluations,
            blinders.opening,
            3 * n + 3,
        );

        let pf = ProverProof {
            l_comm,
            r_comm,
            o_comm,
            z_comm,
            t_comm,
            opening,
            evals: [ev0, ev1],
            public,
        };
        proof {
            let w = witness@;
            let ix = *index;
            let bl = *blinders;
            let lp = l_poly@;
            let rp = r_poly@;
            let op = o_poly@;
            let pp = p_poly@;
            let zp = z_poly@;
            let nn = ix.n as nat;
            let lc = pf.l_comm.unshifted@;
            let rc = pf.r_comm.unshifted@;
            let oc = pf.o_comm.unshifted@;
            let zc = pf.z_comm.unshifted@;
            let tc = pf.t_comm.unshifted@;
            let beta = beta_spec(pf.public@, lc, rc, oc);
            let gamma = gamma_spec(pf.public@, lc, rc, oc);
            let alpha = alpha_spec(pf.public@, lc, rc, oc, zc);
            let zeta_s = zeta_spec(pf.public@, lc, rc, oc, zc, tc);
            assert(oracles.beta as int == beta);
            assert(oracles.gamma as int == gamma);
            assert(oracles.alpha as int == alpha);
            assert(oracles.zeta as int == zeta_s);
            let ts = t_spec(lp, rp, op, pp, zp, ix, beta, gamma, alpha);
            assert(t_poly@ == ts);
            assert(zfold(w, ix, beta, gamma, nn) == 1);
            assert(pf.public@ =~= w.subrange(0, ix.public as int));
            assert(pp == ps_neg(interp_candidate(padded_public(w, ix), ix.sid@)));
            assert(zp == interp_candidate(zvals(w, ix, beta, gamma), ix.sid@));
            assert(pf.evals[0] == ev0);
            assert(pf.evals[1] == ev1);
            assert(evals_ok(pf.evals[0], lp, rp, op, zp, ts, ix, zeta_s));
            assert(evals_ok(pf.evals[1], lp, rp, op, zp, ts, ix, fmul(zeta_s, ix.group_gen as int)));
            assert(proof_parts_ok(pf, w, ix, bl, lp, rp, op, pp, zp));
            assert(create_ok(pf, w, ix, bl));
        }
        Ok(pf)
    }
}

} // verus!
