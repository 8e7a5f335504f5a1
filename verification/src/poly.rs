//! Dense polynomials over the scalar field, as coefficient vectors.
//!
//! Every operation the protocol needs is specified coefficient-wise over
//! `Seq<u64>` views: addition, subtraction, scaling, pointwise products,
//! multiplication (convolution), multiplication by the vanishing polynomial
//! `x^m - 1`, division by `x^m - 1` with remainder, Horner evaluation, and
//! interpolation on a multiplicative domain.  Division returns quotient and
//! remainder pinned down by the long-division recurrence and comes with the
//! reconstruction identity `c = r + q·x^m - q` stated coefficient-wise.

use vstd::prelude::*;
use crate::field::{
    fadd, fsub, fmul, fneg, fpow, in_f, inv_f, fe_add, fe_sub, fe_mul, fe_neg, fe_inv, fe_pow,
    lemma_fadd_assoc, lemma_fadd_comm, lemma_fadd_zero, lemma_fadd4, lemma_fmul_assoc,
    lemma_fmul_dist, lemma_fmul_dist_sub, lemma_fmul_one_zero, lemma_fsub_cancel, lemma_fsub_self,
    lemma_fsub4, P,
};

verus! {

broadcast use vstd::arithmetic::div_mod::lemma_mod_bound;

/// Every stored coefficient is a canonical field element.
pub open spec fn poly_ok(s: Seq<u64>) -> bool {
    forall|i: int| 0 <= i < s.len() ==> s[i] < P
}

/// Coefficient `k`, with zero outside the stored range.
pub open spec fn coef(s: Seq<u64>, k: int) -> int {
    if 0 <= k < s.len() {
        s[k] as int
    } else {
        0
    }
}

pub open spec fn ps_add(a: Seq<u64>, b: Seq<u64>) -> Seq<u64> {
    Seq::new(
        if a.len() >= b.len() { a.len() } else { b.len() },
        |k: int| fadd(coef(a, k), coef(b, k)) as u64,
    )
}

pub open spec fn ps_sub(a: Seq<u64>, b: Seq<u64>) -> Seq<u64> {
    Seq::new(
        if a.len() >= b.len() { a.len() } else { b.len() },
        |k: int| fsub(coef(a, k), coef(b, k)) as u64,
    )
}

pub open spec fn ps_scale(c: int, a: Seq<u64>) -> Seq<u64> {
    Seq::new(a.len(), |k: int| fmul(c, coef(a, k)) as u64)
}

pub open spec fn ps_neg(a: Seq<u64>) -> Seq<u64> {
    Seq::new(a.len(), |k: int| fneg(coef(a, k)) as u64)
}

/// Pointwise product of coefficient vectors, truncated to the shorter one.
pub open spec fn ps_zip_mul(a: Seq<u64>, b: Seq<u64>) -> Seq<u64> {
    Seq::new(
        if a.len() <= b.len() { a.len() } else { b.len() },
        |k: int| fmul(coef(a, k), coef(b, k)) as u64,
    )
}

/// `a` shifted up by `m` positions, that is `a · x^m`.
pub open spec fn ps_shiftn(a: Seq<u64>, m: nat) -> Seq<u64> {
    Seq::new(a.len() + m, |k: int| (coef(a, k - m) as u64))
}

/// `a · (x^m - 1)`.
pub open spec fn ps_mbv(a: Seq<u64>, m: nat) -> Seq<u64> {
    ps_sub(ps_shiftn(a, m), a)
}

pub open spec fn cterm(a: Seq<u64>, b: Seq<u64>, k: int, i: int) -> int {
    fmul(coef(a, i), coef(b, k - i))
}

pub open spec fn csum(a: Seq<u64>, b: Seq<u64>, k: int, j: nat) -> int
    decreases j,
{
    if j == 0 {
        0
    } else {
        fadd(csum(a, b, k, (j - 1) as nat), cterm(a, b, k, j - 1))
    }
}

/// Convolution coefficient `k` of `a · b`.
pub open spec fn conv(a: Seq<u64>, b: Seq<u64>, k: int) -> int {
    if k >= 0 {
        csum(a, b, k, (k + 1) as nat)
    } else {
        0
    }
}

pub open spec fn ps_mul(a: Seq<u64>, b: Seq<u64>) -> Seq<u64> {
    if a.len() == 0 || b.len() == 0 {
        Seq::<u64>::empty()
    } else {
        Seq::new((a.len() + b.len() - 1) as nat, |k: int| conv(a, b, k) as u64)
    }
}

/// Number of chunks of `max` coefficients needed to cover `len`
/// coefficients; the empty polynomial still occupies one chunk.
pub open spec fn n_chunks(len: nat, max: nat) -> nat
    decreases len,
{
    if max == 0 || len <= max {
        1
    } else {
        1 + n_chunks((len - max) as nat, max)
    }
}

/// Chunk `i` of `p` under chunk size `max`.
pub open spec fn chunk_of(p: Seq<u64>, max: nat, i: int) -> Seq<u64> {
    p.subrange(
        i * max,
        if (i + 1) * max <= p.len() {
            (i + 1) * max
        } else {
            p.len() as int
        },
    )
}

/// Horner evaluation of the tail of `s` starting at coefficient `k`.
pub open spec fn peval_from(s: Seq<u64>, x: int, k: int) -> int
    decreases s.len() - k,
{
    if k < 0 || k >= s.len() {
        0
    } else {
        fadd(coef(s, k), fmul(x, peval_from(s, x, k + 1)))
    }
}

/// The value of the polynomial `s` at the point `x`.
pub open spec fn peval(s: Seq<u64>, x: int) -> int {
    peval_from(s, x, 0)
}

/// The Horner unfolding holds at every index `k >= 0`, also past the end
/// of the coefficient vector (where all terms are zero).
pub proof fn lemma_peval_from_unfold(s: Seq<u64>, x: int, k: int)
    requires
        k >= 0,
    ensures
        peval_from(s, x, k) == fadd(coef(s, k), fmul(x, peval_from(s, x, k + 1))),
{
    if k >= s.len() {
        assert(x * 0 == 0) by (nonlinear_arith);
        assert(fmul(x, 0) == 0);
        assert(fadd(0, 0) == 0);
    }
}

/// The spec-level sum of two polynomials has canonical coefficients.
pub proof fn lemma_ps_add_ok(a: Seq<u64>, b: Seq<u64>)
    ensures
        poly_ok(ps_add(a, b)),
{
    assert forall|i: int| 0 <= i < ps_add(a, b).len() implies ps_add(a, b)[i] < P by {
        assert(0 <= fadd(coef(a, i), coef(b, i)) < P as int);
    }
}

/// The spec-level difference of two polynomials has canonical
/// coefficients.
pub proof fn lemma_ps_sub_ok(a: Seq<u64>, b: Seq<u64>)
    ensures
        poly_ok(ps_sub(a, b)),
{
    assert forall|i: int| 0 <= i < ps_sub(a, b).len() implies ps_sub(a, b)[i] < P by {
        assert(0 <= fsub(coef(a, i), coef(b, i)) < P as int);
    }
}

/// Every evaluation tail is a canonical field element.
pub proof fn lemma_peval_in_f(s: Seq<u64>, x: int, k: int)
    ensures
        in_f(peval_from(s, x, k)),
{
    if k < 0 || k >= s.len() {
    }
}

/// Evaluation is additive: at every tail index, the value of `a + b` is
/// the field sum of the two values.
pub proof fn lemma_peval_from_add(a: Seq<u64>, b: Seq<u64>, x: int, k: int)
    requires
        k >= 0,
    ensures
        peval_from(ps_add(a, b), x, k) == fadd(peval_from(a, x, k), peval_from(b, x, k)),
    decreases ps_add(a, b).len() - k,
{
    let ab = ps_add(a, b);
    if k >= ab.len() {
        lemma_fadd_zero(0);
    } else {
        lemma_peval_from_add(a, b, x, k + 1);
        lemma_peval_from_unfold(a, x, k);
        lemma_peval_from_unfold(b, x, k);
        let ca = coef(a, k);
        let cb = coef(b, k);
        let pa = peval_from(a, x, k + 1);
        let pb = peval_from(b, x, k + 1);
        assert(coef(ab, k) == fadd(ca, cb));
        lemma_fmul_dist(x, pa, pb);
        lemma_fadd4(ca, cb, fmul(x, pa), fmul(x, pb));
    }
}

/// Evaluation respects subtraction in the same way.
pub proof fn lemma_peval_from_sub(a: Seq<u64>, b: Seq<u64>, x: int, k: int)
    requires
        k >= 0,
    ensures
        peval_from(ps_sub(a, b), x, k) == fsub(peval_from(a, x, k), peval_from(b, x, k)),
    decreases ps_sub(a, b).len() - k,
{
    let ab = ps_sub(a, b);
    if k >= ab.len() {
        lemma_fsub_self(0);
    } else {
        lemma_peval_from_sub(a, b, x, k + 1);
        lemma_peval_from_unfold(a, x, k);
        lemma_peval_from_unfold(b, x, k);
        let ca = coef(a, k);
        let cb = coef(b, k);
        let pa = peval_from(a, x, k + 1);
        let pb = peval_from(b, x, k + 1);
        assert(coef(ab, k) == fsub(ca, cb));
        lemma_fmul_dist_sub(x, pa, pb);
        lemma_fsub4(ca, fmul(x, pa), cb, fmul(x, pb));
    }
}

/// Two coefficient sequences that agree from position `k` on (reading
/// absent coefficients as zero) evaluate identically from `k`.
pub proof fn lemma_peval_coef_ext(s1: Seq<u64>, s2: Seq<u64>, x: int, k: int)
    requires
        k >= 0,
        forall|j: int| j >= k ==> coef(s1, j) == coef(s2, j),
    ensures
        peval_from(s1, x, k) == peval_from(s2, x, k),
    decreases (if s1.len() >= s2.len() {
        s1.len()
    } else {
        s2.len()
    }) - k,
{
    if k >= s1.len() && k >= s2.len() {
    } else {
        lemma_peval_coef_ext(s1, s2, x, k + 1);
        lemma_peval_from_unfold(s1, x, k);
        lemma_peval_from_unfold(s2, x, k);
    }
}

/// Shifting by one position drops straight through evaluation tails.
pub proof fn lemma_peval_from_shift1(s: Seq<u64>, x: int, k: int)
    requires
        k >= 0,
    ensures
        peval_from(ps_shiftn(s, 1), x, k + 1) == peval_from(s, x, k),
    decreases s.len() - k,
{
    let sh = ps_shiftn(s, 1);
    if k >= s.len() {
        assert(k + 1 >= sh.len());
    } else {
        lemma_peval_from_shift1(s, x, k + 1);
        assert(coef(sh, k + 1) == coef(s, k));
    }
}

/// Evaluating `s · x` multiplies the value by the point.
pub proof fn lemma_peval_shift1(s: Seq<u64>, x: int)
    ensures
        peval(ps_shiftn(s, 1), x) == fmul(x, peval(s, x)),
{
    let sh = ps_shiftn(s, 1);
    lemma_peval_from_shift1(s, x, 0);
    lemma_peval_from_unfold(sh, x, 0);
    assert(coef(sh, 0) == 0);
    lemma_peval_in_f(s, x, 0);
    lemma_peval_in_f(sh, x, 1);
    lemma_fadd_zero(fmul(x, peval_from(sh, x, 1)));
}

/// Evaluating `s · x^m` multiplies the value by `x^m`.
pub proof fn lemma_peval_shiftn(s: Seq<u64>, m: nat, x: int)
    ensures
        peval(ps_shiftn(s, m), x) == fmul(fpow(x, m), peval(s, x)),
    decreases m,
{
    if m == 0 {
        assert(ps_shiftn(s, 0) =~= s);
        lemma_peval_in_f(s, x, 0);
        lemma_fmul_one_zero(peval(s, x));
    } else {
        let prev = ps_shiftn(s, (m - 1) as nat);
        lemma_peval_shiftn(s, (m - 1) as nat, x);
        assert(ps_shiftn(s, m) =~= ps_shiftn(prev, 1));
        lemma_peval_shift1(prev, x);
        lemma_fmul_assoc(x, fpow(x, (m - 1) as nat), peval(s, x));
    }
}

/// Blinding with a vanishing-polynomial multiple leaves evaluations at
/// domain points unchanged: wherever `x^m == 1`, the blinded polynomial
/// agrees with the bare one — the zero-knowledge blinding of the witness
/// polynomials changes nothing in-domain.
pub proof fn lemma_blind_preserves_domain_eval(ip: Seq<u64>, bl: Seq<u64>, m: nat, d: int)
    requires
        fpow(d, m) == 1,
    ensures
        peval(ps_add(ip, ps_mbv(bl, m)), d) == peval(ip, d),
{
    lemma_peval_from_add(ip, ps_mbv(bl, m), d, 0);
    lemma_peval_from_sub(ps_shiftn(bl, m), bl, d, 0);
    lemma_peval_shiftn(bl, m, d);
    let pb = peval(bl, d);
    lemma_peval_in_f(bl, d, 0);
    lemma_fmul_one_zero(pb);
    lemma_fsub_self(pb);
    lemma_peval_in_f(ip, d, 0);
    lemma_fadd_zero(peval(ip, d));
}

pub fn coef_at(v: &Vec<u64>, k: usize) -> (r: u64)
    requires
        poly_ok(v@),
    ensures
        r as int == coef(v@, k as int),
        r < P,
{
    if k < v.len() {
        v[k]
    } else {
        0
    }
}

pub fn padd(a: &Vec<u64>, b: &Vec<u64>) -> (r: Vec<u64>)
    requires
        poly_ok(a@),
        poly_ok(b@),
    ensures
        r@ == ps_add(a@, b@),
        poly_ok(r@),
{
    let la = a.len();
    let lb = b.len();
    let n = if la >= lb { la } else { lb };
    let mut out: Vec<u64> = Vec::new();
    let mut k: usize = 0;
    while k < n
        invariant
            poly_ok(a@),
            poly_ok(b@),
            n == ps_add(a@, b@).len(),
            k <= n,
            out@.len() == k,
            forall|j: int| 0 <= j < k ==> out@[j] == ps_add(a@, b@)[j] && out@[j] < P,
        decreases n - k,
    {
        let c = fe_add(coef_at(a, k), coef_at(b, k));
        out.push(c);
        k = k + 1;
    }
    proof {
        assert(out@ =~= ps_add(a@, b@));
    }
    out
}

pub fn psub(a: &Vec<u64>, b: &Vec<u64>) -> (r: Vec<u64>)
    requires
        poly_ok(a@),
        poly_ok(b@),
    ensures
        r@ == ps_sub(a@, b@),
        poly_ok(r@),
{
    let la = a.len();
    let lb = b.len();
    let n = if la >= lb { la } else { lb };
    let mut out: Vec<u64> = Vec::new();
    let mut k: usize = 0;
    while k < n
        invariant
            poly_ok(a@),
            poly_ok(b@),
            n == ps_sub(a@, b@).len(),
            k <= n,
            out@.len() == k,
            forall|j: int| 0 <= j < k ==> out@[j] == ps_sub(a@, b@)[j] && out@[j] < P,
        decreases n - k,
    {
        let c = fe_sub(coef_at(a, k), coef_at(b, k));
        out.push(c);
        k = k + 1;
    }
    proof {
        assert(out@ =~= ps_sub(a@, b@));
    }
    out
}

pub fn pscale(c: u64, a: &Vec<u64>) -> (r: Vec<u64>)
    requires
        c < P,
        poly_ok(a@),
    ensures
        r@ == ps_scale(c as int, a@),
        poly_ok(r@),
{
    let mut out: Vec<u64> = Vec::new();
    let mut k: usize = 0;
    while k < a.len()
        invariant
            c < P,
            poly_ok(a@),
            k <= a@.len(),
            out@.len() == k,
            forall|j: int|
                0 <= j < k ==> out@[j] == ps_scale(c as int, a@)[j] && out@[j] < P,
        decreases a@.len() - k,
    {
        let v = fe_mul(c, a[k]);
        out.push(v);
        k = k + 1;
    }
    proof {
        assert(out@ =~= ps_scale(c as int, a@));
    }
    out
}

pub fn pneg(a: &Vec<u64>) -> (r: Vec<u64>)
    requires
        poly_ok(a@),
    ensures
        r@ == ps_neg(a@),
        poly_ok(r@),
{
    let mut out: Vec<u64> = Vec::new();
    let mut k: usize = 0;
    while k < a.len()
        invariant
            poly_ok(a@),
            k <= a@.len(),
            out@.len() == k,
            forall|j: int| 0 <= j < k ==> out@[j] == ps_neg(a@)[j] && out@[j] < P,
        decreases a@.len() - k,
    {
        let v = fe_neg(a[k]);
        out.push(v);
        k = k + 1;
    }
    proof {
        assert(out@ =~= ps_neg(a@));
    }
    out
}

pub fn pzip_mul(a: &Vec<u64>, b: &Vec<u64>) -> (r: Vec<u64>)
    requires
        poly_ok(a@),
        poly_ok(b@),
    ensures
        r@ == ps_zip_mul(a@, b@),
        poly_ok(r@),
{
    let la = a.len();
    let lb = b.len();
    let n = if la <= lb { la } else { lb };
    let mut out: Vec<u64> = Vec::new();
    let mut k: usize = 0;
    while k < n
        invariant
            poly_ok(a@),
            poly_ok(b@),
            n == ps_zip_mul(a@, b@).len(),
            n <= a@.len(),
            n <= b@.len(),
            k <= n,
            out@.len() == k,
            forall|j: int|
                0 <= j < k ==> out@[j] == ps_zip_mul(a@, b@)[j] && out@[j] < P,
        decreases n - k,
    {
        let v = fe_mul(a[k], b[k]);
        out.push(v);
        k = k + 1;
    }
    proof {
        assert(out@ =~= ps_zip_mul(a@, b@));
    }
    out
}

/// Multiplies `a` by the vanishing polynomial `x^m - 1` of the size-`m`
/// domain.  On any domain point the factor vanishes, which is what makes
/// this the blinding operation: in-domain evaluations are unchanged.
pub fn pmul_vanishing(a: &Vec<u64>, m: usize) -> (r: Vec<u64>)
    requires
        poly_ok(a@),
        a@.len() + m <= usize::MAX,
    ensures
        r@ == ps_mbv(a@, m as nat),
        poly_ok(r@),
{
    let n = a.len() + m;
    let mut out: Vec<u64> = Vec::new();
    let mut k: usize = 0;
    while k < n
        invariant
            poly_ok(a@),
            n == a@.len() + m,
            n == ps_mbv(a@, m as nat).len(),
            k <= n,
            out@.len() == k,
            forall|j: int|
                0 <= j < k ==> out@[j] == ps_mbv(a@, m as nat)[j] && out@[j] < P,
        decreases n - k,
    {
        let hi: u64 = if k >= m && k - m < a.len() {
            a[k - m]
        } else {
            0
        };
        let lo = coef_at(a, k);
        let v = fe_sub(hi, lo);
        proof {
            assert(hi as int == coef(ps_shiftn(a@, m as nat), k as int));
            assert(v as int == fsub(coef(ps_shiftn(a@, m as nat), k as int), coef(a@, k as int)));
        }
        out.push(v);
        k = k + 1;
    }
    proof {
        assert(out@ =~= ps_mbv(a@, m as nat));
    }
    out
}

pub fn pmul(a: &Vec<u64>, b: &Vec<u64>) -> (r: Vec<u64>)
    requires
        poly_ok(a@),
        poly_ok(b@),
        a@.len() + b@.len() <= usize::MAX,
    ensures
        r@ == ps_mul(a@, b@),
        poly_ok(r@),
{
    if a.len() == 0 || b.len() == 0 {
        let out: Vec<u64> = Vec::new();
        proof {
            assert(out@ =~= ps_mul(a@, b@));
        }
        return out;
    }
    let n = a.len() + b.len() - 1;
    let mut out: Vec<u64> = Vec::new();
    let mut k: usize = 0;
    while k < n
        invariant
            poly_ok(a@),
            poly_ok(b@),
            a@.len() >= 1,
            b@.len() >= 1,
            n == a@.len() + b@.len() - 1,
            n == ps_mul(a@, b@).len(),
            k <= n,
            out@.len() == k,
            forall|j: int| 0 <= j < k ==> out@[j] == ps_mul(a@, b@)[j] && out@[j] < P,
        decreases n - k,
    {
        let mut s: u64 = 0;
        let mut i: usize = 0;
        while i <= k
            invariant
                poly_ok(a@),
                poly_ok(b@),
                k < n,
                n == a@.len() + b@.len() - 1,
                i <= k + 1,
                s < P,
                s as int == csum(a@, b@, k as int, i as nat),
            decreases k + 1 - i,
        {
            let t = fe_mul(coef_at(a, i), coef_at(b, k - i));
            s = fe_add(s, t);
            i = i + 1;
        }
        out.push(s);
        k = k + 1;
    }
    proof {
        assert(out@ =~= ps_mul(a@, b@));
    }
    out
}

pub fn peval_at(v: &Vec<u64>, x: u64) -> (r: u64)
    requires
        poly_ok(v@),
        x < P,
    ensures
        r as int == peval(v@, x as int),
        r < P,
{
    let mut r: u64 = 0;
    let mut i: usize = v.len();
    while i > 0
        invariant
            poly_ok(v@),
            x < P,
            i <= v@.len(),
            r < P,
            r as int == peval_from(v@, x as int, i as int),
        decreases i,
    {
        i = i - 1;
        r = fe_add(v[i], fe_mul(x, r));
    }
    r
}

/// Length of the quotient in division by `x^m - 1`.
pub open spec fn dvq_len(len: nat, m: nat) -> nat {
    if len > m {
        (len - m) as nat
    } else {
        0
    }
}

/// Quotient coefficient `k` of long division of `c` by `x^m - 1`: the
/// recurrence `q[k] = c[k+m] + q[k+m]`, folding high coefficients down.
pub open spec fn dvq(c: Seq<u64>, m: nat, k: int) -> int
    decreases c.len() - k,
{
    if m == 0 || k < 0 || k + m >= c.len() {
        0
    } else {
        fadd(coef(c, k + m), dvq(c, m, k + m))
    }
}

/// Remainder coefficient `k` (for `0 <= k < m`): `r[k] = c[k] + q[k]`.
pub open spec fn dvr(c: Seq<u64>, m: nat, k: int) -> int {
    fadd(coef(c, k), dvq(c, m, k))
}

/// Divides `c` by the vanishing polynomial `x^m - 1`, returning quotient
/// and remainder (the remainder padded to length `m`).  Besides pinning
/// both down by the long-division recurrence, the contract states the
/// reconstruction identity `c[k] = r[k] + q[k-m] - q[k]` for every
/// coefficient, which is `c == q·(x^m - 1) + r` written out.
pub fn divide_by_vanishing(c: &Vec<u64>, m: usize) -> (qr: (Vec<u64>, Vec<u64>))
    requires
        poly_ok(c@),
        1 <= m,
    ensures
        qr.0@.len() == dvq_len(c@.len(), m as nat),
        forall|k: int|
            0 <= k < qr.0@.len() ==> qr.0@[k] as int == dvq(c@, m as nat, k) && qr.0@[k] < P,
        qr.1@.len() == m,
        forall|k: int|
            0 <= k < m ==> qr.1@[k] as int == dvr(c@, m as nat, k) && qr.1@[k] < P,
        poly_ok(qr.0@),
        poly_ok(qr.1@),
        forall|k: int|
            0 <= k < c@.len() ==> coef(c@, k) == fsub(
                fadd(coef(qr.1@, k), coef(qr.0@, k - m)),
                coef(qr.0@, k),
            ),
{
    let len = c.len();
    let qlen = if len > m {
        len - m
    } else {
        0
    };
    let mut q: Vec<u64> = Vec::new();
    let mut z: usize = 0;
    while z < qlen
        invariant
            z <= qlen,
            q@.len() == z,
            forall|j: int| 0 <= j < z ==> q@[j] == 0u64,
        decreases qlen - z,
    {
        q.push(0);
        z = z + 1;
    }
    let mut k: usize = qlen;
    while k > 0
        invariant
            poly_ok(c@),
            1 <= m,
            len == c@.len(),
            qlen == dvq_len(c@.len(), m as nat),
            q@.len() == qlen,
            k <= qlen,
            forall|j: int| 0 <= j < qlen ==> q@[j] < P,
            forall|j: int| k <= j < qlen ==> q@[j] as int == dvq(c@, m as nat, j),
        decreases k,
    {
        k = k - 1;
        let hi: u64 = if k + m < qlen {
            q[k + m]
        } else {
            0
        };
        proof {
            if k + m >= qlen {
                assert(dvq(c@, m as nat, (k + m) as int) == 0);
            }
        }
        let val = fe_add(c[k + m], hi);
        q.set(k, val);
    }
    let mut rem: Vec<u64> = Vec::new();
    let mut k: usize = 0;
    while k < m
        invariant
            poly_ok(c@),
            1 <= m,
            len == c@.len(),
            qlen == dvq_len(c@.len(), m as nat),
            q@.len() == qlen,
            forall|j: int| 0 <= j < qlen ==> q@[j] < P,
            forall|j: int| 0 <= j < qlen ==> q@[j] as int == dvq(c@, m as nat, j),
            k <= m,
            rem@.len() == k,
            forall|j: int|
                0 <= j < k ==> rem@[j] as int == dvr(c@, m as nat, j) && rem@[j] < P,
        decreases m - k,
    {
        let qk: u64 = if k < qlen {
            q[k]
        } else {
            0
        };
        proof {
            if k >= qlen {
                assert(dvq(c@, m as nat, k as int) == 0);
            }
        }
        let ck = coef_at(c, k);
        rem.push(fe_add(ck, qk));
        k = k + 1;
    }
    proof {
        let mn = m as nat;
        let qs = q@;
        let rs = rem@;
        assert forall|k: int| 0 <= k < c@.len() implies coef(c@, k) == fsub(
            fadd(coef(rs, k), coef(qs, k - m)),
            coef(qs, k),
        ) by {
            assert(coef(qs, k) == dvq(c@, mn, k)) by {
                if k >= qs.len() {
                    assert(k + m >= c@.len());
                }
            }
            let qk = coef(qs, k);
            if k < m {
                assert(coef(qs, k - m) == 0);
                assert(coef(rs, k) == dvr(c@, mn, k));
                assert(coef(rs, k) == fadd(coef(c@, k), qk));
                lemma_fadd_zero(fadd(coef(c@, k), qk));
                lemma_fadd_assoc(coef(c@, k), qk, 0);
                lemma_fsub_cancel(coef(c@, k), qk);
                assert(fadd(fadd(coef(c@, k), qk), 0) == fadd(coef(c@, k), qk));
            } else {
                assert(coef(rs, k) == 0);
                assert(coef(qs, k - m) == dvq(c@, mn, k - m)) by {
                    if k - m >= qs.len() {
                        assert(k >= c@.len());
                    }
                }
                assert(dvq(c@, mn, k - m) == fadd(coef(c@, k), dvq(c@, mn, k)));
                assert(fadd(0, fadd(coef(c@, k), qk)) == fadd(coef(c@, k), qk)) by {
                    lemma_fadd_zero(fadd(coef(c@, k), qk));
                    lemma_fadd_comm(0, fadd(coef(c@, k), qk));
                }
                lemma_fsub_cancel(coef(c@, k), qk);
            }
        }
    }
    (q, rem)
}

/// Decides whether every stored coefficient is canonical.
pub fn all_canonical(v: &Vec<u64>) -> (r: bool)
    ensures
        r <==> poly_ok(v@),
{
    let mut k: usize = 0;
    while k < v.len()
        invariant
            k <= v@.len(),
            forall|j: int| 0 <= j < k ==> v@[j] < P,
        decreases v@.len() - k,
    {
        if v[k] >= P {
            return false;
        }
        k = k + 1;
    }
    true
}

pub fn is_zero_vec(v: &Vec<u64>) -> (r: bool)
    ensures
        r <==> (forall|i: int| 0 <= i < v@.len() ==> v@[i] == 0u64),
{
    let mut k: usize = 0;
    while k < v.len()
        invariant
            k <= v@.len(),
            forall|j: int| 0 <= j < k ==> v@[j] == 0u64,
        decreases v@.len() - k,
    {
        if v[k] != 0 {
            return false;
        }
        k = k + 1;
    }
    true
}

/// Partial inverse-DFT sum: the first `j` terms of coefficient `k` of
/// the interpolation candidate, over the inverse `ginv` of the domain
/// generator.
pub open spec fn idft_sum(values: Seq<u64>, ginv: int, k: int, j: nat) -> int
    recommends
        k >= 0,
    decreases j,
{
    if j == 0 {
        0
    } else {
        fadd(
            idft_sum(values, ginv, k, (j - 1) as nat),
            fmul(values[j - 1] as int, fpow(ginv, ((j - 1) * k) as nat)),
        )
    }
}

/// The inverse-DFT interpolation candidate over a geometric domain whose
/// second point is the generator: coefficient `k` is `n⁻¹ · Σ_j v[j] ·
/// g^(−jk)`.  A closed formula of the inputs alone, so interpolation is
/// deterministic.
pub open spec fn interp_candidate(values: Seq<u64>, points: Seq<u64>) -> Seq<u64> {
    if values.len() == 0 {
        Seq::<u64>::empty()
    } else if values.len() == 1 {
        seq![values[0]]
    } else {
        Seq::new(
            values.len(),
            |k: int|
                (fmul(
                    inv_f((values.len() as int) % (P as int)),
                    idft_sum(values, inv_f(points[1] as int), k, values.len()),
                ) as u64),
        )
    }
}

/// The candidate reproduces every given value at its point — exactly the
/// condition under which interpolation succeeds.
pub open spec fn interp_checks_out(values: Seq<u64>, points: Seq<u64>) -> bool {
    forall|j: int|
        0 <= j < points.len() ==> peval(interp_candidate(values, points), points[j] as int)
            == values[j] as int
}

/// Interpolates `values` over the given domain points: the result is the
/// inverse-DFT candidate, returned exactly when it reproduces every value
/// by direct evaluation (over a proper geometric domain it always does;
/// the re-check makes the success condition a theorem rather than a
/// runtime assumption).
pub fn interpolate(values: &Vec<u64>, points: &Vec<u64>) -> (r: Option<Vec<u64>>)
    requires
        poly_ok(values@),
        poly_ok(points@),
        values@.len() == points@.len(),
        values@.len() <= 4096,
    ensures
        r is Some <==> interp_checks_out(values@, points@),
        r matches Some(c) ==> c@ == interp_candidate(values@, points@) && c@.len()
            == values@.len() && poly_ok(c@) && (forall|j: int|
            0 <= j < points@.len() ==> peval(c@, points@[j] as int) == values@[j] as int),
{
    let n = values.len();
    let mut cand: Vec<u64> = Vec::new();
    if n == 0 {
        proof {
            assert(cand@ =~= interp_candidate(values@, points@));
        }
        return Some(cand);
    }
    if n == 1 {
        cand.push(values[0]);
        proof {
            assert(cand@ =~= interp_candidate(values@, points@));
        }
    } else {
        let g = points[1];
        let ginv = fe_inv(g);
        let ninv = fe_inv((n as u64) % P);
        let mut k: usize = 0;
        while k < n
            invariant
                poly_ok(values@),
                n == values@.len(),
                2 <= n <= 4096,
                points@.len() == n,
                ginv as int == inv_f(points@[1] as int),
                ginv < P,
                ninv as int == inv_f((n as int) % (P as int)),
                ninv < P,
                k <= n,
                cand@.len() == k,
                forall|i: int|
                    0 <= i < k ==> cand@[i] == interp_candidate(values@, points@)[i] && cand@[i]
                        < P,
            decreases n - k,
        {
            let mut acc: u64 = 0;
            let mut j: usize = 0;
            while j < n
                invariant
                    poly_ok(values@),
                    n == values@.len(),
                    2 <= n <= 4096,
                    ginv < P,
                    ginv as int == inv_f(points@[1] as int),
                    k < n,
                    j <= n,
                    acc < P,
                    acc as int == idft_sum(values@, ginv as int, k as int, j as nat),
                decreases n - j,
            {
                proof {
                    assert(j * k <= 4096 * 4096) by (nonlinear_arith)
                        requires
                            j <= 4096,
                            k <= 4096,
                    ;
                }
                let e = (j as u64) * (k as u64);
                let pw = fe_pow(ginv, e);
                acc = fe_add(acc, fe_mul(values[j], pw));
                j = j + 1;
            }
            cand.push(fe_mul(ninv, acc));
            k = k + 1;
        }
        proof {
            assert(cand@ =~= interp_candidate(values@, points@));
        }
    }
    let mut j: usize = 0;
    while j < n
        invariant
            poly_ok(values@),
            poly_ok(points@),
            poly_ok(cand@),
            n == values@.len(),
            n == points@.len(),
            cand@.len() == n,
            cand@ == interp_candidate(values@, points@),
            j <= n,
            forall|i: int|
                0 <= i < j ==> peval(cand@, points@[i] as int) == values@[i] as int,
        decreases n - j,
    {
        if peval_at(&cand, points[j]) != values[j] {
            proof {
                assert(!interp_checks_out(values@, points@));
            }
            return None;
        }
        j = j + 1;
    }
    Some(cand)
}

} // verus!
