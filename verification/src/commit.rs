//! The polynomial commitment scheme the prover drives.
//!
//! A commitment digests a polynomial chunk by chunk (chunks of the key's
//! maximum size), with an extra shifted digest when a degree bound is
//! declared — mirroring a scheme whose commitments carry an unshifted part
//! per chunk and a shifted part only for bounded polynomials.  The
//! aggregated opening combines every polynomial's digest with the two
//! evaluation points, the two aggregation challenges, the transcript
//! snapshot and fresh blinding.  Every digest is an exact spec-level
//! function, so commit-then-absorb ordering facts survive into contracts.

use vstd::prelude::*;
use crate::field::{fadd, fe_add, P};
use crate::poly::{chunk_of, n_chunks, peval, peval_at, poly_ok};
use crate::sponge::{absorb_all, absorb_step, sp_absorb, sp_absorb_seq, Sponge};

verus! {

/// Seed state for polynomial digests.
pub const COMMIT_IV: u64 = 3023;

/// Domain separator for the shifted digest of a degree-bounded polynomial.
pub const SHIFT_DS: u64 = 509;

/// The digest of a coefficient vector.
pub open spec fn vec_digest(v: Seq<u64>) -> int {
    sp_absorb_seq(COMMIT_IV as int, v)
}

/// The shifted digest recorded when degree bound `b` is declared.
pub open spec fn shifted_digest(p: Seq<u64>, b: nat) -> int {
    sp_absorb(sp_absorb(vec_digest(p), SHIFT_DS as int), (b as int) % (P as int))
}

/// A polynomial commitment: one digest per chunk, and a shifted digest
/// when a degree bound was declared.
#[derive(Clone, Debug)]
pub struct PolyComm {
    pub unshifted: Vec<u64>,
    pub shifted: Option<u64>,
}

/// What it means for `c` to commit to `p` under chunk size `max` and
/// declared degree bound `bound`.
pub open spec fn is_commit(c: PolyComm, p: Seq<u64>, max: nat, bound: Option<nat>) -> bool {
    &&& c.unshifted@.len() == n_chunks(p.len(), max)
    &&& (forall|i: int|
        0 <= i < c.unshifted@.len() ==> c.unshifted@[i] as int == vec_digest(
            chunk_of(p, max, i),
        ) && c.unshifted@[i] < P)
    &&& (bound is Some <==> c.shifted is Some)
    &&& (bound matches Some(b) ==> c.shifted matches Some(s) && s as int == shifted_digest(p, b))
}

/// Commits to `p`: digests each chunk of `max` coefficients, and records
/// the shifted digest when a degree bound is declared.
pub fn commit(p: &Vec<u64>, max: usize, bound: Option<usize>) -> (c: PolyComm)
    requires
        poly_ok(p@),
        1 <= max,
        p@.len() + max <= usize::MAX,
    ensures
        is_commit(c, p@, max as nat, match bound {
            Some(b) => Some(b as nat),
            None => None,
        }),
        poly_ok(c.unshifted@),
{
    let len = p.len();
    let mut unshifted: Vec<u64> = Vec::new();
    if len == 0 {
        let empty: Vec<u64> = Vec::new();
        let d = absorb_all(COMMIT_IV, &empty);
        proof {
            assert(chunk_of(p@, max as nat, 0) =~= empty@);
        }
        unshifted.push(d);
    } else {
        let mut start: usize = 0;
        let ghost mut i: int = 0;
        while start < len
            invariant
                poly_ok(p@),
                len == p@.len(),
                1 <= max,
                len + max <= usize::MAX,
                0 <= i,
                start == i * max,
                unshifted@.len() == i,
                forall|j: int|
                    0 <= j < i ==> unshifted@[j] as int == vec_digest(
                        chunk_of(p@, max as nat, j),
                    ) && unshifted@[j] < P,
                start < len ==> n_chunks(p@.len(), max as nat) == i + n_chunks(
                    (len - start) as nat,
                    max as nat,
                ),
                start >= len ==> n_chunks(p@.len(), max as nat) == i,
            decreases len + max - start,
        {
            let end = if start + max <= len {
                start + max
            } else {
                len
            };
            let mut chunk: Vec<u64> = Vec::new();
            let mut t: usize = start;
            while t < end
                invariant
                    poly_ok(p@),
                    start <= t <= end <= p@.len(),
                    chunk@ =~= p@.subrange(start as int, t as int),
                decreases end - t,
            {
                chunk.push(p[t]);
                proof {
                    assert(chunk@ =~= p@.subrange(start as int, t as int + 1));
                }
                t = t + 1;
            }
            let d = absorb_all(COMMIT_IV, &chunk);
            proof {
                assert((i + 1) * max == i * max + max) by (nonlinear_arith);
                assert(chunk@ =~= chunk_of(p@, max as nat, i));
            }
            unshifted.push(d);
            start = start + max;
            proof {
                i = i + 1;
            }
        }
    }
    let shifted: Option<u64> = match bound {
        Some(b) => {
            let d0 = absorb_all(COMMIT_IV, p);
            let d1 = absorb_step(d0, SHIFT_DS);
            let d2 = absorb_step(d1, (b as u64) % P);
            Some(d2)
        },
        None => None,
    };
    PolyComm { unshifted, shifted }
}

/// Chunk-wise evaluation at `x`: one value per chunk of `max`
/// coefficients, each the direct evaluation of that chunk — the shape the
/// verifier's degree-bound convention expects.
pub open spec fn is_chunked_eval(ev: Seq<u64>, p: Seq<u64>, max: nat, x: int) -> bool {
    &&& ev.len() == n_chunks(p.len(), max)
    &&& (forall|i: int| 0 <= i < ev.len() ==> ev[i] as int == peval(chunk_of(p, max, i), x))
}

pub fn eval_chunked(p: &Vec<u64>, max: usize, x: u64) -> (ev: Vec<u64>)
    requires
        poly_ok(p@),
        1 <= max,
        p@.len() + max <= usize::MAX,
        x < P,
    ensures
        is_chunked_eval(ev@, p@, max as nat, x as int),
        poly_ok(ev@),
{
    let len = p.len();
    let mut out: Vec<u64> = Vec::new();
    if len == 0 {
        let empty: Vec<u64> = Vec::new();
        let d = peval_at(&empty, x);
        proof {
            assert(chunk_of(p@, max as nat, 0) =~= empty@);
        }
        out.push(d);
    } else {
        let mut start: usize = 0;
        let ghost mut i: int = 0;
        while start < len
            invariant
                poly_ok(p@),
                len == p@.len(),
                1 <= max,
                len + max <= usize::MAX,
                x < P,
                0 <= i,
                start == i * max,
                out@.len() == i,
                forall|j: int|
                    0 <= j < i ==> out@[j] as int == peval(chunk_of(p@, max as nat, j), x as int)
                        && out@[j] < P,
                start < len ==> n_chunks(p@.len(), max as nat) == i + n_chunks(
                    (len - start) as nat,
                    max as nat,
                ),
                start >= len ==> n_chunks(p@.len(), max as nat) == i,
            decreases len + max - start,
        {
            let end = if start + max <= len {
                start + max
            } else {
                len
            };
            let mut chunk: Vec<u64> = Vec::new();
            let mut t: usize = start;
            while t < end
                invariant
                    poly_ok(p@),
                    start <= t <= end <= p@.len(),
                    chunk@ =~= p@.subrange(start as int, t as int),
                decreases end - t,
            {
                chunk.push(p[t]);
                proof {
                    assert(chunk@ =~= p@.subrange(start as int, t as int + 1));
                }
                t = t + 1;
            }
            let d = peval_at(&chunk, x);
            proof {
                assert((i + 1) * max == i * max + max) by (nonlinear_arith);
                assert(chunk@ =~= chunk_of(p@, max as nat, i));
            }
            out.push(d);
            start = start + max;
            proof {
                i = i + 1;
            }
        }
    }
    out
}

/// One polynomial handed to the aggregated opening, with its optional
/// declared degree bound.
pub struct OpenItem {
    pub poly: Vec<u64>,
    pub bound: Option<usize>,
}

/// The aggregated opening proof.
#[derive(Clone, Debug)]
pub struct OpeningProof {
    pub digest: u64,
}

/// Digest-fold of the polynomials handed to the opening, front to back.
pub open spec fn open_fold(s: int, ps: Seq<Seq<u64>>, k: int) -> int
    decreases ps.len() - k,
{
    if k < 0 || k >= ps.len() {
        s
    } else {
        open_fold(sp_absorb(s, vec_digest(ps[k])), ps, k + 1)
    }
}

/// The full opening digest: fold in every polynomial, then the evaluation
/// points, the two aggregation challenges, and finally the blinding term.
pub open spec fn open_digest(
    ps: Seq<Seq<u64>>,
    evlp: Seq<u64>,
    v: int,
    u: int,
    s0: int,
    blind: int,
) -> int {
    fadd(sp_absorb(sp_absorb(sp_absorb_seq(open_fold(s0, ps, 0), evlp), v), u), blind)
}

/// Produces the aggregated opening proof for the given polynomials at the
/// given evaluation points, from the transcript snapshot `sponge`, with
/// `blind` as the proof's own fresh blinding randomness.
pub fn open(
    items: &Vec<OpenItem>,
    evlp: &Vec<u64>,
    v: u64,
    u: u64,
    sponge: Sponge,
    blind: u64,
) -> (pf: OpeningProof)
    requires
        forall|k: int| 0 <= k < items@.len() ==> poly_ok(items@[k].poly@),
        poly_ok(evlp@),
        v < P,
        u < P,
        sponge.wf(),
        blind < P,
    ensures
        pf.digest as int == open_digest(
            items@.map_values(|it: OpenItem| it.poly@),
            evlp@,
            v as int,
            u as int,
            sponge.state as int,
            blind as int,
        ),
        pf.digest < P,
{
    let ghost ps = items@.map_values(|it: OpenItem| it.poly@);
    let mut st = sponge.state;
    let mut k: usize = 0;
    while k < items.len()
        invariant
            forall|j: int| 0 <= j < items@.len() ==> poly_ok(items@[j].poly@),
            ps == items@.map_values(|it: OpenItem| it.poly@),
            k <= items@.len(),
            st < P,
            open_fold(st as int, ps, k as int) == open_fold(sponge.state as int, ps, 0),
        decreases items@.len() - k,
    {
        let d = absorb_all(COMMIT_IV, &items[k].poly);
        st = absorb_step(st, d);
        k = k + 1;
    }
    let st1 = absorb_all(st, evlp);
    let st2 = absorb_step(st1, v);
    let st3 = absorb_step(st2, u);
    let digest = fe_add(st3, blind);
    OpeningProof { digest }
}

} // verus!
