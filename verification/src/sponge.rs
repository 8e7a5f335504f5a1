//! The Fiat-Shamir transcript: an algebraic sponge over the scalar field.
//!
//! Every absorption and every squeezed challenge is specified exactly, so
//! the strict transcript order of the protocol — absorb the public input
//! and the wire commitments, squeeze, absorb the permutation commitment,
//! squeeze, and so on — is pinned down in the prover's contract.  The
//! state is one field element; a snapshot of the transcript is a plain
//! copy of it.

use vstd::prelude::*;
use crate::field::{fadd, fmul, fe_add, fe_mul, P};
use crate::poly::poly_ok;

verus! {

/// Initial sponge state.
pub const SPONGE_IV: u64 = 17;

/// Round constant folded in by the permutation.
pub const SPONGE_RC: u64 = 7919;

/// Domain separator mixed in when a challenge is squeezed.
pub const SPONGE_DS: u64 = 101;

/// The sponge permutation: the quintic power map plus a round constant.
pub open spec fn sp_perm(s: int) -> int {
    fadd(fmul(fmul(fmul(s, s), fmul(s, s)), s), SPONGE_RC as int)
}

/// State after absorbing one field element.
pub open spec fn sp_absorb(s: int, x: int) -> int {
    sp_perm(fadd(s, x))
}

/// State after absorbing a sequence of field elements, front to back.
pub open spec fn sp_absorb_seq(s: int, v: Seq<u64>) -> int
    decreases v.len(),
{
    if v.len() == 0 {
        s
    } else {
        sp_absorb_seq(sp_absorb(s, v[0] as int), v.drop_first())
    }
}

/// State after squeezing a challenge; the challenge is the new state.
pub open spec fn sp_squeeze(s: int) -> int {
    sp_perm(fadd(s, SPONGE_DS as int))
}

fn perm(s: u64) -> (r: u64)
    requires
        s < P,
    ensures
        r as int == sp_perm(s as int),
        r < P,
{
    let s2 = fe_mul(s, s);
    let s4 = fe_mul(s2, s2);
    let s5 = fe_mul(s4, s);
    fe_add(s5, SPONGE_RC)
}

/// One absorption step outside a `Sponge` value, shared with commitment
/// digests.
pub fn absorb_step(s: u64, x: u64) -> (r: u64)
    requires
        s < P,
        x < P,
    ensures
        r as int == sp_absorb(s as int, x as int),
        r < P,
{
    perm(fe_add(s, x))
}

/// Absorbs a whole vector, front to back.
pub fn absorb_all(s: u64, v: &Vec<u64>) -> (r: u64)
    requires
        s < P,
        poly_ok(v@),
    ensures
        r as int == sp_absorb_seq(s as int, v@),
        r < P,
{
    let mut st = s;
    let mut i: usize = 0;
    proof {
        assert(v@.skip(0) =~= v@);
    }
    while i < v.len()
        invariant
            poly_ok(v@),
            i <= v@.len(),
            st < P,
            sp_absorb_seq(st as int, v@.skip(i as int)) == sp_absorb_seq(s as int, v@),
        decreases v@.len() - i,
    {
        proof {
            let tail = v@.skip(i as int);
            assert(tail[0] == v@[i as int]);
            assert(tail.drop_first() =~= v@.skip(i as int + 1));
        }
        st = absorb_step(st, v[i]);
        i = i + 1;
    }
    proof {
        assert(v@.skip(v@.len() as int) =~= Seq::<u64>::empty());
    }
    st
}

/// The transcript.  Copying the value is the snapshot operation the
/// opening step needs; each copy evolves independently afterwards.
#[derive(Clone, Copy)]
pub struct Sponge {
    pub state: u64,
}

impl Sponge {
    pub open spec fn wf(self) -> bool {
        self.state < P
    }

    pub fn new() -> (s: Sponge)
        ensures
            s.wf(),
            s.state == SPONGE_IV,
    {
        Sponge { state: SPONGE_IV }
    }

    pub fn absorb(&mut self, x: u64)
        requires
            old(self).wf(),
            x < P,
        ensures
            final(self).wf(),
            final(self).state as int == sp_absorb(old(self).state as int, x as int),
    {
        self.state = absorb_step(self.state, x);
    }

    pub fn absorb_vec(&mut self, v: &Vec<u64>)
        requires
            old(self).wf(),
            poly_ok(v@),
        ensures
            final(self).wf(),
            final(self).state as int == sp_absorb_seq(old(self).state as int, v@),
    {
        self.state = absorb_all(self.state, v);
    }

    pub fn challenge(&mut self) -> (c: u64)
        requires
            old(self).wf(),
        ensures
            final(self).wf(),
            final(self).state as int == sp_squeeze(old(self).state as int),
            c == final(self).state,
            c < P,
    {
        self.state = absorb_step(self.state, SPONGE_DS);
        self.state
    }
}

} // verus!
