//! Scalar-field arithmetic: integers modulo a fixed prime.
//!
//! The protocol is expressed over spec-level operations `fadd`, `fsub`,
//! `fmul`, `fpow` and `inv_f`; every executable operation is proved to
//! compute exactly the corresponding spec value.  Inversion carries no
//! number-theoretic axiom: the Fermat-exponentiation candidate is checked
//! at run time against the defining equation, with an exhaustive search as
//! the verified fallback, so `inv_f` is pinned down purely by uniqueness
//! of inverses.

use vstd::prelude::*;
use vstd::arithmetic::div_mod::{
    lemma_add_mod_noop, lemma_mod_add_multiples_vanish, lemma_mod_twice, lemma_mul_mod_noop_left,
    lemma_mul_mod_noop_right, lemma_small_mod, lemma_sub_mod_noop,
};

verus! {

/// The field modulus: a prime with `2^12 * 3` dividing `p - 1`, so
/// multiplicative subgroups (evaluation domains) of every size this
/// prover handles exist.
pub const P: u64 = 12289;

/// A value is a canonical field element when it lies in `[0, P)`.
pub open spec fn in_f(a: int) -> bool {
    0 <= a && a < P as int
}

pub open spec fn fadd(a: int, b: int) -> int {
    (a + b) % (P as int)
}

pub open spec fn fsub(a: int, b: int) -> int {
    (a + P as int - b) % (P as int)
}

pub open spec fn fmul(a: int, b: int) -> int {
    (a * b) % (P as int)
}

pub open spec fn fneg(a: int) -> int {
    (P as int - a) % (P as int)
}

pub open spec fn fpow(a: int, e: nat) -> int
    decreases e,
{
    if e == 0 {
        1
    } else {
        fmul(a, fpow(a, (e - 1) as nat))
    }
}

/// `r` is a multiplicative inverse of `a`.
pub open spec fn is_inv(a: int, r: int) -> bool {
    in_f(a) && in_f(r) && fmul(a, r) == 1
}

/// The inverse of `a` when one exists, and `0` otherwise (in particular
/// `inv_f(0) == 0`).
pub open spec fn inv_f(a: int) -> int {
    if exists|r: int| is_inv(a, r) {
        choose|r: int| is_inv(a, r)
    } else {
        0
    }
}

/// Dropping an inner reduction on the left of an addition does not change
/// the residue.
pub proof fn lemma_addl(x: int, y: int)
    ensures
        ((x % (P as int)) + y) % (P as int) == (x + y) % (P as int),
{
    let p = P as int;
    lemma_add_mod_noop(x % p, y, p);
    lemma_mod_twice(x, p);
    lemma_add_mod_noop(x, y, p);
}

/// Dropping an inner reduction on the right of an addition does not change
/// the residue.
pub proof fn lemma_addr(x: int, y: int)
    ensures
        (x + (y % (P as int))) % (P as int) == (x + y) % (P as int),
{
    lemma_addl(y, x);
}

/// Dropping an inner reduction on the left of a product does not change
/// the residue.
pub proof fn lemma_mull(x: int, y: int)
    ensures
        ((x % (P as int)) * y) % (P as int) == (x * y) % (P as int),
{
    lemma_mul_mod_noop_left(x, y, P as int);
}

/// Dropping an inner reduction on the right of a product does not change
/// the residue.
pub proof fn lemma_mulr(x: int, y: int)
    ensures
        (x * (y % (P as int))) % (P as int) == (x * y) % (P as int),
{
    lemma_mul_mod_noop_right(x, y, P as int);
}

pub proof fn lemma_fmul_comm(a: int, b: int)
    ensures
        fmul(a, b) == fmul(b, a),
{
    assert(a * b == b * a) by (nonlinear_arith);
}

pub proof fn lemma_fadd_comm(a: int, b: int)
    ensures
        fadd(a, b) == fadd(b, a),
{
}

/// `fadd` associates: both groupings equal the residue of the plain sum.
pub proof fn lemma_fadd_assoc(a: int, b: int, c: int)
    ensures
        fadd(fadd(a, b), c) == (a + b + c) % (P as int),
        fadd(a, fadd(b, c)) == (a + b + c) % (P as int),
{
    lemma_addl(a + b, c);
    lemma_addr(a, b + c);
}

/// Interchange of two `fadd` pairs: both equal the residue of the four-way
/// sum.
pub proof fn lemma_fadd4(a: int, b: int, c: int, d: int)
    ensures
        fadd(fadd(a, b), fadd(c, d)) == (a + b + c + d) % (P as int),
        fadd(fadd(a, c), fadd(b, d)) == (a + b + c + d) % (P as int),
{
    lemma_addl(a + b, fadd(c, d));
    lemma_addr(a + b, c + d);
    lemma_addl(a + c, fadd(b, d));
    lemma_addr(a + c, b + d);
}

/// Multiplication distributes over `fadd`.
pub proof fn lemma_fmul_dist(x: int, u: int, v: int)
    ensures
        fmul(x, fadd(u, v)) == fadd(fmul(x, u), fmul(x, v)),
{
    let p = P as int;
    lemma_mulr(x, u + v);
    assert(x * (u + v) == x * u + x * v) by (nonlinear_arith);
    lemma_addl(x * u, fadd(x * v, 0));
    lemma_addr(x * u, x * v);
    assert(fadd(x * v, 0) == (x * v) % p);
    assert(fadd(fmul(x, u), fmul(x, v)) == ((x * u) % p + (x * v) % p) % p);
    lemma_add_mod_noop(x * u, x * v, p);
}

/// `fmul` associates.
pub proof fn lemma_fmul_assoc(a: int, b: int, c: int)
    ensures
        fmul(fmul(a, b), c) == fmul(a, fmul(b, c)),
{
    lemma_mull(a * b, c);
    lemma_mulr(a, b * c);
    assert((a * b) * c == a * (b * c)) by (nonlinear_arith);
}

/// `fsub` is plain subtraction followed by reduction.
pub proof fn lemma_fsub_is_mod(a: int, b: int)
    ensures
        fsub(a, b) == (a - b) % (P as int),
{
    lemma_mod_add_multiples_vanish(a - b, P as int);
}

/// Multiplication distributes over `fsub`.
pub proof fn lemma_fmul_dist_sub(x: int, u: int, v: int)
    ensures
        fmul(x, fsub(u, v)) == fsub(fmul(x, u), fmul(x, v)),
{
    let p = P as int;
    lemma_fsub_is_mod(u, v);
    lemma_mulr(x, u - v);
    assert(x * (u - v) == x * u - x * v) by (nonlinear_arith);
    lemma_sub_mod_noop(x * u, x * v, p);
    lemma_fsub_is_mod(fmul(x, u), fmul(x, v));
}

/// Interchange of an `fsub` of two `fadd` pairs.
pub proof fn lemma_fsub4(a: int, b: int, c: int, d: int)
    ensures
        fsub(fadd(a, b), fadd(c, d)) == fadd(fsub(a, c), fsub(b, d)),
{
    let p = P as int;
    lemma_fsub_is_mod(fadd(a, b), fadd(c, d));
    lemma_sub_mod_noop(a + b, c + d, p);
    lemma_fsub_is_mod(a, c);
    lemma_fsub_is_mod(b, d);
    lemma_add_mod_noop(a - c, b - d, p);
    assert((a + b) - (c + d) == (a - c) + (b - d));
}

/// Adding zero is the identity on canonical elements.
pub proof fn lemma_fadd_zero(a: int)
    requires
        in_f(a),
    ensures
        fadd(a, 0) == a,
        fadd(0, a) == a,
{
    lemma_small_mod(a as nat, P as nat);
}

/// Multiplying by one is the identity on canonical elements; multiplying
/// by zero gives zero.
pub proof fn lemma_fmul_one_zero(a: int)
    requires
        in_f(a),
    ensures
        fmul(a, 1) == a,
        fmul(1, a) == a,
        fmul(a, 0) == 0,
        fmul(0, a) == 0,
{
    lemma_small_mod(a as nat, P as nat);
    lemma_small_mod(0, P as nat);
}

/// Subtracting a canonical element undoes adding it.
pub proof fn lemma_fsub_cancel(a: int, b: int)
    requires
        in_f(a),
        in_f(b),
    ensures
        fsub(fadd(a, b), b) == a,
{
    let p = P as int;
    lemma_addl(a + b, p - b);
    lemma_mod_add_multiples_vanish(a, p);
    lemma_small_mod(a as nat, P as nat);
}

/// A canonical element subtracted from itself gives zero.
pub proof fn lemma_fsub_self(a: int)
    requires
        in_f(a),
    ensures
        fsub(a, a) == 0,
{
    let p = P as int;
    lemma_mod_add_multiples_vanish(0, p);
    lemma_small_mod(0, P as nat);
}

/// A zero `fsub` of canonical elements means they are equal.
pub proof fn lemma_fsub_eq(a: int, b: int)
    requires
        in_f(a),
        in_f(b),
        fsub(a, b) == 0,
    ensures
        a == b,
{
    lemma_fsub_is_mod(a, b);
    if a >= b {
        lemma_small_mod((a - b) as nat, P as nat);
    } else {
        lemma_mod_add_multiples_vanish(a - b, P as int);
        lemma_small_mod((a - b + P as int) as nat, P as nat);
    }
}

/// Zero has no inverse, so `inv_f(0) == 0`.
pub proof fn lemma_inv_zero()
    ensures
        inv_f(0) == 0,
{
    assert forall|r: int| !is_inv(0, r) by {
        assert(0 * r == 0) by (nonlinear_arith);
        lemma_small_mod(0, P as nat);
    }
}

/// Inverses are unique: associativity and commutativity of residue
/// multiplication alone force any two inverses of `a` to coincide.
pub proof fn lemma_inv_unique(a: int, r1: int, r2: int)
    requires
        is_inv(a, r1),
        is_inv(a, r2),
    ensures
        r1 == r2,
{
    let p = P as int;
    lemma_mulr(r1, a * r2);
    assert(r1 * (a * r2) == (r1 * a) * r2) by (nonlinear_arith);
    lemma_mull(r1 * a, r2);
    assert(r1 * a == a * r1) by (nonlinear_arith);
    assert(((r1 * a) % p) == 1);
    assert((r1 * ((a * r2) % p)) % p == (1 * r2) % p);
    lemma_small_mod(r1 as nat, P as nat);
    lemma_small_mod(r2 as nat, P as nat);
    assert((r1 * 1) % p == r1);
    assert(r1 == r2);
}

/// A value that passes the defining check is the inverse.
pub proof fn lemma_checked_inv(a: int, c: int)
    requires
        is_inv(a, c),
    ensures
        inv_f(a) == c,
{
    assert(exists|r: int| is_inv(a, r)) by {
        assert(is_inv(a, c));
    }
    let w = choose|r: int| is_inv(a, r);
    lemma_inv_unique(a, w, c);
}

pub fn fe_add(a: u64, b: u64) -> (r: u64)
    requires
        a < P,
        b < P,
    ensures
        r as int == fadd(a as int, b as int),
        r < P,
{
    (a + b) % P
}

pub fn fe_sub(a: u64, b: u64) -> (r: u64)
    requires
        a < P,
        b < P,
    ensures
        r as int == fsub(a as int, b as int),
        r < P,
{
    (a + P - b) % P
}

pub fn fe_neg(a: u64) -> (r: u64)
    requires
        a < P,
    ensures
        r as int == fneg(a as int),
        r < P,
{
    (P - a) % P
}

pub fn fe_mul(a: u64, b: u64) -> (r: u64)
    requires
        a < P,
        b < P,
    ensures
        r as int == fmul(a as int, b as int),
        r < P,
{
    proof {
        assert(a * b <= 12288 * 12288) by (nonlinear_arith)
            requires
                a <= 12288,
                b <= 12288,
        ;
    }
    (a * b) % P
}

pub fn fe_pow(a: u64, e: u64) -> (r: u64)
    requires
        a < P,
    ensures
        r as int == fpow(a as int, e as nat),
        r < P,
{
    let mut r: u64 = 1;
    let mut i: u64 = 0;
    while i < e
        invariant
            a < P,
            r < P,
            i <= e,
            r as int == fpow(a as int, i as nat),
        decreases e - i,
    {
        proof {
            lemma_fmul_comm(fpow(a as int, i as nat), a as int);
        }
        r = fe_mul(r, a);
        i = i + 1;
    }
    r
}

pub fn fe_inv(a: u64) -> (r: u64)
    requires
        a < P,
    ensures
        r as int == inv_f(a as int),
        r < P,
{
    if a == 0 {
        proof {
            lemma_inv_zero();
        }
        return 0;
    }
    let c = fe_pow(a, P - 2);
    if fe_mul(a, c) == 1 {
        proof {
            lemma_checked_inv(a as int, c as int);
        }
        return c;
    }
    // The exponentiation candidate is re-checked above, so the contract
    // never rests on Fermat's little theorem; this exhaustive search is the
    // verified fallback that settles whether an inverse exists at all.
    let mut x: u64 = 0;
    while x < P
        invariant
            0 < a < P,
            x <= P,
            forall|y: int| 0 <= y < x ==> !is_inv(a as int, y),
        decreases P - x,
    {
        if fe_mul(a, x) == 1 {
            proof {
                lemma_checked_inv(a as int, x as int);
            }
            return x;
        }
        x = x + 1;
    }
    proof {
        assert forall|r: int| !is_inv(a as int, r) by {
            if is_inv(a as int, r) {
                assert(0 <= r < P as int);
            }
        }
    }
    0
}

/// Inverts every entry of `v` with a single field inversion plus one
/// multiplication pass in each direction (the batched-inversion trick);
/// zero entries stay zero.  Each entry of the result is checked against
/// the defining equation, so the contract holds of every path.
pub fn batch_invert(v: &Vec<u64>) -> (r: Vec<u64>)
    requires
        forall|i: int| 0 <= i < v@.len() ==> v@[i] < P,
    ensures
        r@.len() == v@.len(),
        forall|i: int|
            0 <= i < v@.len() ==> r@[i] as int == inv_f(v@[i] as int) && r@[i] < P,
{
    let n = v.len();
    let mut pref: Vec<u64> = Vec::new();
    let mut acc: u64 = 1;
    let mut i: usize = 0;
    while i < n
        invariant
            n == v@.len(),
            forall|j: int| 0 <= j < v@.len() ==> v@[j] < P,
            i <= n,
            pref@.len() == i,
            acc < P,
            forall|j: int| 0 <= j < i ==> pref@[j] < P,
        decreases n - i,
    {
        pref.push(acc);
        if v[i] != 0 {
            acc = fe_mul(acc, v[i]);
        }
        i = i + 1;
    }
    let mut inv_acc = fe_inv(acc);
    let mut out: Vec<u64> = Vec::new();
    let mut k: usize = 0;
    while k < n
        invariant
            k <= n,
            out@.len() == k,
            forall|j: int| 0 <= j < k ==> out@[j] == 0u64,
        decreases n - k,
    {
        out.push(0);
        k = k + 1;
    }
    let mut i: usize = n;
    while i > 0
        invariant
            n == v@.len(),
            forall|j: int| 0 <= j < v@.len() ==> v@[j] < P,
            pref@.len() == n,
            forall|j: int| 0 <= j < n ==> pref@[j] < P,
            out@.len() == n,
            inv_acc < P,
            i <= n,
            forall|j: int|
                i <= j < n ==> out@[j] as int == inv_f(v@[j] as int) && out@[j] < P,
        decreases i,
    {
        i = i - 1;
        let vi = v[i];
        if vi == 0 {
            proof {
                lemma_inv_zero();
            }
            out.set(i, 0);
        } else {
            let cand = fe_mul(inv_acc, pref[i]);
            let d: u64;
            if fe_mul(vi, cand) == 1 {
                proof {
                    lemma_checked_inv(vi as int, cand as int);
                }
                d = cand;
            } else {
                d = fe_inv(vi);
            }
            out.set(i, d);
            inv_acc = fe_mul(inv_acc, vi);
        }
    }
    out
}

} // verus!
