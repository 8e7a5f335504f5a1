//! The precomputed circuit description (the index) the prover works from.
//!
//! The index is read-only input: domain, gate wiring, the five gate
//! selectors, the three permutation polynomials in both forms, the
//! coset-shift constants and the commitment key's chunk size.  Its
//! well-formedness predicate is what every prover contract assumes of a
//! correctly compiled circuit.

use vstd::prelude::*;
use crate::field::{fpow, fe_pow, P};
use crate::poly::{all_canonical, poly_ok};

verus! {

/// One gate row: the witness positions feeding the row's left, right and
/// output wires.
#[derive(Clone, Copy)]
pub struct Gate {
    pub l: usize,
    pub r: usize,
    pub o: usize,
}

/// The circuit description.
pub struct Index {
    /// Domain size `n`.
    pub n: usize,
    /// Number of public-input rows.
    pub public: usize,
    /// Per-row wire positions into the witness vector.
    pub gates: Vec<Gate>,
    /// The domain points `1, g, g^2, ...` — also the identity-position
    /// labels of the permutation argument.
    pub sid: Vec<u64>,
    /// Generator of the domain.
    pub group_gen: u64,
    /// The five gate-selector polynomials, coefficient form.
    pub qm: Vec<u64>,
    pub ql: Vec<u64>,
    pub qr: Vec<u64>,
    pub qo: Vec<u64>,
    pub qc: Vec<u64>,
    /// The three permutation polynomials, coefficient form.
    pub sigmam: Vec<Vec<u64>>,
    /// The three permutation polynomials, evaluation form on the domain.
    pub sigmal: Vec<Vec<u64>>,
    /// Coset-shift constants keeping the second and third wire cosets
    /// disjoint from the identity coset.
    pub r: u64,
    pub o: u64,
    /// Maximum chunk size of the commitment key.
    pub max_poly_size: usize,
}

impl Index {
    /// Well-formedness of a compiled circuit: consistent lengths, every
    /// stored value canonical, wire positions inside the witness, and
    /// every listed domain point an `n`-th root of unity.
    pub open spec fn wf(self) -> bool {
        &&& 1 <= self.n <= 4096
        &&& self.public <= self.n
        &&& self.gates@.len() == self.n
        &&& (forall|j: int|
            0 <= j < self.n ==> self.gates@[j].l < 3 * self.n && self.gates@[j].r < 3 * self.n
                && self.gates@[j].o < 3 * self.n)
        &&& self.sid@.len() == self.n
        &&& poly_ok(self.sid@)
        &&& self.sid@[0] == 1u64
        &&& (forall|j: int| 0 <= j < self.n ==> fpow(self.sid@[j] as int, self.n as nat) == 1)
        &&& self.group_gen < P
        &&& poly_ok(self.qm@) && self.qm@.len() <= self.n
        &&& poly_ok(self.ql@) && self.ql@.len() <= self.n
        &&& poly_ok(self.qr@) && self.qr@.len() <= self.n
        &&& poly_ok(self.qo@) && self.qo@.len() <= self.n
        &&& poly_ok(self.qc@) && self.qc@.len() <= self.n
        &&& self.sigmam@.len() == 3
        &&& (forall|c: int|
            0 <= c < 3 ==> poly_ok(self.sigmam@[c]@) && self.sigmam@[c]@.len() <= self.n)
        &&& self.sigmal@.len() == 3
        &&& (forall|c: int|
            0 <= c < 3 ==> poly_ok(self.sigmal@[c]@) && self.sigmal@[c]@.len() == self.n)
        &&& self.r < P
        &&& self.o < P
        &&& 1 <= self.max_poly_size <= 1000000
    }

    /// Decides well-formedness at run time, so a caller holding an index
    /// of unknown provenance can establish what the prover assumes.
    pub fn validate(&self) -> (r: bool)
        ensures
            r <==> self.wf(),
    {
        if !(1 <= self.n && self.n <= 4096 && self.public <= self.n) {
            return false;
        }
        let n = self.n;
        if self.gates.len() != n {
            return false;
        }
        let mut j: usize = 0;
        while j < n
            invariant
                n == self.n,
                n <= 4096,
                self.gates@.len() == n,
                j <= n,
                forall|i: int|
                    0 <= i < j ==> self.gates@[i].l < 3 * n && self.gates@[i].r < 3 * n
                        && self.gates@[i].o < 3 * n,
            decreases n - j,
        {
            let g = self.gates[j];
            if g.l >= 3 * n || g.r >= 3 * n || g.o >= 3 * n {
                return false;
            }
            j = j + 1;
        }
        if self.sid.len() != n || !all_canonical(&self.sid) || self.sid[0] != 1 {
            return false;
        }
        let mut j: usize = 0;
        while j < n
            invariant
                n == self.n,
                self.sid@.len() == n,
                poly_ok(self.sid@),
                j <= n,
                forall|i: int| 0 <= i < j ==> fpow(self.sid@[i] as int, n as nat) == 1,
            decreases n - j,
        {
            if fe_pow(self.sid[j], n as u64) != 1 {
                return false;
            }
            j = j + 1;
        }
        if self.group_gen >= P {
            return false;
        }
        if !(all_canonical(&self.qm) && self.qm.len() <= n) {
            return false;
        }
        if !(all_canonical(&self.ql) && self.ql.len() <= n) {
            return false;
        }
        if !(all_canonical(&self.qr) && self.qr.len() <= n) {
            return false;
        }
        if !(all_canonical(&self.qo) && self.qo.len() <= n) {
            return false;
        }
        if !(all_canonical(&self.qc) && self.qc.len() <= n) {
            return false;
        }
        if self.sigmam.len() != 3 || self.sigmal.len() != 3 {
            return false;
        }
        let mut c: usize = 0;
        while c < 3
            invariant
                n == self.n,
                self.sigmam@.len() == 3,
                self.sigmal@.len() == 3,
                c <= 3,
                forall|i: int|
                    0 <= i < c ==> poly_ok(self.sigmam@[i]@) && self.sigmam@[i]@.len() <= n,
                forall|i: int|
                    0 <= i < c ==> poly_ok(self.sigmal@[i]@) && self.sigmal@[i]@.len() == n,
            decreases 3 - c,
        {
            if !(all_canonical(&self.sigmam[c]) && self.sigmam[c].len() <= n) {
                return false;
            }
            if !(all_canonical(&self.sigmal[c]) && self.sigmal[c].len() == n) {
                return false;
            }
            c = c + 1;
        }
        if self.r >= P || self.o >= P {
            return false;
        }
        if !(1 <= self.max_poly_size && self.max_poly_size <= 1000000) {
            return false;
        }
        true
    }
}

} // verus!
