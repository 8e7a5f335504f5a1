//! Secure blinding randomness from the operating system.
//!
//! The construction itself is deterministic given its blinding values;
//! this module draws those values from the system's secure source, as a
//! production prover must, and hands them to the verified pipeline.

use vstd::prelude::*;
use crate::field::P;
use crate::index::Index;
use crate::poly::poly_ok;
use crate::prover::{
    construction_integrity_fails, create_ok, division_fails, Blinders, ProofError, ProverProof,
};

verus! {

/// Relies on `rand_core::OsRng` (`RngCore::next_u64`): one fresh word
/// from the operating system's cryptographically secure random source.
/// Nothing can be promised of its value.
#[verifier::external_body]
fn os_random_u64() -> u64 {
    rand_core::RngCore::next_u64(&mut rand_core::OsRng)
}

/// One uniformly sampled word, reduced to a canonical field element.
fn sample_fe() -> (r: u64)
    ensures
        r < P,
{
    os_random_u64() % P
}

/// Constructs a proof with fresh secure randomness for the blinding
/// terms and the opening proof, never reused across constructions.  The
/// outcome is the verified trichotomy of `create` for whatever blinders
/// were drawn: the input error exactly for a wrong length, each
/// integrity error only for its cause, and otherwise a correct pipeline
/// run.
pub fn create_with_os_rng(witness: &Vec<u64>, index: &Index) -> (res: Result<
    ProverProof,
    ProofError,
>)
    requires
        index.wf(),
        poly_ok(witness@),
    ensures
        witness@.len() != 3 * index.n ==> res == Err::<ProverProof, ProofError>(
            ProofError::WitnessCsInconsistent,
        ),
        witness@.len() == 3 * index.n ==> !(res == Err::<ProverProof, ProofError>(
            ProofError::WitnessCsInconsistent,
        )),
        res == Err::<ProverProof, ProofError>(ProofError::ProofCreation) ==> exists|bl: Blinders|
            bl.wf() && construction_integrity_fails(witness@, *index, bl),
        res == Err::<ProverProof, ProofError>(ProofError::PolyDivision) ==> exists|bl: Blinders|
            bl.wf() && !construction_integrity_fails(witness@, *index, bl) && division_fails(
                witness@,
                *index,
                bl,
            ),
        res matches Ok(pf) ==> pf.public@ == witness@.subrange(0, index.public as int) && (
        exists|bl: Blinders|
            bl.wf() && create_ok(pf, witness@, *index, bl) && !construction_integrity_fails(
                witness@,
                *index,
                bl,
            ) && !division_fails(witness@, *index, bl)),
{
    let blinders = Blinders {
        l0: sample_fe(),
        l1: sample_fe(),
        r0: sample_fe(),
        r1: sample_fe(),
        o0: sample_fe(),
        o1: sample_fe(),
        opening: sample_fe(),
    };
    let res = ProverProof::create(witness, index, &blinders);
    proof {
        if res is Ok {
            let pf = res->Ok_0;
            assert(blinders.wf() && create_ok(pf, witness@, *index, blinders)
                && !construction_integrity_fails(witness@, *index, blinders) && !division_fails(
                witness@,
                *index,
                blinders,
            ));
        }
        if res == Err::<ProverProof, ProofError>(ProofError::ProofCreation) {
            assert(blinders.wf() && construction_integrity_fails(witness@, *index, blinders));
        }
        if res == Err::<ProverProof, ProofError>(ProofError::PolyDivision) {
            assert(blinders.wf() && !construction_integrity_fails(witness@, *index, blinders)
                && division_fails(witness@, *index, blinders));
        }
    }
    res
}

} // verus!
