//! Proof construction for a PLONK-style zero-knowledge argument.
//!
//! The prover turns a satisfying circuit assignment (the witness) together
//! with a precomputed circuit description (the index) into a succinct proof:
//! blinded witness polynomials, a copy-constraint grand product, a quotient
//! certifying that all constraints vanish on the evaluation domain, and the
//! evaluations a verifier needs.  All polynomial algebra is carried out over
//! a fixed prime field and is verified down to the arithmetic.

pub mod field;
pub mod poly;
pub mod sponge;
pub mod commit;
pub mod index;
pub mod prover;
pub mod rng;
pub mod laws;
