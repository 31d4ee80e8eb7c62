//! Non-interactive folding of R1CS instances into a running zero-fold accumulator.
//!
//! Each fold takes the running accumulator and one fresh constraint instance with its witness.
//! A zero-check reduction turns the fresh step into a constraint claim and a power-consistency
//! claim, weighted by the power polynomial of a transcript challenge `tau`. One sum-fold then
//! batches both relations of the running and the fresh instance under a random coefficient
//! `gamma`, and pins them at a challenge `r_b`. The verifier's work does not depend on the
//! number of constraints.
//!
//! - `field`: the prime field of order `2^61 - 1`.
//! - `poly`: the power polynomial, the equality polynomial, interpolation.
//! - `commitment`, `transcript`, `r1cs`: the collaborators the scheme is built on. The
//!   commitment and the transcript are stand-ins without cryptographic strength: the scheme's
//!   algebra is verified, its soundness against a cheating prover is not claimed.
//! - `sumfold`: the two-instance, two-relation sum-fold.
//! - `running`: the accumulator's records and their fold.
//! - `nifs`: the zero-check reduction and the folding prover and verifier.
//! - `laws`: properties of the scheme, proved over the contracts of `nifs`.

pub mod field;
pub mod poly;
pub mod commitment;
pub mod transcript;
pub mod r1cs;
pub mod errors;
pub mod sumfold;
pub mod running;
pub mod nifs;
mod rng;
pub mod laws;
