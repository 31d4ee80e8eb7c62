//! The errors that folding and its verification report.
use vstd::prelude::*;

verus! {

/// What went wrong in a fold.
#[derive(Clone, Copy, PartialEq, Eq, Debug)]
pub enum FoldError {
    /// A check of the verifier failed, or a value that had to be inverted was not invertible.
    ProofVerifyError,
    /// The operating system's source of randomness reported an error.
    RandomnessError,
}

} // verus!
