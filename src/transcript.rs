//! A Fiat-Shamir transcript whose state is one scalar, stirred by `s -> (s + x + c)^5`.
//!
//! Prover and verifier derive the same challenges from the same messages in the same order.
//! The stirring is not a cryptographic hash: challenges drawn from it carry no soundness
//! guarantee, and it stands in for a transcript built on one.
use vstd::prelude::*;
use crate::field::{Scalar, is_scalar, fadd, fpow, field_add, pow_vartime};

verus! {

/// The constant added on every absorption.
pub const ROUND_CONSTANT: u64 = 0x1545F4914F6CDD1D;

/// One absorption of `x` into state `s`.
pub open spec fn mix(s: int, x: int) -> int {
    fpow(fadd(fadd(s, x), ROUND_CONSTANT as int), 5)
}

/// The state after absorbing `label` and then every entry of `xs` in order.
pub open spec fn absorb_all(s: int, label: int, xs: Seq<Scalar>) -> int
    decreases xs.len(),
{
    if xs.len() == 0 {
        mix(s, label)
    } else {
        mix(absorb_all(s, label, xs.drop_last()), xs.last() as int)
    }
}

/// The transcript: a running scalar that every message is absorbed into.
pub struct Transcript {
    pub state: Scalar,
}

fn mix_exec(s: Scalar, x: Scalar) -> (r: Scalar)
    requires
        is_scalar(s as int),
        is_scalar(x as int),
    ensures
        r == mix(s as int, x as int),
        is_scalar(r as int),
{
    let c = ROUND_CONSTANT;
    pow_vartime(field_add(field_add(s, x), c), 5)
}

impl Transcript {
    pub open spec fn wf(&self) -> bool {
        is_scalar(self.state as int)
    }

    /// A transcript for the protocol named `label`.
    pub fn new(label: Scalar) -> (t: Transcript)
        requires
            is_scalar(label as int),
        ensures
            t.state == mix(0, label as int),
            t.wf(),
    {
        Transcript { state: mix_exec(0, label) }
    }

    /// Absorbs the scalar `x` under `label`.
    pub fn absorb(&mut self, label: Scalar, x: Scalar)
        requires
            old(self).wf(),
            is_scalar(label as int),
            is_scalar(x as int),
        ensures
            final(self).state == mix(mix(old(self).state as int, label as int), x as int),
            final(self).wf(),
    {
        let s = mix_exec(self.state, label);
        self.state = mix_exec(s, x);
    }

    /// Absorbs the vector `xs` under `label`, one entry at a time.
    pub fn absorb_vec(&mut self, label: Scalar, xs: &Vec<Scalar>)
        requires
            old(self).wf(),
            is_scalar(label as int),
            forall|i: int| 0 <= i < xs@.len() ==> is_scalar(#[trigger] xs@[i] as int),
        ensures
            final(self).state == absorb_all(old(self).state as int, label as int, xs@),
            final(self).wf(),
    {
        let ghost s0 = self.state as int;
        self.state = mix_exec(self.state, label);
        let mut i: usize = 0;
        while i < xs.len()
            invariant
                self.wf(),
                i <= xs@.len(),
                forall|j: int| 0 <= j < xs@.len() ==> is_scalar(#[trigger] xs@[j] as int),
                self.state == absorb_all(s0, label as int, xs@.subrange(0, i as int)),
            decreases xs@.len() - i,
        {
            assert(xs@.subrange(0, i + 1).drop_last() == xs@.subrange(0, i as int));
            self.state = mix_exec(self.state, xs[i]);
            i = i + 1;
        }
        assert(xs@.subrange(0, xs@.len() as int) == xs@);
    }

    /// Draws a challenge under `label`; the challenge becomes the new state.
    pub fn squeeze(&mut self, label: Scalar) -> (c: Scalar)
        requires
            old(self).wf(),
            is_scalar(label as int),
        ensures
            c == mix(old(self).state as int, label as int),
            final(self).state == c,
            final(self).wf(),
    {
        let c = mix_exec(self.state, label);
        self.state = c;
        c
    }
}

} // verus!
