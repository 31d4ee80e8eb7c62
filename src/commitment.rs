//! A linear commitment to vectors of scalars: `sum_i g_i * v_i + h * r`.
//!
//! It is additive in the committed vector and the blinding, which is all the folding scheme
//! uses of it. Being one scalar of the same field, it is neither binding nor hiding: it stands
//! in for a commitment scheme and gives no cryptographic strength.
use vstd::prelude::*;
use crate::field::{Scalar, is_scalar, fadd, fmul, field_add, field_mul};

verus! {

/// A commitment is a single scalar; it is additive in the committed vector and blinding.
pub type Commitment = Scalar;

/// The generators that commitments are taken against.
#[derive(Clone, Debug, PartialEq, Eq)]
pub struct CommitmentKey {
    pub gens: Vec<Scalar>,
    pub h: Scalar,
}

/// Whether every entry of `v` is a field element.
pub open spec fn all_scalars(v: Seq<Scalar>) -> bool {
    forall|i: int| 0 <= i < v.len() ==> is_scalar(#[trigger] v[i] as int)
}

/// `sum_{i < k} g[i] * v[i]`.
pub open spec fn inner_product(g: Seq<Scalar>, v: Seq<Scalar>, k: nat) -> int
    decreases k,
{
    if k == 0 {
        0
    } else {
        fadd(inner_product(g, v, (k - 1) as nat), fmul(g[k - 1] as int, v[k - 1] as int))
    }
}

/// The commitment to `v` under blinding `r`.
pub open spec fn commit_spec(gens: Seq<Scalar>, h: Scalar, v: Seq<Scalar>, r: Scalar) -> int {
    fadd(inner_product(gens, v, v.len()), fmul(h as int, r as int))
}

impl CommitmentKey {
    pub open spec fn wf(&self) -> bool {
        all_scalars(self.gens@) && is_scalar(self.h as int)
    }

    /// Commits to `v` with blinding `r`.
    pub fn commit(&self, v: &Vec<Scalar>, r: Scalar) -> (c: Commitment)
        requires
            self.wf(),
            all_scalars(v@),
            v@.len() <= self.gens@.len(),
            is_scalar(r as int),
        ensures
            c == commit_spec(self.gens@, self.h, v@, r),
            is_scalar(c as int),
    {
        let mut acc: Scalar = 0;
        let mut i: usize = 0;
        while i < v.len()
            invariant
                self.wf(),
                all_scalars(v@),
                v@.len() <= self.gens@.len(),
                i <= v@.len(),
                acc == inner_product(self.gens@, v@, i as nat),
                is_scalar(acc as int),
            decreases v@.len() - i,
        {
            acc = field_add(acc, field_mul(self.gens[i], v[i]));
            i = i + 1;
        }
        field_add(acc, field_mul(self.h, r))
    }
}

} // verus!
