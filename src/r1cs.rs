//! Rank-one constraint systems `Az * Bz = Cz` over `z = (W, 1, X)`, with sparse matrices.
use vstd::prelude::*;
use vstd::arithmetic::power2::pow2;
use crate::field::{Scalar, is_scalar, fadd, fmul, field_add, field_mul};
use crate::commitment::all_scalars;

verus! {

/// A sparse matrix as a list of `(row, column, value)` entries; repeated positions add up.
#[derive(Clone, Debug, PartialEq, Eq)]
pub struct SparseMatrix {
    pub entries: Vec<(usize, usize, Scalar)>,
}

/// The shape of a constraint system: `2^log_num_cons` constraints over `num_vars` witness
/// variables and `num_io` public inputs.
#[derive(Clone, Debug, PartialEq, Eq)]
pub struct R1CSShape {
    pub num_cons: usize,
    pub log_num_cons: usize,
    pub num_vars: usize,
    pub num_io: usize,
    pub a: SparseMatrix,
    pub b: SparseMatrix,
    pub c: SparseMatrix,
}

/// The public inputs of one step.
#[derive(Clone, Debug, PartialEq, Eq)]
pub struct R1CSInstance {
    pub x: Vec<Scalar>,
}

/// The private witness of one step.
#[derive(Clone, Debug, PartialEq, Eq)]
pub struct R1CSWitness {
    pub w: Vec<Scalar>,
}

/// Whether every entry of `m` lies in a `rows` by `cols` matrix and holds a field element.
pub open spec fn matrix_wf(m: Seq<(usize, usize, Scalar)>, rows: nat, cols: nat) -> bool {
    forall|k: int|
        0 <= k < m.len() ==> {
            &&& (#[trigger] m[k]).0 < rows
            &&& m[k].1 < cols
            &&& is_scalar(m[k].2 as int)
        }
}

/// `z = (w, 1, x)`.
pub open spec fn z_of(w: Seq<Scalar>, x: Seq<Scalar>) -> Seq<Scalar> {
    w + seq![1u64] + x
}

/// The product of the first `m.len()` entries of `m` with `z`, as a vector of length `rows`.
pub open spec fn mat_vec(m: Seq<(usize, usize, Scalar)>, z: Seq<Scalar>, rows: nat) -> Seq<Scalar>
    decreases m.len(),
{
    if m.len() == 0 {
        Seq::new(rows, |i: int| 0u64)
    } else {
        let prev = mat_vec(m.drop_last(), z, rows);
        let (r, c, v) = m.last();
        prev.update(r as int, fadd(prev[r as int] as int, fmul(v as int, z[c as int] as int)) as u64)
    }
}

impl R1CSShape {
    pub open spec fn num_cols(&self) -> nat {
        (self.num_vars + 1 + self.num_io) as nat
    }

    pub open spec fn wf(&self) -> bool {
        &&& self.log_num_cons < 31
        &&& self.num_cons == pow2(self.log_num_cons as nat)
        &&& matrix_wf(self.a.entries@, self.num_cons as nat, self.num_cols())
        &&& matrix_wf(self.b.entries@, self.num_cons as nat, self.num_cols())
        &&& matrix_wf(self.c.entries@, self.num_cons as nat, self.num_cols())
        &&& self.num_cols() < usize::MAX
    }

    /// Whether `(u, w)` has the sizes that this shape asks for.
    pub open spec fn fits(&self, u: &R1CSInstance, w: &R1CSWitness) -> bool {
        &&& u.x@.len() == self.num_io
        &&& w.w@.len() == self.num_vars
        &&& all_scalars(u.x@)
        &&& all_scalars(w.w@)
    }

    pub open spec fn az(&self, u: &R1CSInstance, w: &R1CSWitness) -> Seq<Scalar> {
        mat_vec(self.a.entries@, z_of(w.w@, u.x@), self.num_cons as nat)
    }

    pub open spec fn bz(&self, u: &R1CSInstance, w: &R1CSWitness) -> Seq<Scalar> {
        mat_vec(self.b.entries@, z_of(w.w@, u.x@), self.num_cons as nat)
    }

    pub open spec fn cz(&self, u: &R1CSInstance, w: &R1CSWitness) -> Seq<Scalar> {
        mat_vec(self.c.entries@, z_of(w.w@, u.x@), self.num_cons as nat)
    }

    /// Whether `(u, w)` satisfies every constraint.
    pub open spec fn is_sat(&self, u: &R1CSInstance, w: &R1CSWitness) -> bool {
        forall|i: int|
            0 <= i < self.num_cons ==> fmul(#[trigger] self.az(u, w)[i] as int, self.bz(u, w)[i] as int)
                == self.cz(u, w)[i] as int
    }
}

/// The vector `z = (w, 1, x)`.
pub fn build_z(w: &Vec<Scalar>, x: &Vec<Scalar>) -> (z: Vec<Scalar>)
    requires
        all_scalars(w@),
        all_scalars(x@),
    ensures
        z@ == z_of(w@, x@),
        all_scalars(z@),
{
    let mut z: Vec<Scalar> = Vec::new();
    let mut i: usize = 0;
    while i < w.len()
        invariant
            i <= w@.len(),
            z@ == w@.subrange(0, i as int),
        decreases w@.len() - i,
    {
        z.push(w[i]);
        i = i + 1;
    }
    assert(w@.subrange(0, w@.len() as int) == w@);
    z.push(1);
    let mut j: usize = 0;
    while j < x.len()
        invariant
            j <= x@.len(),
            z@ == w@ + seq![1u64] + x@.subrange(0, j as int),
        decreases x@.len() - j,
    {
        z.push(x[j]);
        j = j + 1;
    }
    assert(x@.subrange(0, x@.len() as int) == x@);
    z
}

/// The product of the sparse matrix `m` with `z`.
pub fn multiply(m: &SparseMatrix, z: &Vec<Scalar>, rows: usize) -> (r: Vec<Scalar>)
    requires
        matrix_wf(m.entries@, rows as nat, z@.len()),
        all_scalars(z@),
    ensures
        r@ == mat_vec(m.entries@, z@, rows as nat),
        r@.len() == rows,
        all_scalars(r@),
{
    let mut r: Vec<Scalar> = Vec::new();
    let mut i: usize = 0;
    while i < rows
        invariant
            i <= rows,
            r@ == Seq::new(i as nat, |k: int| 0u64),
        decreases rows - i,
    {
        r.push(0);
        i = i + 1;
    }
    let mut k: usize = 0;
    while k < m.entries.len()
        invariant
            matrix_wf(m.entries@, rows as nat, z@.len()),
            all_scalars(z@),
            k <= m.entries@.len(),
            r@ == mat_vec(m.entries@.subrange(0, k as int), z@, rows as nat),
            r@.len() == rows,
            all_scalars(r@),
        decreases m.entries@.len() - k,
    {
        let (row, col, v) = m.entries[k];
        assert(m.entries@.subrange(0, k + 1).drop_last() == m.entries@.subrange(0, k as int));
        assert(m.entries@[k as int].0 < rows);
        let cur = field_add(r[row], field_mul(v, z[col]));
        r.set(row, cur);
        k = k + 1;
    }
    assert(m.entries@.subrange(0, m.entries@.len() as int) == m.entries@);
    r
}

impl R1CSShape {
    /// `(Az, Bz, Cz)` for the instance `u` and witness `w`.
    pub fn multiply_vec(&self, u: &R1CSInstance, w: &R1CSWitness) -> (r: (Vec<Scalar>, Vec<Scalar>, Vec<Scalar>))
        requires
            self.wf(),
            self.fits(u, w),
        ensures
            r.0@ == self.az(u, w),
            r.1@ == self.bz(u, w),
            r.2@ == self.cz(u, w),
            r.0@.len() == self.num_cons,
            r.1@.len() == self.num_cons,
            r.2@.len() == self.num_cons,
            all_scalars(r.0@),
            all_scalars(r.1@),
            all_scalars(r.2@),
    {
        let z = build_z(&w.w, &u.x);
        let az = multiply(&self.a, &z, self.num_cons);
        let bz = multiply(&self.b, &z, self.num_cons);
        let cz = multiply(&self.c, &z, self.num_cons);
        (az, bz, cz)
    }
}

} // verus!
