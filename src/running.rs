//! The running zero-fold accumulator: three paired sub-records and their fold.
use vstd::prelude::*;
use crate::field::{Scalar, is_scalar, flerp, field_add, field_sub, field_mul};
use crate::commitment::{Commitment, all_scalars};
use crate::r1cs::{R1CSInstance, R1CSWitness, R1CSShape};

verus! {

/// `(1 - r) * a + r * b`, entry by entry.
pub open spec fn lerp_seq(a: Seq<Scalar>, b: Seq<Scalar>, r: int) -> Seq<Scalar> {
    Seq::new(a.len(), |i: int| flerp(a[i] as int, b[i] as int, r) as u64)
}

/// `(1 - r) * a + r * b` for one scalar.
pub fn lerp(a: Scalar, b: Scalar, r: Scalar) -> (out: Scalar)
    requires
        is_scalar(a as int),
        is_scalar(b as int),
        is_scalar(r as int),
    ensures
        out == flerp(a as int, b as int, r as int),
        is_scalar(out as int),
{
    field_add(field_mul(field_sub(1, r), a), field_mul(r, b))
}

/// `(1 - r) * a + r * b` for two vectors of one length.
pub fn lerp_vec(a: &Vec<Scalar>, b: &Vec<Scalar>, r: Scalar) -> (out: Vec<Scalar>)
    requires
        a@.len() == b@.len(),
        all_scalars(a@),
        all_scalars(b@),
        is_scalar(r as int),
    ensures
        out@ == lerp_seq(a@, b@, r as int),
        all_scalars(out@),
{
    let mut out: Vec<Scalar> = Vec::new();
    let mut i: usize = 0;
    while i < a.len()
        invariant
            a@.len() == b@.len(),
            all_scalars(a@),
            all_scalars(b@),
            is_scalar(r as int),
            i <= a@.len(),
            out@ == lerp_seq(a@, b@, r as int).subrange(0, i as int),
            all_scalars(out@),
        decreases a@.len() - i,
    {
        out.push(lerp(a[i], b[i], r));
        i = i + 1;
    }
    assert(out@ == lerp_seq(a@, b@, r as int));
    out
}

/// A copy of a vector of scalars.
pub fn copy_vec(a: &Vec<Scalar>) -> (out: Vec<Scalar>)
    ensures
        out@ == a@,
{
    let mut out: Vec<Scalar> = Vec::new();
    let mut i: usize = 0;
    while i < a.len()
        invariant
            i <= a@.len(),
            out@ == a@.subrange(0, i as int),
        decreases a@.len() - i,
    {
        out.push(a[i]);
        i = i + 1;
    }
    assert(out@ == a@.subrange(0, a@.len() as int));
    out
}

/// Constraint view, instance side: the claimed weighted sum `t` of the constraint relation,
/// the constraint instance, and the commitment to the weighting power polynomial.
#[derive(Clone, Debug, PartialEq, Eq)]
pub struct NSCInstance {
    pub t: Scalar,
    pub u: R1CSInstance,
    pub comm_e: Commitment,
}

/// Constraint view, witness side.
#[derive(Clone, Debug, PartialEq, Eq)]
pub struct NSCWitness {
    pub w: R1CSWitness,
    pub e: Vec<Scalar>,
    pub r_e: Scalar,
}

/// Power-consistency view, instance side: the claimed sum `t`, the commitment to the previous
/// power polynomial, the challenge `tau`, and the commitment to the new power polynomial.
#[derive(Clone, Debug, PartialEq, Eq)]
pub struct NSCPCInstance {
    pub t: Scalar,
    pub comm_e: Commitment,
    pub tau: Scalar,
    pub comm_new_e: Commitment,
}

/// Power-consistency view, witness side.
#[derive(Clone, Debug, PartialEq, Eq)]
pub struct NSCPCWitness {
    pub e: Vec<Scalar>,
    pub new_e: Vec<Scalar>,
    pub r_e: Scalar,
    pub new_r_e: Scalar,
}

/// Zero-check-commitment view, instance side.
#[derive(Clone, Debug, PartialEq, Eq)]
pub struct ZCPCInstance {
    pub comm_e: Commitment,
    pub tau: Scalar,
}

/// Zero-check-commitment view, witness side.
#[derive(Clone, Debug, PartialEq, Eq)]
pub struct ZCPCWitness {
    pub e: Vec<Scalar>,
    pub r_e: Scalar,
}

/// The running accumulator, instance side.
#[derive(Clone, Debug, PartialEq, Eq)]
pub struct RunningZFInstance {
    pub nsc: NSCInstance,
    pub nsc_pc: NSCPCInstance,
    pub zc_pc: ZCPCInstance,
}

/// The running accumulator, witness side.
#[derive(Clone, Debug, PartialEq, Eq)]
pub struct RunningZFWitness {
    pub nsc: NSCWitness,
    pub nsc_pc: NSCPCWitness,
    pub zc_pc: ZCPCWitness,
}

impl NSCInstance {
    pub open spec fn wf(&self, s: &R1CSShape) -> bool {
        &&& is_scalar(self.t as int)
        &&& self.u.x@.len() == s.num_io
        &&& all_scalars(self.u.x@)
        &&& is_scalar(self.comm_e as int)
    }
}

impl NSCWitness {
    pub open spec fn wf(&self, s: &R1CSShape) -> bool {
        &&& self.w.w@.len() == s.num_vars
        &&& all_scalars(self.w.w@)
        &&& self.e@.len() == s.num_cons
        &&& all_scalars(self.e@)
        &&& is_scalar(self.r_e as int)
    }
}

impl NSCPCInstance {
    pub open spec fn wf(&self) -> bool {
        &&& is_scalar(self.t as int)
        &&& is_scalar(self.comm_e as int)
        &&& is_scalar(self.tau as int)
        &&& is_scalar(self.comm_new_e as int)
    }
}

impl NSCPCWitness {
    pub open spec fn wf(&self, s: &R1CSShape) -> bool {
        &&& self.e@.len() == s.num_cons
        &&& all_scalars(self.e@)
        &&& self.new_e@.len() == s.num_cons
        &&& all_scalars(self.new_e@)
        &&& is_scalar(self.r_e as int)
        &&& is_scalar(self.new_r_e as int)
    }
}

impl ZCPCInstance {
    pub open spec fn wf(&self) -> bool {
        is_scalar(self.comm_e as int) && is_scalar(self.tau as int)
    }
}

impl ZCPCWitness {
    pub open spec fn wf(&self, s: &R1CSShape) -> bool {
        &&& self.e@.len() == s.num_cons
        &&& all_scalars(self.e@)
        &&& is_scalar(self.r_e as int)
    }
}

impl RunningZFInstance {
    pub open spec fn wf(&self, s: &R1CSShape) -> bool {
        self.nsc.wf(s) && self.nsc_pc.wf() && self.zc_pc.wf()
    }

    /// Whether `self` is `prev` folded at `r_b` with the fresh views, taking the sums `t` and
    /// `t_pc` and carrying `zc` forward.
    pub open spec fn is_fold_of(
        &self,
        prev: &RunningZFInstance,
        nsc: &NSCInstance,
        r_b: int,
        t: int,
        nsc_pc: &NSCPCInstance,
        t_pc: int,
        zc: &ZCPCInstance,
    ) -> bool {
        &&& self.nsc.t == t
        &&& self.nsc.u.x@ == lerp_seq(prev.nsc.u.x@, nsc.u.x@, r_b)
        &&& self.nsc.comm_e == flerp(prev.nsc.comm_e as int, nsc.comm_e as int, r_b)
        &&& self.nsc_pc.t == t_pc
        &&& self.nsc_pc.comm_e == flerp(prev.nsc_pc.comm_e as int, nsc_pc.comm_e as int, r_b)
        &&& self.nsc_pc.tau == flerp(prev.nsc_pc.tau as int, nsc_pc.tau as int, r_b)
        &&& self.nsc_pc.comm_new_e == flerp(
            prev.nsc_pc.comm_new_e as int,
            nsc_pc.comm_new_e as int,
            r_b,
        )
        &&& self.zc_pc == *zc
    }

    /// Folds the fresh views into this accumulator at `r_b`; the new error claims are `t` and
    /// `t_pc`, and `zc` becomes the carried zero-check view.
    pub fn fold(
        &self,
        nsc: &NSCInstance,
        r_b: Scalar,
        t: Scalar,
        nsc_pc: &NSCPCInstance,
        t_pc: Scalar,
        zc: ZCPCInstance,
    ) -> (r: RunningZFInstance)
        requires
            self.nsc_pc.wf(),
            is_scalar(self.nsc.comm_e as int),
            all_scalars(self.nsc.u.x@),
            all_scalars(nsc.u.x@),
            self.nsc.u.x@.len() == nsc.u.x@.len(),
            is_scalar(nsc.comm_e as int),
            nsc_pc.wf(),
            is_scalar(r_b as int),
            is_scalar(t as int),
            is_scalar(t_pc as int),
            zc.wf(),
        ensures
            r.is_fold_of(self, nsc, r_b as int, t as int, nsc_pc, t_pc as int, &zc),
            r.nsc_pc.wf(),
            r.zc_pc.wf(),
            is_scalar(r.nsc.t as int),
            is_scalar(r.nsc.comm_e as int),
            all_scalars(r.nsc.u.x@),
            r.nsc.u.x@.len() == nsc.u.x@.len(),
    {
        RunningZFInstance {
            nsc: NSCInstance {
                t,
                u: R1CSInstance { x: lerp_vec(&self.nsc.u.x, &nsc.u.x, r_b) },
                comm_e: lerp(self.nsc.comm_e, nsc.comm_e, r_b),
            },
            nsc_pc: NSCPCInstance {
                t: t_pc,
                comm_e: lerp(self.nsc_pc.comm_e, nsc_pc.comm_e, r_b),
                tau: lerp(self.nsc_pc.tau, nsc_pc.tau, r_b),
                comm_new_e: lerp(self.nsc_pc.comm_new_e, nsc_pc.comm_new_e, r_b),
            },
            zc_pc: zc,
        }
    }
}

impl RunningZFWitness {
    pub open spec fn wf(&self, s: &R1CSShape) -> bool {
        self.nsc.wf(s) && self.nsc_pc.wf(s) && self.zc_pc.wf(s)
    }

    /// Whether the fresh witnesses have the sizes of this one, and all hold field elements.
    pub open spec fn fold_compatible(&self, nsc: &NSCWitness, nsc_pc: &NSCPCWitness) -> bool {
        &&& nsc.w.w@.len() == self.nsc.w.w@.len()
        &&& all_scalars(nsc.w.w@) && all_scalars(self.nsc.w.w@)
        &&& nsc.e@.len() == self.nsc.e@.len()
        &&& all_scalars(nsc.e@) && all_scalars(self.nsc.e@)
        &&& is_scalar(nsc.r_e as int) && is_scalar(self.nsc.r_e as int)
        &&& nsc_pc.e@.len() == self.nsc_pc.e@.len()
        &&& all_scalars(nsc_pc.e@) && all_scalars(self.nsc_pc.e@)
        &&& nsc_pc.new_e@.len() == self.nsc_pc.new_e@.len()
        &&& all_scalars(nsc_pc.new_e@) && all_scalars(self.nsc_pc.new_e@)
        &&& is_scalar(nsc_pc.r_e as int) && is_scalar(self.nsc_pc.r_e as int)
        &&& is_scalar(nsc_pc.new_r_e as int) && is_scalar(self.nsc_pc.new_r_e as int)
    }

    /// Whether `self` is `prev` folded at `r_b` with the fresh witnesses, carrying `zc` forward.
    pub open spec fn is_fold_of(
        &self,
        prev: &RunningZFWitness,
        nsc: &NSCWitness,
        r_b: int,
        nsc_pc: &NSCPCWitness,
        zc: &ZCPCWitness,
    ) -> bool {
        &&& self.nsc.w.w@ == lerp_seq(prev.nsc.w.w@, nsc.w.w@, r_b)
        &&& self.nsc.e@ == lerp_seq(prev.nsc.e@, nsc.e@, r_b)
        &&& self.nsc.r_e == flerp(prev.nsc.r_e as int, nsc.r_e as int, r_b)
        &&& self.nsc_pc.e@ == lerp_seq(prev.nsc_pc.e@, nsc_pc.e@, r_b)
        &&& self.nsc_pc.new_e@ == lerp_seq(prev.nsc_pc.new_e@, nsc_pc.new_e@, r_b)
        &&& self.nsc_pc.r_e == flerp(prev.nsc_pc.r_e as int, nsc_pc.r_e as int, r_b)
        &&& self.nsc_pc.new_r_e == flerp(prev.nsc_pc.new_r_e as int, nsc_pc.new_r_e as int, r_b)
        &&& self.zc_pc.e@ == zc.e@
        &&& self.zc_pc.r_e == zc.r_e
    }

    /// Folds the fresh witnesses into this accumulator at `r_b`; `zc` becomes the carried
    /// zero-check witness.
    pub fn fold(
        &self,
        nsc: &NSCWitness,
        r_b: Scalar,
        nsc_pc: &NSCPCWitness,
        zc: ZCPCWitness,
    ) -> (r: RunningZFWitness)
        requires
            self.fold_compatible(nsc, nsc_pc),
            is_scalar(r_b as int),
        ensures
            r.is_fold_of(self, nsc, r_b as int, nsc_pc, &zc),
            forall|s: R1CSShape| self.wf(&s) && zc.wf(&s) ==> r.wf(&s),
    {
        RunningZFWitness {
            nsc: NSCWitness {
                w: R1CSWitness { w: lerp_vec(&self.nsc.w.w, &nsc.w.w, r_b) },
                e: lerp_vec(&self.nsc.e, &nsc.e, r_b),
                r_e: lerp(self.nsc.r_e, nsc.r_e, r_b),
            },
            nsc_pc: NSCPCWitness {
                e: lerp_vec(&self.nsc_pc.e, &nsc_pc.e, r_b),
                new_e: lerp_vec(&self.nsc_pc.new_e, &nsc_pc.new_e, r_b),
                r_e: lerp(self.nsc_pc.r_e, nsc_pc.r_e, r_b),
                new_r_e: lerp(self.nsc_pc.new_r_e, nsc_pc.new_r_e, r_b),
            },
            zc_pc: zc,
        }
    }
}

/// `n` zeros.
pub open spec fn zeros(n: nat) -> Seq<Scalar> {
    Seq::new(n, |i: int| 0u64)
}

/// A vector of `n` zeros.
pub fn zero_vec(n: usize) -> (v: Vec<Scalar>)
    ensures
        v@ == zeros(n as nat),
        all_scalars(v@),
{
    let mut v: Vec<Scalar> = Vec::new();
    let mut i: usize = 0;
    while i < n
        invariant
            i <= n,
            v@ == zeros(i as nat),
        decreases n - i,
    {
        v.push(0);
        i = i + 1;
    }
    v
}

/// Whether `(u, w)` is the genesis accumulator of shape `s`: zero error claims, zero
/// commitments and challenges, and all-zero vectors.
pub open spec fn is_genesis(s: &R1CSShape, u: &RunningZFInstance, w: &RunningZFWitness) -> bool {
    let n = s.num_cons as nat;
    &&& u.nsc.t == 0 && u.nsc.u.x@ == zeros(s.num_io as nat) && u.nsc.comm_e == 0
    &&& u.nsc_pc.t == 0 && u.nsc_pc.comm_e == 0 && u.nsc_pc.tau == 0 && u.nsc_pc.comm_new_e == 0
    &&& u.zc_pc.comm_e == 0 && u.zc_pc.tau == 0
    &&& w.nsc.w.w@ == zeros(s.num_vars as nat) && w.nsc.e@ == zeros(n) && w.nsc.r_e == 0
    &&& w.nsc_pc.e@ == zeros(n) && w.nsc_pc.new_e@ == zeros(n)
    &&& w.nsc_pc.r_e == 0 && w.nsc_pc.new_r_e == 0
    &&& w.zc_pc.e@ == zeros(n) && w.zc_pc.r_e == 0
}

/// The genesis accumulator of shape `s`, from which every chain of folds starts.
pub fn genesis(s: &R1CSShape) -> (r: (RunningZFInstance, RunningZFWitness))
    ensures
        is_genesis(s, &r.0, &r.1),
        r.0.wf(s),
        r.1.wf(s),
{
    let n = s.num_cons;
    let u = RunningZFInstance {
        nsc: NSCInstance { t: 0, u: R1CSInstance { x: zero_vec(s.num_io) }, comm_e: 0 },
        nsc_pc: NSCPCInstance { t: 0, comm_e: 0, tau: 0, comm_new_e: 0 },
        zc_pc: ZCPCInstance { comm_e: 0, tau: 0 },
    };
    let w = RunningZFWitness {
        nsc: NSCWitness { w: R1CSWitness { w: zero_vec(s.num_vars) }, e: zero_vec(n), r_e: 0 },
        nsc_pc: NSCPCWitness { e: zero_vec(n), new_e: zero_vec(n), r_e: 0, new_r_e: 0 },
        zc_pc: ZCPCWitness { e: zero_vec(n), r_e: 0 },
    };
    (u, w)
}

/// Whether two running instances hold the same values.
pub open spec fn same_instance(a: &RunningZFInstance, b: &RunningZFInstance) -> bool {
    &&& a.nsc.t == b.nsc.t && a.nsc.u.x@ == b.nsc.u.x@ && a.nsc.comm_e == b.nsc.comm_e
    &&& a.nsc_pc == b.nsc_pc
    &&& a.zc_pc == b.zc_pc
}

/// Whether two running witnesses hold the same values.
pub open spec fn same_witness(a: &RunningZFWitness, b: &RunningZFWitness) -> bool {
    &&& a.nsc.w.w@ == b.nsc.w.w@ && a.nsc.e@ == b.nsc.e@ && a.nsc.r_e == b.nsc.r_e
    &&& a.nsc_pc.e@ == b.nsc_pc.e@ && a.nsc_pc.new_e@ == b.nsc_pc.new_e@
    &&& a.nsc_pc.r_e == b.nsc_pc.r_e && a.nsc_pc.new_r_e == b.nsc_pc.new_r_e
    &&& a.zc_pc.e@ == b.zc_pc.e@ && a.zc_pc.r_e == b.zc_pc.r_e
}

} // verus!
