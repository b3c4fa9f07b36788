//! The in-memory particle representation and the per-atom near-equality
//! tests used by the trajectory diff engine.

use vstd::prelude::*;
use crate::fbits::{f64_abs, f64_lt, f64_sub, is_finite_bits, lt_bits, mag_bits, sub_bits};

verus! {

/// One particle record: a 32-bit id, a position and a velocity. The six
/// floating-point components are carried as IEEE-754 binary64 bit patterns.
#[derive(Clone, Copy, Debug, PartialEq, Eq, Structural)]
pub struct Particle {
    pub id: u32,
    pub x: u64,
    pub y: u64,
    pub z: u64,
    pub vx: u64,
    pub vy: u64,
    pub vz: u64,
}

/// All six floating-point components are finite.
pub open spec fn particle_finite(p: Particle) -> bool {
    &&& is_finite_bits(p.x)
    &&& is_finite_bits(p.y)
    &&& is_finite_bits(p.z)
    &&& is_finite_bits(p.vx)
    &&& is_finite_bits(p.vy)
    &&& is_finite_bits(p.vz)
}

/// `|a - b| < limit` on bit patterns, or exact equality of the values:
/// a zero difference passes whatever the limit, so a limit of zero
/// degenerates to exact equality instead of rejecting everything.
pub open spec fn near(a: u64, b: u64, limit: u64) -> bool {
    ||| lt_bits(mag_bits(sub_bits(a, b)), limit)
    ||| mag_bits(sub_bits(a, b)) == 0
}

/// The periodic test on one spatial axis: the plain distance is inside the
/// limit, or the distance is within the limit of the box dimension (an atom
/// that crossed a periodic face).
pub open spec fn near_wrap(a: u64, b: u64, box_dim: u64, limit: u64) -> bool {
    ||| near(a, b, limit)
    ||| lt_bits(mag_bits(sub_bits(mag_bits(sub_bits(a, b)), box_dim)), limit)
    ||| mag_bits(sub_bits(mag_bits(sub_bits(a, b)), box_dim)) == 0
}

/// Non-periodic particle equality: every component within the limit.
pub open spec fn particle_near(p: Particle, q: Particle, limit: u64) -> bool {
    &&& near(p.x, q.x, limit)
    &&& near(p.y, q.y, limit)
    &&& near(p.z, q.z, limit)
    &&& near(p.vx, q.vx, limit)
    &&& near(p.vy, q.vy, limit)
    &&& near(p.vz, q.vz, limit)
}

/// Periodic particle equality: the three spatial axes may wrap around the
/// box; the velocity components never do.
pub open spec fn particle_near_pbc(p: Particle, q: Particle, limit: u64, b: (u64, u64, u64)) -> bool {
    &&& near_wrap(p.x, q.x, b.0, limit)
    &&& near_wrap(p.y, q.y, b.1, limit)
    &&& near_wrap(p.z, q.z, b.2, limit)
    &&& near(p.vx, q.vx, limit)
    &&& near(p.vy, q.vy, limit)
    &&& near(p.vz, q.vz, limit)
}

/// `|a - b| < limit` on one component pair, with the facts that the
/// degenerate laws need: a finite component is near itself whenever the
/// limit is positive.
fn near_eq_field(a: u64, b: u64, limit: u64) -> (r: bool)
    ensures
        r == near(a, b, limit),
        a == b && is_finite_bits(a) ==> r,
{
    let d = f64_sub(a, b);
    proof {
        assert(0u64 & 0x7fff_ffff_ffff_ffff == 0u64) by (bit_vector);
    }
    let m = f64_abs(d);
    f64_lt(m, limit) || m == 0
}

/// The periodic test on one spatial axis, with the degeneracy that a zero
/// box dimension collapses the wrap test to the plain test: subtracting
/// `+0.0` from the non-negative `|a - b|` changes nothing.
fn near_eq_field_wrap(a: u64, b: u64, box_dim: u64, limit: u64) -> (r: bool)
    ensures
        r == near_wrap(a, b, box_dim, limit),
        box_dim == 0u64 && is_finite_bits(a) && is_finite_bits(b) ==> r == near(a, b, limit),
        a == b && is_finite_bits(a) ==> r,
{
    proof {
        assert(0u64 & 0x7fff_ffff_ffff_ffff == 0u64) by (bit_vector);
    }
    let d = f64_abs(f64_sub(a, b));
    if f64_lt(d, limit) || d == 0 {
        true
    } else {
        let w = f64_abs(f64_sub(d, box_dim));
        f64_lt(w, limit) || w == 0
    }
}

impl Particle {
    /// Non-periodic near-equality: every one of the six components differs
    /// by strictly less than `error_limit`.
    pub fn is_near_eq(&self, another: &Particle, error_limit: u64) -> (r: bool)
        ensures
            r == particle_near(*self, *another, error_limit),
            *self == *another && particle_finite(*self) ==> r,
    {
        near_eq_field(self.x, another.x, error_limit)
            && near_eq_field(self.y, another.y, error_limit)
            && near_eq_field(self.z, another.z, error_limit)
            && near_eq_field(self.vx, another.vx, error_limit)
            && near_eq_field(self.vy, another.vy, error_limit)
            && near_eq_field(self.vz, another.vz, error_limit)
    }

    /// Near-equality under periodic boundary checking: each spatial axis may
    /// also match across the box face; velocities are never wrap-tested.
    /// With a zero-size box on every axis and finite components this is
    /// exactly the non-periodic test.
    pub fn is_near_eq_with_pbc(
        &self,
        another: &Particle,
        error_limit: u64,
        box_size: (u64, u64, u64),
    ) -> (r: bool)
        ensures
            r == particle_near_pbc(*self, *another, error_limit, box_size),
            box_size == (0u64, 0u64, 0u64) && particle_finite(*self) && particle_finite(*another)
                ==> r == particle_near(*self, *another, error_limit),
            *self == *another && particle_finite(*self) ==> r,
    {
        near_eq_field_wrap(self.x, another.x, box_size.0, error_limit)
            && near_eq_field_wrap(self.y, another.y, box_size.1, error_limit)
            && near_eq_field_wrap(self.z, another.z, box_size.2, error_limit)
            && near_eq_field(self.vx, another.vx, error_limit)
            && near_eq_field(self.vy, another.vy, error_limit)
            && near_eq_field(self.vz, another.vz, error_limit)
    }
}

/// An ordered snapshot of particles for one timestep.
#[derive(Debug)]
pub struct Snapshot {
    pub atoms: Vec<Particle>,
}

impl Snapshot {
    /// The number of atoms in the snapshot.
    pub fn size(&self) -> (n: usize)
        ensures
            n == self.atoms@.len(),
    {
        self.atoms.len()
    }
}

/// Every atom of the snapshot has only finite components.
pub open spec fn snapshot_finite(s: Seq<Particle>) -> bool {
    forall|i: int| 0 <= i < s.len() ==> particle_finite(#[trigger] s[i])
}

} // verus!
