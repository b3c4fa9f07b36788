//! The tolerance-based diff engine: per-atom near-equality of two textual
//! snapshots, compared positionally, optionally under periodic wrap-around.

use vstd::prelude::*;
use crate::TrajError;
use crate::particle::{
    particle_near, particle_near_pbc, snapshot_finite, Particle, Snapshot,
};
use crate::textio::{read_snapshot, snapshot_spec};

verus! {

/// Whether the atoms at one index count as equal under the selected mode.
pub open spec fn atom_matches(
    p: Particle,
    q: Particle,
    limit: u64,
    periodic: bool,
    box_size: (u64, u64, u64),
) -> bool {
    if periodic {
        particle_near_pbc(p, q, limit, box_size)
    } else {
        particle_near(p, q, limit)
    }
}

/// The mismatching indices among the first `n`, in ascending order.
pub open spec fn mismatch_upto(
    a: Seq<Particle>,
    b: Seq<Particle>,
    limit: u64,
    periodic: bool,
    box_size: (u64, u64, u64),
    n: int,
) -> Seq<usize>
    decreases n,
{
    if n <= 0 {
        Seq::empty()
    } else if atom_matches(a[n - 1], b[n - 1], limit, periodic, box_size) {
        mismatch_upto(a, b, limit, periodic, box_size, n - 1)
    } else {
        mismatch_upto(a, b, limit, periodic, box_size, n - 1).push((n - 1) as usize)
    }
}

/// A comparison report: the mismatching atom indices; the comparison
/// passes when there are none.
#[derive(Debug)]
pub struct DiffReport {
    pub mismatches: Vec<usize>,
}

impl DiffReport {
    /// Whether the two snapshots compared equal everywhere.
    pub fn passed(&self) -> (r: bool)
        ensures
            r == (self.mismatches@.len() == 0),
    {
        self.mismatches.len() == 0
    }
}

/// Compares two snapshots atom by atom, positionally by sequence index.
///
/// Two laws ride on the contract. Diffing finite snapshots against
/// themselves reports no mismatch whatever the limit; and with the
/// degenerate box `(0, 0, 0)` on finite snapshots the periodic comparison
/// reports exactly what the non-periodic one does.
#[verifier::loop_isolation(false)]
pub fn diff_snapshots(
    a: &Snapshot,
    b: &Snapshot,
    error_limit: u64,
    periodic: bool,
    box_size: (u64, u64, u64),
) -> (r: Result<DiffReport, TrajError>)
    ensures
        a.atoms@.len() != b.atoms@.len() <==> r == Err::<DiffReport, TrajError>(
            TrajError::SizeMismatch,
        ),
        a.atoms@.len() == b.atoms@.len() ==> r is Ok,
        r matches Ok(rep) ==> rep.mismatches@ == mismatch_upto(
            a.atoms@,
            b.atoms@,
            error_limit,
            periodic,
            box_size,
            a.atoms@.len() as int,
        ),
        (a.atoms@ == b.atoms@ && snapshot_finite(a.atoms@)) ==> (r matches Ok(rep)
            && rep.mismatches@.len() == 0),
        (periodic && box_size == (0u64, 0u64, 0u64) && snapshot_finite(a.atoms@)
            && snapshot_finite(b.atoms@)) ==> (r matches Ok(rep) ==> rep.mismatches@
            == mismatch_upto(
            a.atoms@,
            b.atoms@,
            error_limit,
            false,
            box_size,
            a.atoms@.len() as int,
        )),
{
    if a.atoms.len() != b.atoms.len() {
        return Err(TrajError::SizeMismatch);
    }
    let n = a.atoms.len();
    let mut mismatches: Vec<usize> = Vec::new();
    let mut i: usize = 0;
    while i < n
        invariant
            0 <= i <= n,
            n == a.atoms@.len() == b.atoms@.len(),
            mismatches@ == mismatch_upto(a.atoms@, b.atoms@, error_limit, periodic, box_size,
                i as int),
            (a.atoms@ == b.atoms@ && snapshot_finite(a.atoms@)) ==> mismatches@.len() == 0,
            (periodic && box_size == (0u64, 0u64, 0u64) && snapshot_finite(a.atoms@)
                && snapshot_finite(b.atoms@)) ==> mismatches@ == mismatch_upto(
                a.atoms@,
                b.atoms@,
                error_limit,
                false,
                box_size,
                i as int,
            ),
        decreases n - i,
    {
        let same = if periodic {
            a.atoms[i].is_near_eq_with_pbc(&b.atoms[i], error_limit, box_size)
        } else {
            a.atoms[i].is_near_eq(&b.atoms[i], error_limit)
        };
        if !same {
            mismatches.push(i);
        }
        i = i + 1;
    }
    Ok(DiffReport { mismatches })
}

/// The box the diff uses: the given triple only when exactly three
/// dimensions were supplied, otherwise the degenerate zero box.
pub open spec fn box_of(sim_box: Seq<u64>) -> (u64, u64, u64) {
    if sim_box.len() == 3 {
        (sim_box[0], sim_box[1], sim_box[2])
    } else {
        (0u64, 0u64, 0u64)
    }
}

/// Reads two textual snapshots and compares them. The box defaults to
/// `(0, 0, 0)` unless exactly three dimensions are supplied.
pub fn diff_files(
    data1: &[u8],
    data2: &[u8],
    error_limit: u64,
    periodic_checking: bool,
    sim_box: &Vec<u64>,
) -> (r: Result<DiffReport, TrajError>)
    ensures
        snapshot_spec(data1@) matches Err(e) ==> r == Err::<DiffReport, TrajError>(e),
        snapshot_spec(data1@) is Ok ==> (snapshot_spec(data2@) matches Err(e) ==> r == Err::<
            DiffReport,
            TrajError,
        >(e)),
        (snapshot_spec(data1@) is Ok && snapshot_spec(data2@) is Ok) ==> ({
            let a = snapshot_spec(data1@)->Ok_0;
            let b = snapshot_spec(data2@)->Ok_0;
            &&& (a.len() != b.len() <==> r == Err::<DiffReport, TrajError>(
                TrajError::SizeMismatch,
            ))
            &&& (a.len() == b.len() ==> r is Ok)
            &&& (r matches Ok(rep) ==> rep.mismatches@ == mismatch_upto(
                a,
                b,
                error_limit,
                periodic_checking,
                box_of(sim_box@),
                a.len() as int,
            ))
        }),
{
    let snap1 = match read_snapshot(data1) {
        Ok(s) => s,
        Err(e) => { return Err(e); },
    };
    let snap2 = match read_snapshot(data2) {
        Ok(s) => s,
        Err(e) => { return Err(e); },
    };
    let box_size: (u64, u64, u64) = if sim_box.len() == 3 {
        (sim_box[0], sim_box[1], sim_box[2])
    } else {
        (0, 0, 0)
    };
    diff_snapshots(&snap1, &snap2, error_limit, periodic_checking, box_size)
}

} // verus!
