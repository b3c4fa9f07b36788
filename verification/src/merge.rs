//! Merging the per-rank shards of each timestep into one snapshot.
//!
//! Shards arrive in index order, `ranks` of them per timestep; the merged
//! snapshot is their decoded particles concatenated in that order.

use vstd::prelude::*;
use crate::TrajError;
use crate::decode::{decode, decode_spec, BinaryStandard};
use crate::particle::{Particle, Snapshot};

verus! {

/// The view of a list of byte shards.
pub open spec fn shard_views(shards: Seq<Vec<u8>>) -> Seq<Seq<u8>> {
    shards.map_values(|v: Vec<u8>| v@)
}

/// Every shard in the range decodes.
pub open spec fn all_decode_ok(s: BinaryStandard, shards: Seq<Seq<u8>>) -> bool {
    forall|i: int| 0 <= i < shards.len() ==> decode_spec(s, #[trigger] shards[i]) is Ok
}

/// The particles of shards `lo..hi`, concatenated in index order.
pub open spec fn concat_decoded(s: BinaryStandard, shards: Seq<Seq<u8>>, lo: int, hi: int) -> Seq<
    Particle,
>
    decreases hi - lo,
{
    if lo >= hi {
        Seq::empty()
    } else {
        concat_decoded(s, shards, lo, hi - 1) + decode_spec(s, shards[hi - 1])->Ok_0
    }
}

/// Merges `ranks` shards per timestep, in ascending shard order, keeping
/// intra-shard particle order. Fails with a rank-count error when the
/// shards do not form whole timesteps, and with a format error when a
/// shard does not decode.
#[verifier::loop_isolation(false)]
pub fn merge(standard: BinaryStandard, ranks: usize, shards: &Vec<Vec<u8>>) -> (r: Result<
    Vec<Snapshot>,
    TrajError,
>)
    requires
        ranks >= 1,
    ensures
        shards@.len() % (ranks as nat) != 0 ==> r == Err::<Vec<Snapshot>, TrajError>(
            TrajError::RankCount,
        ),
        r matches Err(e) ==> e == TrajError::RankCount || e == TrajError::Format,
        (shards@.len() % (ranks as nat) == 0 && !all_decode_ok(standard, shard_views(shards@)))
            ==> r == Err::<Vec<Snapshot>, TrajError>(TrajError::Format),
        (shards@.len() % (ranks as nat) == 0 && all_decode_ok(standard, shard_views(shards@)))
            ==> r is Ok,
        r matches Ok(v) ==> {
            &&& shards@.len() % (ranks as nat) == 0
            &&& all_decode_ok(standard, shard_views(shards@))
            &&& v@.len() == shards@.len() / (ranks as nat)
            &&& forall|t: int|
                0 <= t < v@.len() ==> #[trigger] v@[t].atoms@ == concat_decoded(
                    standard,
                    shard_views(shards@),
                    t * (ranks as int),
                    (t + 1) * (ranks as int),
                )
        },
{
    let ghost sv = shard_views(shards@);
    if shards.len() % ranks != 0 {
        return Err(TrajError::RankCount);
    }
    let steps: usize = shards.len() / ranks;
    let mut out: Vec<Snapshot> = Vec::new();
    let mut t: usize = 0;
    while t < steps
        invariant
            0 <= t <= steps,
            out@.len() == t,
            forall|u: int| 0 <= u < t ==> #[trigger] out@[u].atoms@ == concat_decoded(
                standard,
                sv,
                u * (ranks as int),
                (u + 1) * (ranks as int),
            ),
            forall|i: int| 0 <= i < t * (ranks as int) ==> decode_spec(
                standard,
                #[trigger] sv[i],
            ) is Ok,
        decreases steps - t,
    {
        proof {
            assert((t + 1) * (ranks as int) <= shards@.len()) by (nonlinear_arith)
                requires
                    0 <= t < steps,
                    ranks >= 1,
                    steps == shards@.len() / (ranks as nat),
                    shards@.len() % (ranks as nat) == 0,
            ;
            assert(t * (ranks as int) + ranks == (t + 1) * (ranks as int)) by (nonlinear_arith);
        }
        let base: usize = t * ranks;
        let mut atoms: Vec<Particle> = Vec::new();
        let mut j: usize = 0;
        while j < ranks
            invariant
                0 <= j <= ranks,
                base == t * (ranks as int),
                base + ranks <= shards@.len(),
                atoms@ == concat_decoded(standard, sv, base as int, base + j),
                forall|i: int| 0 <= i < base + j ==> decode_spec(
                    standard,
                    #[trigger] sv[i],
                ) is Ok,
            decreases ranks - j,
        {
            match decode(standard, &shards[base + j]) {
                Ok(part) => {
                    let mut part = part;
                    let ghost prev = atoms@;
                    atoms.append(&mut part);
                    proof {
                        assert(sv[base + j] == shards@[base + j]@);
                        assert(atoms@ =~= concat_decoded(standard, sv, base as int, base + j + 1));
                        assert forall|i: int| 0 <= i < base + j + 1 implies decode_spec(
                            standard,
                            #[trigger] sv[i],
                        ) is Ok by {}
                    }
                    j = j + 1;
                },
                Err(_) => {
                    proof {
                        assert(sv[base + j] == shards@[base + j]@);
                        assert(!all_decode_ok(standard, sv));
                    }
                    return Err(TrajError::Format);
                },
            }
        }
        out.push(Snapshot { atoms });
        t = t + 1;
    }
    proof {
        assert(t * (ranks as int) == shards@.len()) by (nonlinear_arith)
            requires
                t == steps,
                ranks >= 1,
                steps == shards@.len() / (ranks as nat),
                shards@.len() % (ranks as nat) == 0,
        ;
        assert(all_decode_ok(standard, sv));
    }
    Ok(out)
}

} // verus!
