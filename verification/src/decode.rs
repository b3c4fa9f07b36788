//! Decoding one rank's binary shard into particles.
//!
//! A shard is a fixed-width record stream: an eight-byte atom count, then
//! one record per particle. The selected standard fixes the byte order and
//! whether records carry an id field; without ids, particles are numbered
//! by their position in the shard.

use vstd::prelude::*;
use crate::TrajError;
use crate::particle::Particle;

verus! {

/// The selectable binary layouts. A standard is pure configuration: byte
/// order, record width and id presence; every floating-point field is a
/// 64-bit IEEE-754 value.
#[derive(Clone, Copy, Debug, PartialEq, Eq, Structural)]
pub enum BinaryStandard {
    /// Little-endian fields, each record led by a 32-bit id.
    LittleEndian,
    /// Big-endian fields, each record led by a 32-bit id.
    BigEndian,
    /// Little-endian fields without ids; particles are numbered in shard
    /// order.
    LittleEndianNoIds,
}

/// Whether records of this standard carry an id field.
pub open spec fn has_ids(s: BinaryStandard) -> bool {
    s != BinaryStandard::LittleEndianNoIds
}

/// Whether multi-byte fields are stored most significant byte first.
pub open spec fn big_endian(s: BinaryStandard) -> bool {
    s == BinaryStandard::BigEndian
}

/// The fixed record width of the standard, in bytes: six 8-byte fields,
/// plus a 4-byte id when present.
pub open spec fn record_width(s: BinaryStandard) -> int {
    if has_ids(s) {
        52
    } else {
        48
    }
}

/// A 64-bit word assembled least significant byte first.
pub open spec fn word_le(
    b0: u8,
    b1: u8,
    b2: u8,
    b3: u8,
    b4: u8,
    b5: u8,
    b6: u8,
    b7: u8,
) -> u64 {
    (b0 as u64) | (b1 as u64) << 8 | (b2 as u64) << 16 | (b3 as u64) << 24 | (b4 as u64) << 32
        | (b5 as u64) << 40 | (b6 as u64) << 48 | (b7 as u64) << 56
}

/// The 64-bit field at byte offset `off`, in the given byte order.
pub open spec fn word_at(b: Seq<u8>, off: int, big: bool) -> u64 {
    if big {
        word_le(b[off + 7], b[off + 6], b[off + 5], b[off + 4], b[off + 3], b[off + 2], b[off + 1],
            b[off])
    } else {
        word_le(b[off], b[off + 1], b[off + 2], b[off + 3], b[off + 4], b[off + 5], b[off + 6],
            b[off + 7])
    }
}

/// The 32-bit id at byte offset `off`, in the given byte order.
pub open spec fn id_at(b: Seq<u8>, off: int, big: bool) -> u32 {
    if big {
        (b[off + 3] as u32) | (b[off + 2] as u32) << 8 | (b[off + 1] as u32) << 16 | (b[off]
            as u32) << 24
    } else {
        (b[off] as u32) | (b[off + 1] as u32) << 8 | (b[off + 2] as u32) << 16 | (b[off + 3]
            as u32) << 24
    }
}

/// The declared atom count: the shard's first eight bytes.
pub open spec fn count_of(s: BinaryStandard, b: Seq<u8>) -> u64 {
    word_at(b, 0, big_endian(s))
}

/// Whether the shard is well-formed for the standard: a header is present,
/// the rest is a whole number of records, the declared count matches the
/// record count, and without an id field the count must fit the 32-bit id
/// space.
pub open spec fn decode_ok(s: BinaryStandard, b: Seq<u8>) -> bool {
    &&& b.len() >= 8
    &&& (b.len() - 8) % record_width(s) == 0
    &&& count_of(s, b) == (b.len() - 8) / record_width(s)
    &&& (has_ids(s) || count_of(s, b) <= u32::MAX)
}

/// The `k`-th particle of the shard.
pub open spec fn particle_at(s: BinaryStandard, b: Seq<u8>, k: int) -> Particle {
    let base = 8 + k * record_width(s);
    let big = big_endian(s);
    if has_ids(s) {
        Particle {
            id: id_at(b, base, big),
            x: word_at(b, base + 4, big),
            y: word_at(b, base + 12, big),
            z: word_at(b, base + 20, big),
            vx: word_at(b, base + 28, big),
            vy: word_at(b, base + 36, big),
            vz: word_at(b, base + 44, big),
        }
    } else {
        Particle {
            id: k as u32,
            x: word_at(b, base, big),
            y: word_at(b, base + 8, big),
            z: word_at(b, base + 16, big),
            vx: word_at(b, base + 24, big),
            vy: word_at(b, base + 32, big),
            vz: word_at(b, base + 40, big),
        }
    }
}

/// What a shard decodes to: its particles in shard order, or a format
/// failure.
pub open spec fn decode_spec(s: BinaryStandard, b: Seq<u8>) -> Result<Seq<Particle>, TrajError> {
    if decode_ok(s, b) {
        Ok(Seq::new(((b.len() - 8) / record_width(s)) as nat, |k: int| particle_at(s, b, k)))
    } else {
        Err(TrajError::Format)
    }
}

/// Reads the 64-bit field at `off`.
fn read_u64(b: &Vec<u8>, off: usize, big: bool) -> (r: u64)
    requires
        off + 8 <= b@.len(),
    ensures
        r == word_at(b@, off as int, big),
{
    let n = b.len();
    proof {
        assert(off + 8 <= n);
    }
    if big {
        (b[off + 7] as u64) | (b[off + 6] as u64) << 8 | (b[off + 5] as u64) << 16 | (b[off + 4]
            as u64) << 24 | (b[off + 3] as u64) << 32 | (b[off + 2] as u64) << 40 | (b[off + 1]
            as u64) << 48 | (b[off] as u64) << 56
    } else {
        (b[off] as u64) | (b[off + 1] as u64) << 8 | (b[off + 2] as u64) << 16 | (b[off + 3]
            as u64) << 24 | (b[off + 4] as u64) << 32 | (b[off + 5] as u64) << 40 | (b[off + 6]
            as u64) << 48 | (b[off + 7] as u64) << 56
    }
}

/// Reads the 32-bit id field at `off`.
fn read_u32(b: &Vec<u8>, off: usize, big: bool) -> (r: u32)
    requires
        off + 4 <= b@.len(),
    ensures
        r == id_at(b@, off as int, big),
{
    let n = b.len();
    proof {
        assert(off + 4 <= n);
    }
    if big {
        (b[off + 3] as u32) | (b[off + 2] as u32) << 8 | (b[off + 1] as u32) << 16 | (b[off]
            as u32) << 24
    } else {
        (b[off] as u32) | (b[off + 1] as u32) << 8 | (b[off + 2] as u32) << 16 | (b[off + 3]
            as u32) << 24
    }
}

/// Decodes one shard: fails with a format error when the byte length is
/// inconsistent with the standard's record width or the declared count
/// disagrees with the decoded count.
#[verifier::loop_isolation(false)]
pub fn decode(standard: BinaryStandard, bytes: &Vec<u8>) -> (r: Result<Vec<Particle>, TrajError>)
    ensures
        r matches Ok(v) ==> decode_spec(standard, bytes@) == Ok::<Seq<Particle>, TrajError>(v@),
        r matches Err(e) ==> decode_spec(standard, bytes@) == Err::<Seq<Particle>, TrajError>(e),
{
    let w: usize = match standard {
        BinaryStandard::LittleEndianNoIds => 48,
        _ => 52,
    };
    let big = match standard {
        BinaryStandard::BigEndian => true,
        _ => false,
    };
    if bytes.len() < 8 {
        return Err(TrajError::Format);
    }
    let rem: usize = bytes.len() - 8;
    if rem % w != 0 {
        return Err(TrajError::Format);
    }
    let cnt: usize = rem / w;
    let declared = read_u64(bytes, 0, big);
    if declared != cnt as u64 {
        return Err(TrajError::Format);
    }
    if w == 48 && declared > 0xffff_ffff {
        return Err(TrajError::Format);
    }
    let mut atoms: Vec<Particle> = Vec::new();
    let mut k: usize = 0;
    while k < cnt
        invariant
            0 <= k <= cnt,
            atoms@.len() == k,
            forall|j: int| 0 <= j < k ==> atoms@[j] == particle_at(standard, bytes@, j),
        decreases cnt - k,
    {
        proof {
            assert((k + 1) * w <= rem) by (nonlinear_arith)
                requires
                    0 <= k < cnt,
                    w > 0,
                    cnt == rem / w,
                    rem % w == 0,
            ;
            assert(k * w + w == (k + 1) * w) by (nonlinear_arith);
        }
        let base: usize = 8 + k * w;
        let p = if w == 52 {
            Particle {
                id: read_u32(bytes, base, big),
                x: read_u64(bytes, base + 4, big),
                y: read_u64(bytes, base + 12, big),
                z: read_u64(bytes, base + 20, big),
                vx: read_u64(bytes, base + 28, big),
                vy: read_u64(bytes, base + 36, big),
                vz: read_u64(bytes, base + 44, big),
            }
        } else {
            Particle {
                id: k as u32,
                x: read_u64(bytes, base, big),
                y: read_u64(bytes, base + 8, big),
                z: read_u64(bytes, base + 16, big),
                vx: read_u64(bytes, base + 24, big),
                vy: read_u64(bytes, base + 32, big),
                vz: read_u64(bytes, base + 40, big),
            }
        };
        atoms.push(p);
        k = k + 1;
    }
    proof {
        assert(decode_ok(standard, bytes@));
        assert(atoms@ =~= Seq::new(((bytes@.len() - 8) / record_width(standard)) as nat, |j: int|
            particle_at(standard, bytes@, j)));
    }
    Ok(atoms)
}

} // verus!
