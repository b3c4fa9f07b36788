//! Serializing snapshots: the Xyz, Text and Dump output grammars.
//!
//! Each encoder turns one snapshot into the exact byte sequence its spec
//! function describes; writing those bytes to a destination is the
//! caller's business.

use vstd::prelude::*;
use crate::particle::{Particle, Snapshot};
use crate::textio::{dec_spec, particle_line, particle_line_spec, u64_to_dec, extend_bytes};

verus! {

/// The simulation box bounds a Dump section declares, as three pairs of
/// IEEE-754 bit patterns.
#[derive(Clone, Copy, Debug, PartialEq, Eq, Structural)]
pub struct BoxBounds {
    pub xlo: u64,
    pub xhi: u64,
    pub ylo: u64,
    pub yhi: u64,
    pub zlo: u64,
    pub zhi: u64,
}

/// The bytes of `"ITEM: TIMESTEP\n"`.
pub open spec fn hdr_timestep() -> Seq<u8> {
    seq![73u8, 84u8, 69u8, 77u8, 58u8, 32u8, 84u8, 73u8, 77u8, 69u8, 83u8, 84u8, 69u8, 80u8, 10u8]
}

/// Appends the bytes of `"ITEM: TIMESTEP\n"`.
fn push_hdr_timestep(dst: &mut Vec<u8>)
    ensures
        final(dst)@ == old(dst)@ + hdr_timestep(),
{
    dst.push(73);
    dst.push(84);
    dst.push(69);
    dst.push(77);
    dst.push(58);
    dst.push(32);
    dst.push(84);
    dst.push(73);
    dst.push(77);
    dst.push(69);
    dst.push(83);
    dst.push(84);
    dst.push(69);
    dst.push(80);
    dst.push(10);
    proof {
        assert(dst@ =~= old(dst)@ + hdr_timestep());
    }
}

/// The bytes of `"ITEM: NUMBER OF ATOMS\n"`.
pub open spec fn hdr_natoms() -> Seq<u8> {
    seq![73u8, 84u8, 69u8, 77u8, 58u8, 32u8, 78u8, 85u8, 77u8, 66u8, 69u8, 82u8, 32u8, 79u8, 70u8, 32u8, 65u8, 84u8, 79u8, 77u8, 83u8, 10u8]
}

/// Appends the bytes of `"ITEM: NUMBER OF ATOMS\n"`.
fn push_hdr_natoms(dst: &mut Vec<u8>)
    ensures
        final(dst)@ == old(dst)@ + hdr_natoms(),
{
    dst.push(73);
    dst.push(84);
    dst.push(69);
    dst.push(77);
    dst.push(58);
    dst.push(32);
    dst.push(78);
    dst.push(85);
    dst.push(77);
    dst.push(66);
    dst.push(69);
    dst.push(82);
    dst.push(32);
    dst.push(79);
    dst.push(70);
    dst.push(32);
    dst.push(65);
    dst.push(84);
    dst.push(79);
    dst.push(77);
    dst.push(83);
    dst.push(10);
    proof {
        assert(dst@ =~= old(dst)@ + hdr_natoms());
    }
}

/// The bytes of `"ITEM: BOX BOUNDS pp pp pp\n"`.
pub open spec fn hdr_bounds() -> Seq<u8> {
    seq![73u8, 84u8, 69u8, 77u8, 58u8, 32u8, 66u8, 79u8, 88u8, 32u8, 66u8, 79u8, 85u8, 78u8, 68u8, 83u8, 32u8, 112u8, 112u8, 32u8, 112u8, 112u8, 32u8, 112u8, 112u8, 10u8]
}

/// Appends the bytes of `"ITEM: BOX BOUNDS pp pp pp\n"`.
fn push_hdr_bounds(dst: &mut Vec<u8>)
    ensures
        final(dst)@ == old(dst)@ + hdr_bounds(),
{
    dst.push(73);
    dst.push(84);
    dst.push(69);
    dst.push(77);
    dst.push(58);
    dst.push(32);
    dst.push(66);
    dst.push(79);
    dst.push(88);
    dst.push(32);
    dst.push(66);
    dst.push(79);
    dst.push(85);
    dst.push(78);
    dst.push(68);
    dst.push(83);
    dst.push(32);
    dst.push(112);
    dst.push(112);
    dst.push(32);
    dst.push(112);
    dst.push(112);
    dst.push(32);
    dst.push(112);
    dst.push(112);
    dst.push(10);
    proof {
        assert(dst@ =~= old(dst)@ + hdr_bounds());
    }
}

/// The bytes of `"ITEM: ATOMS id x y z vx vy vz\n"`.
pub open spec fn hdr_atoms() -> Seq<u8> {
    seq![73u8, 84u8, 69u8, 77u8, 58u8, 32u8, 65u8, 84u8, 79u8, 77u8, 83u8, 32u8, 105u8, 100u8, 32u8, 120u8, 32u8, 121u8, 32u8, 122u8, 32u8, 118u8, 120u8, 32u8, 118u8, 121u8, 32u8, 118u8, 122u8, 10u8]
}

/// Appends the bytes of `"ITEM: ATOMS id x y z vx vy vz\n"`.
fn push_hdr_atoms(dst: &mut Vec<u8>)
    ensures
        final(dst)@ == old(dst)@ + hdr_atoms(),
{
    dst.push(73);
    dst.push(84);
    dst.push(69);
    dst.push(77);
    dst.push(58);
    dst.push(32);
    dst.push(65);
    dst.push(84);
    dst.push(79);
    dst.push(77);
    dst.push(83);
    dst.push(32);
    dst.push(105);
    dst.push(100);
    dst.push(32);
    dst.push(120);
    dst.push(32);
    dst.push(121);
    dst.push(32);
    dst.push(122);
    dst.push(32);
    dst.push(118);
    dst.push(120);
    dst.push(32);
    dst.push(118);
    dst.push(121);
    dst.push(32);
    dst.push(118);
    dst.push(122);
    dst.push(10);
    proof {
        assert(dst@ =~= old(dst)@ + hdr_atoms());
    }
}

/// The bytes of `"snapshot\n"`.
pub open spec fn xyz_comment() -> Seq<u8> {
    seq![115u8, 110u8, 97u8, 112u8, 115u8, 104u8, 111u8, 116u8, 10u8]
}

/// Appends the bytes of `"snapshot\n"`.
fn push_xyz_comment(dst: &mut Vec<u8>)
    ensures
        final(dst)@ == old(dst)@ + xyz_comment(),
{
    dst.push(115);
    dst.push(110);
    dst.push(97);
    dst.push(112);
    dst.push(115);
    dst.push(104);
    dst.push(111);
    dst.push(116);
    dst.push(10);
    proof {
        assert(dst@ =~= old(dst)@ + xyz_comment());
    }
}


/// The first `n` particle lines, each ended by a newline.
pub open spec fn atom_lines_spec(atoms: Seq<Particle>, precision: u32, n: int) -> Seq<u8>
    decreases n,
{
    if n <= 0 {
        Seq::empty()
    } else {
        atom_lines_spec(atoms, precision, n - 1) + particle_line_spec(atoms[n - 1], precision)
            + seq![10u8]
    }
}

/// The Xyz rendering: the atom count, a comment line, then one line per
/// particle.
pub open spec fn encode_xyz_spec(atoms: Seq<Particle>, precision: u32) -> Seq<u8> {
    dec_spec(atoms.len() as u64) + seq![10u8] + xyz_comment() + atom_lines_spec(
        atoms,
        precision,
        atoms.len() as int,
    )
}

/// The Text rendering: one line per particle, nothing else; the same
/// reader that reads Xyz reads this back.
pub open spec fn encode_text_spec(atoms: Seq<Particle>, precision: u32) -> Seq<u8> {
    atom_lines_spec(atoms, precision, atoms.len() as int)
}

/// The Dump rendering of one timestep: the timestep header, the atom
/// count, the box bounds section, then one line per particle.
pub open spec fn encode_dump_spec(
    atoms: Seq<Particle>,
    timestep: u64,
    bounds: BoxBounds,
    precision: u32,
) -> Seq<u8> {
    hdr_timestep() + dec_spec(timestep) + seq![10u8] + hdr_natoms() + dec_spec(
        atoms.len() as u64,
    ) + seq![10u8] + hdr_bounds() + crate::fbits::rendered(
        bounds.xlo,
        crate::fbits::render_digits(precision),
    ) + seq![32u8] + crate::fbits::rendered(bounds.xhi, crate::fbits::render_digits(precision))
        + seq![10u8] + crate::fbits::rendered(bounds.ylo, crate::fbits::render_digits(precision))
        + seq![32u8] + crate::fbits::rendered(bounds.yhi, crate::fbits::render_digits(precision))
        + seq![10u8] + crate::fbits::rendered(bounds.zlo, crate::fbits::render_digits(precision))
        + seq![32u8] + crate::fbits::rendered(bounds.zhi, crate::fbits::render_digits(precision))
        + seq![10u8] + hdr_atoms() + atom_lines_spec(atoms, precision, atoms.len() as int)
}

/// Appends the particle lines of the snapshot.
#[verifier::loop_isolation(false)]
fn push_atom_lines(dst: &mut Vec<u8>, atoms: &Vec<Particle>, precision: u32)
    ensures
        final(dst)@ == old(dst)@ + atom_lines_spec(atoms@, precision, atoms@.len() as int),
{
    let mut i: usize = 0;
    while i < atoms.len()
        invariant
            0 <= i <= atoms@.len(),
            dst@ == old(dst)@ + atom_lines_spec(atoms@, precision, i as int),
        decreases atoms@.len() - i,
    {
        let line = particle_line(&atoms[i], precision);
        extend_bytes(dst, &line);
        dst.push(10);
        proof {
            assert(dst@ =~= old(dst)@ + atom_lines_spec(atoms@, precision, i + 1));
        }
        i = i + 1;
    }
}

/// Renders a snapshot in the Xyz grammar.
pub fn encode_xyz(snap: &Snapshot, precision: u32) -> (r: Vec<u8>)
    ensures
        r@ == encode_xyz_spec(snap.atoms@, precision),
{
    proof {
        assert(usize::MAX <= u64::MAX);
    }
    let mut out = u64_to_dec(snap.atoms.len() as u64);
    out.push(10);
    push_xyz_comment(&mut out);
    push_atom_lines(&mut out, &snap.atoms, precision);
    proof {
        assert(out@ =~= encode_xyz_spec(snap.atoms@, precision));
    }
    out
}

/// Renders a snapshot in the Text grammar.
pub fn encode_text(snap: &Snapshot, precision: u32) -> (r: Vec<u8>)
    ensures
        r@ == encode_text_spec(snap.atoms@, precision),
{
    let mut out: Vec<u8> = Vec::new();
    push_atom_lines(&mut out, &snap.atoms, precision);
    proof {
        assert(out@ =~= encode_text_spec(snap.atoms@, precision));
    }
    out
}

/// Renders one timestep of a snapshot in the Dump grammar.
pub fn encode_dump(snap: &Snapshot, timestep: u64, bounds: &BoxBounds, precision: u32) -> (r: Vec<
    u8,
>)
    ensures
        r@ == encode_dump_spec(snap.atoms@, timestep, *bounds, precision),
{
    proof {
        assert(usize::MAX <= u64::MAX);
    }
    let digits: u32 = if precision == 0 {
        1
    } else {
        precision
    };
    let mut out: Vec<u8> = Vec::new();
    push_hdr_timestep(&mut out);
    let ts = u64_to_dec(timestep);
    extend_bytes(&mut out, &ts);
    out.push(10);
    push_hdr_natoms(&mut out);
    let n = u64_to_dec(snap.atoms.len() as u64);
    extend_bytes(&mut out, &n);
    out.push(10);
    push_hdr_bounds(&mut out);
    let lo = crate::fbits::f64_render(bounds.xlo, digits);
    extend_bytes(&mut out, &lo);
    out.push(32);
    let hi = crate::fbits::f64_render(bounds.xhi, digits);
    extend_bytes(&mut out, &hi);
    out.push(10);
    let lo = crate::fbits::f64_render(bounds.ylo, digits);
    extend_bytes(&mut out, &lo);
    out.push(32);
    let hi = crate::fbits::f64_render(bounds.yhi, digits);
    extend_bytes(&mut out, &hi);
    out.push(10);
    let lo = crate::fbits::f64_render(bounds.zlo, digits);
    extend_bytes(&mut out, &lo);
    out.push(32);
    let hi = crate::fbits::f64_render(bounds.zhi, digits);
    extend_bytes(&mut out, &hi);
    out.push(10);
    push_hdr_atoms(&mut out);
    push_atom_lines(&mut out, &snap.atoms, precision);
    proof {
        assert(out@ =~= encode_dump_spec(snap.atoms@, timestep, *bounds, precision));
    }
    out
}

} // verus!
