//! Completing a partial box configuration for the spatial analysis
//! collaborator.

use vstd::prelude::*;

verus! {

/// A triple padded with zeros: any axis the caller left out is zero.
pub open spec fn pad3(s: Seq<u64>) -> (u64, u64, u64) {
    (
        if s.len() > 0 {
            s[0]
        } else {
            0u64
        },
        if s.len() > 1 {
            s[1]
        } else {
            0u64
        },
        if s.len() > 2 {
            s[2]
        } else {
            0u64
        },
    )
}

/// The box configuration one analysis call owns: the user-supplied
/// partial origin (as IEEE-754 bit patterns) and size, and their
/// normalized three-axis forms.
pub struct BoxConfig {
    pub input_box_start: Vec<u64>,
    pub input_box_size: Vec<u64>,
    pub box_start: (u64, u64, u64),
    pub box_size_: (u64, u64, u64),
}

/// Completes partial origin and size vectors to three axes, defaulting
/// every missing trailing axis to zero. No positivity is checked: a
/// degenerate zero-size box passes through unchanged.
pub fn normalize(starts: &Vec<u64>, sizes: &Vec<u64>) -> (r: ((u64, u64, u64), (u64, u64, u64)))
    requires
        starts@.len() <= 3,
        sizes@.len() <= 3,
    ensures
        r.0 == pad3(starts@),
        r.1 == pad3(sizes@),
{
    let s0 = if starts.len() > 0 { starts[0] } else { 0 };
    let s1 = if starts.len() > 1 { starts[1] } else { 0 };
    let s2 = if starts.len() > 2 { starts[2] } else { 0 };
    let z0 = if sizes.len() > 0 { sizes[0] } else { 0 };
    let z1 = if sizes.len() > 1 { sizes[1] } else { 0 };
    let z2 = if sizes.len() > 2 { sizes[2] } else { 0 };
    ((s0, s1, s2), (z0, z1, z2))
}

impl BoxConfig {
    /// Fills the normalized origin and size from the partial inputs.
    pub fn normalize(&mut self)
        requires
            old(self).input_box_start@.len() <= 3,
            old(self).input_box_size@.len() <= 3,
        ensures
            final(self).input_box_start == old(self).input_box_start,
            final(self).input_box_size == old(self).input_box_size,
            final(self).box_start == pad3(old(self).input_box_start@),
            final(self).box_size_ == pad3(old(self).input_box_size@),
    {
        let (bs, bz) = normalize(&self.input_box_start, &self.input_box_size);
        self.box_start = bs;
        self.box_size_ = bz;
    }
}

} // verus!
