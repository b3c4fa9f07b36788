//! Post-processing for particle simulation trajectories: decoding per-rank
//! binary snapshot shards, merging them in rank order, re-encoding them in
//! textual interchange formats, and comparing two trajectories for numerical
//! near-equality under optional periodic wrap-around.
//!
//! Every floating-point quantity is carried as its IEEE-754 binary64 bit
//! pattern in a `u64`; the `fbits` module holds the bit-level model and the
//! few trusted arithmetic primitives.

pub mod fbits;
pub mod particle;
pub mod textio;
pub mod decode;
pub mod merge;
pub mod encode;
pub mod diff;
pub mod pipeline;
pub mod boxcfg;

use vstd::prelude::*;

verus! {

/// The error taxonomy of the library. I/O failures are reported by the
/// callers that touch files; nothing in this crate does.
#[derive(Clone, Copy, Debug, PartialEq, Eq, Structural)]
pub enum TrajError {
    /// Bad `ranks` or an unsupported output format, found before any work.
    Validation,
    /// Binary layout mismatch or truncation.
    Format,
    /// The two snapshots under comparison hold different atom counts.
    SizeMismatch,
    /// Fewer shards than the declared rank count for a timestep.
    RankCount,
    /// The Dump encoding needs box bounds and none were supplied.
    MissingBoxBounds,
    /// A textual line does not hold seven tokens, or a token is not a number.
    Parse,
}

} // verus!
