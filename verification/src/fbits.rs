//! The bit-level model of IEEE-754 binary64 values.
//!
//! A floating-point value is carried as its bit pattern in a `u64`. Ordering,
//! absolute value and the finite/NaN classification are pure bit logic and
//! are verified here. Subtraction, parsing a decimal token and rendering a
//! value back to a token need real floating-point arithmetic; those three go
//! through trusted wrappers around `rustc_apfloat`, a software IEEE-754
//! implementation that works directly on bit patterns.

use vstd::prelude::*;
use rustc_apfloat::Float;

verus! {

/// The magnitude bits: the value with its sign bit cleared.
pub open spec fn mag_bits(a: u64) -> u64 {
    a & 0x7fff_ffff_ffff_ffff
}

/// Whether the sign bit is set.
pub open spec fn sign_bit(a: u64) -> bool {
    a >= 0x8000_0000_0000_0000
}

/// NaN: the exponent is all ones and the significand is non-zero.
pub open spec fn is_nan_bits(a: u64) -> bool {
    mag_bits(a) > 0x7ff0_0000_0000_0000
}

/// Finite: the exponent is not all ones (neither an infinity nor a NaN).
pub open spec fn is_finite_bits(a: u64) -> bool {
    mag_bits(a) < 0x7ff0_0000_0000_0000
}

/// The signed magnitude a bit pattern stands for, as an ordering key:
/// `-0.0` and `+0.0` both map to zero, so they compare equal.
pub open spec fn order_key(a: u64) -> int {
    if sign_bit(a) {
        -(mag_bits(a) as int)
    } else {
        mag_bits(a) as int
    }
}

/// The IEEE-754 `<` on two bit patterns: false whenever either is a NaN,
/// otherwise the sign-magnitude order.
pub open spec fn lt_bits(a: u64, b: u64) -> bool {
    &&& !is_nan_bits(a)
    &&& !is_nan_bits(b)
    &&& order_key(a) < order_key(b)
}

pub proof fn lemma_mag_masks(a: u64)
    ensures
        mag_bits(a) <= 0x7fff_ffff_ffff_ffff,
        mag_bits(mag_bits(a)) == mag_bits(a),
        !sign_bit(mag_bits(a)),
{
    assert(a & 0x7fff_ffff_ffff_ffff <= 0x7fff_ffff_ffff_ffff && (a & 0x7fff_ffff_ffff_ffff)
        & 0x7fff_ffff_ffff_ffff == a & 0x7fff_ffff_ffff_ffff) by (bit_vector);
}

/// IEEE-754 absolute value: clearing the sign bit.
pub(crate) fn f64_abs(a: u64) -> (r: u64)
    ensures
        r == mag_bits(a),
        !sign_bit(r),
        mag_bits(r) == mag_bits(a),
{
    proof {
        lemma_mag_masks(a);
    }
    a & 0x7fff_ffff_ffff_ffff
}

/// IEEE-754 strict `<` on two bit patterns.
pub(crate) fn f64_lt(a: u64, b: u64) -> (r: bool)
    ensures
        r == lt_bits(a, b),
{
    let ma: u64 = a & 0x7fff_ffff_ffff_ffff;
    let mb: u64 = b & 0x7fff_ffff_ffff_ffff;
    proof {
        lemma_mag_masks(a);
        lemma_mag_masks(b);
    }
    if ma > 0x7ff0_0000_0000_0000 || mb > 0x7ff0_0000_0000_0000 {
        false
    } else {
        let sa = a >= 0x8000_0000_0000_0000;
        let sb = b >= 0x8000_0000_0000_0000;
        if sa && sb {
            mb < ma
        } else if sa {
            ma > 0 || mb > 0
        } else if sb {
            false
        } else {
            ma < mb
        }
    }
}

/// What `rustc_apfloat` subtraction returns on two bit patterns, under the
/// default round-to-nearest-ties-to-even mode.
pub uninterp spec fn sub_bits(a: u64, b: u64) -> u64;

/// Relies on `rustc_apfloat::ieee::Double`'s `Sub` (round to nearest, ties to
/// even). The result depends on the two bit patterns alone. The three
/// conditional clauses are the textbook identities: `x - x == +0.0` for
/// finite `x`; `x - (+0.0) == x` for any `x` that is neither negative nor a
/// NaN; and the difference of two finite values is never a NaN.
#[verifier::external_body]
pub(crate) fn f64_sub(a: u64, b: u64) -> (r: u64)
    ensures
        r == sub_bits(a, b),
        a == b && is_finite_bits(a) ==> r == 0u64,
        b == 0u64 && !sign_bit(a) && !is_nan_bits(a) ==> r == a,
        is_finite_bits(a) && is_finite_bits(b) ==> !is_nan_bits(r),
{
    let x = rustc_apfloat::ieee::Double::from_bits(a as u128);
    let y = rustc_apfloat::ieee::Double::from_bits(b as u128);
    (x - y).value.to_bits() as u64
}

/// What `rustc_apfloat` makes of a decimal token: the correctly rounded bit
/// pattern, or nothing when the token is not a floating-point literal.
pub uninterp spec fn token_bits(t: Seq<u8>) -> Option<u64>;

/// Relies on `rustc_apfloat::ieee::Double::from_str`: correctly rounded
/// decimal (or hexadecimal) parsing, `Err` on malformed input, no panic.
/// The result depends on the token bytes alone.
#[verifier::external_body]
pub(crate) fn f64_parse(t: &[u8]) -> (r: Option<u64>)
    ensures
        r == token_bits(t@),
{
    match core::str::from_utf8(t) {
        Ok(s) => match <rustc_apfloat::ieee::Double as core::str::FromStr>::from_str(s) {
            Ok(d) => Some(d.to_bits() as u64),
            Err(_) => None,
        },
        Err(_) => None,
    }
}

/// What `rustc_apfloat`'s decimal printer renders for a bit pattern at a
/// digit budget.
pub uninterp spec fn rendered(bits: u64, precision: u32) -> Seq<u8>;

/// The digit budget handed to the decimal printer: at least one
/// significant digit, since the printer has no rendering at zero digits.
pub open spec fn render_digits(precision: u32) -> u32 {
    if precision == 0 {
        1u32
    } else {
        precision
    }
}

/// Relies on `rustc_apfloat::ieee::Double`'s `Display`: a decimal rendering
/// at the requested number of significant digits. The printer aborts on a
/// zero digit budget, which the precondition rules out; callers clamp with
/// `render_digits`. The output depends on the bit pattern and the digit
/// budget alone; it is never empty and never holds whitespace; and it is
/// always accepted back by `Double::from_str` (plain decimal, scientific
/// notation, `NaN` and signed `Inf` all parse).
#[verifier::external_body]
pub(crate) fn f64_render(bits: u64, precision: u32) -> (r: Vec<u8>)
    requires
        precision >= 1,
    ensures
        r@ == rendered(bits, precision),
        r@.len() > 0,
        forall|i: int| 0 <= i < r@.len() ==> !is_space(#[trigger] r@[i]),
        token_bits(r@) is Some,
{
    let d = rustc_apfloat::ieee::Double::from_bits(bits as u128);
    format!("{:.*}", precision as usize, d).into_bytes()
}

/// What `rustc_apfloat`'s conversion to a 32-bit unsigned integer returns
/// for a bit pattern: Rust's saturating `as` cast.
pub uninterp spec fn u32_cast(b: u64) -> u32;

/// Relies on `rustc_apfloat::ieee::Double::to_u128_r` with a 32-bit width,
/// rounding toward zero: a NaN or negative value gives zero, a value past
/// the integer range gives the largest id, anything else its truncated
/// integer part — exactly Rust's saturating `as` cast on the same value.
#[verifier::external_body]
pub(crate) fn f64_to_u32(b: u64) -> (r: u32)
    ensures
        r == u32_cast(b),
{
    let d = rustc_apfloat::ieee::Double::from_bits(b as u128);
    d.to_u128_r(32, rustc_apfloat::Round::TowardZero, &mut false).value as u32
}

/// The bytes this library treats as whitespace when splitting tokens.
pub open spec fn is_space(b: u8) -> bool {
    b == 32 || b == 9 || b == 13 || b == 10
}

} // verus!
