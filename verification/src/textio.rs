//! The textual grammar shared by the Xyz and Text formats: whitespace
//! tokenization, line splitting, decimal integers, and the seven-token
//! particle line.

use vstd::prelude::*;
use crate::TrajError;
use crate::fbits::{is_space, render_digits, rendered, token_bits, u32_cast, f64_render, f64_parse, f64_to_u32};
use crate::particle::{Particle, Snapshot};
use vstd::slice::{slice_subrange, slice_to_vec};

verus! {

/// An ASCII decimal digit.
pub open spec fn is_digit(b: u8) -> bool {
    48 <= b && b <= 57
}

/// Every byte of the token is a decimal digit.
pub open spec fn all_digits(s: Seq<u8>) -> bool {
    forall|i: int| 0 <= i < s.len() ==> is_digit(#[trigger] s[i])
}

/// The decimal rendering of an unsigned integer, most significant digit
/// first, without leading zeros.
pub open spec fn dec_spec(n: u64) -> Seq<u8>
    decreases n,
{
    if n < 10 {
        seq![(n + 48) as u8]
    } else {
        dec_spec(n / 10).push((n % 10 + 48) as u8)
    }
}

/// The value of a digit string, read most significant digit first.
pub open spec fn dec_val(s: Seq<u8>) -> int
    decreases s.len(),
{
    if s.len() == 0 {
        0int
    } else {
        dec_val(s.drop_last()) * 10 + (s.last() - 48)
    }
}

/// What a decimal `u32` token parses to: its value, provided the token is
/// non-empty, all digits, and in range.
pub open spec fn parse_u32_spec(s: Seq<u8>) -> Option<u32> {
    if s.len() > 0 && all_digits(s) && dec_val(s) <= u32::MAX {
        Some(dec_val(s) as u32)
    } else {
        None
    }
}

/// Like `parse_u32_spec`, for `u64` tokens.
pub open spec fn parse_u64_spec(s: Seq<u8>) -> Option<u64> {
    if s.len() > 0 && all_digits(s) && dec_val(s) <= u64::MAX {
        Some(dec_val(s) as u64)
    } else {
        None
    }
}

/// A digit string's value is never negative.
pub proof fn lemma_dec_val_nonneg(s: Seq<u8>)
    requires
        all_digits(s),
    ensures
        dec_val(s) >= 0,
    decreases s.len(),
{
    if s.len() > 0 {
        assert forall|i: int| 0 <= i < s.drop_last().len() implies is_digit(
            #[trigger] s.drop_last()[i],
        ) by {
            assert(s.drop_last()[i] == s[i]);
        }
        lemma_dec_val_nonneg(s.drop_last());
    }
}

/// The value of the next-longer prefix, from the previous one.
proof fn lemma_dec_val_step(s: Seq<u8>, i: int)
    requires
        0 <= i < s.len(),
    ensures
        dec_val(s.take(i + 1)) == dec_val(s.take(i)) * 10 + (s[i] - 48),
{
    assert(s.take(i + 1).drop_last() =~= s.take(i));
    assert(s.take(i + 1).last() == s[i]);
}

/// Rendering an integer and reading the digits back returns the integer.
pub proof fn lemma_dec_round_trip(n: u64)
    ensures
        dec_spec(n).len() >= 1,
        all_digits(dec_spec(n)),
        dec_val(dec_spec(n)) == n,
    decreases n,
{
    if n < 10 {
        let s = dec_spec(n);
        assert(s =~= seq![(n + 48) as u8]);
        assert(s.drop_last() =~= Seq::<u8>::empty());
        assert(dec_val(s.drop_last()) == 0);
        assert(dec_val(s) == dec_val(s.drop_last()) * 10 + (s.last() - 48));
        assert(dec_val(s) == n);
    } else {
        lemma_dec_round_trip(n / 10);
        let s = dec_spec(n / 10);
        assert(s.push((n % 10 + 48) as u8).drop_last() =~= s);
        assert(dec_val(dec_spec(n)) == dec_val(s) * 10 + n % 10);
        assert((n / 10) * 10 + n % 10 == n) by (nonlinear_arith);
    }
}

/// Renders `n` in decimal, most significant digit first.
pub fn u64_to_dec(n: u64) -> (r: Vec<u8>)
    ensures
        r@ == dec_spec(n),
{
    let mut out: Vec<u8> = Vec::new();
    let mut m: u64 = n;
    while m >= 10
        invariant
            dec_spec(n) =~= dec_spec(m) + out@,
        decreases m,
    {
        let d: u8 = (m % 10) as u8 + 48;
        out.insert(0, d);
        proof {
            assert(dec_spec(m) =~= dec_spec(m / 10).push(d));
            assert(dec_spec(m / 10).push(d) + out@.drop_first() =~= dec_spec(m / 10) + out@);
            assert(m / 10 < m) by (nonlinear_arith)
                requires m >= 10;
        }
        m = m / 10;
    }
    out.insert(0, m as u8 + 48);
    proof {
        assert(dec_spec(m) =~= seq![(m + 48) as u8]);
        assert(dec_spec(m) + out@.drop_first() =~= out@);
        assert(dec_spec(n) =~= out@);
    }
    out
}

/// Reads a decimal `u64` token; `None` when the token is empty, holds a
/// non-digit, or does not fit.
pub fn parse_u64_dec(t: &[u8]) -> (r: Option<u64>)
    ensures
        r == parse_u64_spec(t@),
{
    if t.len() == 0 {
        return None;
    }
    let mut val: u64 = 0;
    let mut big: bool = false;
    let mut i: usize = 0;
    while i < t.len()
        invariant
            0 <= i <= t@.len(),
            all_digits(t@.take(i as int)),
            !big ==> val == dec_val(t@.take(i as int)),
            big ==> dec_val(t@.take(i as int)) > u64::MAX,
        decreases t@.len() - i,
    {
        let b = t[i];
        if b < 48 || b > 57 {
            return None;
        }
        let d: u64 = (b - 48) as u64;
        proof {
            lemma_dec_val_step(t@, i as int);
            if big {
                assert(dec_val(t@.take(i as int)) * 10 + (t@[i as int] - 48) > u64::MAX)
                    by (nonlinear_arith)
                    requires dec_val(t@.take(i as int)) > u64::MAX, t@[i as int] >= 48;
            }
        }
        if !big {
            if val > (u64::MAX - d) / 10 {
                proof {
                    assert(val * 10 + d > u64::MAX) by (nonlinear_arith)
                        requires val > (u64::MAX - d) / 10, d <= 9;
                }
                big = true;
            } else {
                proof {
                    assert(val * 10 + d <= u64::MAX) by (nonlinear_arith)
                        requires val <= (u64::MAX - d) / 10, d <= 9;
                }
                val = val * 10 + d;
            }
        }
        i = i + 1;
    }
    proof {
        assert(t@.take(t@.len() as int) =~= t@);
    }
    if big {
        None
    } else {
        Some(val)
    }
}

/// Reads a decimal `u32` token; `None` when the token is empty, holds a
/// non-digit, or does not fit.
pub fn parse_u32_dec(t: &[u8]) -> (r: Option<u32>)
    ensures
        r == parse_u32_spec(t@),
{
    proof {
        if t@.len() > 0 && all_digits(t@) {
            lemma_dec_val_nonneg(t@);
        }
    }
    match parse_u64_dec(t) {
        Some(v) => {
            if v <= 0xffff_ffff {
                Some(v as u32)
            } else {
                None
            }
        },
        None => None,
    }
}

/// The first index at or after `from` where the token starting at `from`
/// ends: the first whitespace byte, or the end of the text.
pub open spec fn tok_end(s: Seq<u8>, from: int) -> int
    decreases s.len() - from when from <= s.len()
{
    if from >= s.len() || is_space(s[from]) {
        from
    } else {
        tok_end(s, from + 1)
    }
}

proof fn lemma_tok_end_bounds(s: Seq<u8>, from: int)
    requires
        0 <= from <= s.len(),
    ensures
        from <= tok_end(s, from) <= s.len(),
        forall|k: int| from <= k < tok_end(s, from) ==> !is_space(#[trigger] s[k]),
        tok_end(s, from) < s.len() ==> is_space(s[tok_end(s, from)]),
    decreases s.len() - from,
{
    if from < s.len() && !is_space(s[from]) {
        lemma_tok_end_bounds(s, from + 1);
    }
}

proof fn lemma_tok_end_fix(s: Seq<u8>, from: int, j: int)
    requires
        0 <= from <= j <= s.len(),
        forall|k: int| from <= k < j ==> !is_space(#[trigger] s[k]),
        j == s.len() || is_space(s[j]),
    ensures
        tok_end(s, from) == j,
    decreases j - from,
{
    if from < j {
        lemma_tok_end_fix(s, from + 1, j);
    }
}

/// The whitespace-separated tokens of `s`, from position `from` on.
pub open spec fn tokens_from(s: Seq<u8>, from: int) -> Seq<Seq<u8>>
    decreases s.len() - from when 0 <= from <= s.len() via tokens_from_dec
{
    if from >= s.len() {
        Seq::empty()
    } else if is_space(s[from]) {
        tokens_from(s, from + 1)
    } else {
        seq![s.subrange(from, tok_end(s, from))] + tokens_from(s, tok_end(s, from))
    }
}

#[via_fn]
proof fn tokens_from_dec(s: Seq<u8>, from: int) {
    if 0 <= from < s.len() && !is_space(s[from]) {
        lemma_tok_end_bounds(s, from);
        assert(tok_end(s, from) == tok_end(s, from + 1));
    }
}

/// The whitespace-separated tokens of a line.
pub open spec fn tokens_of(s: Seq<u8>) -> Seq<Seq<u8>> {
    tokens_from(s, 0)
}

/// The view of a list of byte tokens.
pub open spec fn views_of(ts: Seq<Vec<u8>>) -> Seq<Seq<u8>> {
    ts.map_values(|t: Vec<u8>| t@)
}

/// Splits a line into its whitespace-separated tokens.
pub fn split_tokens(line: &[u8]) -> (r: Vec<Vec<u8>>)
    ensures
        views_of(r@) == tokens_of(line@),
{
    let mut out: Vec<Vec<u8>> = Vec::new();
    let mut i: usize = 0;
    proof {
        assert(views_of(out@) + tokens_from(line@, 0) =~= tokens_of(line@));
    }
    while i < line.len()
        invariant
            0 <= i <= line@.len(),
            views_of(out@) + tokens_from(line@, i as int) =~= tokens_of(line@),
        decreases line@.len() - i,
    {
        if is_space_byte(line[i]) {
            i = i + 1;
        } else {
            let mut j: usize = i + 1;
            while j < line.len() && !is_space_byte(line[j])
                invariant
                    i < j <= line@.len(),
                    forall|k: int| i <= k < j ==> !is_space(#[trigger] line@[k]),
                decreases line@.len() - j,
            {
                j = j + 1;
            }
            proof {
                lemma_tok_end_fix(line@, i as int, j as int);
            }
            let tok = slice_to_vec(slice_subrange(line, i, j));
            out.push(tok);
            proof {
                assert(views_of(out@) =~= views_of(out@.drop_last()).push(tok@));
                assert(views_of(out@) + tokens_from(line@, j as int) =~= tokens_of(line@));
            }
            i = j;
        }
    }
    proof {
        assert(views_of(out@) =~= tokens_of(line@));
    }
    out
}

/// Whether a byte is whitespace; the executable twin of `is_space`.
pub fn is_space_byte(b: u8) -> (r: bool)
    ensures
        r == is_space(b),
{
    b == 32 || b == 9 || b == 13 || b == 10
}

/// The end of the line starting at `from`: the first newline byte at or
/// after it, or the end of the text.
pub open spec fn line_end(s: Seq<u8>, from: int) -> int
    decreases s.len() - from when from <= s.len()
{
    if from >= s.len() || s[from] == 10 {
        from
    } else {
        line_end(s, from + 1)
    }
}

proof fn lemma_line_end_bounds(s: Seq<u8>, from: int)
    requires
        0 <= from <= s.len(),
    ensures
        from <= line_end(s, from) <= s.len(),
    decreases s.len() - from,
{
    if from < s.len() && s[from] != 10 {
        lemma_line_end_bounds(s, from + 1);
    }
}

proof fn lemma_line_end_fix(s: Seq<u8>, from: int, j: int)
    requires
        0 <= from <= j <= s.len(),
        forall|k: int| from <= k < j ==> #[trigger] s[k] != 10,
        j == s.len() || s[j] == 10,
    ensures
        line_end(s, from) == j,
    decreases j - from,
{
    if from < j {
        lemma_line_end_fix(s, from + 1, j);
    }
}

/// The lines of `s` from position `from` on, split at newline bytes; the
/// final line is the tail after the last newline, possibly empty.
pub open spec fn lines_from(s: Seq<u8>, from: int) -> Seq<Seq<u8>>
    decreases s.len() - from when 0 <= from <= s.len() via lines_from_dec
{
    let e = line_end(s, from);
    if e >= s.len() {
        seq![s.subrange(from, e)]
    } else {
        seq![s.subrange(from, e)] + lines_from(s, e + 1)
    }
}

#[via_fn]
proof fn lines_from_dec(s: Seq<u8>, from: int) {
    if 0 <= from <= s.len() {
        lemma_line_end_bounds(s, from);
    }
}

/// The lines of a text, split at newline bytes.
pub open spec fn lines_of(s: Seq<u8>) -> Seq<Seq<u8>> {
    lines_from(s, 0)
}

/// Splits a text into lines at newline bytes. A trailing newline yields a
/// final empty line.
pub fn split_lines(data: &[u8]) -> (r: Vec<Vec<u8>>)
    ensures
        views_of(r@) == lines_of(data@),
{
    let mut out: Vec<Vec<u8>> = Vec::new();
    let mut i: usize = 0;
    loop
        invariant
            0 <= i <= data@.len(),
            views_of(out@) + lines_from(data@, i as int) =~= lines_of(data@),
        decreases data@.len() - i + 1,
    {
        let mut j: usize = i;
        while j < data.len() && data[j] != 10
            invariant
                i <= j <= data@.len(),
                forall|k: int| i <= k < j ==> #[trigger] data@[k] != 10,
            decreases data@.len() - j,
        {
            j = j + 1;
        }
        proof {
            lemma_line_end_fix(data@, i as int, j as int);
        }
        let line = slice_to_vec(slice_subrange(data, i, j));
        out.push(line);
        proof {
            assert(views_of(out@) =~= views_of(out@.drop_last()).push(line@));
        }
        if j < data.len() {
            proof {
                assert(views_of(out@) + lines_from(data@, j + 1) =~= lines_of(data@));
            }
            i = j + 1;
        } else {
            proof {
                assert(views_of(out@) =~= lines_of(data@));
            }
            return out;
        }
    }
}

proof fn lemma_tok_end_shift(s: Seq<u8>, i: int, j: int)
    requires
        0 <= i <= s.len(),
        0 <= j <= s.len() - i,
    ensures
        tok_end(s.skip(i), j) == tok_end(s, i + j) - i,
    decreases s.len() - i - j,
{
    if i + j < s.len() && !is_space(s[i + j]) {
        lemma_tok_end_shift(s, i, j + 1);
    }
}

/// The tokens from position `i` are the tokens of the suffix at `i`.
proof fn lemma_tokens_shift(s: Seq<u8>, i: int)
    requires
        0 <= i <= s.len(),
    ensures
        tokens_from(s, i) == tokens_of(s.skip(i)),
    decreases s.len() - i,
{
    let t = s.skip(i);
    if i >= s.len() {
        assert(tokens_from(t, 0) =~= Seq::<Seq<u8>>::empty());
    } else if is_space(s[i]) {
        lemma_tokens_shift(s, i + 1);
        lemma_tokens_shift(t, 1);
        assert(t.skip(1) =~= s.skip(i + 1));
    } else {
        let e = tok_end(s, i);
        lemma_tok_end_bounds(s, i);
        lemma_tok_end_shift(s, i, 0);
        assert(tok_end(t, 0) == e - i);
        assert(t.subrange(0, e - i) =~= s.subrange(i, e));
        lemma_tokens_shift(s, e);
        lemma_tokens_shift(t, e - i);
        assert(t.skip(e - i) =~= s.skip(e));
    }
}

/// Appending one space byte never changes the tokens.
proof fn lemma_tokens_space_at(a: Seq<u8>, i: int)
    requires
        0 <= i <= a.len(),
    ensures
        tokens_from(a + seq![32u8], i) == tokens_from(a, i),
    decreases a.len() - i,
{
    let b = a + seq![32u8];
    if i >= a.len() {
        assert(is_space(b[i]));
        assert(tokens_from(b, i + 1) =~= Seq::<Seq<u8>>::empty());
        assert(tokens_from(a, i) =~= Seq::<Seq<u8>>::empty());
    } else if is_space(a[i]) {
        assert(b[i] == a[i]);
        lemma_tokens_space_at(a, i + 1);
    } else {
        assert(b[i] == a[i]);
        lemma_tok_end_bounds(a, i);
        let e = tok_end(a, i);
        lemma_tok_end_fix(b, i, e);
        assert(b.subrange(i, e) =~= a.subrange(i, e));
        lemma_tokens_space_at(a, e);
    }
}

/// Splitting a text that ends in a space, followed by anything, yields the
/// first part's tokens and then the second part's: no token spans the seam.
proof fn lemma_tokens_concat_at(a: Seq<u8>, b: Seq<u8>, i: int)
    requires
        0 <= i <= a.len(),
        a.len() > 0,
        is_space(a[a.len() - 1]),
    ensures
        tokens_from(a + b, i) == tokens_from(a, i) + tokens_of(b),
    decreases a.len() - i,
{
    let c = a + b;
    if i >= a.len() {
        lemma_tokens_shift(c, i);
        assert(c.skip(i) =~= b);
        assert(tokens_from(a, i) + tokens_of(b) =~= tokens_of(b));
    } else if is_space(a[i]) {
        lemma_tokens_concat_at(a, b, i + 1);
    } else {
        lemma_tok_end_bounds(a, i);
        let e = tok_end(a, i);
        assert(e <= a.len() - 1);
        lemma_tok_end_fix(c, i, e);
        assert(c.subrange(i, e) =~= a.subrange(i, e));
        lemma_tokens_concat_at(a, b, e);
        assert(tokens_from(c, i) =~= seq![a.subrange(i, e)] + (tokens_from(a, e) + tokens_of(b)));
        assert(tokens_from(a, i) + tokens_of(b) =~= seq![a.subrange(i, e)] + (tokens_from(a, e)
            + tokens_of(b)));
    }
}

/// A lone token, with no whitespace in it, splits to itself.
proof fn lemma_tokens_single(t: Seq<u8>)
    requires
        t.len() > 0,
        forall|i: int| 0 <= i < t.len() ==> !is_space(#[trigger] t[i]),
    ensures
        tokens_of(t) == seq![t],
{
    lemma_tok_end_fix(t, 0, t.len() as int);
    assert(t.subrange(0, t.len() as int) =~= t);
    assert(tokens_from(t, t.len() as int) =~= Seq::<Seq<u8>>::empty());
    assert(tokens_of(t) =~= seq![t.subrange(0, t.len() as int)] + tokens_from(t, t.len() as int));
    assert(tokens_of(t) =~= seq![t]);
}

/// Appending a space and a whitespace-free token appends one token.
proof fn lemma_tokens_extend(line: Seq<u8>, t: Seq<u8>)
    requires
        t.len() > 0,
        forall|i: int| 0 <= i < t.len() ==> !is_space(#[trigger] t[i]),
    ensures
        tokens_of(line + seq![32u8] + t) == tokens_of(line).push(t),
{
    let a = line + seq![32u8];
    lemma_tokens_concat_at(a, t, 0);
    assert(line + seq![32u8] + t =~= a + t);
    lemma_tokens_space_at(line, 0);
    lemma_tokens_single(t);
    assert(tokens_of(a) + tokens_of(t) =~= tokens_of(line).push(t));
}

/// A usable token: non-empty and free of whitespace.
pub open spec fn wsfree(t: Seq<u8>) -> bool {
    t.len() > 0 && (forall|i: int| 0 <= i < t.len() ==> !is_space(#[trigger] t[i]))
}

/// What the id token stands for: a plain decimal reading where the token
/// is one, otherwise the token read as a floating-point value and cast
/// with saturation, as established readers of this format do.
pub open spec fn id_token_value(t: Seq<u8>) -> Option<u32> {
    if parse_u32_spec(t) is Some {
        parse_u32_spec(t)
    } else {
        match token_bits(t) {
            Some(b) => Some(u32_cast(b)),
            None => None,
        }
    }
}

/// What a seven-token particle line parses to: the id from the first
/// token, then position and velocity from one floating-point token each.
pub open spec fn particle_from_tokens_spec(ts: Seq<Seq<u8>>) -> Result<Particle, TrajError> {
    if ts.len() != 7 {
        Err(TrajError::Parse)
    } else if id_token_value(ts[0]) is None || token_bits(ts[1]) is None || token_bits(ts[2])
        is None || token_bits(ts[3]) is None || token_bits(ts[4]) is None || token_bits(ts[5])
        is None || token_bits(ts[6]) is None {
        Err(TrajError::Parse)
    } else {
        Ok(
            Particle {
                id: id_token_value(ts[0])->Some_0,
                x: token_bits(ts[1])->Some_0,
                y: token_bits(ts[2])->Some_0,
                z: token_bits(ts[3])->Some_0,
                vx: token_bits(ts[4])->Some_0,
                vy: token_bits(ts[5])->Some_0,
                vz: token_bits(ts[6])->Some_0,
            },
        )
    }
}

/// What a particle parses back to after being formatted: the id survives
/// exactly; each floating-point component becomes its rendering re-read.
pub open spec fn reparse_spec(p: Particle, precision: u32) -> Particle {
    Particle {
        id: p.id,
        x: token_bits(rendered(p.x, render_digits(precision)))->Some_0,
        y: token_bits(rendered(p.y, render_digits(precision)))->Some_0,
        z: token_bits(rendered(p.z, render_digits(precision)))->Some_0,
        vx: token_bits(rendered(p.vx, render_digits(precision)))->Some_0,
        vy: token_bits(rendered(p.vy, render_digits(precision)))->Some_0,
        vz: token_bits(rendered(p.vz, render_digits(precision)))->Some_0,
    }
}

impl Particle {
    /// Reads one particle from seven whitespace-separated tokens. The id
    /// token is read as a decimal integer where it is one, and otherwise
    /// as a floating-point value cast with saturation, as established
    /// readers of this format do. Each of the six velocity and position
    /// components comes from its own token; some trajectory tools have
    /// read the two trailing velocity fields from one and the same token,
    /// and a writer and reader must agree on the one-token-per-field
    /// convention used here.
    pub fn from_tokens(toks: &Vec<Vec<u8>>) -> (r: Result<Particle, TrajError>)
        ensures
            r == particle_from_tokens_spec(views_of(toks@)),
    {
        if toks.len() != 7 {
            return Err(TrajError::Parse);
        }
        let id = match parse_u32_dec(toks[0].as_slice()) {
            Some(v) => v,
            None => match f64_parse(toks[0].as_slice()) {
                Some(b) => f64_to_u32(b),
                None => { return Err(TrajError::Parse); },
            },
        };
        let x = match f64_parse(toks[1].as_slice()) {
            Some(v) => v,
            None => { return Err(TrajError::Parse); },
        };
        let y = match f64_parse(toks[2].as_slice()) {
            Some(v) => v,
            None => { return Err(TrajError::Parse); },
        };
        let z = match f64_parse(toks[3].as_slice()) {
            Some(v) => v,
            None => { return Err(TrajError::Parse); },
        };
        let vx = match f64_parse(toks[4].as_slice()) {
            Some(v) => v,
            None => { return Err(TrajError::Parse); },
        };
        let vy = match f64_parse(toks[5].as_slice()) {
            Some(v) => v,
            None => { return Err(TrajError::Parse); },
        };
        let vz = match f64_parse(toks[6].as_slice()) {
            Some(v) => v,
            None => { return Err(TrajError::Parse); },
        };
        Ok(Particle { id, x, y, z, vx, vy, vz })
    }

    /// Reads one particle from a textual line.
    pub fn from_str(line: &[u8]) -> (r: Result<Particle, TrajError>)
        ensures
            r == particle_from_line_spec(line@),
    {
        let toks = split_tokens(line);
        Self::from_tokens(&toks)
    }
}

/// What a particle line parses to: its tokens, read as seven fields.
pub open spec fn particle_from_line_spec(line: Seq<u8>) -> Result<Particle, TrajError> {
    particle_from_tokens_spec(tokens_of(line))
}

/// The seven tokens a particle is written as: the id in decimal, then the
/// six components rendered at the bound precision.
pub open spec fn particle_tokens_spec(p: Particle, precision: u32) -> Seq<Seq<u8>> {
    seq![
        dec_spec(p.id as u64),
        rendered(p.x, render_digits(precision)),
        rendered(p.y, render_digits(precision)),
        rendered(p.z, render_digits(precision)),
        rendered(p.vx, render_digits(precision)),
        rendered(p.vy, render_digits(precision)),
        rendered(p.vz, render_digits(precision)),
    ]
}

/// The particle line: the seven tokens joined by single spaces.
pub open spec fn particle_line_spec(p: Particle, precision: u32) -> Seq<u8> {
    dec_spec(p.id as u64) + seq![32u8] + rendered(p.x, render_digits(precision)) + seq![32u8]
        + rendered(p.y, render_digits(precision)) + seq![32u8] + rendered(
        p.z,
        render_digits(precision),
    ) + seq![32u8] + rendered(p.vx, render_digits(precision)) + seq![32u8] + rendered(
        p.vy,
        render_digits(precision),
    ) + seq![32u8] + rendered(p.vz, render_digits(precision))
}

/// Digits are never whitespace.
proof fn lemma_digits_wsfree(t: Seq<u8>)
    requires
        t.len() > 0,
        all_digits(t),
    ensures
        wsfree(t),
{
    assert forall|i: int| 0 <= i < t.len() implies !is_space(#[trigger] t[i]) by {
        assert(is_digit(t[i]));
    }
}

/// Appends the bytes of `src` to `dst`.
pub(crate) fn extend_bytes(dst: &mut Vec<u8>, src: &Vec<u8>)
    ensures
        final(dst)@ == old(dst)@ + src@,
{
    let mut k: usize = 0;
    while k < src.len()
        invariant
            0 <= k <= src@.len(),
            dst@ =~= old(dst)@ + src@.take(k as int),
        decreases src@.len() - k,
    {
        dst.push(src[k]);
        proof {
            assert(old(dst)@ + src@.take(k as int) + seq![src@[k as int]] =~= old(dst)@
                + src@.take(k + 1));
        }
        k = k + 1;
    }
    proof {
        assert(src@.take(src@.len() as int) =~= src@);
    }
}

/// Appends a separating space and one token, extending the token list of
/// the line by that token.
fn append_sep_token(line: &mut Vec<u8>, tok: &Vec<u8>)
    requires
        wsfree(tok@),
    ensures
        final(line)@ == old(line)@ + seq![32u8] + tok@,
        tokens_of(final(line)@) == tokens_of(old(line)@).push(tok@),
{
    line.push(32);
    extend_bytes(line, tok);
    proof {
        assert(line@ =~= old(line)@ + seq![32u8] + tok@);
        lemma_tokens_extend(old(line)@, tok@);
    }
}

/// Writes a particle as its seven tokens. Formatting then reading the
/// tokens back yields a particle again, with the same id.
pub fn particle_tokens(p: &Particle, precision: u32) -> (toks: Vec<Vec<u8>>)
    ensures
        views_of(toks@) == particle_tokens_spec(*p, precision),
        forall|k: int|
            0 <= k < 7 ==> wsfree(#[trigger] particle_tokens_spec(*p, precision)[k]),
        particle_from_tokens_spec(particle_tokens_spec(*p, precision)) == Ok::<
            Particle,
            TrajError,
        >(reparse_spec(*p, precision)),
{
    let digits: u32 = if precision == 0 {
        1
    } else {
        precision
    };
    let mut toks: Vec<Vec<u8>> = Vec::new();
    toks.push(u64_to_dec(p.id as u64));
    toks.push(f64_render(p.x, digits));
    toks.push(f64_render(p.y, digits));
    toks.push(f64_render(p.z, digits));
    toks.push(f64_render(p.vx, digits));
    toks.push(f64_render(p.vy, digits));
    toks.push(f64_render(p.vz, digits));
    proof {
        let ts = particle_tokens_spec(*p, precision);
        lemma_dec_round_trip(p.id as u64);
        lemma_digits_wsfree(dec_spec(p.id as u64));
        assert(views_of(toks@) =~= ts);
        assert(parse_u32_spec(ts[0]) == Some(p.id));
        assert(id_token_value(ts[0]) == Some(p.id));
        assert(particle_from_tokens_spec(ts) == Ok::<Particle, TrajError>(
            reparse_spec(*p, precision),
        ));
    }
    toks
}

/// Writes a particle as one line of seven space-separated tokens. Parsing
/// the line back yields exactly the reparsed particle: the id survives, and
/// each component is its rendering re-read.
pub fn particle_line(p: &Particle, precision: u32) -> (line: Vec<u8>)
    ensures
        line@ == particle_line_spec(*p, precision),
        tokens_of(line@) == particle_tokens_spec(*p, precision),
        particle_from_line_spec(line@) == Ok::<Particle, TrajError>(
            reparse_spec(*p, precision),
        ),
{
    let toks = particle_tokens(p, precision);
    let mut line: Vec<u8> = Vec::new();
    extend_bytes(&mut line, &toks[0]);
    proof {
        let ts = particle_tokens_spec(*p, precision);
        assert(line@ =~= ts[0]);
        lemma_tokens_single(ts[0]);
    }
    append_sep_token(&mut line, &toks[1]);
    append_sep_token(&mut line, &toks[2]);
    append_sep_token(&mut line, &toks[3]);
    append_sep_token(&mut line, &toks[4]);
    append_sep_token(&mut line, &toks[5]);
    append_sep_token(&mut line, &toks[6]);
    proof {
        let ts = particle_tokens_spec(*p, precision);
        assert(tokens_of(line@) =~= ts);
        assert(line@ =~= particle_line_spec(*p, precision));
    }
    line
}

/// Reads atom lines from `from` on: blank lines are skipped, every other
/// line must hold one particle.
pub open spec fn parse_atoms(ls: Seq<Seq<u8>>, from: int) -> Result<Seq<Particle>, TrajError>
    decreases ls.len() - from,
{
    if from >= ls.len() {
        Ok(Seq::empty())
    } else if tokens_of(ls[from]).len() == 0 {
        parse_atoms(ls, from + 1)
    } else {
        match particle_from_tokens_spec(tokens_of(ls[from])) {
            Err(e) => Err(e),
            Ok(p) => match parse_atoms(ls, from + 1) {
                Err(e) => Err(e),
                Ok(rest) => Ok(seq![p] + rest),
            },
        }
    }
}

/// Whether the first line announces the Xyz grammar: a single decimal
/// token, the declared atom count.
pub open spec fn xyz_header(first: Seq<u8>) -> bool {
    &&& tokens_of(first).len() == 1
    &&& tokens_of(first)[0].len() > 0
    &&& all_digits(tokens_of(first)[0])
}

/// What a textual snapshot parses to. A leading count line selects the Xyz
/// grammar: the second line is a comment, the atom lines follow, and the
/// declared count must match their number. Without a count line every
/// non-blank line is an atom line.
pub open spec fn snapshot_spec(data: Seq<u8>) -> Result<Seq<Particle>, TrajError> {
    let ls = lines_of(data);
    if xyz_header(ls[0]) {
        match parse_atoms(ls, 2) {
            Err(e) => Err(e),
            Ok(atoms) => if dec_val(tokens_of(ls[0])[0]) == atoms.len() {
                Ok(atoms)
            } else {
                Err(TrajError::Parse)
            },
        }
    } else {
        parse_atoms(ls, 0)
    }
}

/// Whether the token is a non-empty run of decimal digits.
fn all_digits_tok(t: &Vec<u8>) -> (r: bool)
    ensures
        r == (t@.len() > 0 && all_digits(t@)),
{
    if t.len() == 0 {
        return false;
    }
    let mut k: usize = 0;
    while k < t.len()
        invariant
            0 <= k <= t@.len(),
            forall|i: int| 0 <= i < k ==> is_digit(#[trigger] t@[i]),
        decreases t@.len() - k,
    {
        let b = t[k];
        if b < 48 || b > 57 {
            return false;
        }
        k = k + 1;
    }
    true
}

/// Reads a textual snapshot in the Text or Xyz grammar.
#[verifier::loop_isolation(false)]
pub fn read_snapshot(data: &[u8]) -> (r: Result<Snapshot, TrajError>)
    ensures
        r matches Ok(s) ==> snapshot_spec(data@) == Ok::<Seq<Particle>, TrajError>(s.atoms@),
        r matches Err(e) ==> snapshot_spec(data@) == Err::<Seq<Particle>, TrajError>(e),
{
    let ls = split_lines(data);
    proof {
        assert(lines_of(data@).len() >= 1);
        assert(ls@.len() >= 1);
    }
    let first_toks = split_tokens(ls[0].as_slice());
    let ghost lsv = views_of(ls@);
    let xyz = first_toks.len() == 1 && all_digits_tok(&first_toks[0]);
    proof {
        assert(lsv[0] == ls@[0]@);
        assert(views_of(first_toks@) == tokens_of(lsv[0]));
        if first_toks@.len() >= 1 {
            assert(views_of(first_toks@)[0] == first_toks@[0]@);
        }
        assert(xyz == xyz_header(lsv[0]));
    }
    let start: usize = if xyz { 2 } else { 0 };
    let mut atoms: Vec<Particle> = Vec::new();
    let mut i: usize = start;
    while i < ls.len()
        invariant
            start <= i,
            i <= ls@.len() || i == start,
            lsv == views_of(ls@),
            ({
                let whole = parse_atoms(lsv, start as int);
                let tail = parse_atoms(lsv, i as int);
                if tail is Ok {
                    whole == Ok::<Seq<Particle>, TrajError>(atoms@ + tail->Ok_0)
                } else {
                    whole == tail
                }
            }),
        decreases ls@.len() - i,
    {
        let toks = split_tokens(ls[i].as_slice());
        proof {
            assert(lsv[i as int] == ls@[i as int]@);
            assert(views_of(toks@) == tokens_of(lsv[i as int]));
        }
        if toks.len() == 0 {
            proof {
                assert(tokens_of(lsv[i as int]).len() == 0);
                assert(parse_atoms(lsv, i as int) == parse_atoms(lsv, i + 1));
            }
            i = i + 1;
        } else {
            match Particle::from_tokens(&toks) {
                Ok(p) => {
                    proof {
                        assert(particle_from_tokens_spec(tokens_of(lsv[i as int]))
                            == Ok::<Particle, TrajError>(p));
                        let tail = parse_atoms(lsv, i + 1);
                        if tail is Ok {
                            assert(parse_atoms(lsv, i as int) == Ok::<Seq<Particle>, TrajError>(
                                seq![p] + tail->Ok_0,
                            ));
                            assert(atoms@ + (seq![p] + tail->Ok_0) =~= atoms@.push(p)
                                + tail->Ok_0);
                        } else {
                            assert(parse_atoms(lsv, i as int) == tail);
                        }
                    }
                    atoms.push(p);
                    i = i + 1;
                },
                Err(e) => {
                    proof {
                        assert(particle_from_tokens_spec(tokens_of(lsv[i as int]))
                            == Err::<Particle, TrajError>(e));
                        assert(parse_atoms(lsv, i as int) == Err::<Seq<Particle>, TrajError>(e));
                        assert(parse_atoms(lsv, start as int) == Err::<Seq<Particle>, TrajError>(
                            e,
                        ));
                        assert(snapshot_spec(data@) == Err::<Seq<Particle>, TrajError>(e));
                    }
                    return Err(e);
                },
            }
        }
    }
    proof {
        assert(parse_atoms(lsv, i as int) == Ok::<Seq<Particle>, TrajError>(Seq::empty()));
        assert(atoms@ + Seq::<Particle>::empty() =~= atoms@);
        assert(parse_atoms(lsv, start as int) == Ok::<Seq<Particle>, TrajError>(atoms@));
    }
    if xyz {
        proof {
            assert(tokens_of(lsv[0])[0] == first_toks@[0]@);
            lemma_dec_val_nonneg(first_toks[0]@);
        }
        match parse_u64_dec(first_toks[0].as_slice()) {
            Some(c) => {
                proof {
                    assert(c == dec_val(tokens_of(lsv[0])[0]));
                }
                if c == atoms.len() as u64 {
                    proof {
                        assert(snapshot_spec(data@) == Ok::<Seq<Particle>, TrajError>(atoms@));
                    }
                    Ok(Snapshot { atoms })
                } else {
                    proof {
                        assert(dec_val(tokens_of(lsv[0])[0]) != atoms@.len());
                        assert(snapshot_spec(data@) == Err::<Seq<Particle>, TrajError>(
                            TrajError::Parse,
                        ));
                    }
                    Err(TrajError::Parse)
                }
            },
            None => {
                let n = atoms.len();
                proof {
                    assert(n == atoms@.len());
                    assert(usize::MAX <= u64::MAX);
                    assert(dec_val(tokens_of(lsv[0])[0]) > u64::MAX);
                    assert(snapshot_spec(data@) == Err::<Seq<Particle>, TrajError>(
                        TrajError::Parse,
                    ));
                }
                Err(TrajError::Parse)
            },
        }
    } else {
        Ok(Snapshot { atoms })
    }
}

} // verus!
