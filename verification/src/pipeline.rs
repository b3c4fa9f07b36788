//! The conversion pipeline: validation, the output naming policy, and the
//! decode, merge, encode chain for a batch of inputs.

use vstd::prelude::*;
use crate::TrajError;
use crate::decode::BinaryStandard;
use crate::encode::{
    encode_dump, encode_dump_spec, encode_text, encode_text_spec, encode_xyz, encode_xyz_spec,
    BoxBounds,
};
use crate::merge::{all_decode_ok, concat_decoded, merge, shard_views};
use crate::particle::Particle;
use crate::textio::extend_bytes;

verus! {

/// The selectable output formats.
#[derive(Clone, Copy, Debug, PartialEq, Eq, Structural)]
pub enum OutFormat {
    Xyz,
    Text,
    Dump,
}

/// The bytes of `"xyz"`.
pub open spec fn xyz_token() -> Seq<u8> {
    seq![120u8, 121u8, 122u8]
}

/// The bytes of `"text"`.
pub open spec fn text_token() -> Seq<u8> {
    seq![116u8, 101u8, 120u8, 116u8]
}

/// The bytes of `"dump"`.
pub open spec fn dump_token() -> Seq<u8> {
    seq![100u8, 117u8, 109u8, 112u8]
}

/// What a format token selects; anything but the three known names is
/// unsupported.
pub open spec fn parse_format_spec(t: Seq<u8>) -> Option<OutFormat> {
    if t == xyz_token() {
        Some(OutFormat::Xyz)
    } else if t == text_token() {
        Some(OutFormat::Text)
    } else if t == dump_token() {
        Some(OutFormat::Dump)
    } else {
        None
    }
}

/// Reads a format token.
pub fn parse_format(token: &Vec<u8>) -> (r: Option<OutFormat>)
    ensures
        r == parse_format_spec(token@),
{
    if token.len() == 3 && token[0] == 120 && token[1] == 121 && token[2] == 122 {
        proof {
            assert(token@ =~= xyz_token());
        }
        Some(OutFormat::Xyz)
    } else if token.len() == 4 && token[0] == 116 && token[1] == 101 && token[2] == 120
        && token[3] == 116 {
        proof {
            assert(token@ =~= text_token());
        }
        Some(OutFormat::Text)
    } else if token.len() == 4 && token[0] == 100 && token[1] == 117 && token[2] == 109
        && token[3] == 112 {
        proof {
            assert(token@ =~= dump_token());
        }
        Some(OutFormat::Dump)
    } else {
        None
    }
}

/// Where the file name starts: just after the last path separator before
/// position `i`.
pub open spec fn base_start(p: Seq<u8>, i: int) -> int
    decreases i,
{
    if i <= 0 {
        0
    } else if p[i - 1] == 47 {
        i
    } else {
        base_start(p, i - 1)
    }
}

/// The file-name part of a path: everything after the last `/`.
pub open spec fn file_name_spec(p: Seq<u8>) -> Seq<u8> {
    p.subrange(base_start(p, p.len() as int), p.len() as int)
}

proof fn lemma_base_start_bounds(p: Seq<u8>, i: int)
    requires
        0 <= i <= p.len(),
    ensures
        0 <= base_start(p, i) <= i,
    decreases i,
{
    if i > 0 && p[i - 1] != 47 {
        lemma_base_start_bounds(p, i - 1);
    }
}

/// The file-name part of a path.
#[verifier::loop_isolation(false)]
pub fn file_name(path: &Vec<u8>) -> (r: Vec<u8>)
    ensures
        r@ == file_name_spec(path@),
{
    let mut k: usize = path.len();
    while k > 0 && path[k - 1] != 47
        invariant
            0 <= k <= path@.len(),
            base_start(path@, path@.len() as int) == base_start(path@, k as int),
        decreases k,
    {
        k = k - 1;
    }
    proof {
        lemma_base_start_bounds(path@, k as int);
    }
    let mut out: Vec<u8> = Vec::new();
    let mut j: usize = k;
    while j < path.len()
        invariant
            k <= j <= path@.len(),
            out@ =~= path@.subrange(k as int, j as int),
        decreases path@.len() - j,
    {
        out.push(path[j]);
        proof {
            assert(path@.subrange(k as int, j as int).push(path@[j as int]) =~= path@.subrange(
                k as int,
                j + 1,
            ));
        }
        j = j + 1;
    }
    proof {
        assert(out@ =~= file_name_spec(path@));
    }
    out
}

/// The destination path of one input under the batch naming policy: with
/// several inputs and a non-Dump format, the declared output is a suffix
/// appended to the input's file name; otherwise the declared output
/// itself.
pub open spec fn conv_out_path(multiple: bool, name: Seq<u8>, output: Seq<u8>) -> Seq<u8> {
    if multiple {
        file_name_spec(name) + seq![46u8] + output
    } else {
        output
    }
}

/// Validates a conversion request and decides each input's output path,
/// before any decoding. Rejects a zero rank count, an unsupported format
/// token, and an empty input list.
#[verifier::loop_isolation(false)]
pub fn conversion_plan(
    format_token: &Vec<u8>,
    ranks: usize,
    inputs: &Vec<Vec<u8>>,
    output: &Vec<u8>,
) -> (r: Result<Vec<Vec<u8>>, TrajError>)
    ensures
        (ranks == 0 || parse_format_spec(format_token@) is None || inputs@.len() == 0) <==> r
            == Err::<Vec<Vec<u8>>, TrajError>(TrajError::Validation),
        r matches Err(e) ==> e == TrajError::Validation,
        r matches Ok(v) ==> ({
            let fmt = parse_format_spec(format_token@)->Some_0;
            let multiple = inputs@.len() != 1 && fmt != OutFormat::Dump;
            &&& v@.len() == inputs@.len()
            &&& forall|i: int|
                0 <= i < v@.len() ==> #[trigger] v@[i]@ == conv_out_path(
                    multiple,
                    inputs@[i]@,
                    output@,
                )
        }),
{
    let fmt = match parse_format(format_token) {
        Some(f) => f,
        None => { return Err(TrajError::Validation); },
    };
    if ranks == 0 || inputs.len() == 0 {
        return Err(TrajError::Validation);
    }
    let multiple = inputs.len() != 1 && fmt != OutFormat::Dump;
    let mut v: Vec<Vec<u8>> = Vec::new();
    let mut i: usize = 0;
    while i < inputs.len()
        invariant
            0 <= i <= inputs@.len(),
            v@.len() == i,
            forall|j: int|
                0 <= j < i ==> #[trigger] v@[j]@ == conv_out_path(multiple, inputs@[j]@, output@),
        decreases inputs@.len() - i,
    {
        if multiple {
            let mut pth = file_name(&inputs[i]);
            pth.push(46);
            extend_bytes(&mut pth, output);
            proof {
                assert(pth@ =~= conv_out_path(multiple, inputs@[i as int]@, output@));
            }
            v.push(pth);
        } else {
            let mut pth: Vec<u8> = Vec::new();
            extend_bytes(&mut pth, output);
            proof {
                assert(pth@ =~= conv_out_path(multiple, inputs@[i as int]@, output@));
            }
            v.push(pth);
        }
        i = i + 1;
    }
    Ok(v)
}

/// The destination of one analysis input: with one shared output name it
/// is appended to the input's file name after a dash; with matching
/// counts each input keeps its own output.
pub open spec fn ans_out_path(
    matching: bool,
    name: Seq<u8>,
    own: Seq<u8>,
    shared: Seq<u8>,
) -> Seq<u8> {
    if matching {
        own
    } else {
        file_name_spec(name) + seq![45u8] + shared
    }
}

/// Decides each analysis input's output path: the output list must either
/// match the input list in length or hold a single shared suffix.
#[verifier::loop_isolation(false)]
pub fn ans_plan(inputs: &Vec<Vec<u8>>, outputs: &Vec<Vec<u8>>) -> (r: Result<
    Vec<Vec<u8>>,
    TrajError,
>)
    ensures
        (inputs@.len() == 0 || (outputs@.len() != inputs@.len() && outputs@.len() != 1)) <==> r
            == Err::<Vec<Vec<u8>>, TrajError>(TrajError::Validation),
        r matches Err(e) ==> e == TrajError::Validation,
        r matches Ok(v) ==> ({
            let matching = outputs@.len() == inputs@.len();
            &&& v@.len() == inputs@.len()
            &&& forall|i: int|
                0 <= i < v@.len() ==> #[trigger] v@[i]@ == ans_out_path(
                    matching,
                    inputs@[i]@,
                    if matching {
                        outputs@[i]@
                    } else {
                        Seq::empty()
                    },
                    if matching {
                        Seq::empty()
                    } else {
                        outputs@[0]@
                    },
                )
        }),
{
    if inputs.len() == 0 {
        return Err(TrajError::Validation);
    }
    if outputs.len() != inputs.len() && outputs.len() != 1 {
        return Err(TrajError::Validation);
    }
    let matching = outputs.len() == inputs.len();
    let mut v: Vec<Vec<u8>> = Vec::new();
    let mut i: usize = 0;
    while i < inputs.len()
        invariant
            0 <= i <= inputs@.len(),
            v@.len() == i,
            matching ==> outputs@.len() == inputs@.len(),
            !matching ==> outputs@.len() == 1,
            forall|j: int|
                0 <= j < i ==> #[trigger] v@[j]@ == ans_out_path(
                    matching,
                    inputs@[j]@,
                    if matching {
                        outputs@[j]@
                    } else {
                        Seq::empty()
                    },
                    if matching {
                        Seq::empty()
                    } else {
                        outputs@[0]@
                    },
                ),
        decreases inputs@.len() - i,
    {
        if matching {
            let mut pth: Vec<u8> = Vec::new();
            extend_bytes(&mut pth, &outputs[i]);
            proof {
                assert(pth@ =~= outputs@[i as int]@);
            }
            v.push(pth);
        } else {
            let mut pth = file_name(&inputs[i]);
            pth.push(45);
            extend_bytes(&mut pth, &outputs[0]);
            proof {
                assert(pth@ =~= file_name_spec(inputs@[i as int]@) + seq![45u8] + outputs@[0]@);
            }
            v.push(pth);
        }
        i = i + 1;
    }
    Ok(v)
}

/// The atoms of timestep `t`: its `ranks` shards decoded and concatenated
/// in shard order.
pub open spec fn merged_atoms(
    std: BinaryStandard,
    sv: Seq<Seq<u8>>,
    ranks: int,
    t: int,
) -> Seq<Particle> {
    concat_decoded(std, sv, t * ranks, (t + 1) * ranks)
}

/// The first `n` timesteps rendered in the Xyz grammar, one after the
/// other.
pub open spec fn xyz_content(
    std: BinaryStandard,
    sv: Seq<Seq<u8>>,
    ranks: int,
    precision: u32,
    n: int,
) -> Seq<u8>
    decreases n,
{
    if n <= 0 {
        Seq::empty()
    } else {
        xyz_content(std, sv, ranks, precision, n - 1) + encode_xyz_spec(
            merged_atoms(std, sv, ranks, n - 1),
            precision,
        )
    }
}

/// The first `n` timesteps rendered in the Text grammar.
pub open spec fn text_content(
    std: BinaryStandard,
    sv: Seq<Seq<u8>>,
    ranks: int,
    precision: u32,
    n: int,
) -> Seq<u8>
    decreases n,
{
    if n <= 0 {
        Seq::empty()
    } else {
        text_content(std, sv, ranks, precision, n - 1) + encode_text_spec(
            merged_atoms(std, sv, ranks, n - 1),
            precision,
        )
    }
}

/// The first `n` timesteps rendered in the Dump grammar, numbered from
/// `t0` on.
pub open spec fn dump_content(
    std: BinaryStandard,
    sv: Seq<Seq<u8>>,
    ranks: int,
    precision: u32,
    bounds: BoxBounds,
    t0: u64,
    n: int,
) -> Seq<u8>
    decreases n,
{
    if n <= 0 {
        Seq::empty()
    } else {
        dump_content(std, sv, ranks, precision, bounds, t0, n - 1) + encode_dump_spec(
            merged_atoms(std, sv, ranks, n - 1),
            (t0 + n - 1) as u64,
            bounds,
            precision,
        )
    }
}

/// What one input's conversion produces in the selected format.
pub open spec fn file_content_spec(
    format: OutFormat,
    std: BinaryStandard,
    sv: Seq<Seq<u8>>,
    ranks: int,
    precision: u32,
    bounds: Option<BoxBounds>,
    t0: u64,
) -> Seq<u8> {
    let n = sv.len() as int / (ranks as int);
    match format {
        OutFormat::Xyz => xyz_content(std, sv, ranks, precision, n),
        OutFormat::Text => text_content(std, sv, ranks, precision, n),
        OutFormat::Dump => dump_content(std, sv, ranks, precision, bounds->Some_0, t0, n),
    }
}

/// Converts one input's shards: decode, merge across ranks, and encode in
/// the selected format, numbering Dump timesteps from `timestep_base` on.
#[verifier::loop_isolation(false)]
pub fn mk_parse(
    format: OutFormat,
    precision: u32,
    bin_standard: BinaryStandard,
    ranks: usize,
    shards: &Vec<Vec<u8>>,
    bounds: Option<BoxBounds>,
    timestep_base: u64,
) -> (r: Result<Vec<u8>, TrajError>)
    requires
        ranks >= 1,
        format == OutFormat::Dump ==> timestep_base + shards@.len() <= u64::MAX,
    ensures
        r matches Err(e) ==> e == TrajError::MissingBoxBounds || e == TrajError::RankCount || e
            == TrajError::Format,
        format == OutFormat::Dump && bounds is None ==> r == Err::<Vec<u8>, TrajError>(
            TrajError::MissingBoxBounds,
        ),
        (format != OutFormat::Dump || bounds is Some) ==> {
            &&& shards@.len() % (ranks as nat) != 0 ==> r == Err::<Vec<u8>, TrajError>(
                TrajError::RankCount,
            )
            &&& (shards@.len() % (ranks as nat) == 0 && !all_decode_ok(
                bin_standard,
                shard_views(shards@),
            )) ==> r == Err::<Vec<u8>, TrajError>(TrajError::Format)
            &&& (shards@.len() % (ranks as nat) == 0 && all_decode_ok(
                bin_standard,
                shard_views(shards@),
            )) ==> r is Ok
            &&& r matches Ok(bytes) ==> {
                &&& shards@.len() % (ranks as nat) == 0
                &&& all_decode_ok(bin_standard, shard_views(shards@))
                &&& bytes@ == file_content_spec(
                    format,
                    bin_standard,
                    shard_views(shards@),
                    ranks as int,
                    precision,
                    bounds,
                    timestep_base,
                )
            }
        },
{
    if format == OutFormat::Dump && bounds.is_none() {
        return Err(TrajError::MissingBoxBounds);
    }
    let snaps = match merge(bin_standard, ranks, shards) {
        Ok(v) => v,
        Err(e) => { return Err(e); },
    };
    let ghost sv = shard_views(shards@);
    let steps = snaps.len();
    let mut out: Vec<u8> = Vec::new();
    let mut t: usize = 0;
    while t < steps
        invariant
            0 <= t <= steps,
            out@ == match format {
                OutFormat::Xyz => xyz_content(bin_standard, sv, ranks as int, precision, t as int),
                OutFormat::Text => text_content(
                    bin_standard,
                    sv,
                    ranks as int,
                    precision,
                    t as int,
                ),
                OutFormat::Dump => dump_content(
                    bin_standard,
                    sv,
                    ranks as int,
                    precision,
                    bounds->Some_0,
                    timestep_base,
                    t as int,
                ),
            },
        decreases steps - t,
    {
        proof {
            assert(snaps@[t as int].atoms@ == merged_atoms(bin_standard, sv, ranks as int,
                t as int));
        }
        let piece = match format {
            OutFormat::Xyz => encode_xyz(&snaps[t], precision),
            OutFormat::Text => encode_text(&snaps[t], precision),
            OutFormat::Dump => {
                let bb = match &bounds {
                    Some(b) => *b,
                    None => { return Err(TrajError::MissingBoxBounds); },
                };
                proof {
                    assert(timestep_base + t <= u64::MAX);
                }
                encode_dump(&snaps[t], timestep_base + t as u64, &bb, precision)
            },
        };
        extend_bytes(&mut out, &piece);
        t = t + 1;
    }
    proof {
        assert(steps == sv.len() as int / (ranks as int));
    }
    Ok(out)
}

/// One conversion input: the input path and its rank shards.
pub struct ConvInput {
    pub name: Vec<u8>,
    pub shards: Vec<Vec<u8>>,
}

/// One produced output: a destination path and the bytes to put there.
pub struct OutputFile {
    pub path: Vec<u8>,
    pub contents: Vec<u8>,
}

/// Every input's shards form whole timesteps and decode.
pub open spec fn batch_ok(std: BinaryStandard, inputs: Seq<ConvInput>, ranks: int) -> bool {
    forall|i: int|
        0 <= i < inputs.len() ==> all_decode_ok(std, #[trigger] shard_views(inputs[i].shards@))
            && inputs[i].shards@.len() as int % ranks == 0
}

/// The running Dump timestep counter stays inside its 64-bit range: a
/// machine limit, not a rule of the format.
pub open spec fn counter_fits(inputs: Seq<ConvInput>, ranks: int) -> bool {
    forall|k: int|
        0 <= k < inputs.len() ==> #[trigger] batch_steps(inputs, ranks, k) + inputs[k].shards@.len()
            <= u64::MAX
}

/// How many timesteps the first `n` inputs hold together.
pub open spec fn batch_steps(inputs: Seq<ConvInput>, ranks: int, n: int) -> int
    decreases n,
{
    if n <= 0 {
        0int
    } else {
        batch_steps(inputs, ranks, n - 1) + inputs[n - 1].shards@.len() as int / ranks
    }
}

/// The accumulated Dump rendering of the first `n` inputs, timesteps
/// numbered consecutively across the batch.
pub open spec fn batch_dump_content(
    inputs: Seq<ConvInput>,
    std: BinaryStandard,
    ranks: int,
    precision: u32,
    bounds: BoxBounds,
    n: int,
) -> Seq<u8>
    decreases n,
{
    if n <= 0 {
        Seq::empty()
    } else {
        batch_dump_content(inputs, std, ranks, precision, bounds, n - 1) + dump_content(
            std,
            shard_views(inputs[n - 1].shards@),
            ranks,
            precision,
            bounds,
            batch_steps(inputs, ranks, n - 1) as u64,
            inputs[n - 1].shards@.len() as int / ranks,
        )
    }
}

/// The Dump side of a batch: every input's timesteps accumulated into
/// one output path, numbered consecutively.
#[verifier::loop_isolation(false)]
fn convert_dump_batch(
    bin_standard: BinaryStandard,
    ranks: usize,
    precision: u32,
    inputs: &Vec<ConvInput>,
    output: &Vec<u8>,
    bounds: BoxBounds,
) -> (r: Result<Vec<OutputFile>, TrajError>)
    requires
        ranks >= 1,
    ensures
        r matches Err(e) ==> e != TrajError::Validation,
        (batch_ok(bin_standard, inputs@, ranks as int) && counter_fits(inputs@, ranks as int))
            ==> r is Ok,
        r matches Ok(files) ==> {
            &&& files@.len() == 1
            &&& files@[0].path@ == output@
            &&& files@[0].contents@ == batch_dump_content(
                inputs@,
                bin_standard,
                ranks as int,
                precision,
                bounds,
                inputs@.len() as int,
            )
        },
{
    let mut contents: Vec<u8> = Vec::new();
    let mut counter: u64 = 0;
    let mut i: usize = 0;
    while i < inputs.len()
        invariant
            0 <= i <= inputs@.len(),
            counter == batch_steps(inputs@, ranks as int, i as int),
            contents@ == batch_dump_content(inputs@, bin_standard, ranks as int, precision,
                bounds, i as int),
        decreases inputs@.len() - i,
    {
        let shard_count = inputs[i].shards.len();
        if shard_count as u64 > u64::MAX - counter {
            proof {
                if counter_fits(inputs@, ranks as int) {
                    assert(batch_steps(inputs@, ranks as int, i as int)
                        + inputs@[i as int].shards@.len() <= u64::MAX);
                }
            }
            return Err(TrajError::Format);
        }
        let piece = match mk_parse(OutFormat::Dump, precision, bin_standard, ranks,
            &inputs[i].shards, Some(bounds), counter) {
            Ok(b) => b,
            Err(e) => {
                proof {
                    if batch_ok(bin_standard, inputs@, ranks as int) {
                        assert(all_decode_ok(bin_standard, shard_views(
                            inputs@[i as int].shards@,
                        )));
                    }
                }
                return Err(e);
            },
        };
        let steps = shard_count / ranks;
        proof {
            assert(steps <= shard_count) by (nonlinear_arith)
                requires
                    ranks >= 1,
                    steps == shard_count as int / ranks as int,
                    shard_count >= 0,
            ;
        }
        extend_bytes(&mut contents, &piece);
        counter = counter + steps as u64;
        i = i + 1;
    }
    let mut path: Vec<u8> = Vec::new();
    extend_bytes(&mut path, output);
    proof {
        assert(path@ =~= output@);
    }
    let mut files: Vec<OutputFile> = Vec::new();
    files.push(OutputFile { path, contents });
    Ok(files)
}

/// The per-input side of a batch: one output file per input under the
/// suffix naming policy.
#[verifier::loop_isolation(false)]
fn convert_each(
    fmt: OutFormat,
    bin_standard: BinaryStandard,
    ranks: usize,
    precision: u32,
    inputs: &Vec<ConvInput>,
    output: &Vec<u8>,
    bounds: Option<BoxBounds>,
) -> (r: Result<Vec<OutputFile>, TrajError>)
    requires
        ranks >= 1,
        fmt != OutFormat::Dump,
    ensures
        r matches Err(e) ==> e != TrajError::Validation,
        batch_ok(bin_standard, inputs@, ranks as int) ==> r is Ok,
        r matches Ok(files) ==> {
            &&& files@.len() == inputs@.len()
            &&& forall|i: int|
                0 <= i < files@.len() ==> #[trigger] files@[i].path@ == conv_out_path(
                    inputs@.len() != 1,
                    inputs@[i].name@,
                    output@,
                )
            &&& forall|i: int|
                0 <= i < files@.len() ==> #[trigger] files@[i].contents@ == file_content_spec(
                    fmt,
                    bin_standard,
                    shard_views(inputs@[i].shards@),
                    ranks as int,
                    precision,
                    bounds,
                    0,
                )
        },
{
    let multiple = inputs.len() != 1;
    let mut files: Vec<OutputFile> = Vec::new();
    let mut i: usize = 0;
    while i < inputs.len()
        invariant
            0 <= i <= inputs@.len(),
            files@.len() == i,
            forall|j: int|
                0 <= j < i ==> #[trigger] files@[j].path@ == conv_out_path(
                    multiple,
                    inputs@[j].name@,
                    output@,
                ),
            forall|j: int|
                0 <= j < i ==> #[trigger] files@[j].contents@ == file_content_spec(
                    fmt,
                    bin_standard,
                    shard_views(inputs@[j].shards@),
                    ranks as int,
                    precision,
                    bounds,
                    0,
                ),
        decreases inputs@.len() - i,
    {
        let contents = match mk_parse(fmt, precision, bin_standard, ranks, &inputs[i].shards,
            bounds, 0) {
            Ok(b) => b,
            Err(e) => {
                proof {
                    if batch_ok(bin_standard, inputs@, ranks as int) {
                        assert(all_decode_ok(bin_standard, shard_views(
                            inputs@[i as int].shards@,
                        )));
                    }
                }
                return Err(e);
            },
        };
        let path = if multiple {
            let mut pth = file_name(&inputs[i].name);
            pth.push(46);
            extend_bytes(&mut pth, output);
            proof {
                assert(pth@ =~= conv_out_path(multiple, inputs@[i as int].name@, output@));
            }
            pth
        } else {
            let mut pth: Vec<u8> = Vec::new();
            extend_bytes(&mut pth, output);
            proof {
                assert(pth@ =~= conv_out_path(multiple, inputs@[i as int].name@, output@));
            }
            pth
        };
        let ghost prev = files@;
        files.push(OutputFile { path, contents });
        proof {
            assert forall|j: int| 0 <= j < i + 1 implies #[trigger] files@[j].path@
                == conv_out_path(multiple, inputs@[j].name@, output@) by {
                if j < i {
                    assert(files@[j] == prev[j]);
                    assert(prev[j].path@ == conv_out_path(multiple, inputs@[j].name@, output@));
                }
            }
            assert forall|j: int| 0 <= j < i + 1 implies #[trigger] files@[j].contents@
                == file_content_spec(fmt, bin_standard, shard_views(inputs@[j].shards@),
                ranks as int, precision, bounds, 0) by {
                if j < i {
                    assert(files@[j] == prev[j]);
                    assert(prev[j].contents@ == file_content_spec(fmt, bin_standard,
                        shard_views(inputs@[j].shards@), ranks as int, precision, bounds, 0));
                }
            }
        }
        i = i + 1;
    }
    Ok(files)
}

/// Converts a whole batch, validation first: a zero rank count, an
/// unsupported format token and an empty input list are rejected before
/// any input is decoded. A dry run stops after validation and reports the
/// naming decisions: every planned destination, each with empty contents,
/// so no input byte is decoded and nothing is there to write. A Dump
/// batch accumulates every input's timesteps, numbered consecutively,
/// into the one declared output; any other format yields one output per
/// input under the suffix naming policy. A well-formed batch is converted
/// in full; the first failing input aborts the whole batch.
pub fn convert_batch(
    format_token: &Vec<u8>,
    bin_standard: BinaryStandard,
    ranks: usize,
    precision: u32,
    inputs: &Vec<ConvInput>,
    output: &Vec<u8>,
    bounds: Option<BoxBounds>,
    dry_run: bool,
) -> (r: Result<Vec<OutputFile>, TrajError>)
    ensures
        (ranks == 0 || parse_format_spec(format_token@) is None || inputs@.len() == 0) <==> r
            == Err::<Vec<OutputFile>, TrajError>(TrajError::Validation),
        !(ranks == 0 || parse_format_spec(format_token@) is None || inputs@.len() == 0)
            && dry_run ==> r is Ok,
        (!(ranks == 0 || parse_format_spec(format_token@) is None || inputs@.len() == 0)
            && !dry_run && parse_format_spec(format_token@)->Some_0 == OutFormat::Dump
            && bounds is None) ==> r == Err::<Vec<OutputFile>, TrajError>(
            TrajError::MissingBoxBounds,
        ),
        (!(ranks == 0 || parse_format_spec(format_token@) is None || inputs@.len() == 0)
            && !dry_run && parse_format_spec(format_token@)->Some_0 == OutFormat::Dump
            && bounds is Some && batch_ok(bin_standard, inputs@, ranks as int) && counter_fits(
            inputs@,
            ranks as int,
        )) ==> r is Ok,
        (!(ranks == 0 || parse_format_spec(format_token@) is None || inputs@.len() == 0)
            && !dry_run && parse_format_spec(format_token@)->Some_0 != OutFormat::Dump
            && batch_ok(bin_standard, inputs@, ranks as int)) ==> r is Ok,
        r matches Ok(files) ==> (dry_run ==> {
            let fmt = parse_format_spec(format_token@)->Some_0;
            let multiple = inputs@.len() != 1 && fmt != OutFormat::Dump;
            &&& files@.len() == inputs@.len()
            &&& forall|i: int|
                0 <= i < files@.len() ==> #[trigger] files@[i].path@ == conv_out_path(
                    multiple,
                    inputs@[i].name@,
                    output@,
                )
            &&& forall|i: int|
                0 <= i < files@.len() ==> #[trigger] files@[i].contents@.len() == 0
        }),
        r matches Ok(files) ==> ((!dry_run && parse_format_spec(format_token@)->Some_0
            == OutFormat::Dump) ==> {
            &&& bounds is Some
            &&& files@.len() == 1
            &&& files@[0].path@ == output@
            &&& files@[0].contents@ == batch_dump_content(
                inputs@,
                bin_standard,
                ranks as int,
                precision,
                bounds->Some_0,
                inputs@.len() as int,
            )
        }),
        r matches Ok(files) ==> ((!dry_run && parse_format_spec(format_token@)->Some_0
            != OutFormat::Dump) ==> {
            &&& files@.len() == inputs@.len()
            &&& forall|i: int|
                0 <= i < files@.len() ==> #[trigger] files@[i].path@ == conv_out_path(
                    inputs@.len() != 1,
                    inputs@[i].name@,
                    output@,
                )
            &&& forall|i: int|
                0 <= i < files@.len() ==> #[trigger] files@[i].contents@ == file_content_spec(
                    parse_format_spec(format_token@)->Some_0,
                    bin_standard,
                    shard_views(inputs@[i].shards@),
                    ranks as int,
                    precision,
                    bounds,
                    0,
                )
        }),
{
    let fmt = match parse_format(format_token) {
        Some(f) => f,
        None => { return Err(TrajError::Validation); },
    };
    if ranks == 0 || inputs.len() == 0 {
        return Err(TrajError::Validation);
    }
    let multiple = inputs.len() != 1 && fmt != OutFormat::Dump;
    if dry_run {
        let mut files: Vec<OutputFile> = Vec::new();
        let mut i: usize = 0;
        while i < inputs.len()
            invariant
                0 <= i <= inputs@.len(),
                files@.len() == i,
                forall|j: int|
                    0 <= j < i ==> #[trigger] files@[j].path@ == conv_out_path(
                        multiple,
                        inputs@[j].name@,
                        output@,
                    ),
                forall|j: int| 0 <= j < i ==> #[trigger] files@[j].contents@.len() == 0,
            decreases inputs@.len() - i,
        {
            let path = if multiple {
                let mut pth = file_name(&inputs[i].name);
                pth.push(46);
                extend_bytes(&mut pth, output);
                proof {
                    assert(pth@ =~= conv_out_path(multiple, inputs@[i as int].name@, output@));
                }
                pth
            } else {
                let mut pth: Vec<u8> = Vec::new();
                extend_bytes(&mut pth, output);
                proof {
                    assert(pth@ =~= conv_out_path(multiple, inputs@[i as int].name@, output@));
                }
                pth
            };
            let ghost prev = files@;
            files.push(OutputFile { path, contents: Vec::new() });
            proof {
                assert forall|j: int| 0 <= j < i + 1 implies #[trigger] files@[j].path@
                    == conv_out_path(multiple, inputs@[j].name@, output@) by {
                    if j < i {
                        assert(files@[j] == prev[j]);
                        assert(prev[j].path@ == conv_out_path(multiple, inputs@[j].name@,
                            output@));
                    }
                }
            }
            i = i + 1;
        }
        return Ok(files);
    }
    if fmt == OutFormat::Dump {
        let bb = match &bounds {
            Some(b) => *b,
            None => { return Err(TrajError::MissingBoxBounds); },
        };
        convert_dump_batch(bin_standard, ranks, precision, inputs, output, bb)
    } else {
        convert_each(fmt, bin_standard, ranks, precision, inputs, output, bounds)
    }
}

} // verus!
