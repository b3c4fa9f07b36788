use trajkit::boxcfg::normalize;
use trajkit::decode::{decode, BinaryStandard};
use trajkit::diff::{diff_files, diff_snapshots};
use trajkit::encode::{encode_text, encode_xyz, BoxBounds};
use trajkit::merge::merge;
use trajkit::particle::{Particle, Snapshot};
use trajkit::pipeline::{ans_plan, conversion_plan, convert_batch, file_name, mk_parse, ConvInput, OutFormat};
use trajkit::textio::{particle_line, read_snapshot};
use trajkit::TrajError;

fn particle(id: u32, x: f64, y: f64, z: f64, vx: f64, vy: f64, vz: f64) -> Particle {
    Particle {
        id,
        x: x.to_bits(),
        y: y.to_bits(),
        z: z.to_bits(),
        vx: vx.to_bits(),
        vy: vy.to_bits(),
        vz: vz.to_bits(),
    }
}

/// A little-endian binary shard with ids: an eight-byte count, then one
/// 52-byte record per atom.
fn shard_le(atoms: &[(u32, f64, f64, f64, f64, f64, f64)]) -> Vec<u8> {
    let mut b = (atoms.len() as u64).to_le_bytes().to_vec();
    for a in atoms {
        b.extend_from_slice(&a.0.to_le_bytes());
        for v in [a.1, a.2, a.3, a.4, a.5, a.6] {
            b.extend_from_slice(&v.to_bits().to_le_bytes());
        }
    }
    b
}

#[test]
fn test_reader() {
    let data: &[u8] = b"\
            3
            commnet
            1 1.0 2.0 3.0 1.0 2.0 3.0
            2 4.0 3.0 6.0 4.0 3.0 6.0
            3 5.0 1.5 4.0 5.0 1.5 4.0";
    let success = read_snapshot(data);
    assert!(success.is_ok());

    let snapshot = success.unwrap();
    assert_eq!(3, snapshot.size());
    assert_eq!(3, snapshot.atoms[2].id);
}

#[test]
fn parse_format_round_trip_preserves_id_and_fields() {
    let p = particle(42, 1.5, -2.25, 3.0, 0.5, -0.125, 7.0);
    let line = particle_line(&p, 17);
    let q = Particle::from_str(&line).unwrap();
    assert_eq!(q.id, 42);
    assert_eq!(q.x, p.x);
    assert_eq!(q.y, p.y);
    assert_eq!(q.z, p.z);
    assert_eq!(q.vx, p.vx);
    assert_eq!(q.vy, p.vy);
    assert_eq!(q.vz, p.vz);
}

#[test]
fn diff_of_file_against_itself_is_clean() {
    let data: &[u8] = b"1 1.0 2.0 3.0 0.1 0.2 0.3\n2 4.0 5.0 6.0 0.4 0.5 0.6\n";
    for limit in [0.0f64, 1e-12, 1e-6, 0.5, 100.0] {
        let rep = diff_files(data, data, limit.to_bits(), false, &vec![]).unwrap();
        assert!(rep.passed());
        let rep = diff_files(data, data, limit.to_bits(), true, &vec![]).unwrap();
        assert!(rep.passed());
    }
}

#[test]
fn periodic_with_zero_box_equals_non_periodic() {
    let one: &[u8] = b"1 1.0 2.0 3.0 0.1 0.2 0.3\n2 4.0 5.0 6.0 0.4 0.5 0.6\n";
    let two: &[u8] = b"1 1.0 2.0 3.5 0.1 0.2 0.3\n2 4.0 5.0 6.0 0.4 0.5 0.6\n";
    for limit in [0.0f64, 1e-6, 0.25, 1.0] {
        let zero_box = vec![0.0f64.to_bits(); 3];
        let a = diff_files(one, two, limit.to_bits(), true, &zero_box).unwrap();
        let b = diff_files(one, two, limit.to_bits(), false, &vec![]).unwrap();
        assert_eq!(a.mismatches, b.mismatches);
    }
}

#[test]
fn periodic_wrap_across_box_face() {
    let box_x = 10.0f64;
    let a = Snapshot {
        atoms: vec![
            particle(1, 1.0, 2.0, 3.0, 0.0, 0.0, 0.0),
            particle(2, 1.0, 2.0, 3.0, 0.0, 0.0, 0.0),
            particle(3, 5.0, 5.0, 5.0, 0.0, 0.0, 0.0),
        ],
    };
    let b = Snapshot {
        atoms: vec![
            particle(1, 1.0, 2.0, 3.0, 0.0, 0.0, 0.0),
            particle(2, 1.0 + box_x, 2.0, 3.0, 0.0, 0.0, 0.0),
            particle(3, 5.0, 5.0, 5.0, 0.0, 0.0, 0.0),
        ],
    };
    let sim_box = (box_x.to_bits(), 1.0f64.to_bits(), 1.0f64.to_bits());
    let limit = 1e-6f64.to_bits();
    let periodic = diff_snapshots(&a, &b, limit, true, sim_box).unwrap();
    assert!(periodic.passed());
    let plain = diff_snapshots(&a, &b, limit, false, sim_box).unwrap();
    assert_eq!(plain.mismatches, vec![1]);
}

#[test]
fn dump_batch_merges_two_inputs_into_one_file() {
    let in1 = ConvInput {
        name: b"a.bin".to_vec(),
        shards: vec![
            shard_le(&[(1, 1.0, 0.0, 0.0, 0.0, 0.0, 0.0)]),
            shard_le(&[(2, 2.0, 0.0, 0.0, 0.0, 0.0, 0.0)]),
        ],
    };
    let in2 = ConvInput {
        name: b"b.bin".to_vec(),
        shards: vec![
            shard_le(&[(3, 3.0, 0.0, 0.0, 0.0, 0.0, 0.0)]),
            shard_le(&[(4, 4.0, 0.0, 0.0, 0.0, 0.0, 0.0)]),
        ],
    };
    let bounds = BoxBounds {
        xlo: 0.0f64.to_bits(),
        xhi: 10.0f64.to_bits(),
        ylo: 0.0f64.to_bits(),
        yhi: 10.0f64.to_bits(),
        zlo: 0.0f64.to_bits(),
        zhi: 10.0f64.to_bits(),
    };
    let files = convert_batch(
        &b"dump".to_vec(),
        BinaryStandard::LittleEndian,
        2,
        6,
        &vec![in1, in2],
        &b"merged.dump".to_vec(),
        Some(bounds),
        false,
    )
    .unwrap();
    assert_eq!(files.len(), 1);
    assert_eq!(files[0].path, b"merged.dump".to_vec());
    let text = String::from_utf8(files[0].contents.clone()).unwrap();
    assert_eq!(text.matches("ITEM: TIMESTEP\n").count(), 2);
    let first = text.find("ITEM: TIMESTEP\n0\n").unwrap();
    let second = text.find("ITEM: TIMESTEP\n1\n").unwrap();
    assert!(first < second);
    // Each timestep concatenates rank 0 before rank 1.
    let id1 = text.find("\n1 ").unwrap();
    let id2 = text.find("\n2 ").unwrap();
    let id3 = text.find("\n3 ").unwrap();
    let id4 = text.find("\n4 ").unwrap();
    assert!(id1 < id2 && id2 < id3 && id3 < id4);
    assert!(second > id2 && second < id3);
}

#[test]
fn xyz_batch_names_one_output_per_input() {
    let mk = |name: &[u8], id: u32| ConvInput {
        name: name.to_vec(),
        shards: vec![shard_le(&[(id, 1.0, 2.0, 3.0, 0.0, 0.0, 0.0)])],
    };
    let files = convert_batch(
        &b"xyz".to_vec(),
        BinaryStandard::LittleEndian,
        1,
        6,
        &vec![mk(b"run/first", 1), mk(b"run/second", 2), mk(b"run/third", 3)],
        &b"out.xyz".to_vec(),
        None,
        false,
    )
    .unwrap();
    assert_eq!(files.len(), 3);
    assert_eq!(files[0].path, b"first.out.xyz".to_vec());
    assert_eq!(files[1].path, b"second.out.xyz".to_vec());
    assert_eq!(files[2].path, b"third.out.xyz".to_vec());
}

#[test]
fn normalize_pads_missing_axes_with_zeros() {
    let (start, size) = normalize(&vec![], &vec![]);
    assert_eq!(start, (0, 0, 0));
    assert_eq!(size, (0, 0, 0));
    assert_eq!(f64::from_bits(start.0), 0.0);

    let (start, size) = normalize(&vec![1.0f64.to_bits(), 2.0f64.to_bits()], &vec![5]);
    assert_eq!(f64::from_bits(start.0), 1.0);
    assert_eq!(f64::from_bits(start.1), 2.0);
    assert_eq!(f64::from_bits(start.2), 0.0);
    assert_eq!(size, (5, 0, 0));
}

#[test]
fn validation_comes_before_any_output() {
    let input = ConvInput {
        name: b"a.bin".to_vec(),
        shards: vec![shard_le(&[(1, 1.0, 0.0, 0.0, 0.0, 0.0, 0.0)])],
    };
    let zero_ranks = convert_batch(
        &b"xyz".to_vec(),
        BinaryStandard::LittleEndian,
        0,
        6,
        &vec![input],
        &b"out.xyz".to_vec(),
        None,
        false,
    );
    assert!(matches!(zero_ranks, Err(TrajError::Validation)));

    let input = ConvInput {
        name: b"a.bin".to_vec(),
        shards: vec![shard_le(&[(1, 1.0, 0.0, 0.0, 0.0, 0.0, 0.0)])],
    };
    let bad_format = convert_batch(
        &b"csv".to_vec(),
        BinaryStandard::LittleEndian,
        1,
        6,
        &vec![input],
        &b"out.csv".to_vec(),
        None,
        false,
    );
    assert!(matches!(bad_format, Err(TrajError::Validation)));

    let plan = conversion_plan(&b"csv".to_vec(), 1, &vec![b"a".to_vec()], &b"o".to_vec());
    assert!(matches!(plan, Err(TrajError::Validation)));
}

#[test]
fn dry_run_reports_names_and_writes_nothing() {
    let mk = |name: &[u8]| ConvInput {
        name: name.to_vec(),
        shards: vec![shard_le(&[(1, 1.0, 0.0, 0.0, 0.0, 0.0, 0.0)])],
    };
    let files = convert_batch(
        &b"text".to_vec(),
        BinaryStandard::LittleEndian,
        1,
        6,
        &vec![mk(b"run/a.bin"), mk(b"run/b.bin")],
        &b"out.txt".to_vec(),
        None,
        true,
    )
    .unwrap();
    assert_eq!(files.len(), 2);
    assert_eq!(files[0].path, b"a.bin.out.txt".to_vec());
    assert_eq!(files[1].path, b"b.bin.out.txt".to_vec());
    assert!(files[0].contents.is_empty());
    assert!(files[1].contents.is_empty());
}

#[test]
fn float_formatted_id_tokens_are_accepted() {
    let p = Particle::from_str(b"2.0 1.0 1.0 1.0 1.0 1.0 1.0").unwrap();
    assert_eq!(p.id, 2);
    let p = Particle::from_str(b"+5 1.0 1.0 1.0 1.0 1.0 1.0").unwrap();
    assert_eq!(p.id, 5);
    let p = Particle::from_str(b"2.7 1.0 1.0 1.0 1.0 1.0 1.0").unwrap();
    assert_eq!(p.id, 2);
    let p = Particle::from_str(b"-1 1.0 1.0 1.0 1.0 1.0 1.0").unwrap();
    assert_eq!(p.id, 0);
    let p = Particle::from_str(b"4294967296 1.0 1.0 1.0 1.0 1.0 1.0").unwrap();
    assert_eq!(p.id, u32::MAX);
}

#[test]
fn precision_zero_renders_without_panicking() {
    let snap = Snapshot {
        atoms: vec![
            particle(1, 9.0, 18.0, 65.0, 4.5, 0.0, 1.0),
            particle(2, 3.0, 99.0, 67.0, 0.0, 0.0, 0.0),
        ],
    };
    let bytes = encode_xyz(&snap, 0);
    let back = read_snapshot(&bytes).unwrap();
    assert_eq!(back.size(), 2);
    assert_eq!(back.atoms[0].id, 1);
    assert_eq!(back.atoms[1].id, 2);
    assert_eq!(f64::from_bits(back.atoms[0].x), 9.0);
}

#[test]
fn decode_reads_little_and_big_endian_records() {
    let bytes = shard_le(&[(7, 1.0, 2.0, 3.0, 4.0, 5.0, 6.0)]);
    let atoms = decode(BinaryStandard::LittleEndian, &bytes).unwrap();
    assert_eq!(atoms.len(), 1);
    assert_eq!(atoms[0].id, 7);
    assert_eq!(f64::from_bits(atoms[0].x), 1.0);
    assert_eq!(f64::from_bits(atoms[0].vz), 6.0);

    let mut be = 1u64.to_be_bytes().to_vec();
    be.extend_from_slice(&9u32.to_be_bytes());
    for v in [1.5f64, 2.5, 3.5, 4.5, 5.5, 6.5] {
        be.extend_from_slice(&v.to_bits().to_be_bytes());
    }
    let atoms = decode(BinaryStandard::BigEndian, &be).unwrap();
    assert_eq!(atoms[0].id, 9);
    assert_eq!(f64::from_bits(atoms[0].y), 2.5);

    let mut noid = 1u64.to_le_bytes().to_vec();
    for v in [1.0f64, 2.0, 3.0, 4.0, 5.0, 6.0] {
        noid.extend_from_slice(&v.to_bits().to_le_bytes());
    }
    let atoms = decode(BinaryStandard::LittleEndianNoIds, &noid).unwrap();
    assert_eq!(atoms[0].id, 0);
    assert_eq!(f64::from_bits(atoms[0].z), 3.0);
}

#[test]
fn decode_rejects_inconsistent_lengths() {
    // Declared count disagrees with the record bytes.
    let mut bytes = shard_le(&[(7, 1.0, 2.0, 3.0, 4.0, 5.0, 6.0)]);
    bytes[0] = 2;
    assert!(matches!(
        decode(BinaryStandard::LittleEndian, &bytes),
        Err(TrajError::Format)
    ));
    // Truncated record.
    let mut bytes = shard_le(&[(7, 1.0, 2.0, 3.0, 4.0, 5.0, 6.0)]);
    bytes.pop();
    assert!(matches!(
        decode(BinaryStandard::LittleEndian, &bytes),
        Err(TrajError::Format)
    ));
}

#[test]
fn merge_keeps_rank_and_shard_order() {
    let shards = vec![
        shard_le(&[(1, 1.0, 0.0, 0.0, 0.0, 0.0, 0.0), (2, 2.0, 0.0, 0.0, 0.0, 0.0, 0.0)]),
        shard_le(&[(3, 3.0, 0.0, 0.0, 0.0, 0.0, 0.0)]),
    ];
    let snaps = merge(BinaryStandard::LittleEndian, 2, &shards).unwrap();
    assert_eq!(snaps.len(), 1);
    let ids: Vec<u32> = snaps[0].atoms.iter().map(|a| a.id).collect();
    assert_eq!(ids, vec![1, 2, 3]);
}

#[test]
fn merge_rejects_missing_shards() {
    let shards = vec![
        shard_le(&[(1, 1.0, 0.0, 0.0, 0.0, 0.0, 0.0)]),
        shard_le(&[(2, 2.0, 0.0, 0.0, 0.0, 0.0, 0.0)]),
        shard_le(&[(3, 3.0, 0.0, 0.0, 0.0, 0.0, 0.0)]),
    ];
    assert!(matches!(
        merge(BinaryStandard::LittleEndian, 2, &shards),
        Err(TrajError::RankCount)
    ));
}

#[test]
fn diff_rejects_size_mismatch() {
    let one: &[u8] = b"1 1.0 2.0 3.0 0.1 0.2 0.3\n";
    let two: &[u8] = b"1 1.0 2.0 3.0 0.1 0.2 0.3\n2 4.0 5.0 6.0 0.4 0.5 0.6\n";
    assert!(matches!(
        diff_files(one, two, 1.0f64.to_bits(), false, &vec![]),
        Err(TrajError::SizeMismatch)
    ));
}

#[test]
fn dump_without_bounds_is_refused() {
    let shards = vec![shard_le(&[(1, 1.0, 0.0, 0.0, 0.0, 0.0, 0.0)])];
    assert!(matches!(
        mk_parse(OutFormat::Dump, 6, BinaryStandard::LittleEndian, 1, &shards, None, 0),
        Err(TrajError::MissingBoxBounds)
    ));
}

#[test]
fn malformed_lines_are_parse_errors() {
    let six_tokens: &[u8] = b"1 1.0 2.0 3.0 0.1 0.2\n";
    assert!(matches!(read_snapshot(six_tokens), Err(TrajError::Parse)));
    let bad_float: &[u8] = b"1 1.0 2.0 3.0 0.1 0.2 zzz\n";
    assert!(matches!(read_snapshot(bad_float), Err(TrajError::Parse)));
    let bad_count: &[u8] = b"2\ncomment\n1 1.0 2.0 3.0 0.1 0.2 0.3\n";
    assert!(matches!(read_snapshot(bad_count), Err(TrajError::Parse)));
}

#[test]
fn xyz_encoding_reads_back() {
    let snap = Snapshot {
        atoms: vec![
            particle(1, 1.0, 2.0, 3.0, 0.5, 0.25, 0.125),
            particle(2, -4.0, 5.0, -6.0, 0.0, 1.0, 2.0),
        ],
    };
    let bytes = encode_xyz(&snap, 17);
    let text = String::from_utf8(bytes.clone()).unwrap();
    assert!(text.starts_with("2\nsnapshot\n1 "));
    let back = read_snapshot(&bytes).unwrap();
    assert_eq!(back.size(), 2);
    assert_eq!(back.atoms[0].id, 1);
    assert_eq!(back.atoms[1].x, snap.atoms[1].x);
    assert_eq!(back.atoms[0].vz, snap.atoms[0].vz);

    let text_bytes = encode_text(&snap, 17);
    let back = read_snapshot(&text_bytes).unwrap();
    assert_eq!(back.size(), 2);
    assert_eq!(back.atoms[1].z, snap.atoms[1].z);
}

#[test]
fn float_tokens_parse_and_render() {
    let p = Particle::from_str(b"1 2.5 -0.125e2 0.0 0.0 0.0 0.0").unwrap();
    assert_eq!(p.x, 2.5f64.to_bits());
    assert_eq!(p.y, (-12.5f64).to_bits());
    let line = particle_line(&particle(1, 3.75, 0.0, 0.0, 0.0, 0.0, 0.0), 17);
    let text = String::from_utf8(line).unwrap();
    let token = text.split_whitespace().nth(1).unwrap();
    assert_eq!(token.parse::<f64>().unwrap(), 3.75);
}

#[test]
fn near_equality_uses_real_subtraction() {
    let a = particle(1, 1.0, 0.0, 0.0, 0.0, 0.0, 0.0);
    let b = particle(1, 0.6, 0.0, 0.0, 0.0, 0.0, 0.0);
    assert!(a.is_near_eq(&b, 0.5f64.to_bits()));
    assert!(!a.is_near_eq(&b, 0.1f64.to_bits()));
    assert!(!a.is_near_eq(&b, 0.4f64.to_bits()));
    assert!(a.is_near_eq(&b, 0.4000001f64.to_bits()));
}

#[test]
fn ans_naming_matches_or_suffixes() {
    let inputs = vec![b"runs/alpha".to_vec(), b"runs/beta".to_vec()];
    let outs = ans_plan(&inputs, &vec![b"a.out".to_vec(), b"b.out".to_vec()]).unwrap();
    assert_eq!(outs, vec![b"a.out".to_vec(), b"b.out".to_vec()]);
    let outs = ans_plan(&inputs, &vec![b"shared.out".to_vec()]).unwrap();
    assert_eq!(outs[0], b"alpha-shared.out".to_vec());
    assert_eq!(outs[1], b"beta-shared.out".to_vec());
    assert!(matches!(
        ans_plan(&inputs, &vec![]),
        Err(TrajError::Validation)
    ));
    assert_eq!(file_name(&b"a/b/c.xyz".to_vec()), b"c.xyz".to_vec());
}
