use unfolder::{
    check_fold_paths, check_index_file, check_unfold_paths, checksum, chunk_count, compare_digest,
    index_document, parse_index, parse_key, plain_name, position_key, split_index,
    unfold_effects, validate_checksum, validate_index, Action, Assembly, Corruption, Error, Exit,
    ChunkFile, FileState, IndexDocument, IndexFault, InputFault, Mismatch, OutputFault, Progress, ReadFault,
    UnfoldEffect, MAX_CHUNK_SIZE, MAX_FILE_SIZE,
};
use unfolder::text::decimal_text;

fn sample(len: usize, seed: u32) -> Vec<u8> {
    let mut state = seed;
    let mut out = Vec::with_capacity(len);
    for _ in 0..len {
        state = state.wrapping_mul(1664525).wrapping_add(1013904223);
        out.push((state >> 24) as u8);
    }
    out
}

struct Unfolded {
    effects: Vec<UnfoldEffect>,
    chunks: Vec<(String, Vec<u8>)>,
    index: String,
}

fn unfold(bytes: &[u8]) -> Unfolded {
    let effects = unfold_effects(bytes).unwrap();
    let mut chunks = Vec::new();
    let mut index = String::new();
    for effect in &effects {
        match effect {
            UnfoldEffect::WriteChunk { name, start, end } => {
                chunks.push((name.clone(), bytes[*start..*end].to_vec()))
            }
            UnfoldEffect::WriteIndex(text) => index = text.clone(),
            UnfoldEffect::Report(_) => {}
        }
    }
    Unfolded { effects, chunks, index }
}

fn stored(chunks: &[(String, Vec<u8>)], name: &str) -> Vec<u8> {
    chunks.iter().find(|(n, _)| n == name).unwrap().1.clone()
}

fn fold(
    index: &str,
    chunks: &[(String, Vec<u8>)],
    trace: &mut Vec<Progress>,
) -> unfolder::Result<Vec<u8>> {
    trace.push(check_fold_paths("d".into(), true, "out".into(), false)?);
    let doc = parse_index(index)?;
    let list = validate_index(&doc, &present(&doc))?;
    let mut assembly = Assembly::new(list);
    for i in 0..assembly.count() {
        let path = chunk_path(&assembly.names[i]);
        assembly.check_next_name(&path)?;
        let data = stored(chunks, &assembly.names[i]);
        trace.push(assembly.add_chunk(&path, &data)?);
    }
    let (bytes, end) = assembly.finish()?;
    trace.push(end);
    Ok(bytes)
}

fn chunk_path(name: &str) -> String {
    format!("d/{name}")
}

fn files(names: &[&str], states: &[FileState]) -> Vec<ChunkFile> {
    names
        .iter()
        .zip(states)
        .map(|(name, state)| ChunkFile { path: chunk_path(name), state: *state })
        .collect()
}

fn present(doc: &IndexDocument) -> Vec<ChunkFile> {
    doc.positions
        .iter()
        .map(|(_, name)| ChunkFile { path: chunk_path(name), state: FileState::File })
        .collect()
}

fn entry(key: &str, value: &str) -> (String, String) {
    (key.to_string(), value.to_string())
}

fn document(digest: &str, positions: &[(&str, &str)]) -> IndexDocument {
    IndexDocument {
        digest: digest.to_string(),
        positions: positions.iter().map(|(k, v)| entry(k, v)).collect(),
    }
}

const ABC_DIGEST: &str = "ba7816bf8f01cfea414140de5dae2223b00361a396177a9cb410ff61f20015ad";
const EMPTY_DIGEST: &str = "e3b0c44298fc1c149afbf4c8996fb92427ae41e4649b934ca495991b7852b855";

#[test]
fn checksum_is_sha256() {
    assert_eq!(hex::encode(checksum(b"abc")), ABC_DIGEST);
    assert_eq!(hex::encode(checksum(b"")), EMPTY_DIGEST);
    assert_eq!(checksum(&sample(100000, 3)).len(), 32);
}

#[test]
fn validate_checksum_accepts_and_reports_mismatch() {
    let good = hex::decode(ABC_DIGEST).unwrap();
    assert_eq!(validate_checksum(b"abc", &good), Ok(()));
    assert_eq!(
        validate_checksum(b"abd", &good),
        Err(Error::ChecksumMismatch(Mismatch {
            expected: ABC_DIGEST.to_string(),
            actual: hex::encode(checksum(b"abd")),
        }))
    );
    assert_eq!(
        compare_digest(&[1, 2], &[1, 3]),
        Err(Error::ChecksumMismatch(Mismatch {
            expected: "0103".to_string(),
            actual: "0102".to_string(),
        }))
    );
}

#[test]
fn chunk_count_formula() {
    assert_eq!(chunk_count(2949868), 46);
    assert_eq!(chunk_count(2949075), 45);
    assert_eq!(chunk_count(2884541), 45);
    assert_eq!(chunk_count(0), 1);
    assert_eq!(chunk_count(1), 1);
    assert_eq!(chunk_count(65535), 1);
    assert_eq!(chunk_count(65536), 2);
    assert_eq!(chunk_count(131070), 2);
    assert_eq!(chunk_count(131071), 3);
    assert_eq!(MAX_CHUNK_SIZE, 65535);
}

#[test]
fn position_keys_are_zero_padded_hex() {
    assert_eq!(position_key(0), "00000000000000000000000000000000");
    assert_eq!(position_key(1), "00000000000000000000000000000001");
    assert_eq!(position_key(255), "000000000000000000000000000000ff");
    assert_eq!(position_key(44), "0000000000000000000000000000002c");
}

#[test]
fn position_keys_parse_as_base16() {
    assert_eq!(parse_key("00000000000000000000000000000003"), Some(3));
    assert_eq!(parse_key("ff"), Some(255));
    assert_eq!(parse_key("FF"), Some(255));
    assert_eq!(parse_key("+a"), Some(10));
    assert_eq!(parse_key("+"), None);
    assert_eq!(parse_key(""), None);
    assert_eq!(parse_key("-1"), None);
    assert_eq!(parse_key("sha256"), None);
    assert_eq!(parse_key("ffffffffffffffff"), Some(usize::MAX));
    assert_eq!(parse_key("10000000000000000"), None);
    assert_eq!(parse_key(&position_key(12345)), Some(12345));
}

#[test]
fn plain_names_stay_in_the_directory() {
    assert!(plain_name(&"abc123".to_string()));
    assert!(!plain_name(&"sub/abc".to_string()));
    assert!(!plain_name(&"sub\\abc".to_string()));
    assert!(!plain_name(&".".to_string()));
    assert!(!plain_name(&"..".to_string()));
    assert!(plain_name(&"...".to_string()));
}

#[test]
fn unfold_progress_trace_of_45_chunks() {
    let bytes = sample(2940000, 7);
    let unfolded = unfold(&bytes);
    assert_eq!(unfolded.effects.len(), 2 * 45 + 3);
    let mut trace = Vec::new();
    for effect in &unfolded.effects {
        if let UnfoldEffect::Report(p) = effect {
            trace.push(*p);
        }
    }
    let mut expected = vec![Progress::Start(Action::Unfold)];
    for i in 1..=45 {
        expected.push(Progress::Chunk { index: i, count: 45, action: Action::Unfold });
    }
    expected.push(Progress::End(Action::Unfold));
    assert_eq!(trace.len(), 47);
    assert_eq!(trace, expected);
    // each chunk's report comes right before its write
    for k in 0..45 {
        match &unfolded.effects[2 * k + 2] {
            UnfoldEffect::WriteChunk { start, end, .. } => {
                assert_eq!(*start, k * 65535);
                assert_eq!(*end, std::cmp::min((k + 1) * 65535, 2940000));
            }
            _ => panic!("a chunk write was expected"),
        }
    }
    assert!(matches!(unfolded.effects[91], UnfoldEffect::WriteIndex(_)));
}

#[test]
fn round_trip_restores_bytes() {
    for (len, seed) in [(0usize, 1u32), (1, 2), (65535, 3), (65536, 4), (200000, 5)] {
        let bytes = sample(len, seed);
        let unfolded = unfold(&bytes);
        let mut trace = Vec::new();
        let folded = fold(&unfolded.index, &unfolded.chunks, &mut trace).unwrap();
        assert_eq!(folded, bytes);
        let n = chunk_count(len);
        assert_eq!(trace.len(), n + 2);
        assert_eq!(trace[0], Progress::Start(Action::Fold));
        assert_eq!(trace[n], Progress::Chunk { index: n, count: n, action: Action::Fold });
        assert_eq!(trace[n + 1], Progress::End(Action::Fold));
    }
}

#[test]
fn empty_file_has_one_empty_chunk() {
    let unfolded = unfold(&[]);
    assert_eq!(unfolded.chunks.len(), 1);
    assert_eq!(unfolded.chunks[0].0, EMPTY_DIGEST);
    assert!(unfolded.chunks[0].1.is_empty());
}

#[test]
fn unfold_is_deterministic() {
    let bytes = sample(150000, 9);
    let first = unfold(&bytes);
    let second = unfold(&bytes);
    assert_eq!(first.index, second.index);
    let names = |u: &Unfolded| u.chunks.iter().map(|c| c.0.clone()).collect::<Vec<_>>();
    assert_eq!(names(&first), names(&second));
    let doc = parse_index(&first.index).unwrap();
    assert_eq!(doc.digest, hex::encode(checksum(&bytes)));
}

#[test]
fn repeated_content_shares_a_chunk_name() {
    let mut bytes = vec![7u8; 65535];
    bytes.extend(vec![7u8; 65535]);
    let unfolded = unfold(&bytes);
    assert_eq!(unfolded.chunks.len(), 2);
    assert_eq!(unfolded.chunks[0].0, unfolded.chunks[1].0);
    let mut trace = Vec::new();
    assert_eq!(fold(&unfolded.index, &unfolded.chunks, &mut trace).unwrap(), bytes);
}

#[test]
fn tampered_chunk_is_rejected() {
    let bytes = sample(140000, 11);
    let unfolded = unfold(&bytes);
    let mut chunks = unfolded.chunks.clone();
    chunks[1].1[100] ^= 0x01;
    let name = chunks[1].0.clone();
    let mut trace = Vec::new();
    let result = fold(&unfolded.index, &chunks, &mut trace);
    assert_eq!(
        result,
        Err(Error::CorruptedDataError(Corruption::Chunk {
            name: name.clone(),
            path: chunk_path(&name),
            mismatch: Mismatch {
                expected: name,
                actual: hex::encode(checksum(&chunks[1].1)),
            },
        }))
    );
    assert_eq!(trace.len(), 2);
}

#[test]
fn chunk_with_non_hex_name_is_rejected() {
    let doc = document(ABC_DIGEST, &[("0", "not-hex")]);
    let list = validate_index(&doc, &present(&doc)).unwrap();
    let mut assembly = Assembly::new(list);
    let path = chunk_path("not-hex");
    assert_eq!(
        assembly.check_next_name(&path),
        Err(Error::CorruptedDataError(Corruption::InvalidChunkName {
            name: "not-hex".to_string(),
            path: "d/not-hex".to_string()
        }))
    );
    assert_eq!(
        assembly.add_chunk(&path, b"abc"),
        Err(Error::CorruptedDataError(Corruption::InvalidChunkName {
            name: "not-hex".to_string(),
            path: "d/not-hex".to_string()
        }))
    );
    assert_eq!(assembly.next, 0);
}

#[test]
fn whole_file_digest_is_checked() {
    let name = hex::encode(checksum(b"abc"));
    let wrong = hex::encode(checksum(b"xyz"));
    let doc = document(&wrong, &[("0", &name)]);
    let list = validate_index(&doc, &present(&doc)).unwrap();
    let mut assembly = Assembly::new(list);
    assert_eq!(assembly.check_next_name(&chunk_path(&name)), Ok(()));
    assert_eq!(
        assembly.add_chunk(&chunk_path(&name), b"abc"),
        Ok(Progress::Chunk { index: 1, count: 1, action: Action::Fold })
    );
    assert_eq!(
        assembly.finish().map(|(bytes, _)| bytes),
        Err(Error::CorruptedDataError(Corruption::Whole {
            mismatch: Mismatch { expected: wrong, actual: name },
        }))
    );
}

#[test]
fn index_gap_is_reported() {
    let doc = document(ABC_DIGEST, &[("0", "a"), ("1", "b"), ("3", "c")]);
    let present_files = present(&doc);
    assert_eq!(
        validate_index(&doc, &present_files).map(|l| l.names),
        Err(Error::InvalidIndexError(IndexFault::PositionMismatch { expected: 2, found: 3 }))
    );
}

#[test]
fn index_duplicate_position_is_reported() {
    let doc = document(ABC_DIGEST, &[("0", "a"), ("00", "b"), ("1", "c")]);
    let present_files = present(&doc);
    assert_eq!(
        validate_index(&doc, &present_files).map(|l| l.names),
        Err(Error::InvalidIndexError(IndexFault::PositionMismatch { expected: 1, found: 0 }))
    );
}

#[test]
fn index_positions_order_the_chunks() {
    let doc = document(ABC_DIGEST, &[("2", "c"), ("0", "a"), ("1", "b")]);
    let present_files = present(&doc);
    let list = validate_index(&doc, &present_files).unwrap();
    assert_eq!(list.names, vec!["a", "b", "c"]);
    assert_eq!(list.digest, hex::decode(ABC_DIGEST).unwrap());
}

#[test]
fn index_entry_faults_in_order() {
    let two = files(&["a", "b"], &[FileState::File, FileState::File]);
    assert_eq!(
        validate_index(&document("xyz", &[("0", "a")]), &files(&["a"], &[FileState::File])).map(|l| l.names),
        Err(Error::InvalidIndexError(IndexFault::InvalidDigest { digest: "xyz".to_string() }))
    );
    assert_eq!(
        validate_index(&document(ABC_DIGEST, &[]), &Vec::new()).map(|l| l.names),
        Err(Error::InvalidIndexError(IndexFault::Empty))
    );
    assert_eq!(
        validate_index(&document(ABC_DIGEST, &[("0", "a"), ("zz", "b")]), &two).map(|l| l.names),
        Err(Error::InvalidIndexError(IndexFault::InvalidKey { key: "zz".to_string() }))
    );
    assert_eq!(
        validate_index(&document(ABC_DIGEST, &[("0", "../a"), ("1", "b")]), &two)
            .map(|l| l.names),
        Err(Error::InvalidIndexError(IndexFault::NestedName {
            key: "0".to_string(),
            name: "../a".to_string()
        }))
    );
    assert_eq!(
        validate_index(
            &document(ABC_DIGEST, &[("0", "a"), ("1", "b")]),
            &files(&["a", "b"], &[FileState::File, FileState::Missing])
        )
        .map(|l| l.names),
        Err(Error::InvalidIndexError(IndexFault::MissingChunk {
            key: "1".to_string(),
            name: "b".to_string(),
            path: "d/b".to_string()
        }))
    );
    assert_eq!(
        validate_index(
            &document(ABC_DIGEST, &[("0", "a"), ("1", "b")]),
            &files(&["a", "b"], &[FileState::NotAFile, FileState::Missing])
        )
        .map(|l| l.names),
        Err(Error::InvalidIndexError(IndexFault::UnreadableChunk {
            key: "0".to_string(),
            name: "a".to_string(),
            path: "d/a".to_string()
        }))
    );
}

#[test]
fn index_text_faults() {
    assert!(matches!(
        parse_index("[unclosed"),
        Err(Error::UnreadableIndexError(ReadFault::Malformed { .. }))
    ));
    assert!(matches!(
        parse_index("00000000000000000000000000000000: abc\n"),
        Err(Error::InvalidIndexError(IndexFault::MissingDigest))
    ));
    let doc = parse_index("sha256: abcd\n'0': ef\n").unwrap();
    assert_eq!(doc.digest, "abcd");
    assert_eq!(doc.positions, vec![entry("0", "ef")]);
}

#[test]
fn split_index_takes_out_the_digest() {
    let doc = split_index(vec![entry("0", "a"), entry("sha256", "ff"), entry("1", "b")]).unwrap();
    assert_eq!(doc.digest, "ff");
    assert_eq!(doc.positions, vec![entry("0", "a"), entry("1", "b")]);
    assert!(matches!(
        split_index(vec![entry("0", "a")]),
        Err(Error::InvalidIndexError(IndexFault::MissingDigest))
    ));
}

#[test]
fn index_document_reads_back() {
    let entries = vec![entry("sha256", ABC_DIGEST), entry(&position_key(0), "a")];
    let text = index_document(&entries).unwrap();
    let doc = parse_index(&text).unwrap();
    assert_eq!(doc.digest, ABC_DIGEST);
    assert_eq!(doc.positions, vec![entry(&position_key(0), "a")]);
}

#[test]
fn existing_output_is_refused() {
    assert_eq!(
        check_unfold_paths("in".into(), true, "out".into(), true, 10),
        Err(Error::FlattenFileOutputError(OutputFault::AlreadyExists { path: "out".into() }))
    );
    assert_eq!(
        check_fold_paths("in".into(), true, "out".into(), true),
        Err(Error::UnflattenFileOutputError(OutputFault::AlreadyExists { path: "out".into() }))
    );
}

#[test]
fn path_checks() {
    assert_eq!(check_unfold_paths("in".into(), true, "out".into(), false, MAX_FILE_SIZE), Ok(()));
    assert_eq!(
        check_unfold_paths("in".into(), false, "out".into(), true, 10),
        Err(Error::FlattenFileInputError(InputFault::NotAFile { path: "in".into() }))
    );
    assert_eq!(
        check_unfold_paths("in".into(), true, "out".into(), false, MAX_FILE_SIZE + 1),
        Err(Error::FlattenFileInputError(InputFault::TooLarge {
            path: "in".into(),
            size: 4294967296
        }))
    );
    assert_eq!(
        check_fold_paths("in".into(), true, "out".into(), false),
        Ok(Progress::Start(Action::Fold))
    );
    assert_eq!(
        check_fold_paths("in".into(), false, "out".into(), false),
        Err(Error::UnflattenFileInputError(InputFault::NotADirectory { path: "in".into() }))
    );
    assert_eq!(
        check_index_file("d/index".into(), false, false),
        Err(Error::MissingIndexError("d/index".into()))
    );
    assert_eq!(
        check_index_file("d/index".into(), true, false),
        Err(Error::UnreadableIndexError(ReadFault::NotAFile { path: "d/index".into() }))
    );
    assert_eq!(check_index_file("d/index".into(), true, true), Ok(()));
}

#[test]
fn error_variant_names() {
    assert_eq!(Error::IOError("x".into()).variant(), "IOError");
    assert_eq!(
        Error::InvalidIndexError(IndexFault::Empty).variant(),
        "InvalidIndexError"
    );
    assert_eq!(
        Error::ChecksumMismatch(Mismatch { expected: String::new(), actual: String::new() })
            .variant(),
        "ChecksumMismatch"
    );
    assert_eq!(Error::MissingIndexError("i".into()).variant(), "MissingIndexError");
}

#[test]
fn exit_from_result() {
    assert!(matches!(Exit::from_result::<()>(Ok(())), Exit::Success));
    assert!(matches!(
        Exit::from_result::<()>(Err(Error::IOError("e".into()))),
        Exit::Error(Error::IOError(_))
    ));
}

#[test]
fn progress_reads_as_text() {
    assert_eq!(Progress::Start(Action::Unfold).text(), "Unfold start");
    assert_eq!(Progress::End(Action::Fold).text(), "Fold end");
    assert_eq!(
        Progress::Chunk { index: 1, count: 45, action: Action::Unfold }.text(),
        "Unfold chunk 1/45"
    );
    assert_eq!(
        Progress::Chunk { index: 45, count: 45, action: Action::Fold }.text(),
        "Fold chunk 45/45"
    );
    assert_eq!(Action::Unfold.text(), "Unfold");
}

#[test]
fn decimal_text_of_numbers() {
    assert_eq!(decimal_text(0), "0");
    assert_eq!(decimal_text(7), "7");
    assert_eq!(decimal_text(10), "10");
    assert_eq!(decimal_text(4294967296), "4294967296");
    assert_eq!(decimal_text(u64::MAX), "18446744073709551615");
}

#[test]
fn error_messages() {
    assert_eq!(
        Error::InvalidIndexError(IndexFault::PositionMismatch { expected: 2, found: 3 }).message(),
        "InvalidIndexError: mismatch index 2 != 3"
    );
    assert_eq!(
        Error::FlattenFileOutputError(OutputFault::AlreadyExists { path: "out".into() }).message(),
        "FlattenFileOutputError: out already exists"
    );
    assert_eq!(
        Error::FlattenFileInputError(InputFault::TooLarge { path: "f".into(), size: 4294967296 })
            .message(),
        "FlattenFileInputError: f is too large: 4294967296 bytes (max = 4294967295)"
    );
    assert_eq!(
        Error::CorruptedDataError(Corruption::Chunk {
            name: "ab".into(),
            path: "d/ab".into(),
            mismatch: Mismatch { expected: "ab".into(), actual: "cd".into() },
        })
        .message(),
        "CorruptedDataError: in chunk ab at d/ab: expected: ab actual: cd"
    );
    assert_eq!(
        Error::MissingIndexError("d/index".into()).message(),
        "MissingIndexError: 'd/index' does not exist"
    );
    assert_eq!(
        Error::InvalidIndexError(IndexFault::MissingChunk {
            key: "1".into(),
            name: "b".into(),
            path: "d/b".into()
        })
        .message(),
        "InvalidIndexError: '1' points to missing file 'b' at d/b"
    );
    assert_eq!(Error::IOError("denied".into()).message(), "IOError: denied");
}
