use std::io::Write;

use garlemald_client::patch_apply::{
    checked_op_target, entry_contents, join_patch_path, op_target, parent_path, patch_path_text, plan_op, ApplyError, FsAction,
    PatchApplyResult,
};
use garlemald_client::zipatch::{parse_zipatch, ByteRange, Compression, PatchOp, ZiPatchError};

const MAGIC: [u8; 12] = [0x91, b'Z', b'I', b'P', b'A', b'T', b'C', b'H', 0x0D, 0x0A, 0x1A, 0x0A];

fn chunk(tag: &[u8; 4], body: &[u8]) -> Vec<u8> {
    let mut c = Vec::new();
    c.extend_from_slice(&(body.len() as u32).to_be_bytes());
    c.extend_from_slice(tag);
    c.extend_from_slice(body);
    c.extend_from_slice(&[0, 0, 0, 0]);
    c
}

fn dir_body(path: &str) -> Vec<u8> {
    let mut b = Vec::new();
    b.extend_from_slice(&(path.len() as u32).to_be_bytes());
    b.extend_from_slice(path.as_bytes());
    b.extend_from_slice(&[9, 9, 9, 9]);
    b
}

fn item(hash_mode: u32, compression: u32, data: &[u8], new_size: u32) -> Vec<u8> {
    let mut b = Vec::new();
    b.extend_from_slice(&hash_mode.to_le_bytes());
    b.extend_from_slice(&[0u8; 40]);
    b.extend_from_slice(&compression.to_le_bytes());
    b.extend_from_slice(&(data.len() as u32).to_be_bytes());
    b.extend_from_slice(&0u32.to_be_bytes());
    b.extend_from_slice(&new_size.to_be_bytes());
    b.extend_from_slice(data);
    b
}

fn entry_body(path: &str, items: &[Vec<u8>]) -> Vec<u8> {
    let mut b = Vec::new();
    b.extend_from_slice(&(path.len() as u32).to_be_bytes());
    b.extend_from_slice(path.as_bytes());
    b.extend_from_slice(&(items.len() as u32).to_be_bytes());
    for i in items {
        b.extend_from_slice(i);
    }
    b
}

fn zlib(data: &[u8]) -> Vec<u8> {
    let mut e = flate2::write::ZlibEncoder::new(Vec::new(), flate2::Compression::default());
    e.write_all(data).unwrap();
    e.finish().unwrap()
}

#[test]
fn join_patch_path_converts_backslashes() {
    let result = join_patch_path("/game", "subdir\\file.dat");
    assert!(result.contains("subdir"));
    assert!(result.contains("file.dat"));
    assert_eq!(result, "/game/subdir/file.dat");
}

#[test]
fn rejects_non_zipatch_file() {
    let script = parse_zipatch(b"definitely not a patch");
    assert!(script.ops.is_empty());
    let err = script.error.unwrap();
    assert_eq!(err, ZiPatchError::BadSignature);
    assert!(err.message("not-a-patch.bin").contains("not a ZIPATCH"));
}

#[test]
fn short_file_has_truncated_signature() {
    let script = parse_zipatch(&MAGIC[..5]);
    assert_eq!(script.error, Some(ZiPatchError::TruncatedSignature));
    assert_eq!(ZiPatchError::TruncatedSignature.message("p"), "reading ZIPATCH signature");
}

#[test]
fn decodes_directories_and_entries() {
    let mut d = MAGIC.to_vec();
    d.extend(chunk(b"FHDR", b"abcd"));
    d.extend(chunk(b"ADIR", &dir_body("data\\sub")));
    d.extend(chunk(b"ETRY", &entry_body("data\\sub\\f.dat", &[item(0x41, 0x4E, b"hello", 5)])));
    d.extend(chunk(b"DELD", &dir_body("old")));
    let script = parse_zipatch(&d);
    assert_eq!(script.error, None);
    assert_eq!(script.ops.len(), 4);
    match script.ops[0] {
        PatchOp::CreateDir { path } => assert_eq!(patch_path_text(&d, path), "data\\sub"),
        _ => panic!("expected a directory"),
    }
    match script.ops[2] {
        PatchOp::WriteEntry { path, compression, data } => {
            assert_eq!(patch_path_text(&d, path), "data\\sub\\f.dat");
            assert_eq!(compression, Compression::Stored);
            assert_eq!(entry_contents(&d, compression, data), (b"hello".to_vec(), true));
        }
        _ => panic!("expected entry data"),
    }
    assert!(matches!(script.ops[1], PatchOp::OpenEntry { .. }));
    assert!(matches!(script.ops[3], PatchOp::DeleteDir { .. }));
    assert_eq!(op_target(&d, "/game", &script.ops[2]), "/game/data/sub/f.dat");
    assert_eq!(checked_op_target(&d, "/game", &script.ops[3]), Some("/game/old".to_string()));
    let outside = PatchOp::CreateDir { path: ByteRange { start: d.len() - 2, len: 3 } };
    assert_eq!(checked_op_target(&d, "/game", &outside), None);
    let huge = PatchOp::DeleteDir { path: ByteRange { start: usize::MAX, len: 1 } };
    assert_eq!(checked_op_target(&d, "/game", &huge), None);
}

#[test]
fn zlib_entries_inflate() {
    let packed = zlib(b"compressed contents");
    let mut d = MAGIC.to_vec();
    d.extend(chunk(b"ETRY", &entry_body("z.bin", &[item(0x44, 0x4E, b"", 0), item(0x4D, 0x5A, &packed, 19)])));
    let script = parse_zipatch(&d);
    assert_eq!(script.error, None);
    assert_eq!(script.ops.len(), 2);
    match script.ops[1] {
        PatchOp::WriteEntry { compression, data, .. } => {
            assert_eq!(compression, Compression::Zlib);
            assert_eq!(entry_contents(&d, compression, data), (b"compressed contents".to_vec(), true));
        }
        _ => panic!("expected entry data"),
    }
}

#[test]
fn corrupt_zlib_does_not_inflate() {
    let d = b"not zlib at all".to_vec();
    assert_eq!(entry_contents(&d, Compression::Zlib, ByteRange { start: 0, len: d.len() }), (Vec::new(), false));
}

#[test]
fn cut_zlib_keeps_what_inflated() {
    let payload: Vec<u8> = (0..20_000u32).map(|i| (i * 7 % 251) as u8).collect();
    let z = zlib(&payload);
    let cut = &z[..z.len() / 2];
    let (bytes, _) = entry_contents(cut, Compression::Zlib, ByteRange { start: 0, len: cut.len() });
    assert!(bytes.len() < payload.len());
    assert!(payload.starts_with(&bytes));
}

#[test]
fn unknown_chunk_stops_decoding() {
    let mut d = MAGIC.to_vec();
    d.extend(chunk(b"ADIR", &dir_body("a")));
    d.extend(chunk(b"ZZZZ", b""));
    d.extend(chunk(b"ADIR", &dir_body("b")));
    let script = parse_zipatch(&d);
    assert_eq!(script.ops.len(), 1);
    let err = script.error.unwrap();
    assert_eq!(err, ZiPatchError::UnknownChunk { tag: u32::from_be_bytes(*b"ZZZZ") });
    assert_eq!(err.message("p"), "unhandled ZIPATCH chunk: \"ZZZZ\"");
}

#[test]
fn bad_modes_and_misplaced_data_are_refused() {
    let mut d = MAGIC.to_vec();
    d.extend(chunk(b"ETRY", &entry_body("f", &[item(0x42, 0x4E, b"", 0)])));
    let err = parse_zipatch(&d).error.unwrap();
    assert_eq!(err, ZiPatchError::BadHashMode { mode: 0x42 });
    assert_eq!(err.message("p"), "unexpected ETRY hash mode: 0x42");

    let mut d = MAGIC.to_vec();
    d.extend(chunk(b"ETRY", &entry_body("f", &[item(0x41, 0x4F, b"", 0)])));
    let err = parse_zipatch(&d).error.unwrap();
    assert_eq!(err.message("p"), "unexpected compression mode: 0x4F");

    let mut d = MAGIC.to_vec();
    d.extend(chunk(b"ETRY", &entry_body("f", &[item(0x41, 0x4E, b"xy", 2), item(0x41, 0x4E, b"", 0)])));
    let err = parse_zipatch(&d).error.unwrap();
    assert_eq!(err, ZiPatchError::DataInNonFinalItem { compressed_size: 2 });
    assert_eq!(err.message("p"), "non-final ETRY item carries data (compressed_size=2)");
}

#[test]
fn truncated_chunk_crc_is_reported() {
    let mut d = MAGIC.to_vec();
    let mut c = chunk(b"FHDR", b"abcd");
    c.truncate(c.len() - 2);
    d.extend(c);
    let script = parse_zipatch(&d);
    assert_eq!(script.error, Some(ZiPatchError::TruncatedChunkCrc));
    assert_eq!(ZiPatchError::TruncatedChunkCrc.message("p"), "reading chunk CRC");
}

#[test]
fn directory_operations_warn_or_act() {
    let op = PatchOp::CreateDir { path: ByteRange { start: 0, len: 0 } };
    let acts = plan_op(&op, "/game/data", true, true).unwrap();
    assert_eq!(acts.len(), 1);
    match &acts[0] {
        FsAction::Warn { message } => assert_eq!(
            message,
            "Warning: Directory '/game/data' creation requested but directory already exists."
        ),
        other => panic!("unexpected {other:?}"),
    }
    let acts = plan_op(&op, "/game/data", false, true).unwrap();
    assert!(matches!(&acts[0], FsAction::CreateDirAll { path } if path == "/game/data"));

    let op = PatchOp::DeleteDir { path: ByteRange { start: 0, len: 0 } };
    let acts = plan_op(&op, "/game/old", false, true).unwrap();
    assert!(matches!(&acts[0], FsAction::Warn { message }
        if message == "Warning: Directory '/game/old' deletion requested but directory doesn't exist."));
}

#[test]
fn entries_create_missing_parents_and_warn() {
    let op = PatchOp::OpenEntry { path: ByteRange { start: 0, len: 0 } };
    let acts = plan_op(&op, "/game/data/f.dat", false, false).unwrap();
    assert_eq!(acts.len(), 3);
    assert!(matches!(&acts[0], FsAction::Warn { message }
        if message == "Warning: Directory '/game/data' doesn't exist. Creating."));
    assert!(matches!(&acts[1], FsAction::CreateDirAll { path } if path == "/game/data"));
    assert!(matches!(&acts[2], FsAction::Warn { message }
        if message == "Warning: File '/game/data/f.dat' doesn't exist. Creating."));
    assert!(plan_op(&op, "/game/data/f.dat", true, true).unwrap().is_empty());
    let err = plan_op(&op, "", true, true).unwrap_err();
    assert_eq!(err, ApplyError::NoParent { path: String::new() });
    assert_eq!(err.message(), "ETRY path has no parent: ");
}

#[test]
fn parents_of_paths() {
    assert_eq!(parent_path("/game/data/f.dat"), Some("/game/data".to_string()));
    assert_eq!(parent_path("/f"), Some("/".to_string()));
    assert_eq!(parent_path("f"), Some(String::new()));
    assert_eq!(parent_path("/"), None);
    assert_eq!(parent_path(""), None);
}

#[test]
fn apply_result_starts_empty() {
    assert!(PatchApplyResult::new().messages.is_empty());
}

#[test]
fn truncated_tag_and_body_are_reported() {
    let mut d = MAGIC.to_vec();
    d.extend_from_slice(&[0, 0, 0, 4, b'F', b'H']);
    let script = parse_zipatch(&d);
    assert_eq!(script.error, Some(ZiPatchError::TruncatedChunkTag));
    assert_eq!(ZiPatchError::TruncatedChunkTag.message("p"), "reading chunk tag");

    let mut d = MAGIC.to_vec();
    d.extend_from_slice(&[0, 0, 0, 2, b'A', b'D', b'I', b'R', 0, 0, 0, 0]);
    let script = parse_zipatch(&d);
    assert!(script.ops.is_empty());
    assert_eq!(script.error, Some(ZiPatchError::TruncatedChunkBody));
    assert_eq!(ZiPatchError::TruncatedChunkBody.message("p"), "failed to fill whole buffer");
}

#[test]
fn a_few_trailing_bytes_end_the_file_quietly() {
    let mut d = MAGIC.to_vec();
    d.extend(chunk(b"APLY", b"xyz"));
    d.extend_from_slice(&[1, 2, 3]);
    let script = parse_zipatch(&d);
    assert_eq!(script.error, None);
    assert!(script.ops.is_empty());
}

#[test]
fn stored_data_cut_short_writes_whole_blocks_only() {
    let data = vec![7u8; 0x4000 + 10];
    let mut body = entry_body("big.bin", &[item(0x41, 0x4E, &data, 0x5000)]);
    // Claim more data than the chunk holds.
    let size_at = 4 + "big.bin".len() + 4 + 48;
    body[size_at..size_at + 4].copy_from_slice(&0x5000u32.to_be_bytes());
    let mut d = MAGIC.to_vec();
    d.extend(chunk(b"ETRY", &body));
    let script = parse_zipatch(&d);
    assert_eq!(script.error, Some(ZiPatchError::TruncatedChunkBody));
    match script.ops[1] {
        PatchOp::WriteEntry { data: range, .. } => assert_eq!(range.len, 0x4000),
        _ => panic!("expected entry data"),
    }
}
