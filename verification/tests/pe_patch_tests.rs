use garlemald_client::pe_patch::{
    assert_log_patch, encryption_time_patch, hex_line, lobby_host_patch, patch_log_line, plan_pe_patches,
    PatchPlanError, PePatchError, PlannedWrite, ASSERT_LOG_PATCH_RVA, ENCRYPTION_TIME_PATCH_RVA,
    LOBBY_HOST_NAME_RVA, LOBBY_HOST_NAME_SLOT_SIZE,
};

#[test]
fn host_patch_appends_nul() {
    let p = lobby_host_patch("test.example").unwrap();
    assert_eq!(p.rva, LOBBY_HOST_NAME_RVA);
    assert_eq!(*p.bytes.last().unwrap(), 0);
    assert_eq!(&p.bytes[..p.bytes.len() - 1], b"test.example");
}

#[test]
fn host_patch_rejects_oversize_input() {
    let too_long = "x".repeat(LOBBY_HOST_NAME_SLOT_SIZE);
    assert!(lobby_host_patch(&too_long).is_err());
}

#[test]
fn encryption_patch_is_five_bytes() {
    let p = encryption_time_patch();
    assert_eq!(p.bytes.len(), 5);
    assert_eq!(p.rva, ENCRYPTION_TIME_PATCH_RVA);
}

#[test]
fn assert_log_patch_is_sixteen_bytes() {
    let p = assert_log_patch();
    assert_eq!(p.bytes.len(), 16);
    assert_eq!(p.rva, ASSERT_LOG_PATCH_RVA);
    assert_eq!(&p.bytes[0..6], &[0xFF, 0x15, 0x64, 0xE1, 0xF3, 0x00]);
    assert_eq!(&p.bytes[6..10], &[0x8D, 0x64, 0x24, 0xFC]);
    assert_eq!(&p.bytes[10..16], &[0x90; 6]);
}

#[test]
fn host_patch_accepts_nineteen_bytes() {
    let host = "y".repeat(LOBBY_HOST_NAME_SLOT_SIZE - 1);
    let p = lobby_host_patch(&host).unwrap();
    assert_eq!(p.bytes.len(), LOBBY_HOST_NAME_SLOT_SIZE);
}

#[test]
fn host_patch_error_reports_length() {
    let err = lobby_host_patch(&"x".repeat(25)).unwrap_err();
    assert_eq!(err, PePatchError::HostNameTooLong { len: 25 });
    assert_eq!(err.message(), "lobby host name too long: 25 bytes (limit 20 including NUL)");
}

#[test]
fn garbage_is_not_a_pe_image() {
    let data = b"definitely not an executable".to_vec();
    let patches = vec![encryption_time_patch()];
    let err = plan_pe_patches(&data, &patches).unwrap_err();
    assert_eq!(err, PatchPlanError::InvalidPe);
    assert_eq!(err.message("/tmp/x.exe"), "parsing PE headers of /tmp/x.exe");
}

#[test]
fn unmapped_rva_message_is_upper_hex() {
    let err = PatchPlanError::UnmappedRva { rva: 0x9A15E3 };
    assert_eq!(err.message("game.exe"), "RVA 0x9A15E3 is not mapped to any PE section of game.exe");
}

#[test]
fn hex_line_formats_pairs() {
    assert_eq!(hex_line(&[0xB8, 0x12, 0x0E]), "B8 12 0E");
    assert_eq!(hex_line(&[]), "");
}

#[test]
fn patch_log_line_shows_before_and_after() {
    let w = PlannedWrite { offset: 0x1A2B, bytes: vec![0xB8, 0x12], before: vec![0xE8, 0x00] };
    assert_eq!(
        patch_log_line(0x9A15E3, &w),
        "PE patch: RVA 0x9A15E3 -> file offset 0x1A2B (2 bytes)\n    before: E8 00\n    after:  B8 12"
    );
}

fn minimal_pe32() -> Vec<u8> {
    // A 32-bit PE image with one section `.text` at RVA 0x1000 of 0x200 bytes,
    // stored at file offset 0x200.
    let mut d = vec![0u8; 0x400];
    d[0] = b'M';
    d[1] = b'Z';
    d[0x3C..0x40].copy_from_slice(&0x80u32.to_le_bytes());
    let pe = 0x80;
    d[pe..pe + 4].copy_from_slice(b"PE\0\0");
    let coff = pe + 4;
    d[coff..coff + 2].copy_from_slice(&0x14Cu16.to_le_bytes()); // i386
    d[coff + 2..coff + 4].copy_from_slice(&1u16.to_le_bytes()); // one section
    d[coff + 16..coff + 18].copy_from_slice(&224u16.to_le_bytes()); // optional header size
    d[coff + 18..coff + 20].copy_from_slice(&0x0102u16.to_le_bytes());
    let opt = coff + 20;
    d[opt..opt + 2].copy_from_slice(&0x10Bu16.to_le_bytes()); // PE32 magic
    d[opt + 16..opt + 20].copy_from_slice(&0x1000u32.to_le_bytes()); // entry point
    d[opt + 28..opt + 32].copy_from_slice(&0x400000u32.to_le_bytes()); // image base
    d[opt + 32..opt + 36].copy_from_slice(&0x1000u32.to_le_bytes()); // section alignment
    d[opt + 36..opt + 40].copy_from_slice(&0x200u32.to_le_bytes()); // file alignment
    d[opt + 40..opt + 42].copy_from_slice(&4u16.to_le_bytes());
    d[opt + 48..opt + 50].copy_from_slice(&4u16.to_le_bytes());
    d[opt + 56..opt + 60].copy_from_slice(&0x2000u32.to_le_bytes()); // size of image
    d[opt + 60..opt + 64].copy_from_slice(&0x200u32.to_le_bytes()); // size of headers
    d[opt + 68..opt + 70].copy_from_slice(&3u16.to_le_bytes()); // subsystem
    d[opt + 92..opt + 96].copy_from_slice(&16u32.to_le_bytes()); // data directories
    let sec = opt + 224;
    d[sec..sec + 5].copy_from_slice(b".text");
    d[sec + 8..sec + 12].copy_from_slice(&0x200u32.to_le_bytes()); // virtual size
    d[sec + 12..sec + 16].copy_from_slice(&0x1000u32.to_le_bytes()); // virtual address
    d[sec + 16..sec + 20].copy_from_slice(&0x200u32.to_le_bytes()); // raw size
    d[sec + 20..sec + 24].copy_from_slice(&0x200u32.to_le_bytes()); // raw pointer
    d[sec + 36..sec + 40].copy_from_slice(&0x60000020u32.to_le_bytes());
    d[0x210] = 0xAB;
    d
}

#[test]
fn mapped_rva_lands_at_its_file_offset() {
    let data = minimal_pe32();
    let patch = garlemald_client::pe_patch::PePatch { rva: 0x1010, bytes: vec![1, 2] };
    let plan = plan_pe_patches(&data, &vec![patch]).unwrap();
    assert_eq!(plan.len(), 1);
    assert_eq!(plan[0].offset, 0x210);
    assert_eq!(plan[0].bytes, vec![1, 2]);
    assert_eq!(plan[0].before, vec![0xAB, 0x00]);
}

#[test]
fn rva_outside_every_section_is_refused() {
    let data = minimal_pe32();
    let patches = vec![encryption_time_patch()];
    let err = plan_pe_patches(&data, &patches).unwrap_err();
    assert_eq!(err, PatchPlanError::UnmappedRva { rva: ENCRYPTION_TIME_PATCH_RVA });
}
