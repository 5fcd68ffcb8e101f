use garlemald_client::downloader::DownloadResult;
use garlemald_client::manifest::patch_manifest;
use garlemald_client::worker::{crc_verdict, size_verdict, PatcherShared, Phase, ValidateOutcome};

#[test]
fn phases_survive_their_byte_encoding() {
    let all = [
        Phase::Starting,
        Phase::Downloading,
        Phase::Patching,
        Phase::Done,
        Phase::Error,
        Phase::Cancelled,
        Phase::Validating,
    ];
    for (i, p) in all.iter().enumerate() {
        assert_eq!(p.to_u8(), i as u8);
        assert_eq!(Phase::from_u8(p.to_u8()), *p);
    }
    assert_eq!(Phase::from_u8(7), Phase::Starting);
    assert_eq!(Phase::from_u8(255), Phase::Starting);
}

#[test]
fn terminal_phases() {
    assert!(Phase::Done.is_terminal());
    assert!(Phase::Error.is_terminal());
    assert!(Phase::Cancelled.is_terminal());
    assert!(!Phase::Patching.is_terminal());
    assert!(!Phase::Validating.is_terminal());
}

#[test]
fn fresh_progress() {
    let s = PatcherShared::new();
    assert_eq!(s.phase(), Phase::Starting);
    assert!(s.error().is_none());
    assert!(s.warnings().is_empty());
    assert_eq!(s.total_patches, 52);
    assert!(!s.is_terminal());
}

#[test]
fn download_outcomes() {
    let entry = patch_manifest()[0];
    let mut s = PatcherShared::new();
    assert!(s.on_download_result(&entry, DownloadResult::Success));
    assert!(s.on_download_result(&entry, DownloadResult::AlreadyUpToDate));
    assert_eq!(s.previous_completed_bytes, 2 * entry.size);
    assert!(!s.on_download_result(&entry, DownloadResult::BadChecksum));
    assert_eq!(s.phase(), Phase::Error);
    assert_eq!(
        s.error().unwrap(),
        "Download failed: bad checksum for 2d2a390f/patch/D2010.09.18.0000.patch"
    );
    let mut s = PatcherShared::new();
    assert!(!s.on_download_result(&entry, DownloadResult::Network));
    assert_eq!(s.error().unwrap(), "Download failed: network error on 2d2a390f/patch/D2010.09.18.0000.patch");
    let mut s = PatcherShared::new();
    assert!(!s.on_download_result(&entry, DownloadResult::BadFileSize));
    assert_eq!(s.error().unwrap(), "Download failed: bad file size for 2d2a390f/patch/D2010.09.18.0000.patch");
    let mut s = PatcherShared::new();
    assert!(!s.on_download_result(&entry, DownloadResult::Cancelled));
    assert_eq!(s.phase(), Phase::Cancelled);
    assert!(s.error().is_none());
    let mut s = PatcherShared::new();
    s.on_download_error(&entry, "disk full");
    assert_eq!(s.error().unwrap(), "Download error on 2d2a390f/patch/D2010.09.18.0000.patch: disk full");
}

#[test]
fn validation_outcomes() {
    let entry = patch_manifest()[0];
    let mut s = PatcherShared::new();
    s.begin_validation(3);
    assert_eq!(s.download_idx, 3);
    assert!(s.on_validate_outcome(&entry, "/src/a.patch", ValidateOutcome::Valid));
    assert_eq!(s.previous_completed_bytes, entry.size);
    assert!(!s.on_validate_outcome(&entry, "/src/a.patch", ValidateOutcome::SizeMismatch { actual: 10 }));
    assert_eq!(
        s.error().unwrap(),
        format!("Local patch /src/a.patch has wrong size (10 bytes, expected {})", entry.size)
    );
    let mut s = PatcherShared::new();
    s.on_validate_outcome(&entry, "/p", ValidateOutcome::Crc32Mismatch);
    assert_eq!(s.error().unwrap(), "Local patch /p failed CRC32 check");
    let mut s = PatcherShared::new();
    s.on_validate_outcome(&entry, "/p", ValidateOutcome::Io { message: "denied".into() });
    assert_eq!(s.error().unwrap(), "Reading local patch /p failed: denied");
    assert_eq!(size_verdict(5, 5), None);
    assert_eq!(size_verdict(4, 5), Some(ValidateOutcome::SizeMismatch { actual: 4 }));
    assert_eq!(crc_verdict(1, 1), ValidateOutcome::Valid);
    assert_eq!(crc_verdict(1, 2), ValidateOutcome::Crc32Mismatch);
}

#[test]
fn cancellation_and_patching() {
    let mut s = PatcherShared::new();
    assert!(!s.check_cancel());
    s.request_cancel();
    assert!(s.is_cancel_requested());
    assert!(s.check_cancel());
    assert_eq!(s.phase(), Phase::Cancelled);

    let mut s = PatcherShared::new();
    s.set_phase(Phase::Patching);
    s.on_patch_applied(vec!["w1".to_string(), "w2".to_string()]);
    assert_eq!(s.warnings(), vec!["w1".to_string(), "w2".to_string()]);
    s.finish(Some("read-only"));
    assert_eq!(s.phase(), Phase::Done);
    assert_eq!(s.warnings().last().unwrap(), "Failed to write version files: read-only");

    let mut s = PatcherShared::new();
    s.on_patch_failed("D2010.patch", "reading chunk CRC");
    assert_eq!(s.error().unwrap(), "Applying patch D2010.patch failed: reading chunk CRC");
    let mut s = PatcherShared::new();
    s.on_local_scan_failed("no such directory");
    assert_eq!(s.error().unwrap(), "Local patch scan failed: no such directory");
}

#[test]
fn a_run_of_valid_files_counts_every_size() {
    let m = patch_manifest();
    let mut s = PatcherShared::new();
    s.set_phase(Phase::Validating);
    for entry in m.iter().take(3) {
        assert!(s.on_validate_outcome(entry, "p", ValidateOutcome::Valid));
    }
    assert_eq!(s.previous_completed_bytes, m[0].size + m[1].size + m[2].size);
    assert_eq!(s.phase(), Phase::Validating);
    assert!(!s.on_validate_outcome(&m[3], "p", ValidateOutcome::Crc32Mismatch));
    assert_eq!(s.phase(), Phase::Error);
}

#[test]
fn applied_patch_warnings_keep_their_order() {
    let mut s = PatcherShared::new();
    s.set_phase(Phase::Patching);
    s.on_patch_applied(vec!["a".to_string(), "b".to_string()]);
    s.on_patch_applied(vec![]);
    s.on_patch_applied(vec!["c".to_string()]);
    assert_eq!(s.warnings(), vec!["a".to_string(), "b".to_string(), "c".to_string()]);
    assert_eq!(s.phase(), Phase::Patching);
}
