use garlemald_client::downloader::{
    crc32_extend, crc32_of, finish_verdict, presence_verdict, tmp_download_path, worth_checksumming, BodyRead,
    BodyStep, DownloadProgress, DownloadResult, Downloader,
};

#[test]
fn cancel_before_download_is_sticky() {
    let mut d = Downloader::new();
    d.progress_mut().cancel();
    assert!(d.progress().cancel_flag);
    assert!(d.progress().is_cancelled());
}

#[test]
fn compute_crc_matches_known_string() {
    assert_eq!(crc32_of(b"123456789"), 0xCBF43926);
}

#[test]
fn crc_continues_across_chunks() {
    let first = crc32_of(b"12345");
    assert_eq!(crc32_extend(first, b"6789"), 0xCBF43926);
    assert_eq!(crc32_of(b""), 0);
}

#[test]
fn chunks_are_counted_and_checksummed() {
    let mut d = Downloader::new();
    d.begin();
    let crc = d.receive_chunk(0, b"1234");
    let crc = d.receive_chunk(crc, b"56789");
    assert_eq!(crc, 0xCBF43926);
    assert_eq!(d.progress().bytes(), 9);
}

#[test]
fn verdicts_check_size_then_checksum() {
    assert_eq!(finish_verdict(9, 9, 1, 1), DownloadResult::Success);
    assert_eq!(finish_verdict(8, 9, 1, 1), DownloadResult::BadFileSize);
    assert_eq!(finish_verdict(8, 9, 1, 2), DownloadResult::BadFileSize);
    assert_eq!(finish_verdict(9, 9, 1, 2), DownloadResult::BadChecksum);
    assert!(worth_checksumming(true, 5, 5));
    assert!(!worth_checksumming(true, 4, 5));
    assert!(!worth_checksumming(false, 5, 5));
}

#[test]
fn partial_files_get_a_suffix() {
    assert_eq!(tmp_download_path("/dl/D2010.patch"), "/dl/D2010.patch.part");
}

#[test]
fn progress_counts_wrap_and_reset() {
    let mut p = DownloadProgress::new();
    p.add_bytes(u64::MAX);
    p.add_bytes(2);
    assert_eq!(p.bytes(), 1);
    p.cancel();
    p.reset();
    assert_eq!(p.bytes(), 0);
    assert!(!p.is_cancelled());
}

#[test]
fn crc_of_chunks_is_crc_of_the_whole() {
    let whole = garlemald_client::downloader::crc32_of(b"123456789");
    assert_eq!(whole, 0xCBF43926);
    let first = garlemald_client::downloader::crc32_of(b"1234");
    assert_eq!(garlemald_client::downloader::crc32_extend(first, b"56789"), whole);
    assert_eq!(garlemald_client::downloader::crc32_extend(whole, b""), whole);
}

#[test]
fn body_reads_step_the_download() {
    assert_eq!(presence_verdict(true), Some(DownloadResult::AlreadyUpToDate));
    assert_eq!(presence_verdict(false), None);
    let mut p = DownloadProgress::new();
    assert_eq!(p.cancel_verdict(), None);
    let crc = match p.on_body_read(0, BodyRead::Chunk(b"1234"), 9, 0xCBF43926) {
        BodyStep::Continue(c) => c,
        other => panic!("unexpected step {other:?}"),
    };
    let crc = match p.on_body_read(crc, BodyRead::Chunk(b"56789"), 9, 0xCBF43926) {
        BodyStep::Continue(c) => c,
        other => panic!("unexpected step {other:?}"),
    };
    assert_eq!(p.bytes(), 9);
    assert_eq!(p.on_body_read(crc, BodyRead::End, 9, 0xCBF43926), BodyStep::Finished(DownloadResult::Success));
    assert_eq!(p.on_body_read(crc, BodyRead::End, 10, 0xCBF43926), BodyStep::Finished(DownloadResult::BadFileSize));
    assert_eq!(p.on_body_read(crc, BodyRead::End, 9, 1), BodyStep::Finished(DownloadResult::BadChecksum));
    assert_eq!(p.on_body_read(crc, BodyRead::Failed, 9, 0xCBF43926), BodyStep::Finished(DownloadResult::Network));
    p.cancel();
    assert_eq!(p.cancel_verdict(), Some(DownloadResult::Cancelled));
}
