//! Downloading one patch file: progress bookkeeping, the CRC-32 of what was
//! received, and the verdict on a finished or already present file.

use vstd::prelude::*;

use crate::manifest::{PatchEntry, PATCH_URL_BASE};

verus! {

/// How a download ended.
#[derive(Debug, Clone, Copy, PartialEq, Eq, Structural)]
pub enum DownloadResult {
    Success,
    AlreadyUpToDate,
    BadChecksum,
    BadFileSize,
    Network,
    Cancelled,
}

/// Progress of the download under way: bytes received so far and whether
/// cancellation was asked for.
#[derive(Debug, Clone, Copy, PartialEq, Eq, Structural)]
pub struct DownloadProgress {
    pub bytes_downloaded: u64,
    pub cancel_flag: bool,
}

/// `a + b` modulo 2^64, as an atomic `fetch_add` counts.
pub open spec fn add_mod64(a: u64, b: u64) -> u64 {
    ((a + b) % 0x1_0000_0000_0000_0000int) as u64
}

impl DownloadProgress {
    /// No bytes received, not cancelled.
    pub fn new() -> (r: Self)
        ensures
            r.bytes_downloaded == 0,
            !r.cancel_flag,
    {
        DownloadProgress { bytes_downloaded: 0, cancel_flag: false }
    }

    /// Asks for the download to stop; the request stays until the next
    /// download starts.
    pub fn cancel(&mut self)
        ensures
            final(self).cancel_flag,
            final(self).bytes_downloaded == old(self).bytes_downloaded,
    {
        self.cancel_flag = true;
    }

    /// Whether cancellation was asked for.
    pub fn is_cancelled(&self) -> (r: bool)
        ensures
            r == self.cancel_flag,
    {
        self.cancel_flag
    }

    /// Bytes received so far.
    pub fn bytes(&self) -> (r: u64)
        ensures
            r == self.bytes_downloaded,
    {
        self.bytes_downloaded
    }

    /// Counts `n` more bytes received (wrapping, as `fetch_add` does).
    pub fn add_bytes(&mut self, n: u64)
        ensures
            final(self).bytes_downloaded == add_mod64(old(self).bytes_downloaded, n),
            final(self).cancel_flag == old(self).cancel_flag,
    {
        self.bytes_downloaded = self.bytes_downloaded.wrapping_add(n);
    }

    /// Back to the start of a download: no bytes, no cancellation.
    pub fn reset(&mut self)
        ensures
            final(self).bytes_downloaded == 0,
            !final(self).cancel_flag,
    {
        self.bytes_downloaded = 0;
        self.cancel_flag = false;
    }
}

/// Downloads patch files, reporting through its progress.
#[derive(Debug)]
pub struct Downloader {
    pub progress: DownloadProgress,
}

impl Downloader {
    /// A downloader with fresh progress.
    pub fn new() -> (r: Self)
        ensures
            r.progress.bytes_downloaded == 0,
            !r.progress.cancel_flag,
    {
        Downloader { progress: DownloadProgress::new() }
    }

    /// Its progress.
    pub fn progress(&self) -> (r: &DownloadProgress)
        ensures
            *r == self.progress,
    {
        &self.progress
    }

    /// Its progress, to update or cancel.
    pub fn progress_mut(&mut self) -> (r: &mut DownloadProgress)
        ensures
            *r == old(self).progress,
            final(self).progress == *final(r),
    {
        &mut self.progress
    }

    /// The start of a download: progress reset.
    pub fn begin(&mut self)
        ensures
            final(self).progress.bytes_downloaded == 0,
            !final(self).progress.cancel_flag,
    {
        self.progress.reset();
    }

    /// One chunk of the body received: counted, and folded into `crc`, the
    /// CRC-32 of what came before it. Returns the CRC-32 so far.
    pub fn receive_chunk(&mut self, crc: u32, chunk: &[u8]) -> (r: u32)
        ensures
            r == crc32_resumed(crc, chunk@),
            final(self).progress.bytes_downloaded == add_mod64(old(self).progress.bytes_downloaded, chunk@.len() as u64),
            final(self).progress.cancel_flag == old(self).progress.cancel_flag,
    {
        self.progress.add_bytes(chunk.len() as u64);
        crc32_extend(crc, chunk)
    }
}

/// The CRC-32 (IEEE) that `crc32fast` computes for `data` when started
/// from the state `init`; from state 0 it is the CRC-32 of `data`.
pub uninterp spec fn crc32_resumed(init: u32, data: Seq<u8>) -> u32;

/// `crc32fast::Hasher::new_with_initial(init)` fed `data`, then finalized.
/// Claimed: the result is a function of `init` and `data`; the hasher's
/// state is the CRC-32 so far, which `finalize` returns as it is, so no
/// data leaves it unchanged and data split in two gives the same CRC-32 as
/// the second part resumed from the first. Which value it is, is not
/// stated.
#[verifier::external_body]
fn crc32_update(init: u32, data: &[u8]) -> (r: u32)
    ensures
        r == crc32_resumed(init, data@),
        data@.len() == 0 ==> r == init,
        forall|a: Seq<u8>, b: Seq<u8>|
            #![trigger crc32_resumed(crc32_resumed(init, a), b)]
            a + b == data@ ==> r == crc32_resumed(crc32_resumed(init, a), b),
{
    let mut h = crc32fast::Hasher::new_with_initial(init);
    h.update(data);
    h.finalize()
}

/// The CRC-32 of the bytes checksummed so far (`crc`) followed by `data`.
pub fn crc32_extend(crc: u32, data: &[u8]) -> (r: u32)
    ensures
        r == crc32_resumed(crc, data@),
        data@.len() == 0 ==> r == crc,
        forall|a: Seq<u8>, b: Seq<u8>|
            #![trigger crc32_resumed(crc32_resumed(crc, a), b)]
            a + b == data@ ==> r == crc32_resumed(crc32_resumed(crc, a), b),
{
    crc32_update(crc, data)
}

/// The CRC-32 of `data`.
pub fn crc32_of(data: &[u8]) -> (r: u32)
    ensures
        r == crc32_resumed(0, data@),
        forall|a: Seq<u8>, b: Seq<u8>|
            #![trigger crc32_resumed(crc32_resumed(0, a), b)]
            a + b == data@ ==> r == crc32_resumed(crc32_resumed(0, a), b),
{
    crc32_update(0, data)
}

/// The verdict on a finished download: the size is checked first, then the
/// checksum.
pub open spec fn spec_finish_verdict(received: u64, expected_size: u64, crc: u32, expected_crc32: u32) -> DownloadResult {
    if received != expected_size {
        DownloadResult::BadFileSize
    } else if crc != expected_crc32 {
        DownloadResult::BadChecksum
    } else {
        DownloadResult::Success
    }
}

/// Judges a download whose body ended after `received` bytes with CRC-32
/// `crc`.
pub fn finish_verdict(received: u64, expected_size: u64, crc: u32, expected_crc32: u32) -> (r: DownloadResult)
    ensures
        r == spec_finish_verdict(received, expected_size, crc, expected_crc32),
{
    if received != expected_size {
        DownloadResult::BadFileSize
    } else if crc != expected_crc32 {
        DownloadResult::BadChecksum
    } else {
        DownloadResult::Success
    }
}

/// The verdict before any request: a file already present with the
/// expected size and CRC-32 (`already_valid`) needs no download.
pub fn presence_verdict(already_valid: bool) -> (r: Option<DownloadResult>)
    ensures
        r == (if already_valid { Some(DownloadResult::AlreadyUpToDate) } else { None::<DownloadResult> }),
{
    if already_valid {
        Some(DownloadResult::AlreadyUpToDate)
    } else {
        None
    }
}

/// What the next read of the response gave.
#[derive(Debug)]
pub enum BodyRead<'a> {
    /// These bytes of the body.
    Chunk(&'a [u8]),
    /// The end of the body.
    End,
    /// The request or the read failed.
    Failed,
}

/// Where the download stands after a read.
#[derive(Debug, Clone, Copy, PartialEq, Eq, Structural)]
pub enum BodyStep {
    /// Go on reading; the CRC-32 of the body so far.
    Continue(u32),
    /// Stop with this verdict.
    Finished(DownloadResult),
}

impl DownloadProgress {
    /// The verdict before the next read: a download asked to stop ends as
    /// cancelled.
    pub fn cancel_verdict(&self) -> (r: Option<DownloadResult>)
        ensures
            r == (if self.cancel_flag { Some(DownloadResult::Cancelled) } else { None::<DownloadResult> }),
    {
        if self.cancel_flag {
            Some(DownloadResult::Cancelled)
        } else {
            None
        }
    }

    /// Takes one read of the body, whose bytes so far have CRC-32 `crc`: a
    /// chunk is counted and folded into the CRC-32; the end is judged by
    /// size, then checksum; a failure is a network error.
    pub fn on_body_read(&mut self, crc: u32, read: BodyRead, expected_size: u64, expected_crc32: u32) -> (r: BodyStep)
        ensures
            match read {
                BodyRead::Chunk(c) => r == BodyStep::Continue(crc32_resumed(crc, c@)) && *final(self) == (
                DownloadProgress {
                    bytes_downloaded: add_mod64(old(self).bytes_downloaded, c@.len() as u64),
                    ..*old(self)
                }),
                BodyRead::End => r == BodyStep::Finished(
                    spec_finish_verdict(old(self).bytes_downloaded, expected_size, crc, expected_crc32),
                ) && *final(self) == *old(self),
                BodyRead::Failed => r == BodyStep::Finished(DownloadResult::Network) && *final(self) == *old(self),
            },
    {
        match read {
            BodyRead::Chunk(c) => {
                self.add_bytes(c.len() as u64);
                BodyStep::Continue(crc32_extend(crc, c))
            },
            BodyRead::End => BodyStep::Finished(
                finish_verdict(self.bytes_downloaded, expected_size, crc, expected_crc32),
            ),
            BodyRead::Failed => BodyStep::Finished(DownloadResult::Network),
        }
    }
}

/// Whether a file already at the destination is worth checksumming: it
/// exists and has the expected size.
pub fn worth_checksumming(exists: bool, actual_size: u64, expected_size: u64) -> (r: bool)
    ensures
        r == (exists && actual_size == expected_size),
{
    exists && actual_size == expected_size
}

/// Where a download is written until it has been checked: the destination
/// with `.part` appended.
pub fn tmp_download_path(dst: &str) -> (r: String)
    ensures
        r@ == dst@ + ".part"@,
{
    let mut s = String::from_str(dst);
    s.append(".part");
    s
}

/// Where a patch is downloaded from.
pub fn patch_url(entry: &PatchEntry) -> (r: String)
    ensures
        r@ == PATCH_URL_BASE@ + entry.path@,
{
    let mut r = String::from_str(PATCH_URL_BASE);
    r.append(entry.path);
    r
}

} // verus!
