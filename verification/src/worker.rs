//! The patcher's progress as the UI sees it, and the decisions the patcher
//! makes on each download, validation and patch outcome.

use vstd::prelude::*;

use crate::downloader::{add_mod64, DownloadProgress, DownloadResult};
use crate::manifest::{patch_manifest, spec_patch_manifest, sum_sizes, total_bytes, PatchEntry};
use crate::process::{leaf_name, spec_leaf};
use crate::servers::same_text;
use crate::text::{decimal, push_decimal};

verus! {

/// The phase the patcher is in.
#[derive(Debug, Clone, Copy, PartialEq, Eq, Structural)]
pub enum Phase {
    Starting,
    Downloading,
    Patching,
    Done,
    Error,
    Cancelled,
    Validating,
}

/// The byte a phase is stored as.
pub open spec fn phase_code(p: Phase) -> u8 {
    match p {
        Phase::Starting => 0,
        Phase::Downloading => 1,
        Phase::Patching => 2,
        Phase::Done => 3,
        Phase::Error => 4,
        Phase::Cancelled => 5,
        Phase::Validating => 6,
    }
}

/// The phase a stored byte stands for; unknown bytes read as `Starting`.
pub open spec fn phase_of_code(v: u8) -> Phase {
    if v == 1 {
        Phase::Downloading
    } else if v == 2 {
        Phase::Patching
    } else if v == 3 {
        Phase::Done
    } else if v == 4 {
        Phase::Error
    } else if v == 5 {
        Phase::Cancelled
    } else if v == 6 {
        Phase::Validating
    } else {
        Phase::Starting
    }
}

/// Whether the patcher has stopped for good in phase `p`.
pub open spec fn spec_is_terminal(p: Phase) -> bool {
    p == Phase::Done || p == Phase::Error || p == Phase::Cancelled
}

impl Phase {
    /// The byte this phase is stored as.
    pub fn to_u8(self) -> (r: u8)
        ensures
            r == phase_code(self),
    {
        match self {
            Phase::Starting => 0,
            Phase::Downloading => 1,
            Phase::Patching => 2,
            Phase::Done => 3,
            Phase::Error => 4,
            Phase::Cancelled => 5,
            Phase::Validating => 6,
        }
    }

    /// The phase stored as `value`; unknown values read as `Starting`.
    pub fn from_u8(value: u8) -> (r: Phase)
        ensures
            r == phase_of_code(value),
    {
        match value {
            1 => Phase::Downloading,
            2 => Phase::Patching,
            3 => Phase::Done,
            4 => Phase::Error,
            5 => Phase::Cancelled,
            6 => Phase::Validating,
            _ => Phase::Starting,
        }
    }

    /// Whether the patcher has stopped for good: done, failed or cancelled.
    pub fn is_terminal(self) -> (r: bool)
        ensures
            r == spec_is_terminal(self),
    {
        match self {
            Phase::Done | Phase::Error | Phase::Cancelled => true,
            _ => false,
        }
    }
}

/// A phase read back from the byte it is stored as is the phase itself.
pub proof fn lemma_phase_code_roundtrip(p: Phase)
    ensures
        phase_of_code(phase_code(p)) == p,
{
}

/// Every byte up to 6 is the code of exactly the phase it reads as; every
/// other byte reads as `Starting`.
pub proof fn lemma_phase_codes(v: u8)
    ensures
        v <= 6 ==> phase_code(phase_of_code(v)) == v,
        v > 6 ==> phase_of_code(v) == Phase::Starting,
{
}

/// Where the patch files come from.
#[derive(Debug, Clone)]
pub enum PatchSource {
    /// Fetch the manifest into this directory.
    Download { download_dir: String },
    /// Validate and apply the files already in this directory.
    Local { source_dir: String },
}

/// How checking a local patch file ended.
#[derive(Debug, Clone, PartialEq, Eq)]
pub enum ValidateOutcome {
    /// Size and CRC-32 match.
    Valid,
    /// Cancellation was asked for while reading.
    Cancelled,
    /// The file has `actual` bytes.
    SizeMismatch { actual: u64 },
    /// The CRC-32 differs.
    Crc32Mismatch,
    /// Reading failed with this message.
    Io { message: String },
}

/// The first check on a local patch file: its size. `None` when it matches
/// and the checksum is to be computed.
pub fn size_verdict(actual: u64, expected: u64) -> (r: Option<ValidateOutcome>)
    ensures
        actual == expected ==> r is None,
        actual != expected ==> r == Some(ValidateOutcome::SizeMismatch { actual }),
{
    if actual != expected {
        Some(ValidateOutcome::SizeMismatch { actual })
    } else {
        None
    }
}

/// The verdict on a local patch file of the right size whose CRC-32 is `crc`.
pub fn crc_verdict(crc: u32, expected: u32) -> (r: ValidateOutcome)
    ensures
        crc == expected ==> r == ValidateOutcome::Valid,
        crc != expected ==> r == ValidateOutcome::Crc32Mismatch,
{
    if crc == expected {
        ValidateOutcome::Valid
    } else {
        ValidateOutcome::Crc32Mismatch
    }
}

/// The views of a list of strings.
pub open spec fn texts(s: Seq<String>) -> Seq<Seq<char>> {
    Seq::new(s.len(), |i: int| s[i]@)
}

/// The progress shared between the patcher and the UI.
#[derive(Debug)]
pub struct PatcherShared {
    pub download: DownloadProgress,
    pub download_idx: usize,
    pub previous_completed_bytes: u64,
    pub patch_idx: usize,
    pub phase: Phase,
    pub error_message: Option<String>,
    pub warnings: Vec<String>,
    pub total_download_bytes: u64,
    pub total_patches: usize,
}

/// `a + b`.
fn concat2(a: &str, b: &str) -> (s: String)
    ensures
        s@ == a@ + b@,
{
    let mut s = String::from_str(a);
    s.append(b);
    s
}

/// `a + b + c`.
fn concat3(a: &str, b: &str, c: &str) -> (s: String)
    ensures
        s@ == a@ + b@ + c@,
{
    let mut s = String::from_str(a);
    s.append(b);
    s.append(c);
    s
}

pub open spec fn download_failure_message(entry: PatchEntry, result: DownloadResult) -> Seq<char> {
    match result {
        DownloadResult::BadChecksum => "Download failed: bad checksum for "@ + entry.path@,
        DownloadResult::BadFileSize => "Download failed: bad file size for "@ + entry.path@,
        _ => "Download failed: network error on "@ + entry.path@,
    }
}

pub open spec fn validate_failure_message(entry: PatchEntry, path: Seq<char>, outcome: ValidateOutcome) -> Seq<
    char,
> {
    match outcome {
        ValidateOutcome::SizeMismatch { actual } => "Local patch "@ + path + " has wrong size ("@ + decimal(
            actual as nat,
        ) + " bytes, expected "@ + decimal(entry.size as nat) + ")"@,
        ValidateOutcome::Crc32Mismatch => "Local patch "@ + path + " failed CRC32 check"@,
        ValidateOutcome::Io { message } => "Reading local patch "@ + path + " failed: "@ + message@,
        _ => Seq::empty(),
    }
}

impl PatcherShared {
    /// Fresh progress for the whole manifest.
    pub fn new() -> (r: Self)
        ensures
            r.phase == Phase::Starting,
            r.error_message is None,
            r.warnings@.len() == 0,
            r.download.bytes_downloaded == 0,
            !r.download.cancel_flag,
            r.download_idx == 0,
            r.previous_completed_bytes == 0,
            r.patch_idx == 0,
            r.total_download_bytes == sum_sizes(spec_patch_manifest()),
            r.total_patches == spec_patch_manifest().len(),
    {
        let m = patch_manifest();
        PatcherShared {
            download: DownloadProgress::new(),
            download_idx: 0,
            previous_completed_bytes: 0,
            patch_idx: 0,
            phase: Phase::Starting,
            error_message: None,
            warnings: Vec::new(),
            total_download_bytes: total_bytes(),
            total_patches: m.len(),
        }
    }

    /// The current phase.
    pub fn phase(&self) -> (r: Phase)
        ensures
            r == self.phase,
    {
        self.phase
    }

    /// The error that stopped the patcher, if any.
    pub fn error(&self) -> (r: Option<String>)
        ensures
            match r {
                Some(s) => self.error_message matches Some(e) && s@ == e@,
                None => self.error_message is None,
            },
    {
        match &self.error_message {
            Some(e) => Some(e.clone()),
            None => None,
        }
    }

    /// The warnings collected so far.
    pub fn warnings(&self) -> (r: Vec<String>)
        ensures
            r@ == self.warnings@,
    {
        let mut out: Vec<String> = Vec::new();
        let mut i: usize = 0;
        while i < self.warnings.len()
            invariant
                i <= self.warnings@.len(),
                out@ == self.warnings@.subrange(0, i as int),
            decreases self.warnings@.len() - i,
        {
            let w = self.warnings[i].clone();
            out.push(w);
            i += 1;
            proof {
                assert(out@ =~= self.warnings@.subrange(0, i as int));
            }
        }
        proof {
            assert(self.warnings@.subrange(0, i as int) =~= self.warnings@);
        }
        out
    }

    /// Asks the patcher to stop.
    pub fn request_cancel(&mut self)
        ensures
            *final(self) == (PatcherShared {
                download: DownloadProgress { cancel_flag: true, ..old(self).download },
                ..*old(self)
            }),
    {
        self.download.cancel();
    }

    /// Whether the patcher was asked to stop.
    pub fn is_cancel_requested(&self) -> (r: bool)
        ensures
            r == self.download.cancel_flag,
    {
        self.download.is_cancelled()
    }

    /// Whether the patcher has stopped for good.
    pub fn is_terminal(&self) -> (r: bool)
        ensures
            r == spec_is_terminal(self.phase),
    {
        self.phase.is_terminal()
    }

    /// Moves to `phase`.
    pub fn set_phase(&mut self, phase: Phase)
        ensures
            *final(self) == (PatcherShared { phase, ..*old(self) }),
    {
        self.phase = phase;
    }

    /// Stops with `message` as the error.
    pub fn set_error(&mut self, message: String)
        ensures
            *final(self) == (PatcherShared { phase: Phase::Error, error_message: Some(message), ..*old(self) }),
    {
        self.error_message = Some(message);
        self.phase = Phase::Error;
    }

    /// Records a warning.
    pub fn push_warning(&mut self, message: String)
        ensures
            final(self).warnings@ == old(self).warnings@.push(message),
            *final(self) == (PatcherShared { warnings: final(self).warnings, ..*old(self) }),
    {
        self.warnings.push(message);
    }

    /// Stops as cancelled if that was asked for; returns whether it did.
    pub fn check_cancel(&mut self) -> (stopped: bool)
        ensures
            stopped == old(self).download.cancel_flag,
            stopped ==> *final(self) == (PatcherShared { phase: Phase::Cancelled, ..*old(self) }),
            !stopped ==> *final(self) == *old(self),
    {
        if self.download.is_cancelled() {
            self.phase = Phase::Cancelled;
            true
        } else {
            false
        }
    }

    /// Handles the outcome of downloading `entry`; returns whether to go
    /// on with the next file. A file present or received counts towards
    /// the completed bytes.
    pub fn on_download_result(&mut self, entry: &PatchEntry, result: DownloadResult) -> (go_on: bool)
        ensures
            go_on == (result == DownloadResult::Success || result == DownloadResult::AlreadyUpToDate),
            go_on ==> final(self).previous_completed_bytes == add_mod64(old(self).previous_completed_bytes, entry.size)
                && final(self).phase == old(self).phase && final(self).error_message == old(self).error_message,
            result == DownloadResult::Cancelled ==> final(self).phase == Phase::Cancelled
                && final(self).error_message == old(self).error_message,
            (result == DownloadResult::BadChecksum || result == DownloadResult::BadFileSize || result
                == DownloadResult::Network) ==> (final(self).phase == Phase::Error
                && (final(self).error_message matches Some(m) && m@ == download_failure_message(*entry, result))),
            *final(self) == (PatcherShared {
                phase: final(self).phase,
                error_message: final(self).error_message,
                previous_completed_bytes: final(self).previous_completed_bytes,
                ..*old(self)
            }),
            !go_on ==> final(self).previous_completed_bytes == old(self).previous_completed_bytes,
    {
        match result {
            DownloadResult::Success | DownloadResult::AlreadyUpToDate => {
                self.previous_completed_bytes = self.previous_completed_bytes.wrapping_add(entry.size);
                true
            },
            DownloadResult::Cancelled => {
                self.phase = Phase::Cancelled;
                false
            },
            DownloadResult::BadChecksum => {
                self.set_error(concat2("Download failed: bad checksum for ", entry.path));
                false
            },
            DownloadResult::BadFileSize => {
                self.set_error(concat2("Download failed: bad file size for ", entry.path));
                false
            },
            DownloadResult::Network => {
                self.set_error(concat2("Download failed: network error on ", entry.path));
                false
            },
        }
    }

    /// Stops on a download of `entry` that failed with `message`.
    pub fn on_download_error(&mut self, entry: &PatchEntry, message: &str)
        ensures
            final(self).phase == Phase::Error,
            final(self).error_message matches Some(m) && m@ == "Download error on "@ + entry.path@ + ": "@
                + message@,
            *final(self) == (PatcherShared {
                phase: Phase::Error,
                error_message: final(self).error_message,
                ..*old(self)
            }),
    {
        let mut s = concat3("Download error on ", entry.path, ": ");
        s.append(message);
        self.set_error(s);
    }

    /// Starts checking the local file of manifest entry `idx`: its bytes
    /// counter goes back to zero.
    pub fn begin_validation(&mut self, idx: usize)
        ensures
            *final(self) == (PatcherShared {
                download_idx: idx,
                download: DownloadProgress { bytes_downloaded: 0, ..old(self).download },
                ..*old(self)
            }),
    {
        self.download_idx = idx;
        self.download.bytes_downloaded = 0;
    }

    /// Handles the outcome of checking the local file `path` for `entry`;
    /// returns whether to go on with the next file.
    pub fn on_validate_outcome(&mut self, entry: &PatchEntry, path: &str, outcome: ValidateOutcome) -> (go_on:
        bool)
        ensures
            go_on == (outcome == ValidateOutcome::Valid),
            go_on ==> final(self).previous_completed_bytes == add_mod64(old(self).previous_completed_bytes, entry.size)
                && final(self).phase == old(self).phase,
            outcome == ValidateOutcome::Cancelled ==> final(self).phase == Phase::Cancelled
                && final(self).error_message == old(self).error_message,
            !(outcome == ValidateOutcome::Valid || outcome == ValidateOutcome::Cancelled) ==> (final(self).phase
                == Phase::Error && (final(self).error_message matches Some(m) && m@ == validate_failure_message(
                *entry,
                path@,
                outcome,
            ))),
            *final(self) == (PatcherShared {
                phase: final(self).phase,
                error_message: final(self).error_message,
                previous_completed_bytes: final(self).previous_completed_bytes,
                ..*old(self)
            }),
            !go_on ==> final(self).previous_completed_bytes == old(self).previous_completed_bytes,
    {
        match outcome {
            ValidateOutcome::Valid => {
                self.previous_completed_bytes = self.previous_completed_bytes.wrapping_add(entry.size);
                true
            },
            ValidateOutcome::Cancelled => {
                self.phase = Phase::Cancelled;
                false
            },
            ValidateOutcome::SizeMismatch { actual } => {
                let mut s = concat3("Local patch ", path, " has wrong size (");
                push_decimal(&mut s, actual);
                s.append(" bytes, expected ");
                push_decimal(&mut s, entry.size);
                s.append(")");
                self.set_error(s);
                false
            },
            ValidateOutcome::Crc32Mismatch => {
                self.set_error(concat3("Local patch ", path, " failed CRC32 check"));
                false
            },
            ValidateOutcome::Io { message } => {
                let mut s = concat3("Reading local patch ", path, " failed: ");
                s.append(message.as_str());
                self.set_error(s);
                false
            },
        }
    }

    /// Stops because the local patch directory could not be scanned.
    pub fn on_local_scan_failed(&mut self, message: &str)
        ensures
            final(self).phase == Phase::Error,
            final(self).error_message matches Some(m) && m@ == "Local patch scan failed: "@ + message@,
            *final(self) == (PatcherShared {
                phase: Phase::Error,
                error_message: final(self).error_message,
                ..*old(self)
            }),
    {
        self.set_error(concat2("Local patch scan failed: ", message));
    }

    /// Records the warnings of a patch applied.
    pub fn on_patch_applied(&mut self, messages: Vec<String>)
        ensures
            final(self).warnings@ == old(self).warnings@ + messages@,
            *final(self) == (PatcherShared { warnings: final(self).warnings, ..*old(self) }),
    {
        let ghost start = self.warnings@;
        let mut i: usize = 0;
        while i < messages.len()
            invariant
                i <= messages@.len(),
                self.warnings@ == start + messages@.subrange(0, i as int),
                *self == (PatcherShared { warnings: self.warnings, ..*old(self) }),
            decreases messages@.len() - i,
        {
            let w = messages[i].clone();
            self.warnings.push(w);
            i += 1;
            proof {
                assert(self.warnings@ =~= start + messages@.subrange(0, i as int));
            }
        }
        proof {
            assert(messages@.subrange(0, i as int) =~= messages@);
        }
    }

    /// Stops because the patch file named `patch_name` failed to apply
    /// with `message`.
    pub fn on_patch_failed(&mut self, patch_name: &str, message: &str)
        ensures
            final(self).phase == Phase::Error,
            final(self).error_message matches Some(m) && m@ == "Applying patch "@ + patch_name@ + " failed: "@
                + message@,
            *final(self) == (PatcherShared {
                phase: Phase::Error,
                error_message: final(self).error_message,
                ..*old(self)
            }),
    {
        let mut s = concat3("Applying patch ", patch_name, " failed: ");
        s.append(message);
        self.set_error(s);
    }

    /// Finishes after every patch applied; a failure to write the version
    /// files is only a warning.
    pub fn finish(&mut self, version_files_error: Option<&str>)
        ensures
            *final(self) == (PatcherShared { phase: Phase::Done, warnings: final(self).warnings, ..*old(self) }),
            match version_files_error {
                Some(e) => final(self).warnings@.len() == old(self).warnings@.len() + 1 && final(self).warnings@.last()@
                    == "Failed to write version files: "@ + e@ && final(self).warnings@.drop_last() == old(
                    self,
                ).warnings@,
                None => final(self).warnings == old(self).warnings,
            },
    {
        if let Some(e) = version_files_error {
            self.push_warning(concat2("Failed to write version files: ", e));
        }
        self.phase = Phase::Done;
    }
}

/// The first index of `paths` whose file name is `leaf`.
pub open spec fn find_leaf(paths: Seq<Seq<char>>, leaf: Seq<char>) -> Option<int>
    decreases paths.len(),
{
    if paths.len() == 0 {
        None
    } else {
        match find_leaf(paths.drop_last(), leaf) {
            Some(i) => Some(i),
            None => if spec_leaf(paths.last()) == leaf {
                Some(paths.len() - 1)
            } else {
                None
            },
        }
    }
}

/// Each manifest entry paired with the first path of the same file name,
/// entries without one left out, in manifest order.
pub open spec fn spec_pairs(entries: Seq<PatchEntry>, paths: Seq<Seq<char>>) -> Seq<(PatchEntry, Seq<char>)>
    decreases entries.len(),
{
    if entries.len() == 0 {
        seq![]
    } else {
        let rest = spec_pairs(entries.drop_last(), paths);
        let e = entries.last();
        match find_leaf(paths, spec_leaf(e.path@)) {
            Some(i) => rest.push((e, paths[i])),
            None => rest,
        }
    }
}

pub open spec fn pair_views(s: Seq<(PatchEntry, String)>) -> Seq<(PatchEntry, Seq<char>)> {
    Seq::new(s.len(), |i: int| (s[i].0, s[i].1@))
}

proof fn lemma_find_leaf(paths: Seq<Seq<char>>, leaf: Seq<char>)
    ensures
        find_leaf(paths, leaf) matches Some(i) ==> 0 <= i < paths.len() && spec_leaf(paths[i]) == leaf && forall|
            j: int,
        | 0 <= j < i ==> spec_leaf(#[trigger] paths[j]) != leaf,
        find_leaf(paths, leaf) is None ==> forall|j: int| 0 <= j < paths.len() ==> spec_leaf(#[trigger] paths[j])
            != leaf,
    decreases paths.len(),
{
    if paths.len() > 0 {
        let t = paths.drop_last();
        lemma_find_leaf(t, leaf);
        assert(forall|j: int| 0 <= j < t.len() ==> t[j] == paths[j]);
    }
}

proof fn lemma_find_leaf_first(paths: Seq<Seq<char>>, leaf: Seq<char>, k: int)
    requires
        0 <= k < paths.len(),
        spec_leaf(paths[k]) == leaf,
        forall|j: int| 0 <= j < k ==> spec_leaf(#[trigger] paths[j]) != leaf,
    ensures
        find_leaf(paths, leaf) == Some(k),
{
    lemma_find_leaf(paths, leaf);
}

/// Pairs each manifest entry with the path in `paths` that has its file
/// name, in manifest order; entries with no such path are left out.
pub fn pair_manifest_with_paths(paths: &Vec<String>) -> (r: Vec<(PatchEntry, String)>)
    ensures
        pair_views(r@) == spec_pairs(spec_patch_manifest(), texts(paths@)),
{
    let m = patch_manifest();
    let mut out: Vec<(PatchEntry, String)> = Vec::new();
    let mut i: usize = 0;
    while i < m.len()
        invariant
            m@ == spec_patch_manifest(),
            i <= m@.len(),
            pair_views(out@) == spec_pairs(m@.subrange(0, i as int), texts(paths@)),
        decreases m@.len() - i,
    {
        let entry = m[i];
        let leaf = leaf_name(entry.path);
        let mut k: usize = 0;
        let mut found: Option<usize> = None;
        while k < paths.len() && found.is_none()
            invariant
                k <= paths@.len(),
                leaf@ == spec_leaf(entry.path@),
                found is None ==> forall|j: int| 0 <= j < k ==> spec_leaf(#[trigger] texts(paths@)[j]) != leaf@,
                found matches Some(f) ==> f < paths@.len() && spec_leaf(texts(paths@)[f as int]) == leaf@ && forall|
                    j: int,
                | 0 <= j < f ==> spec_leaf(#[trigger] texts(paths@)[j]) != leaf@,
            decreases paths@.len() - k + (if found is None { 1int } else { 0int }),
        {
            let name = leaf_name(paths[k].as_str());
            proof {
                assert(texts(paths@)[k as int] == paths@[k as int]@);
            }
            if same_text(name, leaf) {
                found = Some(k);
            } else {
                k += 1;
            }
        }
        let ghost pre = m@.subrange(0, i as int);
        proof {
            assert(m@.subrange(0, i + 1).drop_last() =~= pre);
            assert(m@.subrange(0, i + 1).last() == entry);
        }
        match found {
            Some(f) => {
                proof {
                    lemma_find_leaf_first(texts(paths@), leaf@, f as int);
                }
                out.push((entry, paths[f].clone()));
                proof {
                    assert(pair_views(out@) =~= spec_pairs(m@.subrange(0, i + 1), texts(paths@)));
                }
            },
            None => {
                proof {
                    lemma_find_leaf(texts(paths@), leaf@);
                    if let Some(j) = find_leaf(texts(paths@), leaf@) {
                        assert(spec_leaf(texts(paths@)[j]) != leaf@);
                    }
                    assert(spec_pairs(m@.subrange(0, i + 1), texts(paths@)) == spec_pairs(pre, texts(paths@)));
                }
            },
        }
        i += 1;
    }
    proof {
        assert(m@.subrange(0, m@.len() as int) =~= m@);
    }
    out
}

/// The completed bytes after files of `entries` are counted one after
/// another, starting from `start` (each addition wrapping, as a counter's).
pub open spec fn completed_after(start: u64, entries: Seq<PatchEntry>) -> u64
    decreases entries.len(),
{
    if entries.len() == 0 {
        start
    } else {
        add_mod64(completed_after(start, entries.drop_last()), entries.last().size)
    }
}

/// A run of checks of local files, as `PatcherShared::on_validate_outcome`
/// states each of them: before check `i` the shared state is `states[i]`,
/// the file is for `entries[i]`, its outcome is `outcomes[i]`, `go[i]` is
/// whether the patcher goes on, and `states[i + 1]` is the state after.
pub open spec fn validation_run(
    states: Seq<PatcherShared>,
    entries: Seq<PatchEntry>,
    outcomes: Seq<ValidateOutcome>,
    go: Seq<bool>,
) -> bool {
    &&& states.len() == outcomes.len() + 1
    &&& entries.len() == outcomes.len()
    &&& go.len() == outcomes.len()
    &&& forall|i: int|
        0 <= i < outcomes.len() ==> {
            &&& #[trigger] go[i] == (outcomes[i] == ValidateOutcome::Valid)
            &&& go[i] ==> states[i + 1].previous_completed_bytes == add_mod64(
                states[i].previous_completed_bytes,
                entries[i].size,
            ) && states[i + 1].phase == states[i].phase
        }
}

/// Over a run of checks in which the patcher went on after every file,
/// every file checked out, the phase is the one it started in, and the
/// completed bytes grew by every file's size in turn.
pub proof fn lemma_validation_run(
    states: Seq<PatcherShared>,
    entries: Seq<PatchEntry>,
    outcomes: Seq<ValidateOutcome>,
    go: Seq<bool>,
)
    requires
        validation_run(states, entries, outcomes, go),
        forall|i: int| 0 <= i < go.len() ==> #[trigger] go[i],
    ensures
        forall|i: int| 0 <= i < outcomes.len() ==> #[trigger] outcomes[i] == ValidateOutcome::Valid,
        states.last().phase == states[0].phase,
        states.last().previous_completed_bytes == completed_after(states[0].previous_completed_bytes, entries),
    decreases outcomes.len(),
{
    assert forall|i: int| 0 <= i < outcomes.len() implies #[trigger] outcomes[i] == ValidateOutcome::Valid by {
        assert(go[i]);
    }
    let n = outcomes.len();
    if n > 0 {
        let s2 = states.drop_last();
        let e2 = entries.drop_last();
        let o2 = outcomes.drop_last();
        let g2 = go.drop_last();
        assert forall|i: int| 0 <= i < o2.len() implies {
            &&& #[trigger] g2[i] == (o2[i] == ValidateOutcome::Valid)
            &&& g2[i] ==> s2[i + 1].previous_completed_bytes == add_mod64(s2[i].previous_completed_bytes, e2[i].size)
                && s2[i + 1].phase == s2[i].phase
        } by {
            assert(go[i] == (outcomes[i] == ValidateOutcome::Valid));
        }
        assert forall|i: int| 0 <= i < g2.len() implies #[trigger] g2[i] by {
            assert(go[i]);
        }
        lemma_validation_run(s2, e2, o2, g2);
        assert(go[n - 1]);
        assert(s2.last() == states[n - 1]);
    }
}

/// A run of applied patches, as `PatcherShared::on_patch_applied` states
/// each: before patch `i` the shared state is `states[i]`, the patch
/// reported the warnings `messages[i]`, and `states[i + 1]` is the state
/// after.
pub open spec fn apply_run(states: Seq<PatcherShared>, messages: Seq<Seq<String>>) -> bool {
    &&& states.len() == messages.len() + 1
    &&& forall|i: int|
        0 <= i < messages.len() ==> #[trigger] states[i + 1].warnings@ == states[i].warnings@ + messages[i]
            && states[i + 1].phase == states[i].phase
}

/// After a run of applied patches the warnings are those held before,
/// followed by every patch's warnings in the order the patches applied,
/// and the phase is unchanged.
pub proof fn lemma_apply_run(states: Seq<PatcherShared>, messages: Seq<Seq<String>>)
    requires
        apply_run(states, messages),
    ensures
        states.last().warnings@ == states[0].warnings@ + messages.flatten_alt(),
        states.last().phase == states[0].phase,
    decreases messages.len(),
{
    let n = messages.len() as int;
    if n == 0 {
        assert(states[0].warnings@ + messages.flatten_alt() =~= states[0].warnings@);
    } else {
        let s2 = states.drop_last();
        let m2 = messages.drop_last();
        assert forall|i: int| 0 <= i < m2.len() implies #[trigger] s2[i + 1].warnings@ == s2[i].warnings@ + m2[i]
            && s2[i + 1].phase == s2[i].phase by {
            assert(states[i + 1].warnings@ == states[i].warnings@ + messages[i]);
        }
        lemma_apply_run(s2, m2);
        assert(states[n].warnings@ == states[n - 1].warnings@ + messages[n - 1]);
        assert(states[0].warnings@ + messages.flatten_alt() =~= states[0].warnings@ + m2.flatten_alt()
            + messages.last());
    }
}

} // verus!
