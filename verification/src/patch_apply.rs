//! Carrying out a decoded ZIPATCH script against a game directory: the text
//! of paths stored in the patch, where they land under the game root, the
//! bytes an entry writes, and what each operation asks of the filesystem.

use vstd::prelude::*;
use vstd::utf8::{encode_utf8, valid_utf8};

use crate::process::{lemma_last_index, last_index, path_join, spec_path_join};
use crate::text::{chars_of, decimal, hex, push_decimal, push_hex, string_of};
use crate::zipatch::{range_within, ByteRange, Compression, PatchOp, ZiPatchError, STORED_COPY_BLOCK};

verus! {

/// Warnings collected while a patch file is applied.
#[derive(Debug)]
pub struct PatchApplyResult {
    pub messages: Vec<String>,
}

impl PatchApplyResult {
    /// A result with no warnings.
    pub fn new() -> (r: Self)
        ensures
            r.messages@.len() == 0,
    {
        PatchApplyResult { messages: Vec::new() }
    }
}

/// What `String::from_utf8_lossy` makes of `bytes`.
pub uninterp spec fn utf8_lossy(bytes: Seq<u8>) -> Seq<char>;

/// `String::from_utf8_lossy`: the text of `bytes`, each invalid sequence
/// replaced by U+FFFD. Claimed: the result is a function of the bytes, and
/// valid UTF-8 comes back unchanged. Which replacement characters stand for
/// invalid input is not stated.
#[verifier::external_body]
fn lossy_text(bytes: &[u8]) -> (s: String)
    ensures
        s@ == utf8_lossy(bytes@),
        valid_utf8(bytes@) ==> encode_utf8(s@) == bytes@,
{
    String::from_utf8_lossy(bytes).into_owned()
}

/// The text of the path stored at `r` in the patch file `d`.
pub fn patch_path_text(d: &[u8], r: ByteRange) -> (s: String)
    requires
        range_within(r, d@.len() as int),
    ensures
        s@ == utf8_lossy(d@.subrange(r.start as int, r.start + r.len)),
        valid_utf8(d@.subrange(r.start as int, r.start + r.len)) ==> encode_utf8(s@) == d@.subrange(
            r.start as int,
            r.start + r.len,
        ),
{
    let _n = d.len();
    lossy_text(&d[r.start..r.start + r.len])
}

/// A patch path with its `\` separators turned into `/`.
pub open spec fn slashed(rel: Seq<char>) -> Seq<char> {
    rel.map_values(|c: char| if c == '\\' { '/' } else { c })
}

/// Where the patch path `rel` lands under `game_root`.
pub open spec fn spec_join_patch_path(game_root: Seq<char>, rel: Seq<char>) -> Seq<char> {
    spec_path_join(game_root, slashed(rel))
}

/// No `\` survives in a patch path once its separators are turned.
pub proof fn lemma_slashed_has_no_backslash(rel: Seq<char>)
    ensures
        forall|i: int| 0 <= i < slashed(rel).len() ==> #[trigger] slashed(rel)[i] != '\\',
        slashed(rel).len() == rel.len(),
{
}

/// `rel`, whose separators are `\`, joined onto `game_root`.
pub fn join_patch_path(game_root: &str, rel: &str) -> (r: String)
    ensures
        r@ == spec_join_patch_path(game_root@, rel@),
{
    let v = chars_of(rel);
    let mut normalized = String::new();
    let mut i: usize = 0;
    while i < v.len()
        invariant
            v@ == rel@,
            i <= v@.len(),
            normalized@ == slashed(rel@).subrange(0, i as int),
        decreases v@.len() - i,
    {
        let c = v[i];
        if c == '\\' {
            normalized.push('/');
        } else {
            normalized.push(c);
        }
        i += 1;
        proof {
            assert(normalized@ =~= slashed(rel@).subrange(0, i as int));
        }
    }
    proof {
        assert(slashed(rel@).subrange(0, v@.len() as int) =~= slashed(rel@));
    }
    path_join(game_root, normalized.as_str())
}

/// The bytes `d[data]`, copied block by block.
pub fn extract_uncompressed(d: &[u8], data: ByteRange) -> (out: Vec<u8>)
    requires
        range_within(data, d@.len() as int),
    ensures
        out@ == d@.subrange(data.start as int, data.start + data.len),
{
    let n = d.len();
    let mut out: Vec<u8> = Vec::with_capacity(data.len);
    let mut remaining = data.len;
    let mut p = data.start;
    while remaining > 0
        invariant
            range_within(data, d@.len() as int),
            n == d@.len(),
            p + remaining == data.start + data.len,
            data.start <= p,
            out@ == d@.subrange(data.start as int, p as int),
        decreases remaining,
    {
        let block = if remaining < STORED_COPY_BLOCK {
            remaining
        } else {
            STORED_COPY_BLOCK
        };
        let mut k: usize = 0;
        while k < block
            invariant
                range_within(data, d@.len() as int),
                n == d@.len(),
                p + remaining == data.start + data.len,
                data.start <= p,
                block <= remaining,
                k <= block,
                out@ == d@.subrange(data.start as int, p + k),
            decreases block - k,
        {
            out.push(d[p + k]);
            k += 1;
            proof {
                assert(out@ =~= d@.subrange(data.start as int, p + k));
            }
        }
        p += block;
        remaining -= block;
    }
    out
}

/// What copying `flate2`'s zlib decoder over `data` into a buffered writer
/// yields: the bytes written, and whether the stream inflated to its end
/// (`false` when it is corrupt or cut short; the bytes are then what came
/// out before the error).
pub uninterp spec fn zlib_inflation(data: Seq<u8>) -> (Seq<u8>, bool);

/// `std::io::copy` from `flate2::read::ZlibDecoder` over `data` into a
/// `BufWriter` over a `Vec`, then `into_inner`. Claimed: the outcome is a
/// function of `data` alone (the decoder and the writer's buffer sizes are
/// fixed). What the inflated bytes are is not stated.
#[verifier::external_body]
fn inflate_zlib(data: &[u8]) -> (r: (Vec<u8>, bool))
    ensures
        (r.0@, r.1) == zlib_inflation(data@),
{
    let mut writer = std::io::BufWriter::new(Vec::new());
    let complete = std::io::copy(&mut flate2::read::ZlibDecoder::new(data), &mut writer).is_ok();
    (writer.into_inner().unwrap_or_default(), complete)
}

/// The bytes an entry writes, and whether they are all of it: stored data
/// as it is; zlib data as far as it inflates, incomplete when the stream
/// is corrupt.
pub open spec fn spec_entry_contents(d: Seq<u8>, compression: Compression, data: ByteRange) -> (Seq<u8>, bool) {
    let raw = d.subrange(data.start as int, data.start + data.len);
    match compression {
        Compression::Stored => (raw, true),
        Compression::Zlib => zlib_inflation(raw),
    }
}

/// The bytes the entry data at `data` decodes to, and whether decoding
/// reached its end.
pub fn entry_contents(d: &[u8], compression: Compression, data: ByteRange) -> (r: (Vec<u8>, bool))
    requires
        range_within(data, d@.len() as int),
    ensures
        (r.0@, r.1) == spec_entry_contents(d@, compression, data),
{
    let _n = d.len();
    match compression {
        Compression::Stored => (extract_uncompressed(d, data), true),
        Compression::Zlib => inflate_zlib(&d[data.start..data.start + data.len]),
    }
}

/// The directory holding `p`: what precedes its last `/` (`/` itself for a
/// top-level entry), `""` for a bare name, nothing for `""` or `/`.
pub open spec fn spec_parent(p: Seq<char>) -> Option<Seq<char>> {
    match last_index(p, '/') {
        Some(i) => if i == 0 {
            if p.len() == 1 {
                None
            } else {
                Some(seq!['/'])
            }
        } else {
            Some(p.subrange(0, i))
        },
        None => if p.len() == 0 {
            None
        } else {
            Some(Seq::<char>::empty())
        },
    }
}

/// The directory holding `path` (see `spec_parent`).
pub fn parent_path(path: &str) -> (r: Option<String>)
    ensures
        match r {
            Some(s) => spec_parent(path@) == Some(s@),
            None => spec_parent(path@) is None,
        },
{
    let v = chars_of(path);
    let n = v.len();
    let mut i = n;
    while i > 0 && v[i - 1] != '/'
        invariant
            i <= n,
            n == v@.len(),
            v@ == path@,
            forall|j: int| i <= j < n ==> v@[j] != '/',
        decreases i,
    {
        i -= 1;
    }
    proof {
        lemma_last_index(path@, '/');
        if let Some(k) = last_index(path@, '/') {
            if i > 0 {
                assert(k == i - 1);
            }
        }
    }
    if i == 0 {
        if n == 0 {
            None
        } else {
            Some(String::new())
        }
    } else if i == 1 {
        if n == 1 {
            None
        } else {
            let mut s = String::new();
            s.push('/');
            proof {
                assert(s@ =~= seq!['/']);
            }
            Some(s)
        }
    } else {
        Some(string_of(&v, 0, i - 1))
    }
}

/// One thing an operation asks of the filesystem.
#[derive(Debug)]
pub enum FsAction {
    /// Create the directory and any missing ancestors.
    CreateDirAll { path: String },
    /// Remove the directory and everything under it.
    RemoveDirAll { path: String },
    /// Record a warning in the apply result.
    Warn { message: String },
    /// Create or truncate the file, then write the entry data decoded.
    WriteFile { path: String, compression: Compression, data: ByteRange },
}

/// The view of an action: paths and messages as text.
pub enum SpecFsAction {
    CreateDirAll(Seq<char>),
    RemoveDirAll(Seq<char>),
    Warn(Seq<char>),
    WriteFile(Seq<char>, Compression, ByteRange),
}

pub open spec fn action_view(a: FsAction) -> SpecFsAction {
    match a {
        FsAction::CreateDirAll { path } => SpecFsAction::CreateDirAll(path@),
        FsAction::RemoveDirAll { path } => SpecFsAction::RemoveDirAll(path@),
        FsAction::Warn { message } => SpecFsAction::Warn(message@),
        FsAction::WriteFile { path, compression, data } => SpecFsAction::WriteFile(path@, compression, data),
    }
}

pub open spec fn actions_view(s: Seq<FsAction>) -> Seq<SpecFsAction> {
    Seq::new(s.len(), |i: int| action_view(s[i]))
}

/// Why an operation cannot be carried out.
#[derive(Debug, Clone, PartialEq, Eq)]
pub enum ApplyError {
    /// An entry's path has no directory above it.
    NoParent { path: String },
}

pub open spec fn dir_exists_warning(path: Seq<char>) -> Seq<char> {
    "Warning: Directory '"@ + path + "' creation requested but directory already exists."@
}

pub open spec fn dir_missing_warning(path: Seq<char>) -> Seq<char> {
    "Warning: Directory '"@ + path + "' deletion requested but directory doesn't exist."@
}

pub open spec fn parent_missing_warning(path: Seq<char>) -> Seq<char> {
    "Warning: Directory '"@ + path + "' doesn't exist. Creating."@
}

pub open spec fn file_missing_warning(path: Seq<char>) -> Seq<char> {
    "Warning: File '"@ + path + "' doesn't exist. Creating."@
}

fn quoted(before: &str, path: &str, after: &str) -> (s: String)
    ensures
        s@ == before@ + path@ + after@,
{
    let mut s = String::from_str(before);
    s.append(path);
    s.append(after);
    s
}

/// What `op`, whose target is `target`, asks of the filesystem, given
/// whether the target exists and, for an entry, whether its directory does.
pub open spec fn spec_plan_op(op: PatchOp, target: Seq<char>, target_exists: bool, parent_exists: bool) -> Option<
    Seq<SpecFsAction>,
> {
    match op {
        PatchOp::CreateDir { .. } => Some(
            if target_exists {
                seq![SpecFsAction::Warn(dir_exists_warning(target))]
            } else {
                seq![SpecFsAction::CreateDirAll(target)]
            },
        ),
        PatchOp::DeleteDir { .. } => Some(
            if target_exists {
                seq![SpecFsAction::RemoveDirAll(target)]
            } else {
                seq![SpecFsAction::Warn(dir_missing_warning(target))]
            },
        ),
        PatchOp::OpenEntry { .. } => match spec_parent(target) {
            None => None,
            Some(parent) => Some(
                (if parent_exists {
                    seq![]
                } else {
                    seq![
                        SpecFsAction::Warn(parent_missing_warning(parent)),
                        SpecFsAction::CreateDirAll(parent),
                    ]
                }) + (if target_exists {
                    seq![]
                } else {
                    seq![SpecFsAction::Warn(file_missing_warning(target))]
                }),
            ),
        },
        PatchOp::WriteEntry { compression, data, .. } => Some(
            seq![SpecFsAction::WriteFile(target, compression, data)],
        ),
    }
}

/// What a planned operation does to the game directory:
/// - a directory deletion whose target exists removes exactly that tree,
///   and nothing else;
/// - a directory creation whose target is missing creates exactly that
///   directory;
/// - no other operation, and no deletion of a missing target, removes
///   anything;
/// - an entry's data is written to its target exactly once, with the
///   entry's own compression and data range, and nothing else is done.
pub proof fn lemma_plan_op_effects(op: PatchOp, target: Seq<char>, target_exists: bool, parent_exists: bool)
    ensures
        (op is DeleteDir && target_exists) ==> spec_plan_op(op, target, target_exists, parent_exists) == Some(
            seq![SpecFsAction::RemoveDirAll(target)],
        ),
        (op is CreateDir && !target_exists) ==> spec_plan_op(op, target, target_exists, parent_exists) == Some(
            seq![SpecFsAction::CreateDirAll(target)],
        ),
        !(op is DeleteDir && target_exists) ==> match spec_plan_op(op, target, target_exists, parent_exists) {
            Some(acts) => forall|i: int| 0 <= i < acts.len() ==> !(#[trigger] acts[i] is RemoveDirAll),
            None => true,
        },
        match op {
            PatchOp::WriteEntry { compression, data, .. } => spec_plan_op(
                op,
                target,
                target_exists,
                parent_exists,
            ) == Some(seq![SpecFsAction::WriteFile(target, compression, data)]),
            _ => true,
        },
{
    match spec_plan_op(op, target, target_exists, parent_exists) {
        Some(acts) => {
            assert forall|i: int| 0 <= i < acts.len() && !(op is DeleteDir && target_exists) implies !(
            #[trigger] acts[i] is RemoveDirAll) by {
                match op {
                    PatchOp::OpenEntry { .. } => {
                        let parent = spec_parent(target)->0;
                        let a = if parent_exists {
                            seq![]
                        } else {
                            seq![
                                SpecFsAction::Warn(parent_missing_warning(parent)),
                                SpecFsAction::CreateDirAll(parent),
                            ]
                        };
                        let b = if target_exists {
                            seq![]
                        } else {
                            seq![SpecFsAction::Warn(file_missing_warning(target))]
                        };
                        assert(acts == a + b);
                        if i < a.len() {
                            assert(acts[i] == a[i]);
                        } else {
                            assert(acts[i] == b[i - a.len()]);
                        }
                    },
                    _ => {},
                }
            }
        },
        None => {},
    }
}

/// The filesystem actions for `op`, whose target path is `target`.
/// `parent_exists` is consulted for an entry only.
pub fn plan_op(op: &PatchOp, target: &str, target_exists: bool, parent_exists: bool) -> (r: Result<
    Vec<FsAction>,
    ApplyError,
>)
    ensures
        match r {
            Ok(actions) => spec_plan_op(*op, target@, target_exists, parent_exists) == Some(
                actions_view(actions@),
            ),
            Err(ApplyError::NoParent { path }) => spec_plan_op(*op, target@, target_exists, parent_exists)
                is None && path@ == target@,
        },
{
    let mut out: Vec<FsAction> = Vec::new();
    match op {
        PatchOp::CreateDir { .. } => {
            if target_exists {
                out.push(
                    FsAction::Warn {
                        message: quoted(
                            "Warning: Directory '",
                            target,
                            "' creation requested but directory already exists.",
                        ),
                    },
                );
            } else {
                out.push(FsAction::CreateDirAll { path: String::from_str(target) });
            }
        },
        PatchOp::DeleteDir { .. } => {
            if target_exists {
                out.push(FsAction::RemoveDirAll { path: String::from_str(target) });
            } else {
                out.push(
                    FsAction::Warn {
                        message: quoted(
                            "Warning: Directory '",
                            target,
                            "' deletion requested but directory doesn't exist.",
                        ),
                    },
                );
            }
        },
        PatchOp::OpenEntry { .. } => {
            match parent_path(target) {
                None => {
                    return Err(ApplyError::NoParent { path: String::from_str(target) });
                },
                Some(parent) => {
                    if !parent_exists {
                        out.push(
                            FsAction::Warn {
                                message: quoted(
                                    "Warning: Directory '",
                                    parent.as_str(),
                                    "' doesn't exist. Creating.",
                                ),
                            },
                        );
                        out.push(FsAction::CreateDirAll { path: parent });
                    }
                    if !target_exists {
                        out.push(
                            FsAction::Warn {
                                message: quoted("Warning: File '", target, "' doesn't exist. Creating."),
                            },
                        );
                    }
                },
            }
        },
        PatchOp::WriteEntry { compression, data, .. } => {
            out.push(
                FsAction::WriteFile {
                    path: String::from_str(target),
                    compression: *compression,
                    data: *data,
                },
            );
        },
    }
    proof {
        assert(actions_view(out@) =~= spec_plan_op(*op, target@, target_exists, parent_exists).unwrap());
    }
    Ok(out)
}

/// The path an operation names, joined onto `game_root`.
pub open spec fn spec_op_target(d: Seq<u8>, game_root: Seq<char>, op: PatchOp) -> Seq<char> {
    let r = match op {
        PatchOp::CreateDir { path } => path,
        PatchOp::DeleteDir { path } => path,
        PatchOp::OpenEntry { path } => path,
        PatchOp::WriteEntry { path, .. } => path,
    };
    spec_join_patch_path(game_root, utf8_lossy(d.subrange(r.start as int, r.start + r.len)))
}

/// The full path of the file or directory `op` acts on.
pub fn op_target(d: &[u8], game_root: &str, op: &PatchOp) -> (r: String)
    requires
        crate::zipatch::op_within(*op, d@.len() as int),
    ensures
        r@ == spec_op_target(d@, game_root@, *op),
{
    let path = match op {
        PatchOp::CreateDir { path } => *path,
        PatchOp::DeleteDir { path } => *path,
        PatchOp::OpenEntry { path } => *path,
        PatchOp::WriteEntry { path, .. } => *path,
    };
    let text = patch_path_text(d, path);
    join_patch_path(game_root, text.as_str())
}

/// The full path of the file or directory `op` acts on, when the byte
/// ranges `op` names lie within `d`; `None` otherwise. Operations decoded
/// from `d` by `parse_zipatch` always lie within it.
pub fn checked_op_target(d: &[u8], game_root: &str, op: &PatchOp) -> (r: Option<String>)
    ensures
        r is Some <==> crate::zipatch::op_within(*op, d@.len() as int),
        r matches Some(t) ==> t@ == spec_op_target(d@, game_root@, *op),
{
    let n = d.len();
    let fits = match op {
        PatchOp::CreateDir { path } | PatchOp::DeleteDir { path } | PatchOp::OpenEntry { path } => path.len
            <= n && path.start <= n - path.len,
        PatchOp::WriteEntry { path, data, .. } => path.len <= n && path.start <= n - path.len
            && data.len <= n && data.start <= n - data.len,
    };
    if fits {
        Some(op_target(d, game_root, op))
    } else {
        None
    }
}

/// The four bytes of a chunk tag, most significant first.
pub open spec fn tag_bytes(tag: u32) -> Seq<u8> {
    seq![(tag / 16777216) as u8, ((tag / 65536) % 256) as u8, ((tag / 256) % 256) as u8, (tag % 256) as u8]
}

/// What `format!("{:?}", s)` gives for a string slice with the text `s`.
pub uninterp spec fn debug_quoted(s: Seq<char>) -> Seq<char>;

/// `format!("{:?}", s)`: the string quoted, with `Debug` escapes. Claimed:
/// the result is a function of the text. Which characters are escaped, and
/// how, is not stated.
#[verifier::external_body]
fn debug_text(s: &str) -> (r: String)
    ensures
        r@ == debug_quoted(s@),
{
    format!("{:?}", s)
}

/// The tag's bytes as `String::from_utf8_lossy` decodes them, in `Debug` form.
pub open spec fn tag_debug(tag: u32) -> Seq<char> {
    debug_quoted(utf8_lossy(tag_bytes(tag)))
}

fn tag_text(tag: u32) -> (s: String)
    ensures
        s@ == tag_debug(tag),
{
    let bytes: Vec<u8> = vec![(tag / 16777216) as u8, ((tag / 65536) % 256) as u8, ((tag / 256) % 256) as u8, (tag % 256) as u8];
    proof {
        assert(bytes@ =~= tag_bytes(tag));
    }
    let text = lossy_text(bytes.as_slice());
    debug_text(text.as_str())
}

/// The message reported when decoding `patch_path` stops with `e`.
pub open spec fn spec_error_message(e: ZiPatchError, patch_path: Seq<char>) -> Seq<char> {
    match e {
        ZiPatchError::TruncatedSignature => "reading ZIPATCH signature"@,
        ZiPatchError::BadSignature => patch_path + " is not a ZIPATCH patch file"@,
        ZiPatchError::TruncatedChunkTag => "reading chunk tag"@,
        ZiPatchError::UnknownChunk { tag } => "unhandled ZIPATCH chunk: "@ + tag_debug(tag),
        ZiPatchError::TruncatedChunkBody => "failed to fill whole buffer"@,
        ZiPatchError::BadHashMode { mode } => "unexpected ETRY hash mode: 0x"@ + hex(mode as nat, 0, true),
        ZiPatchError::BadCompressionMode { mode } => "unexpected compression mode: 0x"@ + hex(
            mode as nat,
            0,
            true,
        ),
        ZiPatchError::DataInNonFinalItem { compressed_size } => "non-final ETRY item carries data (compressed_size="@
            + decimal(compressed_size as nat) + ")"@,
        ZiPatchError::TruncatedChunkCrc => "reading chunk CRC"@,
    }
}

impl ZiPatchError {
    /// The message reported when decoding the patch file at `patch_path`
    /// stops with this error.
    pub fn message(&self, patch_path: &str) -> (s: String)
        ensures
            s@ == spec_error_message(*self, patch_path@),
    {
        match self {
            ZiPatchError::TruncatedSignature => String::from_str("reading ZIPATCH signature"),
            ZiPatchError::BadSignature => {
                let mut s = String::from_str(patch_path);
                s.append(" is not a ZIPATCH patch file");
                s
            },
            ZiPatchError::TruncatedChunkTag => String::from_str("reading chunk tag"),
            ZiPatchError::UnknownChunk { tag } => {
                let mut s = String::from_str("unhandled ZIPATCH chunk: ");
                let t = tag_text(*tag);
                s.append(t.as_str());
                s
            },
            ZiPatchError::TruncatedChunkBody => String::from_str("failed to fill whole buffer"),
            ZiPatchError::BadHashMode { mode } => {
                let mut s = String::from_str("unexpected ETRY hash mode: 0x");
                push_hex(&mut s, *mode as u64, 0, true);
                s
            },
            ZiPatchError::BadCompressionMode { mode } => {
                let mut s = String::from_str("unexpected compression mode: 0x");
                push_hex(&mut s, *mode as u64, 0, true);
                s
            },
            ZiPatchError::DataInNonFinalItem { compressed_size } => {
                let mut s = String::from_str("non-final ETRY item carries data (compressed_size=");
                push_decimal(&mut s, *compressed_size as u64);
                s.append(")");
                s
            },
            ZiPatchError::TruncatedChunkCrc => String::from_str("reading chunk CRC"),
        }
    }
}

impl ApplyError {
    /// The message reported for this error.
    pub fn message(&self) -> (s: String)
        ensures
            match self {
                ApplyError::NoParent { path } => s@ == "ETRY path has no parent: "@ + path@,
            },
    {
        match self {
            ApplyError::NoParent { path } => {
                let mut s = String::from_str("ETRY path has no parent: ");
                s.append(path.as_str());
                s
            },
        }
    }
}

} // verus!
