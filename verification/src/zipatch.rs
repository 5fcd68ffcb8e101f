//! The ZIPATCH patch format: framing and chunk decoding.
//!
//! A patch file is the 12-byte signature followed by chunks. Each chunk is a
//! big-endian `u32` body size, a 4-byte tag, the body, and a 4-byte CRC that is
//! not checked. Decoding a file yields the filesystem operations it asks for,
//! in order, and the error that stopped decoding, if any: the operations before
//! an error are still carried out, as the chunks before a bad one still apply.

use vstd::prelude::*;

verus! {

/// The 12 signature bytes every patch file starts with.
pub open spec fn spec_magic() -> Seq<u8> {
    seq![0x91u8, 0x5Au8, 0x49u8, 0x50u8, 0x41u8, 0x54u8, 0x43u8, 0x48u8, 0x0Du8, 0x0Au8, 0x1Au8, 0x0Au8]
}

/// Tags packed big-endian into a `u32`.
pub const TAG_FHDR: u32 = 0x46484452;
pub const TAG_APLY: u32 = 0x41504C59;
pub const TAG_APFS: u32 = 0x41504653;
pub const TAG_ADIR: u32 = 0x41444952;
pub const TAG_DELD: u32 = 0x44454C44;
pub const TAG_ETRY: u32 = 0x45545259;

/// Block size in which stored entry data is copied.
pub const STORED_COPY_BLOCK: usize = 0x4000;

/// A range of bytes of the patch file.
#[derive(Debug, Clone, Copy, PartialEq, Eq)]
pub struct ByteRange {
    pub start: usize,
    pub len: usize,
}

/// How an entry's data is encoded.
#[derive(Debug, Clone, Copy, PartialEq, Eq)]
pub enum Compression {
    /// Mode `0x4E`: the bytes as they are.
    Stored,
    /// Mode `0x5A`: a zlib stream.
    Zlib,
}

/// One filesystem operation of a patch; paths are ranges of the patch file
/// holding a relative path with `\` separators.
#[derive(Debug, Clone, Copy, PartialEq, Eq)]
pub enum PatchOp {
    /// `ADIR`: create the directory (a warning when it exists).
    CreateDir { path: ByteRange },
    /// `DELD`: remove the directory tree (a warning when it is missing).
    DeleteDir { path: ByteRange },
    /// `ETRY` header: the entry's file; its parent is created when missing.
    OpenEntry { path: ByteRange },
    /// `ETRY` data: the file is created or truncated, then `data`, decoded,
    /// is written to it.
    WriteEntry { path: ByteRange, compression: Compression, data: ByteRange },
}

/// Why decoding stopped.
#[derive(Debug, Clone, Copy, PartialEq, Eq)]
pub enum ZiPatchError {
    /// The file is shorter than the signature.
    TruncatedSignature,
    /// The first 12 bytes are not the signature: not a ZIPATCH file.
    BadSignature,
    /// A chunk size was read but its tag is cut off.
    TruncatedChunkTag,
    /// A chunk tag this decoder does not know (tag packed big-endian).
    UnknownChunk { tag: u32 },
    /// A chunk's handler read past the end of the chunk body or of the file.
    TruncatedChunkBody,
    /// An `ETRY` item's hash mode is not `0x41`, `0x44` or `0x4D`.
    BadHashMode { mode: u32 },
    /// An `ETRY` item's compression mode is not `0x4E` or `0x5A`.
    BadCompressionMode { mode: u32 },
    /// An `ETRY` item other than the last carries data.
    DataInNonFinalItem { compressed_size: u32 },
    /// The chunk's trailing CRC is cut off.
    TruncatedChunkCrc,
}

/// The decoded patch: operations in order and the error that stopped it.
#[derive(Debug, Clone)]
pub struct ZiPatchScript {
    pub ops: Vec<PatchOp>,
    pub error: Option<ZiPatchError>,
}

/// Big-endian `u32` at `p`.
pub open spec fn be32(d: Seq<u8>, p: int) -> int {
    (d[p] as int) * 16777216 + (d[p + 1] as int) * 65536 + (d[p + 2] as int) * 256 + (d[p + 3] as int)
}

/// Little-endian `u32` at `p`.
pub open spec fn le32(d: Seq<u8>, p: int) -> int {
    (d[p + 3] as int) * 16777216 + (d[p + 2] as int) * 65536 + (d[p + 1] as int) * 256 + (d[p] as int)
}

pub open spec fn range(start: int, len: int) -> ByteRange {
    ByteRange { start: start as usize, len: len as usize }
}

pub open spec fn valid_hash_mode(m: int) -> bool {
    m == 0x41 || m == 0x44 || m == 0x4D
}

pub open spec fn valid_compression_mode(m: int) -> bool {
    m == 0x4E || m == 0x5A
}

/// A length-prefixed path read at `p` inside a body ending at `lim`: the path's
/// range and the position after it.
pub open spec fn spec_read_path(d: Seq<u8>, p: int, lim: int) -> Option<(ByteRange, int)> {
    if p + 4 > lim {
        None
    } else if p + 4 + be32(d, p) > lim {
        None
    } else {
        Some((range(p + 4, be32(d, p)), p + 4 + be32(d, p)))
    }
}

/// Bytes of stored data copied before a read of `avail < size` bytes fails.
pub open spec fn stored_prefix(avail: int) -> int {
    (avail / (STORED_COPY_BLOCK as int)) * (STORED_COPY_BLOCK as int)
}

/// The `ETRY` items `i..count` starting at `p`, for the entry at `path`.
pub open spec fn spec_items(d: Seq<u8>, p: int, lim: int, path: ByteRange, i: int, count: int) -> (
    Seq<PatchOp>,
    Option<ZiPatchError>,
)
    decreases count - i,
{
    if i >= count {
        (seq![], None)
    } else if p + 4 > lim {
        (seq![], Some(ZiPatchError::TruncatedChunkBody))
    } else if !valid_hash_mode(le32(d, p)) {
        (seq![], Some(ZiPatchError::BadHashMode { mode: le32(d, p) as u32 }))
    } else if p + 48 > lim {
        (seq![], Some(ZiPatchError::TruncatedChunkBody))
    } else if !valid_compression_mode(le32(d, p + 44)) {
        (seq![], Some(ZiPatchError::BadCompressionMode { mode: le32(d, p + 44) as u32 }))
    } else if p + 60 > lim {
        (seq![], Some(ZiPatchError::TruncatedChunkBody))
    } else {
        let cs = be32(d, p + 48);
        let r = p + 60;
        if i != count - 1 && cs != 0 {
            (seq![], Some(ZiPatchError::DataInNonFinalItem { compressed_size: cs as u32 }))
        } else if cs == 0 {
            spec_items(d, r, lim, path, i + 1, count)
        } else if le32(d, p + 44) == 0x4E {
            if cs <= lim - r {
                (
                    seq![PatchOp::WriteEntry { path, compression: Compression::Stored, data: range(r, cs) }],
                    None,
                )
            } else {
                (
                    seq![
                        PatchOp::WriteEntry {
                            path,
                            compression: Compression::Stored,
                            data: range(r, stored_prefix(lim - r)),
                        },
                    ],
                    Some(ZiPatchError::TruncatedChunkBody),
                )
            }
        } else {
            let avail = if cs <= lim - r { cs } else { lim - r };
            (seq![PatchOp::WriteEntry { path, compression: Compression::Zlib, data: range(r, avail) }], None)
        }
    }
}

/// The handler of the chunk with tag `tag` whose body is `bs..lim`.
pub open spec fn spec_chunk_body(d: Seq<u8>, tag: int, bs: int, lim: int) -> (
    Seq<PatchOp>,
    Option<ZiPatchError>,
) {
    if tag == TAG_FHDR || tag == TAG_APLY || tag == TAG_APFS {
        (seq![], None)
    } else if tag == TAG_ADIR || tag == TAG_DELD {
        match spec_read_path(d, bs, lim) {
            None => (seq![], Some(ZiPatchError::TruncatedChunkBody)),
            Some((path, _)) => if tag == TAG_ADIR {
                (seq![PatchOp::CreateDir { path }], None)
            } else {
                (seq![PatchOp::DeleteDir { path }], None)
            },
        }
    } else if tag == TAG_ETRY {
        match spec_read_path(d, bs, lim) {
            None => (seq![], Some(ZiPatchError::TruncatedChunkBody)),
            Some((path, q)) => if q + 4 > lim {
                (seq![PatchOp::OpenEntry { path }], Some(ZiPatchError::TruncatedChunkBody))
            } else {
                let items = spec_items(d, q + 4, lim, path, 0, be32(d, q));
                (seq![PatchOp::OpenEntry { path }] + items.0, items.1)
            },
        }
    } else {
        (seq![], Some(ZiPatchError::UnknownChunk { tag: tag as u32 }))
    }
}

/// The chunks from `p` to the end of the file.
pub open spec fn spec_chunks(d: Seq<u8>, p: int) -> (Seq<PatchOp>, Option<ZiPatchError>)
    decreases d.len() - p,
{
    if p < 0 || d.len() - p < 4 {
        (seq![], None)
    } else if d.len() - p < 8 {
        (seq![], Some(ZiPatchError::TruncatedChunkTag))
    } else {
        let bs = p + 8;
        let be = bs + be32(d, p);
        let lim = if be <= d.len() { be } else { d.len() as int };
        let h = spec_chunk_body(d, be32(d, p + 4), bs, lim);
        if h.1 is Some {
            h
        } else if be + 4 > d.len() {
            (h.0, Some(ZiPatchError::TruncatedChunkCrc))
        } else {
            let rest = spec_chunks(d, be + 4);
            (h.0 + rest.0, rest.1)
        }
    }
}

/// The whole patch file.
pub open spec fn spec_parse(d: Seq<u8>) -> (Seq<PatchOp>, Option<ZiPatchError>) {
    if d.len() < 12 {
        (seq![], Some(ZiPatchError::TruncatedSignature))
    } else if d.subrange(0, 12) != spec_magic() {
        (seq![], Some(ZiPatchError::BadSignature))
    } else {
        spec_chunks(d, 12)
    }
}

fn read_be32(d: &[u8], p: usize) -> (v: u32)
    requires
        p + 4 <= d@.len(),
    ensures
        v as int == be32(d@, p as int),
{
    (d[p] as u32) * 16777216 + (d[p + 1] as u32) * 65536 + (d[p + 2] as u32) * 256 + (d[p + 3] as u32)
}

fn read_le32(d: &[u8], p: usize) -> (v: u32)
    requires
        p + 4 <= d@.len(),
    ensures
        v as int == le32(d@, p as int),
{
    let b0 = d[p] as u32;
    let b1 = d[p + 1] as u32;
    let b2 = d[p + 2] as u32;
    let b3 = d[p + 3] as u32;
    b3 * 16777216 + b2 * 65536 + b1 * 256 + b0
}

fn read_path(d: &[u8], p: usize, lim: usize) -> (r: Option<(ByteRange, usize)>)
    requires
        p <= lim <= d@.len(),
    ensures
        r matches Some((range, q)) ==> spec_read_path(d@, p as int, lim as int) == Some((range, q as int)),
        r is None ==> spec_read_path(d@, p as int, lim as int) is None,
{
    if lim - p < 4 {
        return None;
    }
    let len = read_be32(d, p);
    if (len as usize) > lim - p - 4 {
        return None;
    }
    Some((ByteRange { start: p + 4, len: len as usize }, p + 4 + len as usize))
}

fn push_all(ops: &mut Vec<PatchOp>, more: Vec<PatchOp>)
    ensures
        final(ops)@ == old(ops)@ + more@,
{
    let mut i: usize = 0;
    let ghost start = ops@;
    while i < more.len()
        invariant
            i <= more@.len(),
            ops@ == start + more@.subrange(0, i as int),
        decreases more@.len() - i,
    {
        ops.push(more[i]);
        i += 1;
    }
    proof {
        assert(more@.subrange(0, more@.len() as int) == more@);
    }
}

fn decode_items(d: &[u8], p0: usize, lim: usize, path: ByteRange, count: u32) -> (r: (
    Vec<PatchOp>,
    Option<ZiPatchError>,
))
    requires
        p0 <= lim <= d@.len(),
    ensures
        r.0@ == spec_items(d@, p0 as int, lim as int, path, 0, count as int).0,
        r.1 == spec_items(d@, p0 as int, lim as int, path, 0, count as int).1,
{
    let mut i: u32 = 0;
    let mut p = p0;
    while i < count
        invariant
            p <= lim <= d@.len(),
            i <= count,
            spec_items(d@, p as int, lim as int, path, i as int, count as int) == spec_items(
                d@,
                p0 as int,
                lim as int,
                path,
                0,
                count as int,
            ),
        decreases count - i,
    {
        if lim - p < 4 {
            return (Vec::new(), Some(ZiPatchError::TruncatedChunkBody));
        }
        let hash_mode = read_le32(d, p);
        if !(hash_mode == 0x41 || hash_mode == 0x44 || hash_mode == 0x4D) {
            return (Vec::new(), Some(ZiPatchError::BadHashMode { mode: hash_mode }));
        }
        if lim - p < 48 {
            return (Vec::new(), Some(ZiPatchError::TruncatedChunkBody));
        }
        let compression_mode = read_le32(d, p + 44);
        if !(compression_mode == 0x4E || compression_mode == 0x5A) {
            return (Vec::new(), Some(ZiPatchError::BadCompressionMode { mode: compression_mode }));
        }
        if lim - p < 60 {
            return (Vec::new(), Some(ZiPatchError::TruncatedChunkBody));
        }
        let compressed_size = read_be32(d, p + 48);
        let r = p + 60;
        if i != count - 1 && compressed_size != 0 {
            return (Vec::new(), Some(ZiPatchError::DataInNonFinalItem { compressed_size }));
        }
        if compressed_size == 0 {
            p = r;
            i = i + 1;
            continue;
        }
        let avail = lim - r;
        if compression_mode == 0x4E {
            if (compressed_size as usize) <= avail {
                let op = PatchOp::WriteEntry {
                    path,
                    compression: Compression::Stored,
                    data: ByteRange { start: r, len: compressed_size as usize },
                };
                return (vec![op], None);
            } else {
                let written = (avail / STORED_COPY_BLOCK) * STORED_COPY_BLOCK;
                let op = PatchOp::WriteEntry {
                    path,
                    compression: Compression::Stored,
                    data: ByteRange { start: r, len: written },
                };
                return (vec![op], Some(ZiPatchError::TruncatedChunkBody));
            }
        } else {
            let len = if (compressed_size as usize) <= avail {
                compressed_size as usize
            } else {
                avail
            };
            let op = PatchOp::WriteEntry {
                path,
                compression: Compression::Zlib,
                data: ByteRange { start: r, len },
            };
            return (vec![op], None);
        }
    }
    (Vec::new(), None)
}

fn decode_chunk_body(d: &[u8], tag: u32, bs: usize, lim: usize) -> (r: (
    Vec<PatchOp>,
    Option<ZiPatchError>,
))
    requires
        bs <= lim <= d@.len(),
    ensures
        r.0@ == spec_chunk_body(d@, tag as int, bs as int, lim as int).0,
        r.1 == spec_chunk_body(d@, tag as int, bs as int, lim as int).1,
{
    if tag == TAG_FHDR || tag == TAG_APLY || tag == TAG_APFS {
        (Vec::new(), None)
    } else if tag == TAG_ADIR || tag == TAG_DELD {
        match read_path(d, bs, lim) {
            None => (Vec::new(), Some(ZiPatchError::TruncatedChunkBody)),
            Some((path, _)) => {
                if tag == TAG_ADIR {
                    (vec![PatchOp::CreateDir { path }], None)
                } else {
                    (vec![PatchOp::DeleteDir { path }], None)
                }
            },
        }
    } else if tag == TAG_ETRY {
        match read_path(d, bs, lim) {
            None => (Vec::new(), Some(ZiPatchError::TruncatedChunkBody)),
            Some((path, q)) => {
                if lim - q < 4 {
                    (vec![PatchOp::OpenEntry { path }], Some(ZiPatchError::TruncatedChunkBody))
                } else {
                    let count = read_be32(d, q);
                    let items = decode_items(d, q + 4, lim, path, count);
                    let mut ops = vec![PatchOp::OpenEntry { path }];
                    push_all(&mut ops, items.0);
                    (ops, items.1)
                }
            },
        }
    } else {
        (Vec::new(), Some(ZiPatchError::UnknownChunk { tag }))
    }
}

fn has_magic(d: &[u8]) -> (b: bool)
    requires
        d@.len() >= 12,
    ensures
        b == (d@.subrange(0, 12) == spec_magic()),
{
    let magic: [u8; 12] = [0x91, 0x5A, 0x49, 0x50, 0x41, 0x54, 0x43, 0x48, 0x0D, 0x0A, 0x1A, 0x0A];
    let mut i: usize = 0;
    while i < 12
        invariant
            i <= 12,
            d@.len() >= 12,
            magic@ == spec_magic(),
            forall|j: int| 0 <= j < i ==> d@[j] == spec_magic()[j],
        decreases 12 - i,
    {
        if d[i] != magic[i] {
            proof {
                assert(d@.subrange(0, 12)[i as int] != spec_magic()[i as int]);
            }
            return false;
        }
        i += 1;
    }
    proof {
        assert(d@.subrange(0, 12) =~= spec_magic());
    }
    true
}

/// Decodes a whole patch file: the operations it asks for, in order, and the
/// error that stopped decoding, if any.
pub fn parse_zipatch(d: &[u8]) -> (r: ZiPatchScript)
    ensures
        r.ops@ == spec_parse(d@).0,
        r.error == spec_parse(d@).1,
{
    if d.len() < 12 {
        return ZiPatchScript { ops: Vec::new(), error: Some(ZiPatchError::TruncatedSignature) };
    }
    if !has_magic(d) {
        return ZiPatchScript { ops: Vec::new(), error: Some(ZiPatchError::BadSignature) };
    }
    let mut ops: Vec<PatchOp> = Vec::new();
    let mut p: usize = 12;
    loop
        invariant
            12 <= p <= d@.len(),
            spec_parse(d@).0 == ops@ + spec_chunks(d@, p as int).0,
            spec_parse(d@).1 == spec_chunks(d@, p as int).1,
        decreases d@.len() - p,
    {
        let len = d.len();
        if len - p < 4 {
            proof {
                assert(ops@ + Seq::<PatchOp>::empty() == ops@);
            }
            return ZiPatchScript { ops, error: None };
        }
        if len - p < 8 {
            proof {
                assert(ops@ + Seq::<PatchOp>::empty() == ops@);
            }
            return ZiPatchScript { ops, error: Some(ZiPatchError::TruncatedChunkTag) };
        }
        let size = read_be32(d, p);
        let tag = read_be32(d, p + 4);
        let bs = p + 8;
        let fits = (size as usize) <= len - bs;
        let lim = if fits { bs + size as usize } else { len };
        let (body_ops, err) = decode_chunk_body(d, tag, bs, lim);
        let ghost before = ops@;
        push_all(&mut ops, body_ops);
        if err.is_some() {
            return ZiPatchScript { ops, error: err };
        }
        if !fits || len - lim < 4 {
            return ZiPatchScript { ops, error: Some(ZiPatchError::TruncatedChunkCrc) };
        }
        proof {
            assert(before + (body_ops@ + spec_chunks(d@, lim + 4).0) == ops@ + spec_chunks(
                d@,
                lim + 4,
            ).0);
        }
        p = lim + 4;
    }
}


/// Whether `r` lies within the first `n` bytes.
pub open spec fn range_within(r: ByteRange, n: int) -> bool {
    r.start + r.len <= n
}

/// Whether every byte range an operation names lies within the first `n` bytes.
pub open spec fn op_within(op: PatchOp, n: int) -> bool {
    match op {
        PatchOp::CreateDir { path } => range_within(path, n),
        PatchOp::DeleteDir { path } => range_within(path, n),
        PatchOp::OpenEntry { path } => range_within(path, n),
        PatchOp::WriteEntry { path, data, .. } => range_within(path, n) && range_within(data, n),
    }
}

pub open spec fn ops_within(ops: Seq<PatchOp>, n: int) -> bool {
    forall|i: int| 0 <= i < ops.len() ==> op_within(#[trigger] ops[i], n)
}

proof fn lemma_read_path_within(d: Seq<u8>, p: int, lim: int)
    requires
        0 <= p <= lim <= usize::MAX,
    ensures
        spec_read_path(d, p, lim) matches Some((r, q)) ==> range_within(r, lim) && r.start + r.len == q && p <= q <= lim,
{
}

proof fn lemma_items_within(d: Seq<u8>, p: int, lim: int, path: ByteRange, i: int, count: int)
    requires
        0 <= p <= lim <= usize::MAX,
        range_within(path, lim),
    ensures
        ops_within(spec_items(d, p, lim, path, i, count).0, lim),
    decreases count - i,
{
    if i < count && p + 60 <= lim && valid_hash_mode(le32(d, p)) && valid_compression_mode(le32(d, p + 44)) {
        let cs = be32(d, p + 48);
        if !(i != count - 1 && cs != 0) && cs == 0 {
            lemma_items_within(d, p + 60, lim, path, i + 1, count);
        } else if !(i != count - 1 && cs != 0) && le32(d, p + 44) == 0x4E && cs > lim - (p + 60) {
            let avail = lim - (p + 60);
            assert(stored_prefix(avail) <= avail) by (nonlinear_arith)
                requires
                    avail >= 0,
                    stored_prefix(avail) == (avail / 0x4000) * 0x4000,
            ;
        }
    }
}

proof fn lemma_chunk_body_within(d: Seq<u8>, tag: int, bs: int, lim: int)
    requires
        0 <= bs <= lim <= usize::MAX,
    ensures
        ops_within(spec_chunk_body(d, tag, bs, lim).0, lim),
{
    lemma_read_path_within(d, bs, lim);
    if tag == TAG_ETRY {
        if let Some((path, q)) = spec_read_path(d, bs, lim) {
            if q + 4 <= lim {
                lemma_items_within(d, q + 4, lim, path, 0, be32(d, q));
                let items = spec_items(d, q + 4, lim, path, 0, be32(d, q));
                let all = seq![PatchOp::OpenEntry { path }] + items.0;
                assert forall|k: int| 0 <= k < all.len() implies op_within(#[trigger] all[k], lim) by {
                    if k > 0 {
                        assert(all[k] == items.0[k - 1]);
                    }
                }
            }
        }
    }
}

proof fn lemma_chunks_within(d: Seq<u8>, p: int)
    requires
        d.len() <= usize::MAX,
    ensures
        ops_within(spec_chunks(d, p).0, d.len() as int),
    decreases d.len() - p,
{
    if p >= 0 && d.len() - p >= 8 {
        let bs = p + 8;
        let be = bs + be32(d, p);
        let lim = if be <= d.len() { be } else { d.len() as int };
        lemma_chunk_body_within(d, be32(d, p + 4), bs, lim);
        let h = spec_chunk_body(d, be32(d, p + 4), bs, lim);
        assert(ops_within(h.0, d.len() as int));
        if h.1 is None && be + 4 <= d.len() {
            lemma_chunks_within(d, be + 4);
            let rest = spec_chunks(d, be + 4);
            let all = h.0 + rest.0;
            assert forall|k: int| 0 <= k < all.len() implies op_within(#[trigger] all[k], d.len() as int) by {
                if k >= h.0.len() {
                    assert(all[k] == rest.0[k - h.0.len()]);
                } else {
                    assert(all[k] == h.0[k]);
                }
            }
        }
    }
}

/// Whether `tag` marks metadata the decoder passes over (`FHDR`, `APLY`,
/// `APFS`).
pub open spec fn is_metadata_tag(tag: int) -> bool {
    tag == TAG_FHDR || tag == TAG_APLY || tag == TAG_APFS
}

/// A metadata chunk changes nothing: when a whole chunk (length, tag, body
/// and CRC) whose tag is `FHDR`, `APLY` or `APFS` starts at `p`, decoding
/// from `p` gives exactly what decoding from just after it gives, the same
/// operations and the same error.
pub proof fn lemma_metadata_chunk_skipped(d: Seq<u8>, p: int)
    requires
        0 <= p,
        p + 8 <= d.len(),
        is_metadata_tag(be32(d, p + 4)),
        p + 12 + be32(d, p) <= d.len(),
    ensures
        spec_chunks(d, p) == spec_chunks(d, p + 12 + be32(d, p)),
{
    let bs = p + 8;
    let be = bs + be32(d, p);
    let h = spec_chunk_body(d, be32(d, p + 4), bs, be);
    assert(h == (Seq::<PatchOp>::empty(), None::<ZiPatchError>));
    let rest = spec_chunks(d, be + 4);
    assert(h.0 + rest.0 =~= rest.0);
}

/// Every byte range named by the operations decoded from a patch file lies
/// inside that file: paths and entry data can always be read back from it.
pub proof fn lemma_parse_ops_within(d: Seq<u8>)
    requires
        d.len() <= usize::MAX,
    ensures
        ops_within(spec_parse(d).0, d.len() as int),
{
    lemma_chunks_within(d, 12);
}

} // verus!
