//! Byte patches applied to `ffxivgame.exe` before launch.

use vstd::prelude::*;
use vstd::string::StringSliceAdditionalSpecFns;
use object::{Object, ObjectSection};

use crate::text::{decimal, hex, push_decimal, push_hex};

verus! {

/// Relative virtual address of the encryption-time instruction.
pub const ENCRYPTION_TIME_PATCH_RVA: u32 = 0x9A15E3;
/// Relative virtual address of the lobby host name slot.
pub const LOBBY_HOST_NAME_RVA: u32 = 0xB90110;
/// Size of the lobby host name slot, NUL terminator included.
pub const LOBBY_HOST_NAME_SLOT_SIZE: usize = 0x14;
/// Relative virtual address of the assert-log call site.
pub const ASSERT_LOG_PATCH_RVA: u32 = 0x648BBF;

/// A patch: bytes to write at a relative virtual address of the image.
#[derive(Debug, Clone)]
pub struct PePatch {
    pub rva: u32,
    pub bytes: Vec<u8>,
}

/// Why a patch could not be built.
#[derive(Debug, Clone, PartialEq, Eq)]
pub enum PePatchError {
    /// The host name (its byte length given) does not fit the slot with its NUL.
    HostNameTooLong { len: usize },
}

/// `mov eax, 0x50E0E812`: pins the encryption time the client uses.
pub open spec fn spec_encryption_time_patch_bytes() -> Seq<u8> {
    seq![0xB8u8, 0x12u8, 0xE8u8, 0xE0u8, 0x50u8]
}

/// `call dword ptr [0x00F3E164]`, `lea esp, [esp-4]`, then six `nop`s.
pub open spec fn spec_assert_log_patch_bytes() -> Seq<u8> {
    seq![
        0xFFu8, 0x15u8, 0x64u8, 0xE1u8, 0xF3u8, 0x00u8,
        0x8Du8, 0x64u8, 0x24u8, 0xFCu8,
        0x90u8, 0x90u8, 0x90u8, 0x90u8, 0x90u8, 0x90u8,
    ]
}

/// The patch that fixes the client's encryption time.
pub fn encryption_time_patch() -> (p: PePatch)
    ensures
        p.rva == ENCRYPTION_TIME_PATCH_RVA,
        p.bytes@ == spec_encryption_time_patch_bytes(),
{
    let bytes: Vec<u8> = vec![0xB8, 0x12, 0xE8, 0xE0, 0x50];
    PePatch { rva: ENCRYPTION_TIME_PATCH_RVA, bytes }
}

/// The patch that routes the client's assert log through its logger.
pub fn assert_log_patch() -> (p: PePatch)
    ensures
        p.rva == ASSERT_LOG_PATCH_RVA,
        p.bytes@ == spec_assert_log_patch_bytes(),
{
    let bytes: Vec<u8> = vec![
        0xFF, 0x15, 0x64, 0xE1, 0xF3, 0x00,
        0x8D, 0x64, 0x24, 0xFC,
        0x90, 0x90, 0x90, 0x90, 0x90, 0x90,
    ];
    PePatch { rva: ASSERT_LOG_PATCH_RVA, bytes }
}

/// The patch that points the client at `host`: its UTF-8 bytes and a NUL,
/// refused when that does not fit the slot.
pub fn lobby_host_patch(host: &str) -> (r: Result<PePatch, PePatchError>)
    ensures
        host.spec_bytes().len() + 1 > LOBBY_HOST_NAME_SLOT_SIZE ==> r == Err::<PePatch, PePatchError>(
            PePatchError::HostNameTooLong { len: host.spec_bytes().len() as usize },
        ),
        host.spec_bytes().len() + 1 <= LOBBY_HOST_NAME_SLOT_SIZE ==> (r matches Ok(p) && p.rva
            == LOBBY_HOST_NAME_RVA && p.bytes@ == host.spec_bytes().push(0u8)),
{
    let bytes = host.as_bytes();
    if bytes.len() >= LOBBY_HOST_NAME_SLOT_SIZE {
        return Err(PePatchError::HostNameTooLong { len: bytes.len() });
    }
    let mut buf: Vec<u8> = Vec::with_capacity(bytes.len() + 1);
    let mut i: usize = 0;
    while i < bytes.len()
        invariant
            i <= bytes@.len(),
            buf@ == bytes@.subrange(0, i as int),
        decreases bytes@.len() - i,
    {
        buf.push(bytes[i]);
        i += 1;
    }
    buf.push(0u8);
    proof {
        assert(bytes@.subrange(0, bytes@.len() as int) == bytes@);
    }
    Ok(PePatch { rva: LOBBY_HOST_NAME_RVA, bytes: buf })
}

/// The `object` crate's parse error.
#[verifier::external_type_specification]
#[verifier::external_body]
pub struct ExObjectError(object::read::Error);

/// A section of a 32-bit PE image as the `object` crate reports it.
#[derive(Debug, Clone, Copy, PartialEq, Eq)]
pub struct PeSection {
    /// Image base plus the section's virtual address.
    pub address: u64,
    /// The section's virtual size.
    pub size: u64,
    /// Offset and size of the section's data in the file, when it has any.
    pub file_range: Option<(u64, u64)>,
}

/// The layout of a 32-bit PE image.
#[derive(Debug, Clone)]
pub struct PeImage {
    pub image_base: u64,
    pub sections: Vec<PeSection>,
}

/// What `object::read::pe::PeFile32::parse` makes of the file `data`: its
/// image base and its sections, or `None` when it refuses the file.
pub uninterp spec fn pe32_image(data: Seq<u8>) -> Option<PeImage>;

/// Parses `data` with `object::read::pe::PeFile32::parse` and reads its image
/// base (`relative_address_base`) and, for each section, `address`, `size` and
/// `file_range`. Claimed: the result is a function of the bytes; sizes and file
/// ranges fit in 32 bits, as the crate reads them from 32-bit header fields.
#[verifier::external_body]
fn parse_pe32(data: &[u8]) -> (r: Result<PeImage, object::read::Error>)
    ensures
        r is Ok <==> pe32_image(data@) is Some,
        r matches Ok(img) ==> img == pe32_image(data@).unwrap(),
        r matches Ok(img) ==> forall|i: int|
            0 <= i < img.sections@.len() ==> {
                let s = #[trigger] img.sections@[i];
                &&& s.size <= u32::MAX
                &&& s.file_range matches Some((o, n)) ==> o <= u32::MAX && n <= u32::MAX
            },
{
    let pe = object::read::pe::PeFile32::parse(data)?;
    let sections = pe
        .sections()
        .map(|s| PeSection { address: s.address(), size: s.size(), file_range: s.file_range() })
        .collect();
    Ok(PeImage { image_base: pe.relative_address_base(), sections })
}

/// Sections whose sizes and file ranges fit in 32 bits.
pub open spec fn sections_wf(sections: Seq<PeSection>) -> bool {
    forall|i: int|
        0 <= i < sections.len() ==> {
            let s = #[trigger] sections[i];
            &&& s.size <= u32::MAX
            &&& s.file_range matches Some((o, n)) ==> o <= u32::MAX && n <= u32::MAX
        }
}

/// The file offset of `rva`: the first section, in order, whose virtual range
/// holds it decides; a section that starts below the image base, or the
/// deciding section having no file data, leaves the address unmapped.
pub open spec fn spec_rva_to_file_offset(sections: Seq<PeSection>, base: u32, rva: u32) -> Option<u64>
    decreases sections.len(),
{
    if sections.len() == 0 {
        None
    } else {
        let s = sections[0];
        let addr = s.address as u32;
        if addr < base {
            None
        } else {
            let srva = (addr - base) as u32;
            let vsize = s.size as u32;
            let end = if srva + vsize > u32::MAX { u32::MAX as int } else { srva + vsize };
            if srva <= rva && rva < end {
                match s.file_range {
                    None => None,
                    Some((off, _)) => Some((off + (rva - srva)) as u64),
                }
            } else {
                spec_rva_to_file_offset(sections.subrange(1, sections.len() as int), base, rva)
            }
        }
    }
}

/// Section `s` maps `rva`: it starts at or above the image base `base`, and
/// `rva` lies in its virtual range (which ends, at the latest, below the
/// largest 32-bit address).
pub open spec fn section_holds(s: PeSection, base: u32, rva: u32) -> bool {
    let addr = s.address as u32;
    let srva = addr - base;
    &&& addr >= base
    &&& srva <= rva
    &&& rva < srva + (s.size as u32)
    &&& rva < u32::MAX
}

/// An address is placed by the section that holds it, whatever comes
/// before: when sections `0..k` all start at or above the image base and
/// none holds `rva`, and section `k` holds it, the file offset is that
/// section's file offset plus `rva`'s distance into the section (none when
/// the section has no file data).
pub proof fn lemma_rva_found_in_its_section(sections: Seq<PeSection>, base: u32, rva: u32, k: int)
    requires
        0 <= k < sections.len(),
        forall|j: int|
            0 <= j < k ==> (#[trigger] sections[j].address as u32) >= base && !section_holds(sections[j], base, rva),
        section_holds(sections[k], base, rva),
    ensures
        spec_rva_to_file_offset(sections, base, rva) == match sections[k].file_range {
            Some((off, _)) => Some((off + (rva - ((sections[k].address as u32) - base))) as u64),
            None => None::<u64>,
        },
    decreases k,
{
    if k > 0 {
        let rest = sections.subrange(1, sections.len() as int);
        assert(sections[0].address as u32 >= base && !section_holds(sections[0], base, rva));
        assert forall|j: int| 0 <= j < k - 1 implies (#[trigger] rest[j].address as u32) >= base && !section_holds(
            rest[j],
            base,
            rva,
        ) by {
            assert(rest[j] == sections[j + 1]);
        }
        assert(rest[k - 1] == sections[k]);
        lemma_rva_found_in_its_section(rest, base, rva, k - 1);
    }
}

/// An address no section holds is not mapped: when every section starts at
/// or above the image base and none holds `rva`, there is no file offset.
pub proof fn lemma_rva_unmapped_when_no_section_holds(sections: Seq<PeSection>, base: u32, rva: u32)
    requires
        forall|j: int|
            0 <= j < sections.len() ==> (#[trigger] sections[j].address as u32) >= base && !section_holds(
                sections[j],
                base,
                rva,
            ),
    ensures
        spec_rva_to_file_offset(sections, base, rva) is None,
    decreases sections.len(),
{
    if sections.len() > 0 {
        let rest = sections.subrange(1, sections.len() as int);
        assert(sections[0].address as u32 >= base && !section_holds(sections[0], base, rva));
        assert forall|j: int| 0 <= j < rest.len() implies (#[trigger] rest[j].address as u32) >= base
            && !section_holds(rest[j], base, rva) by {
            assert(rest[j] == sections[j + 1]);
        }
        lemma_rva_unmapped_when_no_section_holds(rest, base, rva);
    }
}

/// File offset of a relative virtual address of `image`.
pub fn rva_to_file_offset(image: &PeImage, rva: u32) -> (r: Option<u64>)
    requires
        sections_wf(image.sections@),
    ensures
        r == spec_rva_to_file_offset(image.sections@, image.image_base as u32, rva),
{
    let base = image.image_base as u32;
    let mut i: usize = 0;
    proof {
        assert(image.sections@.subrange(0, image.sections@.len() as int) == image.sections@);
    }
    while i < image.sections.len()
        invariant
            base == image.image_base as u32,
            i <= image.sections@.len(),
            sections_wf(image.sections@),
            spec_rva_to_file_offset(image.sections@.subrange(i as int, image.sections@.len() as int), base, rva)
                == spec_rva_to_file_offset(image.sections@, base, rva),
        decreases image.sections@.len() - i,
    {
        let ghost rest = image.sections@.subrange(i as int, image.sections@.len() as int);
        let s = image.sections[i];
        proof {
            assert(rest[0] == s);
            assert(rest.subrange(1, rest.len() as int) =~= image.sections@.subrange(i + 1, image.sections@.len() as int));
        }
        let addr = s.address as u32;
        if addr < base {
            return None;
        }
        let srva = addr - base;
        let vsize = s.size as u32;
        let end = srva.saturating_add(vsize);
        if srva <= rva && rva < end {
            match s.file_range {
                None => {
                    return None;
                },
                Some((off, _)) => {
                    return Some(off + (rva - srva) as u64);
                },
            }
        }
        i += 1;
    }
    proof {
        assert(image.sections@.subrange(i as int, image.sections@.len() as int).len() == 0);
    }
    None
}

/// A write of patch bytes at a file offset, with the bytes found there before.
#[derive(Debug, Clone)]
pub struct PlannedWrite {
    pub offset: u64,
    pub bytes: Vec<u8>,
    /// The bytes the write replaces, or none when they run past the file.
    pub before: Vec<u8>,
}

/// Why patches could not be placed.
#[derive(Debug, Clone, Copy, PartialEq, Eq)]
pub enum PatchPlanError {
    /// The file is not a 32-bit PE image the `object` crate accepts.
    InvalidPe,
    /// No section maps this relative virtual address to file data.
    UnmappedRva { rva: u32 },
}

/// The `len` bytes at `offset`, or none when they do not all lie in `data`
/// (the end saturating at the largest `usize`).
pub open spec fn spec_before(data: Seq<u8>, offset: u64, len: int) -> Seq<u8> {
    let start = offset as usize;
    let end = if start + len > usize::MAX { usize::MAX as int } else { start + len };
    if end <= data.len() {
        data.subrange(start as int, end)
    } else {
        seq![]
    }
}

/// The first patch, in order, whose address no section maps.
pub open spec fn first_unmapped(image: PeImage, patches: Seq<PePatch>) -> Option<int> {
    if exists|i: int|
        0 <= i < patches.len() && spec_rva_to_file_offset(image.sections@, image.image_base as u32, #[trigger] patches[i].rva) is None {
        Some(choose|i: int|
            0 <= i < patches.len() && spec_rva_to_file_offset(image.sections@, image.image_base as u32, #[trigger] patches[i].rva) is None
                && forall|j: int| 0 <= j < i ==> spec_rva_to_file_offset(image.sections@, image.image_base as u32, #[trigger] patches[j].rva) is Some)
    } else {
        None
    }
}

/// `plan` places every patch of `patches` in `data` laid out as `image`.
pub open spec fn plan_places(image: PeImage, data: Seq<u8>, patches: Seq<PePatch>, plan: Seq<PlannedWrite>) -> bool {
    &&& plan.len() == patches.len()
    &&& forall|i: int|
        0 <= i < plan.len() ==> {
            let w = #[trigger] plan[i];
            &&& spec_rva_to_file_offset(image.sections@, image.image_base as u32, patches[i].rva) == Some(w.offset)
            &&& w.bytes@ == patches[i].bytes@
            &&& w.before@ == spec_before(data, w.offset, patches[i].bytes@.len() as int)
        }
}

fn before_bytes(data: &[u8], offset: u64, len: usize) -> (b: Vec<u8>)
    ensures
        b@ == spec_before(data@, offset, len as int),
{
    let start = offset as usize;
    let end = start.saturating_add(len);
    let mut b: Vec<u8> = Vec::new();
    if end <= data.len() {
        let mut k = start;
        while k < end
            invariant
                start <= k <= end <= data@.len(),
                b@ == data@.subrange(start as int, k as int),
            decreases end - k,
        {
            b.push(data[k]);
            k += 1;
            proof {
                assert(b@ =~= data@.subrange(start as int, k as int));
            }
        }
    }
    b
}

fn copy_bytes(v: &Vec<u8>) -> (c: Vec<u8>)
    ensures
        c@ == v@,
{
    let mut c: Vec<u8> = Vec::with_capacity(v.len());
    let mut k: usize = 0;
    while k < v.len()
        invariant
            k <= v@.len(),
            c@ == v@.subrange(0, k as int),
        decreases v@.len() - k,
    {
        c.push(v[k]);
        k += 1;
        proof {
            assert(c@ =~= v@.subrange(0, k as int));
        }
    }
    proof {
        assert(v@.subrange(0, v@.len() as int) == v@);
    }
    c
}

/// Places `patches` in `data` laid out as `image`: for each, its file offset,
/// its bytes and the bytes it replaces. Refused at the first patch whose
/// address no section maps.
pub fn plan_patches(image: &PeImage, data: &[u8], patches: &Vec<PePatch>) -> (r: Result<
    Vec<PlannedWrite>,
    PatchPlanError,
>)
    requires
        sections_wf(image.sections@),
    ensures
        first_unmapped(*image, patches@) matches Some(i) ==> r == Err::<Vec<PlannedWrite>, PatchPlanError>(
            PatchPlanError::UnmappedRva { rva: patches@[i].rva },
        ),
        first_unmapped(*image, patches@) is None ==> (r matches Ok(plan) && plan_places(*image, data@, patches@, plan@)),
{
    let mut plan: Vec<PlannedWrite> = Vec::with_capacity(patches.len());
    let mut i: usize = 0;
    while i < patches.len()
        invariant
            i <= patches@.len(),
            sections_wf(image.sections@),
            plan_places(*image, data@, patches@.subrange(0, i as int), plan@),
            forall|j: int| 0 <= j < i ==> spec_rva_to_file_offset(image.sections@, image.image_base as u32, #[trigger] patches@[j].rva) is Some,
        decreases patches@.len() - i,
    {
        let patch = &patches[i];
        match rva_to_file_offset(image, patch.rva) {
            None => {
                proof {
                    let k = i as int;
                    assert(0 <= k < patches@.len() && spec_rva_to_file_offset(image.sections@, image.image_base as u32, patches@[k].rva) is None);
                    let c = first_unmapped(*image, patches@).unwrap();
                    if c < k {
                    } else if c > k {
                    }
                    assert(c == k);
                }
                return Err(PatchPlanError::UnmappedRva { rva: patch.rva });
            },
            Some(offset) => {
                let before = before_bytes(data, offset, patch.bytes.len());
                let bytes = copy_bytes(&patch.bytes);
                let ghost old_plan = plan@;
                plan.push(PlannedWrite { offset, bytes, before });
                proof {
                    assert(patches@.subrange(0, i + 1).drop_last() =~= patches@.subrange(0, i as int));
                    assert forall|j: int| 0 <= j < plan@.len() implies {
                        let w = #[trigger] plan@[j];
                        &&& spec_rva_to_file_offset(image.sections@, image.image_base as u32, patches@.subrange(0, i + 1)[j].rva) == Some(w.offset)
                        &&& w.bytes@ == patches@.subrange(0, i + 1)[j].bytes@
                        &&& w.before@ == spec_before(data@, w.offset, patches@.subrange(0, i + 1)[j].bytes@.len() as int)
                    } by {
                        if j < i {
                            assert(plan@[j] == old_plan[j]);
                            assert(patches@.subrange(0, i + 1)[j] == patches@.subrange(0, i as int)[j]);
                        }
                    }
                }
            },
        }
        i += 1;
    }
    proof {
        assert(patches@.subrange(0, patches@.len() as int) == patches@);
        if first_unmapped(*image, patches@) is Some {
            let c = first_unmapped(*image, patches@).unwrap();
        }
    }
    Ok(plan)
}

/// Places `patches` in the executable `data`, parsed with the `object` crate.
pub fn plan_pe_patches(data: &[u8], patches: &Vec<PePatch>) -> (r: Result<Vec<PlannedWrite>, PatchPlanError>)
    ensures
        pe32_image(data@) is None ==> r == Err::<Vec<PlannedWrite>, PatchPlanError>(PatchPlanError::InvalidPe),
        pe32_image(data@) matches Some(image) ==> {
            &&& first_unmapped(image, patches@) matches Some(i) ==> r == Err::<Vec<PlannedWrite>, PatchPlanError>(
                PatchPlanError::UnmappedRva { rva: patches@[i].rva },
            )
            &&& first_unmapped(image, patches@) is None ==> (r matches Ok(plan) && plan_places(image, data@, patches@, plan@))
        },
{
    match parse_pe32(data) {
        Err(_) => Err(PatchPlanError::InvalidPe),
        Ok(image) => {
            proof {
                assert(sections_wf(image.sections@));
            }
            plan_patches(&image, data, patches)
        },
    }
}

/// Bytes as upper-case hex pairs separated by single spaces.
pub open spec fn spec_hex_line(b: Seq<u8>) -> Seq<char>
    decreases b.len(),
{
    if b.len() == 0 {
        seq![]
    } else if b.len() == 1 {
        hex(b[0] as nat, 2, true)
    } else {
        spec_hex_line(b.drop_last()) + seq![' '] + hex(b.last() as nat, 2, true)
    }
}

/// `bytes` as upper-case hex pairs separated by spaces, e.g. `B8 12 E8`.
pub fn hex_line(bytes: &[u8]) -> (s: String)
    ensures
        s@ == spec_hex_line(bytes@),
{
    let mut s = String::new();
    let mut i: usize = 0;
    while i < bytes.len()
        invariant
            i <= bytes@.len(),
            s@ == spec_hex_line(bytes@.subrange(0, i as int)),
        decreases bytes@.len() - i,
    {
        if i > 0 {
            s.push(' ');
        }
        push_hex(&mut s, bytes[i] as u64, 2, true);
        i += 1;
        proof {
            let p = bytes@.subrange(0, i as int);
            assert(p.drop_last() =~= bytes@.subrange(0, i - 1));
            if i == 1 {
                assert(s@ =~= spec_hex_line(p));
            } else {
                assert(s@ =~= spec_hex_line(p));
            }
        }
    }
    proof {
        assert(bytes@.subrange(0, bytes@.len() as int) == bytes@);
    }
    s
}

/// The message reported for `e`.
pub open spec fn spec_pe_patch_message(e: PePatchError) -> Seq<char> {
    match e {
        PePatchError::HostNameTooLong { len } => "lobby host name too long: "@ + decimal(len as nat) + " bytes (limit "@
            + decimal(LOBBY_HOST_NAME_SLOT_SIZE as nat) + " including NUL)"@,
    }
}

impl PePatchError {
    /// The message reported for this error.
    pub fn message(&self) -> (s: String)
        ensures
            s@ == spec_pe_patch_message(*self),
    {
        match self {
            PePatchError::HostNameTooLong { len } => {
                let mut s = String::from_str("lobby host name too long: ");
                push_decimal(&mut s, *len as u64);
                s.append(" bytes (limit ");
                push_decimal(&mut s, LOBBY_HOST_NAME_SLOT_SIZE as u64);
                s.append(" including NUL)");
                s
            },
        }
    }
}

impl PatchPlanError {
    /// The message reported for this error, for the executable `exe_path`.
    pub fn message(&self, exe_path: &str) -> (s: String)
        ensures
            match self {
                PatchPlanError::InvalidPe => s@ == "parsing PE headers of "@ + exe_path@,
                PatchPlanError::UnmappedRva { rva } => s@ == "RVA 0x"@ + hex(*rva as nat, 0, true)
                    + " is not mapped to any PE section of "@ + exe_path@,
            },
    {
        match self {
            PatchPlanError::InvalidPe => {
                let mut s = String::from_str("parsing PE headers of ");
                s.append(exe_path);
                s
            },
            PatchPlanError::UnmappedRva { rva } => {
                let mut s = String::from_str("RVA 0x");
                push_hex(&mut s, *rva as u64, 0, true);
                s.append(" is not mapped to any PE section of ");
                s.append(exe_path);
                s
            },
        }
    }
}

/// The log entry for a planned write of `patch`.
pub open spec fn spec_patch_log(rva: u32, offset: u64, bytes: Seq<u8>, before: Seq<u8>) -> Seq<char> {
    "PE patch: RVA 0x"@ + hex(rva as nat, 0, true) + " -> file offset 0x"@ + hex(offset as nat, 0, true) + " ("@
        + decimal(bytes.len()) + " bytes)\n    before: "@ + spec_hex_line(before) + "\n    after:  "@
        + spec_hex_line(bytes)
}

/// The log entry for the planned write `w` of the patch at `rva`.
pub fn patch_log_line(rva: u32, w: &PlannedWrite) -> (s: String)
    ensures
        s@ == spec_patch_log(rva, w.offset, w.bytes@, w.before@),
{
    let mut s = String::from_str("PE patch: RVA 0x");
    push_hex(&mut s, rva as u64, 0, true);
    s.append(" -> file offset 0x");
    push_hex(&mut s, w.offset, 0, true);
    s.append(" (");
    push_decimal(&mut s, w.bytes.len() as u64);
    s.append(" bytes)\n    before: ");
    let b = hex_line(w.before.as_slice());
    s.append(b.as_str());
    s.append("\n    after:  ");
    let a = hex_line(w.bytes.as_slice());
    s.append(a.as_str());
    s
}

} // verus!
