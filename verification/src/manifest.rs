//! The patches that take a 1.0 client to 2012.09.19.0001, in order.

use vstd::prelude::*;

verus! {

/// Where the patch files are served from.
pub const PATCH_URL_BASE: &'static str = "http://ffxivpatches.s3.amazonaws.com/";

/// One patch file: its path under `PATCH_URL_BASE`, byte size and CRC-32.
#[derive(Debug, Clone, Copy)]
pub struct PatchEntry {
    pub path: &'static str,
    pub size: u64,
    pub crc32: u32,
}

/// Every patch, oldest first.
pub open spec fn spec_patch_manifest() -> Seq<PatchEntry> {
    seq![
        PatchEntry { path: "2d2a390f/patch/D2010.09.18.0000.patch", size: 5571687, crc32: 0x47DDE5ED },
        PatchEntry { path: "48eca647/patch/D2010.09.19.0000.patch", size: 444398866, crc32: 0xD55C7ACD },
        PatchEntry { path: "48eca647/patch/D2010.09.23.0000.patch", size: 6907277, crc32: 0xCA135D55 },
        PatchEntry { path: "48eca647/patch/D2010.09.28.0000.patch", size: 18803280, crc32: 0xB19B32FE },
        PatchEntry { path: "48eca647/patch/D2010.10.07.0001.patch", size: 19226330, crc32: 0xD6118CEE },
        PatchEntry { path: "48eca647/patch/D2010.10.14.0000.patch", size: 19464329, crc32: 0x34BF6A99 },
        PatchEntry { path: "48eca647/patch/D2010.10.22.0000.patch", size: 19778252, crc32: 0x2543DB5C },
        PatchEntry { path: "48eca647/patch/D2010.10.26.0000.patch", size: 19778391, crc32: 0x20F94876 },
        PatchEntry { path: "48eca647/patch/D2010.11.25.0002.patch", size: 250718651, crc32: 0x5FBB5B24 },
        PatchEntry { path: "48eca647/patch/D2010.11.30.0000.patch", size: 6921623, crc32: 0xA5479111 },
        PatchEntry { path: "48eca647/patch/D2010.12.06.0000.patch", size: 7158904, crc32: 0xCAD6BC31 },
        PatchEntry { path: "48eca647/patch/D2010.12.13.0000.patch", size: 263311481, crc32: 0xE51EFC06 },
        PatchEntry { path: "48eca647/patch/D2010.12.21.0000.patch", size: 7521358, crc32: 0x93EE1510 },
        PatchEntry { path: "48eca647/patch/D2011.01.18.0000.patch", size: 9954265, crc32: 0x059E8900 },
        PatchEntry { path: "48eca647/patch/D2011.02.01.0000.patch", size: 11632816, crc32: 0x9EE60B39 },
        PatchEntry { path: "48eca647/patch/D2011.02.10.0000.patch", size: 11714096, crc32: 0x0ADE7243 },
        PatchEntry { path: "48eca647/patch/D2011.03.01.0000.patch", size: 77464101, crc32: 0x7818B5BF },
        PatchEntry { path: "48eca647/patch/D2011.03.24.0000.patch", size: 108923937, crc32: 0xF21852AD },
        PatchEntry { path: "48eca647/patch/D2011.03.30.0000.patch", size: 109010880, crc32: 0x84CB2682 },
        PatchEntry { path: "48eca647/patch/D2011.04.13.0000.patch", size: 341603850, crc32: 0xFF6C3DB0 },
        PatchEntry { path: "48eca647/patch/D2011.04.21.0000.patch", size: 343579198, crc32: 0x57F4041C },
        PatchEntry { path: "48eca647/patch/D2011.05.19.0000.patch", size: 344239925, crc32: 0xB16FF18C },
        PatchEntry { path: "48eca647/patch/D2011.06.10.0000.patch", size: 344334860, crc32: 0xB1CAA88B },
        PatchEntry { path: "48eca647/patch/D2011.07.20.0000.patch", size: 584926805, crc32: 0x2EA149A9 },
        PatchEntry { path: "48eca647/patch/D2011.07.26.0000.patch", size: 7649141, crc32: 0x5670BA07 },
        PatchEntry { path: "48eca647/patch/D2011.08.05.0000.patch", size: 152064532, crc32: 0x0D9E9FD8 },
        PatchEntry { path: "48eca647/patch/D2011.08.09.0000.patch", size: 8573687, crc32: 0x9B54551A },
        PatchEntry { path: "48eca647/patch/D2011.08.16.0000.patch", size: 6118907, crc32: 0x75231C57 },
        PatchEntry { path: "48eca647/patch/D2011.10.04.0000.patch", size: 677633296, crc32: 0x95C15318 },
        PatchEntry { path: "48eca647/patch/D2011.10.12.0001.patch", size: 28941655, crc32: 0xB37993E3 },
        PatchEntry { path: "48eca647/patch/D2011.10.27.0000.patch", size: 29179764, crc32: 0x977480DC },
        PatchEntry { path: "48eca647/patch/D2011.12.14.0000.patch", size: 374617428, crc32: 0xC6FE8FED },
        PatchEntry { path: "48eca647/patch/D2011.12.23.0000.patch", size: 22363713, crc32: 0x93137C93 },
        PatchEntry { path: "48eca647/patch/D2012.01.18.0000.patch", size: 48998794, crc32: 0x9E55EC7E },
        PatchEntry { path: "48eca647/patch/D2012.01.24.0000.patch", size: 49126606, crc32: 0x3008D942 },
        PatchEntry { path: "48eca647/patch/D2012.01.31.0000.patch", size: 49536396, crc32: 0x60FDBD0B },
        PatchEntry { path: "48eca647/patch/D2012.03.07.0000.patch", size: 320630782, crc32: 0x885AD768 },
        PatchEntry { path: "48eca647/patch/D2012.03.09.0000.patch", size: 8312819, crc32: 0xC0040D8C },
        PatchEntry { path: "48eca647/patch/D2012.03.22.0000.patch", size: 22027738, crc32: 0xEABC501B },
        PatchEntry { path: "48eca647/patch/D2012.03.29.0000.patch", size: 8322920, crc32: 0x63811C35 },
        PatchEntry { path: "48eca647/patch/D2012.04.04.0000.patch", size: 8678570, crc32: 0xF6E43EEC },
        PatchEntry { path: "48eca647/patch/D2012.04.23.0001.patch", size: 289511791, crc32: 0x6C3C0201 },
        PatchEntry { path: "48eca647/patch/D2012.05.08.0000.patch", size: 27266546, crc32: 0xB6AABF18 },
        PatchEntry { path: "48eca647/patch/D2012.05.15.0000.patch", size: 27416023, crc32: 0x2D428126 },
        PatchEntry { path: "48eca647/patch/D2012.05.22.0000.patch", size: 27742726, crc32: 0x9163549D },
        PatchEntry { path: "48eca647/patch/D2012.06.06.0000.patch", size: 129984024, crc32: 0x21DF7238 },
        PatchEntry { path: "48eca647/patch/D2012.06.19.0000.patch", size: 133434217, crc32: 0x8280988A },
        PatchEntry { path: "48eca647/patch/D2012.06.26.0000.patch", size: 133581048, crc32: 0x4CF33FC8 },
        PatchEntry { path: "48eca647/patch/D2012.07.21.0000.patch", size: 253224781, crc32: 0xA8A42A32 },
        PatchEntry { path: "48eca647/patch/D2012.08.10.0000.patch", size: 42851112, crc32: 0xD8ED4CE3 },
        PatchEntry { path: "48eca647/patch/D2012.09.06.0000.patch", size: 20566711, crc32: 0x4235DF72 },
        PatchEntry { path: "48eca647/patch/D2012.09.19.0001.patch", size: 20874726, crc32: 0x8A775526 },
    ]
}

/// Every patch, oldest first.
pub fn patch_manifest() -> (r: Vec<PatchEntry>)
    ensures
        r@ == spec_patch_manifest(),
{
    let r = vec![
        PatchEntry { path: "2d2a390f/patch/D2010.09.18.0000.patch", size: 5571687, crc32: 0x47DDE5ED },
        PatchEntry { path: "48eca647/patch/D2010.09.19.0000.patch", size: 444398866, crc32: 0xD55C7ACD },
        PatchEntry { path: "48eca647/patch/D2010.09.23.0000.patch", size: 6907277, crc32: 0xCA135D55 },
        PatchEntry { path: "48eca647/patch/D2010.09.28.0000.patch", size: 18803280, crc32: 0xB19B32FE },
        PatchEntry { path: "48eca647/patch/D2010.10.07.0001.patch", size: 19226330, crc32: 0xD6118CEE },
        PatchEntry { path: "48eca647/patch/D2010.10.14.0000.patch", size: 19464329, crc32: 0x34BF6A99 },
        PatchEntry { path: "48eca647/patch/D2010.10.22.0000.patch", size: 19778252, crc32: 0x2543DB5C },
        PatchEntry { path: "48eca647/patch/D2010.10.26.0000.patch", size: 19778391, crc32: 0x20F94876 },
        PatchEntry { path: "48eca647/patch/D2010.11.25.0002.patch", size: 250718651, crc32: 0x5FBB5B24 },
        PatchEntry { path: "48eca647/patch/D2010.11.30.0000.patch", size: 6921623, crc32: 0xA5479111 },
        PatchEntry { path: "48eca647/patch/D2010.12.06.0000.patch", size: 7158904, crc32: 0xCAD6BC31 },
        PatchEntry { path: "48eca647/patch/D2010.12.13.0000.patch", size: 263311481, crc32: 0xE51EFC06 },
        PatchEntry { path: "48eca647/patch/D2010.12.21.0000.patch", size: 7521358, crc32: 0x93EE1510 },
        PatchEntry { path: "48eca647/patch/D2011.01.18.0000.patch", size: 9954265, crc32: 0x059E8900 },
        PatchEntry { path: "48eca647/patch/D2011.02.01.0000.patch", size: 11632816, crc32: 0x9EE60B39 },
        PatchEntry { path: "48eca647/patch/D2011.02.10.0000.patch", size: 11714096, crc32: 0x0ADE7243 },
        PatchEntry { path: "48eca647/patch/D2011.03.01.0000.patch", size: 77464101, crc32: 0x7818B5BF },
        PatchEntry { path: "48eca647/patch/D2011.03.24.0000.patch", size: 108923937, crc32: 0xF21852AD },
        PatchEntry { path: "48eca647/patch/D2011.03.30.0000.patch", size: 109010880, crc32: 0x84CB2682 },
        PatchEntry { path: "48eca647/patch/D2011.04.13.0000.patch", size: 341603850, crc32: 0xFF6C3DB0 },
        PatchEntry { path: "48eca647/patch/D2011.04.21.0000.patch", size: 343579198, crc32: 0x57F4041C },
        PatchEntry { path: "48eca647/patch/D2011.05.19.0000.patch", size: 344239925, crc32: 0xB16FF18C },
        PatchEntry { path: "48eca647/patch/D2011.06.10.0000.patch", size: 344334860, crc32: 0xB1CAA88B },
        PatchEntry { path: "48eca647/patch/D2011.07.20.0000.patch", size: 584926805, crc32: 0x2EA149A9 },
        PatchEntry { path: "48eca647/patch/D2011.07.26.0000.patch", size: 7649141, crc32: 0x5670BA07 },
        PatchEntry { path: "48eca647/patch/D2011.08.05.0000.patch", size: 152064532, crc32: 0x0D9E9FD8 },
        PatchEntry { path: "48eca647/patch/D2011.08.09.0000.patch", size: 8573687, crc32: 0x9B54551A },
        PatchEntry { path: "48eca647/patch/D2011.08.16.0000.patch", size: 6118907, crc32: 0x75231C57 },
        PatchEntry { path: "48eca647/patch/D2011.10.04.0000.patch", size: 677633296, crc32: 0x95C15318 },
        PatchEntry { path: "48eca647/patch/D2011.10.12.0001.patch", size: 28941655, crc32: 0xB37993E3 },
        PatchEntry { path: "48eca647/patch/D2011.10.27.0000.patch", size: 29179764, crc32: 0x977480DC },
        PatchEntry { path: "48eca647/patch/D2011.12.14.0000.patch", size: 374617428, crc32: 0xC6FE8FED },
        PatchEntry { path: "48eca647/patch/D2011.12.23.0000.patch", size: 22363713, crc32: 0x93137C93 },
        PatchEntry { path: "48eca647/patch/D2012.01.18.0000.patch", size: 48998794, crc32: 0x9E55EC7E },
        PatchEntry { path: "48eca647/patch/D2012.01.24.0000.patch", size: 49126606, crc32: 0x3008D942 },
        PatchEntry { path: "48eca647/patch/D2012.01.31.0000.patch", size: 49536396, crc32: 0x60FDBD0B },
        PatchEntry { path: "48eca647/patch/D2012.03.07.0000.patch", size: 320630782, crc32: 0x885AD768 },
        PatchEntry { path: "48eca647/patch/D2012.03.09.0000.patch", size: 8312819, crc32: 0xC0040D8C },
        PatchEntry { path: "48eca647/patch/D2012.03.22.0000.patch", size: 22027738, crc32: 0xEABC501B },
        PatchEntry { path: "48eca647/patch/D2012.03.29.0000.patch", size: 8322920, crc32: 0x63811C35 },
        PatchEntry { path: "48eca647/patch/D2012.04.04.0000.patch", size: 8678570, crc32: 0xF6E43EEC },
        PatchEntry { path: "48eca647/patch/D2012.04.23.0001.patch", size: 289511791, crc32: 0x6C3C0201 },
        PatchEntry { path: "48eca647/patch/D2012.05.08.0000.patch", size: 27266546, crc32: 0xB6AABF18 },
        PatchEntry { path: "48eca647/patch/D2012.05.15.0000.patch", size: 27416023, crc32: 0x2D428126 },
        PatchEntry { path: "48eca647/patch/D2012.05.22.0000.patch", size: 27742726, crc32: 0x9163549D },
        PatchEntry { path: "48eca647/patch/D2012.06.06.0000.patch", size: 129984024, crc32: 0x21DF7238 },
        PatchEntry { path: "48eca647/patch/D2012.06.19.0000.patch", size: 133434217, crc32: 0x8280988A },
        PatchEntry { path: "48eca647/patch/D2012.06.26.0000.patch", size: 133581048, crc32: 0x4CF33FC8 },
        PatchEntry { path: "48eca647/patch/D2012.07.21.0000.patch", size: 253224781, crc32: 0xA8A42A32 },
        PatchEntry { path: "48eca647/patch/D2012.08.10.0000.patch", size: 42851112, crc32: 0xD8ED4CE3 },
        PatchEntry { path: "48eca647/patch/D2012.09.06.0000.patch", size: 20566711, crc32: 0x4235DF72 },
        PatchEntry { path: "48eca647/patch/D2012.09.19.0001.patch", size: 20874726, crc32: 0x8A775526 },
    ];
    proof {
        assert(r@ =~= spec_patch_manifest());
    }
    r
}

/// The sum of the sizes of `s`.
pub open spec fn sum_sizes(s: Seq<PatchEntry>) -> int
    decreases s.len(),
{
    if s.len() == 0 {
        0
    } else {
        sum_sizes(s.drop_last()) + s.last().size
    }
}

/// Every patch is smaller than 2^30 bytes.
pub proof fn lemma_manifest_sizes()
    ensures
        spec_patch_manifest().len() == 52,
        forall|i: int| 0 <= i < spec_patch_manifest().len() ==> #[trigger] spec_patch_manifest()[i].size < 0x4000_0000,
{
    let s = spec_patch_manifest();
    assert forall|i: int| 0 <= i < s.len() implies #[trigger] s[i].size < 0x4000_0000 by {
        if i == 0 {
            assert(s[0].size == 5571687);
        } else if i == 1 {
            assert(s[1].size == 444398866);
        } else if i == 2 {
            assert(s[2].size == 6907277);
        } else if i == 3 {
            assert(s[3].size == 18803280);
        } else if i == 4 {
            assert(s[4].size == 19226330);
        } else if i == 5 {
            assert(s[5].size == 19464329);
        } else if i == 6 {
            assert(s[6].size == 19778252);
        } else if i == 7 {
            assert(s[7].size == 19778391);
        } else if i == 8 {
            assert(s[8].size == 250718651);
        } else if i == 9 {
            assert(s[9].size == 6921623);
        } else if i == 10 {
            assert(s[10].size == 7158904);
        } else if i == 11 {
            assert(s[11].size == 263311481);
        } else if i == 12 {
            assert(s[12].size == 7521358);
        } else if i == 13 {
            assert(s[13].size == 9954265);
        } else if i == 14 {
            assert(s[14].size == 11632816);
        } else if i == 15 {
            assert(s[15].size == 11714096);
        } else if i == 16 {
            assert(s[16].size == 77464101);
        } else if i == 17 {
            assert(s[17].size == 108923937);
        } else if i == 18 {
            assert(s[18].size == 109010880);
        } else if i == 19 {
            assert(s[19].size == 341603850);
        } else if i == 20 {
            assert(s[20].size == 343579198);
        } else if i == 21 {
            assert(s[21].size == 344239925);
        } else if i == 22 {
            assert(s[22].size == 344334860);
        } else if i == 23 {
            assert(s[23].size == 584926805);
        } else if i == 24 {
            assert(s[24].size == 7649141);
        } else if i == 25 {
            assert(s[25].size == 152064532);
        } else if i == 26 {
            assert(s[26].size == 8573687);
        } else if i == 27 {
            assert(s[27].size == 6118907);
        } else if i == 28 {
            assert(s[28].size == 677633296);
        } else if i == 29 {
            assert(s[29].size == 28941655);
        } else if i == 30 {
            assert(s[30].size == 29179764);
        } else if i == 31 {
            assert(s[31].size == 374617428);
        } else if i == 32 {
            assert(s[32].size == 22363713);
        } else if i == 33 {
            assert(s[33].size == 48998794);
        } else if i == 34 {
            assert(s[34].size == 49126606);
        } else if i == 35 {
            assert(s[35].size == 49536396);
        } else if i == 36 {
            assert(s[36].size == 320630782);
        } else if i == 37 {
            assert(s[37].size == 8312819);
        } else if i == 38 {
            assert(s[38].size == 22027738);
        } else if i == 39 {
            assert(s[39].size == 8322920);
        } else if i == 40 {
            assert(s[40].size == 8678570);
        } else if i == 41 {
            assert(s[41].size == 289511791);
        } else if i == 42 {
            assert(s[42].size == 27266546);
        } else if i == 43 {
            assert(s[43].size == 27416023);
        } else if i == 44 {
            assert(s[44].size == 27742726);
        } else if i == 45 {
            assert(s[45].size == 129984024);
        } else if i == 46 {
            assert(s[46].size == 133434217);
        } else if i == 47 {
            assert(s[47].size == 133581048);
        } else if i == 48 {
            assert(s[48].size == 253224781);
        } else if i == 49 {
            assert(s[49].size == 42851112);
        } else if i == 50 {
            assert(s[50].size == 20566711);
        } else if i == 51 {
            assert(s[51].size == 20874726);
        }
    }
}

/// The total download size of the manifest, in bytes.
pub fn total_bytes() -> (r: u64)
    ensures
        r == sum_sizes(spec_patch_manifest()),
{
    let m = patch_manifest();
    proof {
        lemma_manifest_sizes();
    }
    let mut total: u64 = 0;
    let mut i: usize = 0;
    while i < m.len()
        invariant
            m@ == spec_patch_manifest(),
            m@.len() == 52,
            i <= m@.len(),
            forall|j: int| 0 <= j < m@.len() ==> #[trigger] m@[j].size < 0x4000_0000,
            total == sum_sizes(m@.subrange(0, i as int)),
            total <= i * 0x4000_0000,
        decreases m@.len() - i,
    {
        proof {
            assert(m@.subrange(0, i + 1).drop_last() =~= m@.subrange(0, i as int));
        }
        total = total + m[i].size;
        i += 1;
    }
    proof {
        assert(m@.subrange(0, m@.len() as int) == m@);
    }
    total
}

} // verus!
