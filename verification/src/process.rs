//! Patch bookkeeping: file names, download locations, the order in which
//! patches apply, and the version stamp of a patched client.

use vstd::prelude::*;

use crate::manifest::{spec_patch_manifest, patch_manifest, PatchEntry};
use crate::servers::{name_lt, same_text, seq_lt, lemma_lt_total, lemma_lt_transitive, lemma_lt_irreflexive, lemma_lt_asymmetric};
use crate::text::{chars_of, string_of};

verus! {

/// The version `game.ver` holds once every patch is applied.
pub const FFXIV_GAME_VERSION: &'static str = "2012.09.19.0001";
/// The version written to `boot.ver` alongside it.
pub const FFXIV_BOOT_VERSION: &'static str = "2010.09.18.0000";

/// The last position of `c` in `s`, if any.
pub open spec fn last_index(s: Seq<char>, c: char) -> Option<int>
    decreases s.len(),
{
    if s.len() == 0 {
        None
    } else if s.last() == c {
        Some(s.len() - 1)
    } else {
        last_index(s.drop_last(), c)
    }
}

/// The part of a `/`-separated path after its last `/`.
pub open spec fn spec_leaf(p: Seq<char>) -> Seq<char> {
    match last_index(p, '/') {
        Some(i) => p.subrange(i + 1, p.len() as int),
        None => p,
    }
}

/// Where the last `c` of `s` stands, and that none follows it.
pub proof fn lemma_last_index(s: Seq<char>, c: char)
    ensures
        last_index(s, c) matches Some(i) ==> 0 <= i < s.len() && s[i] == c && forall|j: int| i < j < s.len() ==> s[j] != c,
        last_index(s, c) is None ==> forall|j: int| 0 <= j < s.len() ==> s[j] != c,
    decreases s.len(),
{
    if s.len() > 0 && s.last() != c {
        let t = s.drop_last();
        lemma_last_index(t, c);
        assert(forall|j: int| 0 <= j < t.len() ==> t[j] == s[j]);
    }
}

/// The file name of a `/`-separated path: what follows its last `/`.
pub fn leaf_name(path: &str) -> (r: &str)
    ensures
        r@ == spec_leaf(path@),
{
    let v = chars_of(path);
    let mut i = v.len();
    while i > 0 && v[i - 1] != '/'
        invariant
            i <= v@.len(),
            v@ == path@,
            forall|j: int| i <= j < v@.len() ==> v@[j] != '/',
        decreases i,
    {
        i -= 1;
    }
    proof {
        lemma_last_index(path@, '/');
        if let Some(k) = last_index(path@, '/') {
            if i > 0 {
                assert(k == i - 1);
            }
        }
    }
    path.substring_char(i, v.len())
}

/// `rel` joined onto `base` as a Unix path: a `rel` starting with `/`
/// replaces `base`; otherwise a `/` separates them unless `base` is empty or
/// already ends in one.
pub open spec fn spec_path_join(base: Seq<char>, rel: Seq<char>) -> Seq<char> {
    if rel.len() > 0 && rel[0] == '/' {
        rel
    } else if base.len() == 0 || base.last() == '/' {
        base + rel
    } else {
        base + seq!['/'] + rel
    }
}

/// `rel` joined onto `base` as a Unix path (see `spec_path_join`).
pub fn path_join(base: &str, rel: &str) -> (r: String)
    ensures
        r@ == spec_path_join(base@, rel@),
{
    let rn = rel.unicode_len();
    if rn > 0 && rel.get_char(0) == '/' {
        return String::from_str(rel);
    }
    let bn = base.unicode_len();
    let mut r = String::from_str(base);
    if !(bn == 0 || base.get_char(bn - 1) == '/') {
        r.push('/');
    }
    r.append(rel);
    r
}

/// `s` sorted by leaf name, earlier first among equal leaves.
pub open spec fn sorted_by_leaf(s: Seq<Seq<char>>) -> bool {
    forall|i: int, j: int| 0 <= i < j < s.len() ==> !seq_lt(spec_leaf(#[trigger] s[j]), spec_leaf(#[trigger] s[i]))
}

pub open spec fn string_views(s: Seq<String>) -> Seq<Seq<char>> {
    Seq::new(s.len(), |i: int| s[i]@)
}

/// The patch files of the manifest, as stored under `download_dir`.
pub open spec fn spec_download_paths(download_dir: Seq<char>) -> Seq<Seq<char>> {
    spec_patch_manifest().map_values(|e: PatchEntry| spec_path_join(download_dir, e.path@))
}

/// The downloaded patches in the order they apply.
pub struct PatchPlan {
    /// Paths of the patch files, sorted by file name so that later patches
    /// apply later.
    pub patches_in_order: Vec<String>,
}

impl PatchPlan {
    /// The plan for patches downloaded to `download_dir`: each manifest path
    /// joined onto it, sorted by file name.
    pub fn from_download_dir(download_dir: &str) -> (r: Self)
        ensures
            sorted_by_leaf(string_views(r.patches_in_order@)),
            string_views(r.patches_in_order@).to_multiset() == spec_download_paths(download_dir@).to_multiset(),
    {
        let m = patch_manifest();
        let mut out: Vec<String> = Vec::new();
        let mut i: usize = 0;
        proof {
            let d = spec_download_paths(download_dir@);
            assert(d.subrange(0, 0) =~= Seq::<Seq<char>>::empty());
            assert(string_views(out@) =~= Seq::<Seq<char>>::empty());
        }
        while i < m.len()
            invariant
                m@ == spec_patch_manifest(),
                i <= m@.len(),
                sorted_by_leaf(string_views(out@)),
                string_views(out@).to_multiset() == spec_download_paths(download_dir@).subrange(0, i as int).to_multiset(),
            decreases m@.len() - i,
        {
            let p = path_join(download_dir, m[i].path);
            insert_by_leaf(&mut out, p);
            proof {
                let d = spec_download_paths(download_dir@);
                assert(d.subrange(0, i + 1) =~= d.subrange(0, i as int).push(d[i as int]));
                vstd::seq_lib::to_multiset_build(d.subrange(0, i as int), d[i as int]);
            }
            i += 1;
        }
        proof {
            let d = spec_download_paths(download_dir@);
            assert(d.subrange(0, d.len() as int) == d);
        }
        PatchPlan { patches_in_order: out }
    }
}

/// Inserts `p` after every element whose leaf does not order after its leaf.
fn insert_by_leaf(out: &mut Vec<String>, p: String)
    requires
        sorted_by_leaf(string_views(old(out)@)),
    ensures
        sorted_by_leaf(string_views(final(out)@)),
        string_views(final(out)@).to_multiset() == string_views(old(out)@).to_multiset().insert(p@),
{
    let ghost s = string_views(out@);
    let leaf = leaf_name(p.as_str());
    let n = out.len();
    let mut k: usize = 0;
    while k < n && !name_lt(leaf, leaf_name(out[k].as_str()))
        invariant
            n == out@.len(),
            s == string_views(out@),
            leaf@ == spec_leaf(p@),
            k <= n,
            forall|j: int| 0 <= j < k ==> !seq_lt(spec_leaf(p@), spec_leaf(#[trigger] s[j])),
        decreases n - k,
    {
        proof {
            assert(s[k as int] == out@[k as int]@);
        }
        k += 1;
    }
    out.insert(k, p);
    proof {
        let t = string_views(out@);
        assert(t =~= s.insert(k as int, p@));
        vstd::seq_lib::to_multiset_insert(s, k as int, p@);
        let x = spec_leaf(p@);
        assert forall|a: int, b: int| 0 <= a < b < t.len() implies !seq_lt(spec_leaf(#[trigger] t[b]), spec_leaf(#[trigger] t[a])) by {
            if b < k {
                assert(t[a] == s[a] && t[b] == s[b]);
            } else if b == k {
                assert(t[a] == s[a]);
                lemma_lt_total(x, spec_leaf(s[a]));
            } else if a == k {
                assert(t[b] == s[b - 1]);
                // k < n here and x < leaf(s[k]) <= leaf(s[b-1])
                assert(seq_lt(x, spec_leaf(s[k as int])));
                if seq_lt(spec_leaf(s[b - 1]), x) {
                    if b - 1 > k {
                        lemma_lt_total(spec_leaf(s[k as int]), spec_leaf(s[b - 1]));
                        if seq_lt(spec_leaf(s[k as int]), spec_leaf(s[b - 1])) {
                            lemma_lt_transitive(x, spec_leaf(s[k as int]), spec_leaf(s[b - 1]));
                        }
                        lemma_lt_asymmetric(spec_leaf(s[b - 1]), x);
                    } else {
                        lemma_lt_asymmetric(spec_leaf(s[b - 1]), x);
                    }
                }
            } else if a < k {
                assert(t[a] == s[a] && t[b] == s[b - 1]);
            } else {
                assert(t[a] == s[a - 1] && t[b] == s[b - 1]);
            }
        }
    }
}

/// Unicode `White_Space`, what `char::is_whitespace` tests.
pub open spec fn is_whitespace(c: char) -> bool {
    let u = c as u32;
    (0x09 <= u <= 0x0D) || u == 0x20 || u == 0x85 || u == 0xA0 || u == 0x1680 || (0x2000 <= u <= 0x200A)
        || u == 0x2028 || u == 0x2029 || u == 0x202F || u == 0x205F || u == 0x3000
}

fn whitespace(c: char) -> (b: bool)
    ensures
        b == is_whitespace(c),
{
    let u = c as u32;
    (0x09 <= u && u <= 0x0D) || u == 0x20 || u == 0x85 || u == 0xA0 || u == 0x1680 || (0x2000 <= u && u <= 0x200A)
        || u == 0x2028 || u == 0x2029 || u == 0x202F || u == 0x205F || u == 0x3000
}

/// `s` without its leading whitespace.
pub open spec fn trim_start(s: Seq<char>) -> Seq<char>
    decreases s.len(),
{
    if s.len() > 0 && is_whitespace(s[0]) {
        trim_start(s.drop_first())
    } else {
        s
    }
}

/// `s` without its trailing whitespace.
pub open spec fn trim_end(s: Seq<char>) -> Seq<char>
    decreases s.len(),
{
    if s.len() > 0 && is_whitespace(s.last()) {
        trim_end(s.drop_last())
    } else {
        s
    }
}

/// `s` without leading and trailing whitespace, as `str::trim` gives it.
pub open spec fn spec_trim(s: Seq<char>) -> Seq<char> {
    trim_end(trim_start(s))
}

/// `s` trimmed of whitespace at both ends.
pub fn trim(s: &str) -> (r: String)
    ensures
        r@ == spec_trim(s@),
{
    let v = chars_of(s);
    let n = v.len();
    let mut a: usize = 0;
    proof {
        assert(s@.subrange(0, n as int) =~= s@);
    }
    while a < n && whitespace(v[a])
        invariant
            n == v@.len(),
            v@ == s@,
            a <= n,
            trim_start(s@) == trim_start(s@.subrange(a as int, n as int)),
        decreases n - a,
    {
        proof {
            let t = s@.subrange(a as int, n as int);
            assert(t.drop_first() =~= s@.subrange(a + 1, n as int));
        }
        a += 1;
    }
    proof {
        assert(trim_start(s@.subrange(a as int, n as int)) == s@.subrange(a as int, n as int));
    }
    let mut b: usize = n;
    while b > a && whitespace(v[b - 1])
        invariant
            n == v@.len(),
            v@ == s@,
            a <= b <= n,
            trim_end(s@.subrange(a as int, n as int)) == trim_end(s@.subrange(a as int, b as int)),
        decreases b,
    {
        proof {
            let t = s@.subrange(a as int, b as int);
            assert(t.drop_last() =~= s@.subrange(a as int, b - 1));
        }
        b -= 1;
    }
    proof {
        assert(trim_end(s@.subrange(a as int, b as int)) == s@.subrange(a as int, b as int));
    }
    string_of(&v, a, b)
}

/// The version stamp files of the install at `game_location`, with what a
/// fully patched install holds in them: `boot.ver`, then `game.ver`.
pub fn version_files(game_location: &str) -> (r: Vec<(String, String)>)
    ensures
        r@.len() == 2,
        r@[0].0@ == spec_path_join(game_location@, "boot.ver"@),
        r@[0].1@ == FFXIV_BOOT_VERSION@,
        r@[1].0@ == spec_path_join(game_location@, "game.ver"@),
        r@[1].1@ == FFXIV_GAME_VERSION@,
{
    let mut r: Vec<(String, String)> = Vec::new();
    r.push((path_join(game_location, "boot.ver"), String::from_str(FFXIV_BOOT_VERSION)));
    r.push((path_join(game_location, "game.ver"), String::from_str(FFXIV_GAME_VERSION)));
    r
}

/// The `game.ver` that `version_files` writes reads back as current: the
/// game version has no whitespace to trim.
pub proof fn lemma_written_game_version_is_current()
    ensures
        spec_trim(FFXIV_GAME_VERSION@) == FFXIV_GAME_VERSION@,
{
    reveal_strlit("2012.09.19.0001");
    let s = FFXIV_GAME_VERSION@;
    assert(!is_whitespace(s[0]));
    assert(trim_start(s) == s);
    assert(!is_whitespace(s.last()));
    assert(trim_end(s) == s);
}

/// Whether the contents of `game.ver` say the client is fully patched.
pub fn is_current_game_version(game_ver_text: &str) -> (r: bool)
    ensures
        r == (spec_trim(game_ver_text@) == FFXIV_GAME_VERSION@),
{
    let t = trim(game_ver_text);
    same_text(t.as_str(), FFXIV_GAME_VERSION)
}

} // verus!
