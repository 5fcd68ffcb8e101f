//! What the platform backends decide: where the Wine runtime lives, which
//! environment a Wine child gets, the Windows command line and patch
//! addresses, the CPU-affinity cap, and the game's millisecond tick.

use vstd::prelude::*;

use crate::patch_apply::{parent_path, spec_parent};
use crate::pe_patch::{ENCRYPTION_TIME_PATCH_RVA, LOBBY_HOST_NAME_RVA};
use crate::process::{path_join, spec_path_join};

verus! {

/// Where the FFXIV install lives inside a Wine prefix.
pub const PREFIX_FFXIV_SUBPATH: &'static str = "drive_c/Program Files (x86)/SquareEnix/FINAL FANTASY XIV";

/// The `WINEDEBUG` channels used when neither the caller nor the
/// environment sets any.
pub const WINEDEBUG_DEFAULT: &'static str = "fixme-all,err+all,+seh";

/// The `WINEDEBUG` channels of verbose Wine debug logging.
pub const VERBOSE_WINE_DEBUG: &'static str = "err+all,+seh,+tid,+loaddll,+module,+winsock";

/// The Linux backend.
#[derive(Debug, Clone, Copy)]
pub struct LinuxPlatform;

/// The macOS backend.
#[derive(Debug, Clone, Copy)]
pub struct MacosPlatform;

/// The Windows backend.
#[derive(Debug, Clone, Copy)]
pub struct WindowsPlatform;

impl LinuxPlatform {
    pub fn new() -> (r: Self) {
        LinuxPlatform
    }
}

impl MacosPlatform {
    pub fn new() -> (r: Self) {
        MacosPlatform
    }
}

impl WindowsPlatform {
    pub fn new() -> (r: Self) {
        WindowsPlatform
    }
}

/// A managed Wine runtime: its data root, the prefix, the binaries, and
/// what the child environment needs.
#[derive(Debug, Clone)]
pub struct WineRuntime {
    pub root: String,
    pub prefix: String,
    pub wine_bin: String,
    pub wineserver_bin: String,
    /// Extra `DYLD_FALLBACK_LIBRARY_PATH` entries (macOS only).
    pub dyld_fallback_paths: Vec<String>,
    /// The bundled gstreamer plugin directory, when there is one.
    pub gst_plugin_path: Option<String>,
}

pub open spec fn texts(s: Seq<String>) -> Seq<Seq<char>> {
    Seq::new(s.len(), |i: int| s[i]@)
}

impl WineRuntime {
    /// Where the FFXIV install lives in this runtime's prefix.
    pub fn install_root(&self) -> (r: String)
        ensures
            r@ == spec_path_join(self.prefix@, PREFIX_FFXIV_SUBPATH@),
    {
        path_join(self.prefix.as_str(), PREFIX_FFXIV_SUBPATH)
    }
}

/// `wineserver` next to `wine_bin`, or found on the search path when
/// `wine_bin` names no directory.
pub open spec fn spec_wineserver_next_to(wine_bin: Seq<char>) -> Seq<char> {
    match spec_parent(wine_bin) {
        Some(dir) => spec_path_join(dir, "wineserver"@),
        None => "wineserver"@,
    }
}

impl LinuxPlatform {
    /// The Linux runtime: a prefix under `data_dir` driven by the system
    /// `wine` found at `wine_bin`.
    pub fn runtime_paths(data_dir: &str, wine_bin: &str) -> (r: WineRuntime)
        ensures
            r.root@ == data_dir@,
            r.prefix@ == spec_path_join(data_dir@, "prefix"@),
            r.wine_bin@ == wine_bin@,
            r.wineserver_bin@ == spec_wineserver_next_to(wine_bin@),
            r.dyld_fallback_paths@.len() == 0,
            r.gst_plugin_path is None,
    {
        let wineserver_bin = match parent_path(wine_bin) {
            Some(dir) => path_join(dir.as_str(), "wineserver"),
            None => String::from_str("wineserver"),
        };
        WineRuntime {
            root: String::from_str(data_dir),
            prefix: path_join(data_dir, "prefix"),
            wine_bin: String::from_str(wine_bin),
            wineserver_bin,
            dyld_fallback_paths: Vec::new(),
            gst_plugin_path: None,
        }
    }
}

impl MacosPlatform {
    /// The macOS runtime: the bundled engine and frameworks under
    /// `data_dir/runtime`, the prefix under `data_dir`.
    pub fn runtime_paths(data_dir: &str) -> (r: WineRuntime)
        ensures
            r.root@ == data_dir@,
            r.prefix@ == spec_path_join(data_dir@, "prefix"@),
            r.wine_bin@ == spec_path_join(spec_path_join(data_dir@, "runtime"@), "wswine.bundle/bin/wine"@),
            r.wineserver_bin@ == spec_path_join(
                spec_path_join(data_dir@, "runtime"@),
                "wswine.bundle/bin/wineserver"@,
            ),
            texts(r.dyld_fallback_paths@) == seq![
                spec_path_join(spec_path_join(data_dir@, "runtime"@), "Frameworks"@),
                spec_path_join(spec_path_join(data_dir@, "runtime"@), "wswine.bundle/lib"@),
                "/usr/local/lib"@,
                "/usr/lib"@,
            ],
            r.gst_plugin_path is None,
    {
        let runtime_root = path_join(data_dir, "runtime");
        let mut dyld: Vec<String> = Vec::new();
        dyld.push(path_join(runtime_root.as_str(), "Frameworks"));
        dyld.push(path_join(runtime_root.as_str(), "wswine.bundle/lib"));
        dyld.push(String::from_str("/usr/local/lib"));
        dyld.push(String::from_str("/usr/lib"));
        let r = WineRuntime {
            root: String::from_str(data_dir),
            prefix: path_join(data_dir, "prefix"),
            wine_bin: path_join(runtime_root.as_str(), "wswine.bundle/bin/wine"),
            wineserver_bin: path_join(runtime_root.as_str(), "wswine.bundle/bin/wineserver"),
            dyld_fallback_paths: dyld,
            gst_plugin_path: None,
        };
        proof {
            assert(texts(r.dyld_fallback_paths@) =~= seq![
                spec_path_join(spec_path_join(data_dir@, "runtime"@), "Frameworks"@),
                spec_path_join(spec_path_join(data_dir@, "runtime"@), "wswine.bundle/lib"@),
                "/usr/local/lib"@,
                "/usr/lib"@,
            ]);
        }
        r
    }
}

/// `paths` joined with `:`.
pub open spec fn colon_joined(paths: Seq<Seq<char>>) -> Seq<char>
    decreases paths.len(),
{
    if paths.len() == 0 {
        seq![]
    } else if paths.len() == 1 {
        paths[0]
    } else {
        colon_joined(paths.drop_last()) + seq![':'] + paths.last()
    }
}

/// The environment a Wine child gets, in the order it is set: the prefix;
/// `WINEDEBUG` from the caller, else the default unless the parent's
/// environment has one; on macOS the library fallback path when there is
/// one; the gstreamer plugin path when there is one.
pub open spec fn spec_wine_env(
    rt: WineRuntime,
    wine_debug: Option<Seq<char>>,
    parent_has_winedebug: bool,
    macos: bool,
) -> Seq<(Seq<char>, Seq<char>)> {
    seq![("WINEPREFIX"@, rt.prefix@)] + (match wine_debug {
        Some(v) => seq![("WINEDEBUG"@, v)],
        None => if parent_has_winedebug {
            seq![]
        } else {
            seq![("WINEDEBUG"@, WINEDEBUG_DEFAULT@)]
        },
    }) + (if macos && rt.dyld_fallback_paths@.len() > 0 {
        seq![("DYLD_FALLBACK_LIBRARY_PATH"@, colon_joined(texts(rt.dyld_fallback_paths@)))]
    } else {
        seq![]
    }) + (match rt.gst_plugin_path {
        Some(p) => seq![("GST_PLUGIN_PATH"@, p@), ("GST_PLUGIN_SYSTEM_PATH"@, p@)],
        None => seq![],
    })
}

pub open spec fn env_views(s: Seq<(String, String)>) -> Seq<(Seq<char>, Seq<char>)> {
    Seq::new(s.len(), |i: int| (s[i].0@, s[i].1@))
}

fn colon_join(paths: &Vec<String>) -> (r: String)
    ensures
        r@ == colon_joined(texts(paths@)),
{
    let mut r = String::new();
    let mut i: usize = 0;
    while i < paths.len()
        invariant
            i <= paths@.len(),
            r@ == colon_joined(texts(paths@).subrange(0, i as int)),
        decreases paths@.len() - i,
    {
        let ghost before = texts(paths@).subrange(0, i as int);
        if i > 0 {
            r.push(':');
        }
        r.append(paths[i].as_str());
        i += 1;
        proof {
            let now = texts(paths@).subrange(0, i as int);
            assert(now.drop_last() =~= before);
            if i == 1 {
                assert(r@ =~= now[0]);
            } else {
                assert(r@ =~= colon_joined(before) + seq![':'] + now.last());
            }
        }
    }
    proof {
        assert(texts(paths@).subrange(0, i as int) =~= texts(paths@));
    }
    r
}

/// The environment variables to set on a Wine child (see `spec_wine_env`).
/// On macOS the library search paths are joined with `:`, so none may hold
/// one.
pub fn wine_env(rt: &WineRuntime, wine_debug: Option<&str>, parent_has_winedebug: bool, macos: bool) -> (r: Vec<
    (String, String),
>)
    requires
        macos ==> forall|i: int|
            0 <= i < rt.dyld_fallback_paths@.len() ==> !(#[trigger] rt.dyld_fallback_paths@[i])@.contains(':'),
    ensures
        env_views(r@) == spec_wine_env(
            *rt,
            match wine_debug {
                Some(v) => Some(v@),
                None => None,
            },
            parent_has_winedebug,
            macos,
        ),
{
    let mut env: Vec<(String, String)> = Vec::new();
    env.push((String::from_str("WINEPREFIX"), rt.prefix.clone()));
    match wine_debug {
        Some(v) => env.push((String::from_str("WINEDEBUG"), String::from_str(v))),
        None => {
            if !parent_has_winedebug {
                env.push((String::from_str("WINEDEBUG"), String::from_str(WINEDEBUG_DEFAULT)));
            }
        },
    }
    if macos && rt.dyld_fallback_paths.len() > 0 {
        env.push((String::from_str("DYLD_FALLBACK_LIBRARY_PATH"), colon_join(&rt.dyld_fallback_paths)));
    }
    match &rt.gst_plugin_path {
        Some(p) => {
            env.push((String::from_str("GST_PLUGIN_PATH"), p.clone()));
            env.push((String::from_str("GST_PLUGIN_SYSTEM_PATH"), p.clone()));
        },
        None => {},
    }
    proof {
        let wd = match wine_debug {
            Some(v) => Some(v@),
            None => None,
        };
        assert(env_views(env@) =~= spec_wine_env(*rt, wd, parent_has_winedebug, macos));
    }
    env
}

/// The header written to the Wine log before a launch.
pub open spec fn spec_wine_log_header(
    wine_bin: Seq<char>,
    exe: Seq<char>,
    argument: Seq<char>,
    prefix: Seq<char>,
    wine_debug: Option<Seq<char>>,
) -> Seq<char> {
    "=== garlemald-client launch ===\nwine: "@ + wine_bin + "\nexe:  "@ + exe + "\narg:  "@ + argument
        + "\nprefix: "@ + prefix + "\nWINEDEBUG: "@ + (match wine_debug {
        Some(d) => d,
        None => "(default)"@,
    }) + "\n\n"@
}

/// The header written to the Wine log before launching `exe` with
/// `argument`.
pub fn wine_log_header(rt: &WineRuntime, exe: &str, argument: &str, wine_debug: Option<&str>) -> (r: String)
    ensures
        r@ == spec_wine_log_header(
            rt.wine_bin@,
            exe@,
            argument@,
            rt.prefix@,
            match wine_debug {
                Some(d) => Some(d@),
                None => None,
            },
        ),
{
    let mut s = String::from_str("=== garlemald-client launch ===\nwine: ");
    s.append(rt.wine_bin.as_str());
    s.append("\nexe:  ");
    s.append(exe);
    s.append("\narg:  ");
    s.append(argument);
    s.append("\nprefix: ");
    s.append(rt.prefix.as_str());
    s.append("\nWINEDEBUG: ");
    match wine_debug {
        Some(d) => s.append(d),
        None => s.append("(default)"),
    }
    s.append("\n\n");
    s
}

/// The command line that starts the game on Windows.
pub fn windows_command_line(game_dir: &str, encoded_argument: &str) -> (r: String)
    ensures
        r@ == game_dir@ + "\\ffxivgame.exe "@ + encoded_argument@,
{
    let mut s = String::from_str(game_dir);
    s.append("\\ffxivgame.exe ");
    s.append(encoded_argument);
    s
}

/// Where the two in-memory patches go in a process whose image is loaded
/// at `image_base`: the encryption-time patch, then the lobby host.
pub fn remote_patch_addresses(image_base: u32) -> (r: (u64, u64))
    ensures
        r.0 == image_base + ENCRYPTION_TIME_PATCH_RVA,
        r.1 == image_base + LOBBY_HOST_NAME_RVA,
{
    (image_base as u64 + ENCRYPTION_TIME_PATCH_RVA as u64, image_base as u64 + LOBBY_HOST_NAME_RVA as u64)
}

/// `rel` joined onto `base` with Windows separators.
pub open spec fn spec_windows_join(base: Seq<char>, rel: Seq<char>) -> Seq<char> {
    if base.len() == 0 || base.last() == '\\' || base.last() == '/' {
        base + rel
    } else {
        base + seq!['\\'] + rel
    }
}

/// The install found in the uninstall registry key: its location joined
/// with its display name, when both are set.
pub fn registry_install_path(install_location: &str, display_name: &str) -> (r: Option<String>)
    ensures
        (install_location@.len() == 0 || display_name@.len() == 0) ==> r is None,
        (install_location@.len() > 0 && display_name@.len() > 0) ==> (r matches Some(p) && p@
            == spec_windows_join(install_location@, display_name@)),
{
    let n = install_location.unicode_len();
    if n == 0 || display_name.unicode_len() == 0 {
        return None;
    }
    let last = install_location.get_char(n - 1);
    let mut s = String::from_str(install_location);
    if !(last == '\\' || last == '/') {
        s.push('\\');
    }
    s.append(display_name);
    Some(s)
}

/// The most logical CPUs the game may see: it crashes at launch with 16 or
/// more.
pub const MAX_CPUS: u64 = 15;

/// The number of set bits of `m`.
pub open spec fn popcount(m: nat) -> nat
    decreases m,
{
    if m == 0 {
        0
    } else {
        (m % 2) + popcount(m / 2)
    }
}

/// The lowest `k` set bits of `m`.
pub open spec fn low_bits(m: nat, k: nat) -> nat
    decreases m,
{
    if m == 0 || k == 0 {
        0
    } else if m % 2 == 1 {
        1 + 2 * low_bits(m / 2, (k - 1) as nat)
    } else {
        2 * low_bits(m / 2, k)
    }
}

/// Every bit set in `a` is set in `b`.
pub open spec fn submask(a: nat, b: nat) -> bool
    decreases b,
{
    if a == 0 {
        true
    } else if b == 0 {
        false
    } else {
        a % 2 <= b % 2 && submask(a / 2, b / 2)
    }
}

/// The affinity mask to give the game, allowed to run on `process_mask`:
/// unchanged (`None`) with at most `MAX_CPUS` CPUs, else its lowest
/// `MAX_CPUS` CPUs.
pub open spec fn spec_capped_affinity(process_mask: u64) -> Option<u64> {
    if popcount(process_mask as nat) <= MAX_CPUS {
        None
    } else {
        Some(low_bits(process_mask as nat, MAX_CPUS as nat) as u64)
    }
}

proof fn lemma_low_bits_le(m: nat, k: nat)
    ensures
        low_bits(m, k) <= m,
    decreases m,
{
    if m != 0 && k != 0 {
        if m % 2 == 1 {
            lemma_low_bits_le(m / 2, (k - 1) as nat);
        } else {
            lemma_low_bits_le(m / 2, k);
        }
    }
}

proof fn lemma_popcount_le(m: nat)
    ensures
        popcount(m) <= m,
    decreases m,
{
    if m != 0 {
        lemma_popcount_le(m / 2);
    }
}

fn count_bits(mask: u64) -> (r: u64)
    ensures
        r == popcount(mask as nat),
{
    let mut rest = mask;
    let mut count: u64 = 0;
    proof {
        lemma_popcount_le(mask as nat);
    }
    while rest > 0
        invariant
            count + popcount(rest as nat) == popcount(mask as nat),
            popcount(mask as nat) <= mask,
        decreases rest,
    {
        count = count + rest % 2;
        rest = rest / 2;
    }
    count
}

/// The affinity mask to set on the game, if its current one lets it see
/// too many CPUs (see `spec_capped_affinity`).
pub fn capped_affinity(process_mask: u64) -> (r: Option<u64>)
    ensures
        r == spec_capped_affinity(process_mask),
{
    if count_bits(process_mask) <= MAX_CPUS {
        return None;
    }
    let mut rest: u64 = process_mask;
    let mut place: u128 = 1;
    let mut acc: u128 = 0;
    let mut left: u64 = MAX_CPUS;
    while rest > 0 && left > 0
        invariant
            acc + place * low_bits(rest as nat, left as nat) == low_bits(process_mask as nat, MAX_CPUS as nat),
            place >= 1,
            place * rest <= process_mask,
            acc < place,
            left <= MAX_CPUS,
        decreases rest,
    {
        let ghost lb = low_bits((rest / 2) as nat, (if rest % 2 == 1 { left - 1 } else { left as int }) as nat);
        let ghost p0 = place;
        let ghost r0 = rest;
        proof {
            assert(place * (rest / 2) * 2 <= place * rest) by (nonlinear_arith)
                requires
                    place >= 1,
            ;
            assert(place <= process_mask) by (nonlinear_arith)
                requires
                    place * rest <= process_mask,
                    rest >= 1,
                    place >= 1,
            ;
        }
        if rest % 2 == 1 {
            proof {
                assert(low_bits(rest as nat, left as nat) == 1 + 2 * lb);
                assert(acc + place * (1 + 2 * lb) == acc + place + (2 * place) * lb) by (nonlinear_arith);
            }
            acc = acc + place;
            left = left - 1;
        } else {
            proof {
                assert(low_bits(rest as nat, left as nat) == 2 * lb);
                assert(acc + place * (2 * lb) == acc + (2 * place) * lb) by (nonlinear_arith);
            }
        }
        rest = rest / 2;
        place = place * 2;
        proof {
            assert(place * rest == p0 * (r0 / 2) * 2) by (nonlinear_arith)
                requires
                    place == p0 * 2,
                    rest == r0 / 2,
            ;
        }
    }
    proof {
        lemma_low_bits_le(process_mask as nat, MAX_CPUS as nat);
        assert(low_bits(rest as nat, left as nat) == 0);
        assert(place * 0 == 0);
    }
    Some(acc as u64)
}

/// The 15 CPUs kept are CPUs the game was already allowed: the capped
/// mask has exactly `MAX_CPUS` bits set, each of them set in `process_mask`.
pub proof fn lemma_capped_affinity_keeps_allowed_cpus(process_mask: u64)
    ensures
        spec_capped_affinity(process_mask) matches Some(m) ==> popcount(m as nat) == MAX_CPUS && submask(
            m as nat,
            process_mask as nat,
        ),
{
    if popcount(process_mask as nat) > MAX_CPUS {
        lemma_low_bits_le(process_mask as nat, MAX_CPUS as nat);
        lemma_low_bits_popcount(process_mask as nat, MAX_CPUS as nat);
        lemma_low_bits_submask(process_mask as nat, MAX_CPUS as nat);
    }
}

proof fn lemma_low_bits_popcount(m: nat, k: nat)
    ensures
        popcount(low_bits(m, k)) == if popcount(m) < k { popcount(m) } else { k },
    decreases m,
{
    if m != 0 && k != 0 {
        if m % 2 == 1 {
            lemma_low_bits_popcount(m / 2, (k - 1) as nat);
            let l = low_bits(m / 2, (k - 1) as nat);
            assert((1 + 2 * l) % 2 == 1 && (1 + 2 * l) / 2 == l) by (nonlinear_arith);
        } else {
            lemma_low_bits_popcount(m / 2, k);
            let l = low_bits(m / 2, k);
            assert((2 * l) % 2 == 0 && (2 * l) / 2 == l) by (nonlinear_arith);
            if l == 0 {
                assert(2 * l == 0);
            }
        }
    }
}

proof fn lemma_low_bits_submask(m: nat, k: nat)
    ensures
        submask(low_bits(m, k), m),
    decreases m,
{
    if m != 0 && k != 0 {
        if m % 2 == 1 {
            lemma_low_bits_submask(m / 2, (k - 1) as nat);
            let l = low_bits(m / 2, (k - 1) as nat);
            assert((1 + 2 * l) % 2 == 1 && (1 + 2 * l) / 2 == l) by (nonlinear_arith);
        } else {
            lemma_low_bits_submask(m / 2, k);
            let l = low_bits(m / 2, k);
            assert((2 * l) % 2 == 0 && (2 * l) / 2 == l) by (nonlinear_arith);
        }
    }
}

/// The 32-bit millisecond tick for a monotonic clock reading of `sec`
/// seconds and `nsec` nanoseconds, as Wine's `GetTickCount` reports it.
pub open spec fn spec_tick_from_monotonic(sec: u64, nsec: u64) -> u32 {
    ((((sec * 1000) % 0x1_0000_0000_0000_0000int + nsec / 1_000_000) % 0x1_0000_0000_0000_0000int)
        % 0x1_0000_0000) as u32
}

/// The tick for a monotonic clock reading (see `spec_tick_from_monotonic`).
pub fn tick_from_monotonic(sec: u64, nsec: u64) -> (r: u32)
    ensures
        r == spec_tick_from_monotonic(sec, nsec),
{
    let ms = sec.wrapping_mul(1000).wrapping_add(nsec / 1_000_000);
    (ms % 0x1_0000_0000) as u32
}

/// The tick for `millis` milliseconds since the Unix epoch: its low 32 bits.
pub fn tick_from_unix_millis(millis: u128) -> (r: u32)
    ensures
        r == millis % 0x1_0000_0000,
{
    (millis % 0x1_0000_0000) as u32
}

} // verus!
