use garlemald_client::platform::{
    capped_affinity, registry_install_path, remote_patch_addresses, tick_from_monotonic, tick_from_unix_millis,
    wine_env, wine_log_header, windows_command_line, LinuxPlatform, MacosPlatform, WineRuntime,
    PREFIX_FFXIV_SUBPATH, WINEDEBUG_DEFAULT,
};

#[test]
fn few_cpus_are_left_alone() {
    assert_eq!(capped_affinity(0), None);
    assert_eq!(capped_affinity(0xFF), None);
    assert_eq!(capped_affinity(0x7FFF), None);
}

#[test]
fn many_cpus_are_capped_to_the_lowest_fifteen() {
    assert_eq!(capped_affinity(0xFFFF), Some(0x7FFF));
    assert_eq!(capped_affinity(u64::MAX), Some(0x7FFF));
    let sparse: u64 = 0xAAAA_AAAA;
    let capped = capped_affinity(sparse).unwrap();
    assert_eq!(capped.count_ones(), 15);
    assert_eq!(capped & !sparse, 0);
    assert_eq!(capped, 0x2AAA_AAAA);
}

#[test]
fn linux_runtime_layout() {
    let rt = LinuxPlatform::runtime_paths("/home/u/.local/share/garlemald-client", "/usr/bin/wine");
    assert_eq!(rt.prefix, "/home/u/.local/share/garlemald-client/prefix");
    assert_eq!(rt.wineserver_bin, "/usr/bin/wineserver");
    assert_eq!(
        rt.install_root(),
        format!("/home/u/.local/share/garlemald-client/prefix/{PREFIX_FFXIV_SUBPATH}")
    );
    let bare = LinuxPlatform::runtime_paths("/d", "wine");
    assert_eq!(bare.wineserver_bin, "wineserver");
}

#[test]
fn macos_runtime_layout() {
    let rt = MacosPlatform::runtime_paths("/Users/u/Library/Application Support/g");
    assert_eq!(rt.wine_bin, "/Users/u/Library/Application Support/g/runtime/wswine.bundle/bin/wine");
    assert_eq!(rt.dyld_fallback_paths.len(), 4);
    assert_eq!(rt.dyld_fallback_paths[2], "/usr/local/lib");
}

fn runtime(gst: Option<&str>, dyld: Vec<&str>) -> WineRuntime {
    WineRuntime {
        root: "/r".into(),
        prefix: "/r/prefix".into(),
        wine_bin: "/usr/bin/wine".into(),
        wineserver_bin: "/usr/bin/wineserver".into(),
        dyld_fallback_paths: dyld.into_iter().map(String::from).collect(),
        gst_plugin_path: gst.map(String::from),
    }
}

#[test]
fn wine_environment() {
    let rt = runtime(None, vec![]);
    assert_eq!(
        wine_env(&rt, None, false, false),
        vec![
            ("WINEPREFIX".to_string(), "/r/prefix".to_string()),
            ("WINEDEBUG".to_string(), WINEDEBUG_DEFAULT.to_string())
        ]
    );
    assert_eq!(wine_env(&rt, None, true, false).len(), 1);
    assert_eq!(wine_env(&rt, Some("+relay"), true, false)[1].1, "+relay");
    let rt = runtime(Some("/gst"), vec!["/a", "/b"]);
    let env = wine_env(&rt, None, true, true);
    assert_eq!(env[1], ("DYLD_FALLBACK_LIBRARY_PATH".to_string(), "/a:/b".to_string()));
    assert_eq!(env[2], ("GST_PLUGIN_PATH".to_string(), "/gst".to_string()));
    assert_eq!(env[3], ("GST_PLUGIN_SYSTEM_PATH".to_string(), "/gst".to_string()));
    assert_eq!(wine_env(&rt, None, true, false).len(), 3);
}

#[test]
fn wine_log_header_text() {
    let rt = runtime(None, vec![]);
    assert_eq!(
        wine_log_header(&rt, "/g/ffxivgame.patched.exe", "sqex0002x!////", None),
        "=== garlemald-client launch ===\nwine: /usr/bin/wine\nexe:  /g/ffxivgame.patched.exe\narg:  sqex0002x!////\nprefix: /r/prefix\nWINEDEBUG: (default)\n\n"
    );
}

#[test]
fn windows_launch_details() {
    assert_eq!(windows_command_line("C:\\FFXIV", "arg"), "C:\\FFXIV\\ffxivgame.exe arg");
    assert_eq!(remote_patch_addresses(0x400000), (0x400000 + 0x9A15E3, 0x400000 + 0xB90110));
    assert_eq!(
        registry_install_path("C:\\Program Files\\SquareEnix", "FINAL FANTASY XIV"),
        Some("C:\\Program Files\\SquareEnix\\FINAL FANTASY XIV".to_string())
    );
    assert_eq!(registry_install_path("", "x"), None);
    assert_eq!(registry_install_path("C:\\", ""), None);
}

#[test]
fn ticks() {
    assert_eq!(tick_from_monotonic(1, 500_000_000), 1500);
    assert_eq!(tick_from_monotonic(4_294_967, 296_000_000), 0);
    assert_eq!(tick_from_unix_millis(0x1_0000_0005), 5);
}
