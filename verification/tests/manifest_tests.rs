use garlemald_client::downloader::patch_url;
use garlemald_client::manifest::{patch_manifest, total_bytes, PATCH_URL_BASE};
use garlemald_client::process::{
    is_current_game_version, leaf_name, path_join, trim, PatchPlan, FFXIV_GAME_VERSION,
};
use garlemald_client::worker::pair_manifest_with_paths;

#[test]
fn manifest_is_not_empty() {
    assert!(!patch_manifest().is_empty());
}

#[test]
fn total_size_roughly_matches_historical_download() {
    let total = total_bytes();
    assert!(total > 6_000_000_000, "got {total}");
    assert!(total < 7_000_000_000, "got {total}");
}

#[test]
fn total_is_the_sum_of_the_entries() {
    let sum: u64 = patch_manifest().iter().map(|e| e.size).sum();
    assert_eq!(total_bytes(), sum);
    assert_eq!(patch_manifest().len(), 52);
}

#[test]
fn plan_sorts_by_leaf_name() {
    let plan = PatchPlan::from_download_dir("/tmp/patches");
    let leaves: Vec<String> = plan.patches_in_order.iter().map(|p| leaf_name(p).to_string()).collect();
    let mut sorted = leaves.clone();
    sorted.sort();
    assert_eq!(leaves, sorted);
    assert_eq!(plan.patches_in_order.len(), patch_manifest().len());
    assert!(plan.patches_in_order.iter().all(|p| p.starts_with("/tmp/patches/")));
}

#[test]
fn urls_are_under_the_base() {
    let e = patch_manifest()[0];
    assert_eq!(patch_url(&e), format!("{PATCH_URL_BASE}{}", e.path));
}

#[test]
fn leaf_names_and_joins() {
    assert_eq!(leaf_name("48eca647/patch/D2010.09.19.0000.patch"), "D2010.09.19.0000.patch");
    assert_eq!(leaf_name("plain"), "plain");
    assert_eq!(path_join("/a", "b"), "/a/b");
    assert_eq!(path_join("/a/", "b"), "/a/b");
    assert_eq!(path_join("/a", "/b"), "/b");
    assert_eq!(path_join("", "b"), "b");
}

#[test]
fn matching_ver_file_is_up_to_date() {
    assert!(is_current_game_version(FFXIV_GAME_VERSION));
    assert!(is_current_game_version("  2012.09.19.0001\n"));
    assert!(!is_current_game_version("2010.09.18.0000"));
    assert!(!is_current_game_version(""));
}

#[test]
fn trim_strips_unicode_whitespace() {
    assert_eq!(trim("\t a b \u{3000}\n"), "a b");
    assert_eq!(trim("   "), "");
}

#[test]
fn manifest_pairs_by_file_name() {
    let paths = vec![
        "/src/D2010.09.19.0000.patch".to_string(),
        "/src/D2010.09.18.0000.patch".to_string(),
        "/src/unrelated.txt".to_string(),
    ];
    let pairs = pair_manifest_with_paths(&paths);
    assert_eq!(pairs.len(), 2);
    assert_eq!(pairs[0].0.path, "2d2a390f/patch/D2010.09.18.0000.patch");
    assert_eq!(pairs[0].1, "/src/D2010.09.18.0000.patch");
    assert_eq!(pairs[1].1, "/src/D2010.09.19.0000.patch");
}

#[test]
fn written_version_files_read_back_as_current() {
    let files = garlemald_client::process::version_files("/games/ffxiv");
    assert_eq!(files.len(), 2);
    assert_eq!(files[0], ("/games/ffxiv/boot.ver".to_string(), "2010.09.18.0000".to_string()));
    assert_eq!(files[1], ("/games/ffxiv/game.ver".to_string(), "2012.09.19.0001".to_string()));
    assert!(garlemald_client::process::is_current_game_version(&files[1].1));
    assert!(!garlemald_client::process::is_current_game_version(&files[0].1));
}
