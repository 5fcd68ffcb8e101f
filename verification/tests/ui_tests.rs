use garlemald_client::config::{
    bundled_config_path, preferences_file_in, servers_file_in, DeveloperPreferences, PathsError, Preferences,
};
use garlemald_client::servers::{ServerDefinition, ServerDefinitions};
use garlemald_client::ui::{
    button_row, download_status, patch_status, server_choice_label, ButtonRow, DeveloperModal, DeveloperOutcome,
    LauncherApp, MessageKind, SettingsModal, SettingsOutcome,
};
use garlemald_client::worker::Phase;

#[test]
fn default_preferences_are_empty() {
    let prefs = Preferences::default();
    assert!(prefs.launcher.server_name.is_empty());
    assert!(prefs.launcher.game_location.is_none());
    assert!(!prefs.developer.enable_verbose_wine_debug);
}

#[test]
fn config_file_locations() {
    assert_eq!(preferences_file_in("/home/u/.config/garlemald-client"), "/home/u/.config/garlemald-client/preferences.toml");
    assert_eq!(servers_file_in("/c"), "/c/servers.xml");
    assert_eq!(bundled_config_path(), "./configs/garlemald-client.toml");
    assert_eq!(PathsError::NoProjectDirs.message(), "could not resolve platform-specific project directories");
}

#[test]
fn settings_dialog_trims_and_blanks() {
    let initial = "/games/ffxiv".to_string();
    let mut modal = SettingsModal::new(Some(&initial));
    assert_eq!(modal.game_location_text, "/games/ffxiv");
    modal.game_location_text = "  /other  ".to_string();
    assert_eq!(modal.accept(), SettingsOutcome::Accepted(Some("/other".to_string())));
    modal.game_location_text = "   ".to_string();
    assert_eq!(modal.accept(), SettingsOutcome::Accepted(None));
    assert_eq!(modal.settle(SettingsOutcome::Open, true), SettingsOutcome::Open);
    assert!(modal.open);
    assert_eq!(modal.settle(SettingsOutcome::Open, false), SettingsOutcome::Cancelled);
    assert!(!modal.open);
    assert_eq!(SettingsModal::new(None).game_location_text, "");
}

#[test]
fn developer_dialog_returns_the_edit() {
    let mut modal = DeveloperModal::new(&DeveloperPreferences { enable_verbose_wine_debug: false });
    modal.prefs.enable_verbose_wine_debug = true;
    match modal.accept() {
        DeveloperOutcome::Accepted(p) => assert!(p.enable_verbose_wine_debug),
        other => panic!("unexpected {other:?}"),
    }
    assert!(matches!(modal.settle(DeveloperOutcome::Cancelled, true), DeveloperOutcome::Cancelled));
    assert!(!modal.open);
}

fn servers() -> ServerDefinitions {
    ServerDefinitions::from_entries(vec![
        ServerDefinition { name: "Zeta".into(), address: "z.example".into(), login_url: "u".into() },
        ServerDefinition { name: "Alpha".into(), address: "a.example".into(), login_url: "u".into() },
    ])
}

#[test]
fn launcher_state() {
    let app = LauncherApp::new(Preferences::default(), "/p.toml".into(), servers(), Some("/detected".into()));
    assert_eq!(app.selected_server_name.as_deref(), Some("Alpha"));
    assert_eq!(app.server_label(), "Alpha");
    assert_eq!(app.resolved_game_location().as_deref(), Some("/detected"));
    assert_eq!(app.game_location_label(), "/detected");

    let mut prefs = Preferences::default();
    prefs.launcher.server_name = "Zeta".into();
    prefs.launcher.server_address = "manual.example".into();
    let mut app = LauncherApp::new(prefs, "/p.toml".into(), servers(), None);
    assert_eq!(app.selected_server_name.as_deref(), Some("Zeta"));
    assert_eq!(app.manual_server_address, "manual.example");
    assert_eq!(app.game_location_label(), "(not set)");
    app.set_game_location("/games".into());
    assert_eq!(app.resolved_game_location().as_deref(), Some("/games"));
    app.selected_server_name = Some("Alpha".into());
    app.manual_server_address = "typed".into();
    app.remember_choices();
    assert_eq!(app.prefs.launcher.server_name, "Alpha");
    assert_eq!(app.prefs.launcher.server_address, "typed");
    app.launch_pressed();
    assert_eq!(
        app.last_message,
        Some((MessageKind::Info, "Login webview integration is not yet wired up.".to_string()))
    );
    app.check_updates_pressed();
    assert_eq!(app.last_message.as_ref().unwrap().1, "Patcher UI is not yet wired up.");

    let empty = LauncherApp::new(Preferences::default(), "/p".into(), ServerDefinitions::new(), None);
    assert_eq!(empty.server_label(), "(none)");
}

#[test]
fn captions_and_status_lines() {
    let s = ServerDefinition { name: "Local".into(), address: "127.0.0.1".into(), login_url: "u".into() };
    assert_eq!(server_choice_label(&s), "127.0.0.1 (Local)");
    assert_eq!(patch_status(Phase::Patching, 0), "Applying D2010.09.18.0000.patch\u{2026}");
    assert_eq!(patch_status(Phase::Patching, 99), "Applying patch\u{2026}");
    assert_eq!(patch_status(Phase::Done, 0), "Complete!");
    assert_eq!(download_status(Phase::Downloading), None);
    assert_eq!(download_status(Phase::Cancelled).as_deref(), Some("Download cancelled."));
    assert_eq!(button_row(true, true), ButtonRow::Close);
    assert_eq!(button_row(false, true), ButtonRow::Cancelling);
    assert_eq!(button_row(false, false), ButtonRow::Cancel);
}

#[test]
fn project_directories_end_with_the_project_path() {
    let unix = |d: &str| d.ends_with("/garlemald-client") || d.ends_with("/org.seventhumbral.garlemald-client");
    if let Ok(d) = garlemald_client::config::config_dir() {
        assert!(unix(&d) || d.ends_with("\\seventhumbral\\garlemald-client\\config"), "{d}");
        let p = garlemald_client::config::preferences_file_path().unwrap();
        assert_eq!(p, format!("{d}/preferences.toml"));
    }
    if let Ok(d) = garlemald_client::config::data_dir() {
        assert!(unix(&d) || d.ends_with("\\seventhumbral\\garlemald-client\\data"), "{d}");
    }
}
