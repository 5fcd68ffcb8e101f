use garlemald_client::crypto::{build_launch_arguments, LaunchArgumentsError};
use garlemald_client::launch::{
    disk_launch_plan, suspended_next, GameLaunchRequest, LaunchError, PatchSet, SuspendedAction, SuspendedStep,
};
use garlemald_client::pe_patch::{PePatchError, ASSERT_LOG_PATCH_RVA, ENCRYPTION_TIME_PATCH_RVA, LOBBY_HOST_NAME_RVA};

fn request(session_id: &str, host: &str) -> GameLaunchRequest {
    GameLaunchRequest {
        game_dir: "/games/ffxiv".into(),
        lobby_host: host.into(),
        session_id: session_id.into(),
        wine_debug_override: None,
    }
}

#[test]
fn linux_plan_patches_three_places() {
    let sid = "s".repeat(56);
    let plan = disk_launch_plan(&request(&sid, "lobby.example"), 0x10000, PatchSet::Linux).unwrap();
    assert_eq!(plan.source_exe, "/games/ffxiv/ffxivgame.exe");
    assert_eq!(plan.patched_exe, "/games/ffxiv/ffxivgame.patched.exe");
    let rvas: Vec<u32> = plan.patches.patches.iter().map(|p| p.rva).collect();
    assert_eq!(rvas, vec![ENCRYPTION_TIME_PATCH_RVA, LOBBY_HOST_NAME_RVA, ASSERT_LOG_PATCH_RVA]);
    assert_eq!(plan.arguments.encoded_argument, build_launch_arguments(&sid, 0x10000).unwrap().encoded_argument);
    let mac = disk_launch_plan(&request(&sid, "lobby.example"), 1, PatchSet::Macos).unwrap();
    assert_eq!(mac.patches.patches.len(), 2);
}

#[test]
fn session_id_is_checked_before_the_host() {
    let err = disk_launch_plan(&request("short", &"h".repeat(40)), 0, PatchSet::Linux).unwrap_err();
    assert_eq!(err, LaunchError::SessionId(LaunchArgumentsError::WrongSessionIdLength { len: 5 }));
    let err = disk_launch_plan(&request(&"s".repeat(56), &"h".repeat(40)), 0, PatchSet::Linux).unwrap_err();
    assert_eq!(err, LaunchError::LobbyHost(PePatchError::HostNameTooLong { len: 40 }));
    assert_eq!(err.message(), "lobby host name too long: 40 bytes (limit 20 including NUL)");
}

#[test]
fn suspended_game_resumes_only_after_every_step() {
    assert_eq!(suspended_next(SuspendedStep::Create, true), SuspendedAction::Patch);
    assert_eq!(suspended_next(SuspendedStep::Create, false), SuspendedAction::GiveUp);
    assert_eq!(suspended_next(SuspendedStep::Patch, true), SuspendedAction::CapAffinity);
    assert_eq!(suspended_next(SuspendedStep::Patch, false), SuspendedAction::Terminate);
    assert_eq!(suspended_next(SuspendedStep::CapAffinity, true), SuspendedAction::Resume);
    assert_eq!(suspended_next(SuspendedStep::CapAffinity, false), SuspendedAction::Terminate);
}
