//! What a game launch needs before any process starts: the encrypted
//! argument, the executable to patch and run, and the patches to write.

use vstd::prelude::*;
use vstd::string::StringSliceAdditionalSpecFns;
use vstd::utf8::encode_utf8;

use crate::crypto::{build_launch_arguments, launch_argument, LaunchArguments, LaunchArgumentsError, SESSION_ID_LEN};
use crate::pe_patch::{
    assert_log_patch, encryption_time_patch, lobby_host_patch, spec_assert_log_patch_bytes,
    spec_encryption_time_patch_bytes, PePatch, PePatchError, ASSERT_LOG_PATCH_RVA, ENCRYPTION_TIME_PATCH_RVA,
    LOBBY_HOST_NAME_RVA, LOBBY_HOST_NAME_SLOT_SIZE,
};
use crate::process::{path_join, spec_path_join};

verus! {

/// A request to start the game.
#[derive(Debug, Clone)]
pub struct GameLaunchRequest {
    pub game_dir: String,
    pub lobby_host: String,
    pub session_id: String,
    /// A `WINEDEBUG` value to use in place of the default (Wine backends).
    pub wine_debug_override: Option<String>,
}

/// The patches written into the executable.
#[derive(Debug, Clone)]
pub struct PatchSpec {
    pub patches: Vec<PePatch>,
}

/// Which backend's patch set to write.
#[derive(Debug, Clone, Copy, PartialEq, Eq, Structural)]
pub enum PatchSet {
    /// Encryption time, lobby host and the assert-log fix.
    Linux,
    /// Encryption time and lobby host.
    Macos,
}

/// Why a launch cannot be prepared.
#[derive(Debug, Clone, PartialEq, Eq)]
pub enum LaunchError {
    SessionId(LaunchArgumentsError),
    LobbyHost(PePatchError),
}

impl LaunchError {
    /// The message reported for this error.
    pub fn message(&self) -> (s: String)
        ensures
            match self {
                LaunchError::SessionId(e) => s@ == crate::crypto::spec_session_id_message(*e),
                LaunchError::LobbyHost(e) => s@ == crate::pe_patch::spec_pe_patch_message(*e),
            },
    {
        match self {
            LaunchError::SessionId(e) => e.message(),
            LaunchError::LobbyHost(e) => e.message(),
        }
    }
}

/// A launch that copies the executable, patches the copy on disk and runs it.
#[derive(Debug, Clone)]
pub struct DiskLaunchPlan {
    pub arguments: LaunchArguments,
    /// The executable as installed.
    pub source_exe: String,
    /// The working copy that is patched and run.
    pub patched_exe: String,
    pub patches: PatchSpec,
}

/// Whether `p` is the patch at `rva` writing `bytes`.
pub open spec fn is_patch(p: PePatch, rva: u32, bytes: Seq<u8>) -> bool {
    p.rva == rva && p.bytes@ == bytes
}

/// Prepares a launch from `request` at tick `tick` with the patch set `set`:
/// the session id is checked first, then the lobby host.
pub fn disk_launch_plan(request: &GameLaunchRequest, tick: u32, set: PatchSet) -> (r: Result<
    DiskLaunchPlan,
    LaunchError,
>)
    ensures
        encode_utf8(request.session_id@).len() as usize != SESSION_ID_LEN ==> r == Err::<DiskLaunchPlan, LaunchError>(
            LaunchError::SessionId(
                LaunchArgumentsError::WrongSessionIdLength { len: encode_utf8(request.session_id@).len() as usize },
            ),
        ),
        encode_utf8(request.session_id@).len() as usize == SESSION_ID_LEN && encode_utf8(request.lobby_host@).len()
            + 1 > LOBBY_HOST_NAME_SLOT_SIZE ==> r == Err::<DiskLaunchPlan, LaunchError>(
            LaunchError::LobbyHost(
                PePatchError::HostNameTooLong { len: encode_utf8(request.lobby_host@).len() as usize },
            ),
        ),
        encode_utf8(request.session_id@).len() as usize == SESSION_ID_LEN && encode_utf8(request.lobby_host@).len()
            + 1 <= LOBBY_HOST_NAME_SLOT_SIZE ==> (r matches Ok(plan) && {
            &&& plan.arguments.tick_count == tick
            &&& plan.arguments.encoded_argument@ == launch_argument(request.session_id@, tick)
            &&& plan.source_exe@ == spec_path_join(request.game_dir@, "ffxivgame.exe"@)
            &&& plan.patched_exe@ == spec_path_join(request.game_dir@, "ffxivgame.patched.exe"@)
            &&& plan.patches.patches@.len() == (if set == PatchSet::Linux { 3int } else { 2int })
            &&& is_patch(
                plan.patches.patches@[0],
                ENCRYPTION_TIME_PATCH_RVA,
                spec_encryption_time_patch_bytes(),
            )
            &&& is_patch(plan.patches.patches@[1], LOBBY_HOST_NAME_RVA, encode_utf8(request.lobby_host@).push(0u8))
            &&& set == PatchSet::Linux ==> is_patch(
                plan.patches.patches@[2],
                ASSERT_LOG_PATCH_RVA,
                spec_assert_log_patch_bytes(),
            )
        }),
{
    let sid = request.session_id.as_str();
    let host = request.lobby_host.as_str();
    proof {
        assert(sid.spec_bytes() == encode_utf8(request.session_id@));
        assert(host.spec_bytes() == encode_utf8(request.lobby_host@));
    }
    let arguments = match build_launch_arguments(sid, tick) {
        Ok(a) => a,
        Err(e) => {
            return Err(LaunchError::SessionId(e));
        },
    };
    let host_patch = match lobby_host_patch(host) {
        Ok(p) => p,
        Err(e) => {
            return Err(LaunchError::LobbyHost(e));
        },
    };
    let mut patches: Vec<PePatch> = Vec::new();
    patches.push(encryption_time_patch());
    patches.push(host_patch);
    if set == PatchSet::Linux {
        patches.push(assert_log_patch());
    }
    Ok(
        DiskLaunchPlan {
            arguments,
            source_exe: path_join(request.game_dir.as_str(), "ffxivgame.exe"),
            patched_exe: path_join(request.game_dir.as_str(), "ffxivgame.patched.exe"),
            patches: PatchSpec { patches },
        },
    )
}

/// A step of starting the game suspended and patching it in memory.
#[derive(Debug, Clone, Copy, PartialEq, Eq, Structural)]
pub enum SuspendedStep {
    /// Creating the process, suspended.
    Create,
    /// Writing the patches into its memory.
    Patch,
    /// Capping its CPU affinity.
    CapAffinity,
}

/// What to do after a step.
#[derive(Debug, Clone, Copy, PartialEq, Eq, Structural)]
pub enum SuspendedAction {
    /// Write the patches.
    Patch,
    /// Cap the CPU affinity.
    CapAffinity,
    /// Let the game run: resume its main thread.
    Resume,
    /// A step failed after the process exists: terminate it.
    Terminate,
    /// The process could not be created: nothing to undo.
    GiveUp,
}

/// The action after `step` ended, successfully or not.
pub open spec fn spec_suspended_next(step: SuspendedStep, ok: bool) -> SuspendedAction {
    match step {
        SuspendedStep::Create => if ok { SuspendedAction::Patch } else { SuspendedAction::GiveUp },
        SuspendedStep::Patch => if ok { SuspendedAction::CapAffinity } else { SuspendedAction::Terminate },
        SuspendedStep::CapAffinity => if ok { SuspendedAction::Resume } else { SuspendedAction::Terminate },
    }
}

/// Decides what follows `step`: each success leads to the next step and
/// the last one to resuming the game; a failure once the process exists
/// terminates it.
pub fn suspended_next(step: SuspendedStep, ok: bool) -> (r: SuspendedAction)
    ensures
        r == spec_suspended_next(step, ok),
{
    match step {
        SuspendedStep::Create => if ok {
            SuspendedAction::Patch
        } else {
            SuspendedAction::GiveUp
        },
        SuspendedStep::Patch => if ok {
            SuspendedAction::CapAffinity
        } else {
            SuspendedAction::Terminate
        },
        SuspendedStep::CapAffinity => if ok {
            SuspendedAction::Resume
        } else {
            SuspendedAction::Terminate
        },
    }
}

/// Where a launch ends when creating, patching and capping succeed as
/// `created`, `patched` and `capped` say, each step run only when the one
/// before asked for it.
pub open spec fn suspended_run_end(created: bool, patched: bool, capped: bool) -> SuspendedAction {
    let a1 = spec_suspended_next(SuspendedStep::Create, created);
    if a1 != SuspendedAction::Patch {
        a1
    } else {
        let a2 = spec_suspended_next(SuspendedStep::Patch, patched);
        if a2 != SuspendedAction::CapAffinity {
            a2
        } else {
            spec_suspended_next(SuspendedStep::CapAffinity, capped)
        }
    }
}

/// The game is resumed only once it was created, patched and capped; a
/// created process that is not resumed is terminated, never left
/// suspended.
pub proof fn lemma_resumed_only_when_patched(created: bool, patched: bool, capped: bool)
    ensures
        (suspended_run_end(created, patched, capped) == SuspendedAction::Resume) == (created && patched && capped),
        suspended_run_end(created, patched, capped) == SuspendedAction::Terminate <==> created && !(patched
            && capped),
        suspended_run_end(created, patched, capped) == SuspendedAction::GiveUp <==> !created,
{
}

} // verus!
