//! What the launcher's windows decide: the main window's state, the game
//! and developer settings dialogs, and the patcher screen's status lines.

use vstd::prelude::*;

use crate::config::{DeveloperPreferences, LauncherPreferences, Preferences};
use crate::manifest::{patch_manifest, spec_patch_manifest};
use crate::process::{leaf_name, spec_leaf, spec_trim, trim};
use crate::servers::{seq_lt, ServerDefinition, ServerDefinitions};
use crate::worker::Phase;

verus! {

/// How a dialog stands after one frame.
#[derive(Debug, Clone, PartialEq, Eq)]
pub enum SettingsOutcome {
    /// Still showing.
    Open,
    /// OK pressed: the game location entered, `None` when left blank.
    Accepted(Option<String>),
    /// Cancel pressed or the window closed.
    Cancelled,
}

/// The game settings dialog.
#[derive(Debug, Clone)]
pub struct SettingsModal {
    /// The game location as typed.
    pub game_location_text: String,
    /// Whether the dialog is showing.
    pub open: bool,
}

/// The location an OK press accepts: the text trimmed, nothing when blank.
pub open spec fn accepted_location(text: Seq<char>) -> Option<Seq<char>> {
    if spec_trim(text).len() == 0 {
        None
    } else {
        Some(spec_trim(text))
    }
}

impl SettingsModal {
    /// The dialog showing `initial`, or an empty field.
    pub fn new(initial: Option<&String>) -> (r: Self)
        ensures
            r.open,
            match initial {
                Some(p) => r.game_location_text@ == p@,
                None => r.game_location_text@.len() == 0,
            },
    {
        let text = match initial {
            Some(p) => p.clone(),
            None => String::new(),
        };
        SettingsModal { game_location_text: text, open: true }
    }

    /// The outcome of pressing OK.
    pub fn accept(&self) -> (r: SettingsOutcome)
        ensures
            match accepted_location(self.game_location_text@) {
                Some(t) => r matches SettingsOutcome::Accepted(Some(p)) && p@ == t,
                None => r == SettingsOutcome::Accepted(None),
            },
    {
        let trimmed = trim(self.game_location_text.as_str());
        if trimmed.as_str().unicode_len() == 0 {
            SettingsOutcome::Accepted(None)
        } else {
            SettingsOutcome::Accepted(Some(trimmed))
        }
    }

    /// Ends a frame whose buttons gave `outcome`: closing the window
    /// cancels, and the dialog stays only while the outcome is `Open`.
    pub fn settle(&mut self, outcome: SettingsOutcome, window_open: bool) -> (r: SettingsOutcome)
        ensures
            !window_open ==> r == SettingsOutcome::Cancelled,
            window_open ==> r == outcome,
            final(self).open == (r == SettingsOutcome::Open),
            final(self).game_location_text == old(self).game_location_text,
    {
        let r = if !window_open {
            SettingsOutcome::Cancelled
        } else {
            outcome
        };
        self.open = match r {
            SettingsOutcome::Open => true,
            _ => false,
        };
        r
    }
}

/// How the developer dialog stands after one frame.
#[derive(Debug, Clone)]
pub enum DeveloperOutcome {
    Open,
    Accepted(DeveloperPreferences),
    Cancelled,
}

/// The developer settings dialog.
#[derive(Debug, Clone)]
pub struct DeveloperModal {
    /// The settings being edited.
    pub prefs: DeveloperPreferences,
    /// Whether the dialog is showing.
    pub open: bool,
}

impl DeveloperModal {
    /// The dialog editing a copy of `initial`.
    pub fn new(initial: &DeveloperPreferences) -> (r: Self)
        ensures
            r.open,
            r.prefs.enable_verbose_wine_debug == initial.enable_verbose_wine_debug,
    {
        DeveloperModal {
            prefs: DeveloperPreferences { enable_verbose_wine_debug: initial.enable_verbose_wine_debug },
            open: true,
        }
    }

    /// The outcome of pressing OK: the settings as edited.
    pub fn accept(&self) -> (r: DeveloperOutcome)
        ensures
            r matches DeveloperOutcome::Accepted(p) && p.enable_verbose_wine_debug
                == self.prefs.enable_verbose_wine_debug,
    {
        DeveloperOutcome::Accepted(
            DeveloperPreferences { enable_verbose_wine_debug: self.prefs.enable_verbose_wine_debug },
        )
    }

    /// Ends a frame whose buttons gave `outcome` (see `SettingsModal::settle`).
    pub fn settle(&mut self, outcome: DeveloperOutcome, window_open: bool) -> (r: DeveloperOutcome)
        ensures
            !window_open ==> r is Cancelled,
            window_open ==> r == outcome,
            final(self).open == (r is Open),
            final(self).prefs == old(self).prefs,
    {
        let r = if !window_open {
            DeveloperOutcome::Cancelled
        } else {
            outcome
        };
        self.open = match r {
            DeveloperOutcome::Open => true,
            _ => false,
        };
        r
    }
}

/// The colour class of the status message.
#[derive(Debug, Clone, Copy, PartialEq, Eq, Structural)]
pub enum MessageKind {
    Info,
    Error,
}

/// The main launcher window's state.
#[derive(Debug)]
pub struct LauncherApp {
    pub prefs: Preferences,
    pub prefs_path: String,
    pub servers: ServerDefinitions,
    pub selected_server_name: Option<String>,
    pub manual_server_address: String,
    pub detected_install: Option<String>,
    pub last_message: Option<(MessageKind, String)>,
}

/// `n` is the smallest name among the servers' names.
pub open spec fn first_name(servers: ServerDefinitions, n: Seq<char>) -> bool {
    &&& servers.as_map().contains_key(n)
    &&& forall|k: Seq<char>| #[trigger] servers.as_map().contains_key(k) && k != n ==> seq_lt(n, k)
}

/// The text of an optional string.
pub open spec fn opt_text(o: Option<String>) -> Option<Seq<char>> {
    match o {
        Some(s) => Some(s@),
        None => None,
    }
}

impl LauncherApp {
    /// The window for `prefs` (read from `prefs_path`), the known `servers`
    /// and an install found on this machine: the remembered server is
    /// selected, else the first by name.
    pub fn new(
        prefs: Preferences,
        prefs_path: String,
        servers: ServerDefinitions,
        detected_install: Option<String>,
    ) -> (r: Self)
        requires
            servers.wf(),
        ensures
            r.servers == servers,
            r.servers.wf(),
            r.detected_install == detected_install,
            r.last_message is None,
            r.manual_server_address@ == prefs.launcher.server_address@,
            prefs.launcher.server_name@.len() > 0 ==> opt_text(r.selected_server_name) == Some(
                prefs.launcher.server_name@,
            ),
            prefs.launcher.server_name@.len() == 0 ==> match r.selected_server_name {
                Some(n) => first_name(servers, n@),
                None => servers.as_map().dom().len() == 0,
            },
    {
        let selected_server_name = if prefs.launcher.server_name.as_str().unicode_len() > 0 {
            Some(prefs.launcher.server_name.clone())
        } else {
            let list = servers.iter();
            if list.len() > 0 {
                proof {
                    crate::servers::lemma_sorted_map(servers@);
                    let n = list@[0].name@;
                    assert(servers@[0] == list@[0]@);
                    assert forall|k: Seq<char>| #[trigger] servers.as_map().contains_key(k) && k != n implies seq_lt(
                        n,
                        k,
                    ) by {
                        let j = choose|j: int| 0 <= j < servers@.len() && #[trigger] servers@[j].name == k;
                        if j > 0 {
                            assert(seq_lt(servers@[0].name, servers@[j].name));
                        }
                    }
                }
                Some(list[0].name.clone())
            } else {
                None
            }
        };
        let manual_server_address = prefs.launcher.server_address.clone();
        LauncherApp {
            prefs,
            prefs_path,
            servers,
            selected_server_name,
            manual_server_address,
            detected_install,
            last_message: None,
        }
    }

    /// The game location to use: the one set in the preferences, else the
    /// one detected.
    pub fn resolved_game_location(&self) -> (r: Option<String>)
        ensures
            opt_text(r) == match self.prefs.launcher.game_location {
                Some(p) => Some(p@),
                None => opt_text(self.detected_install),
            },
    {
        match &self.prefs.launcher.game_location {
            Some(p) => Some(p.clone()),
            None => match &self.detected_install {
                Some(d) => Some(d.clone()),
                None => None,
            },
        }
    }

    /// Shows `message` as the status line.
    pub fn set_message(&mut self, kind: MessageKind, message: String)
        ensures
            *final(self) == (LauncherApp { last_message: Some((kind, message)), ..*old(self) }),
    {
        self.last_message = Some((kind, message));
    }

    /// The server selector's caption.
    pub fn server_label(&self) -> (r: String)
        ensures
            r@ == match self.selected_server_name {
                Some(n) => n@,
                None => "(none)"@,
            },
    {
        match &self.selected_server_name {
            Some(n) => n.clone(),
            None => String::from_str("(none)"),
        }
    }

    /// The caption of the game location row.
    pub fn game_location_label(&self) -> (r: String)
        ensures
            r@ == match self.prefs.launcher.game_location {
                Some(p) => p@,
                None => match self.detected_install {
                    Some(d) => d@,
                    None => "(not set)"@,
                },
            },
    {
        match self.resolved_game_location() {
            Some(p) => p,
            None => String::from_str("(not set)"),
        }
    }

    /// Remembers `folder`, picked in the folder dialog, as the game location.
    pub fn set_game_location(&mut self, folder: String)
        ensures
            *final(self) == (LauncherApp {
                prefs: Preferences {
                    launcher: LauncherPreferences { game_location: Some(folder), ..old(self).prefs.launcher },
                    ..old(self).prefs
                },
                ..*old(self)
            }),
    {
        self.prefs.launcher.game_location = Some(folder);
    }

    /// Copies the window's choices into the preferences before they are
    /// saved at exit.
    pub fn remember_choices(&mut self)
        ensures
            match old(self).selected_server_name {
                Some(n) => final(self).prefs.launcher.server_name@ == n@,
                None => final(self).prefs.launcher.server_name == old(self).prefs.launcher.server_name,
            },
            final(self).prefs.launcher.server_address@ == old(self).manual_server_address@,
            *final(self) == (LauncherApp {
                prefs: Preferences {
                    launcher: LauncherPreferences {
                        server_name: final(self).prefs.launcher.server_name,
                        server_address: final(self).prefs.launcher.server_address,
                        ..old(self).prefs.launcher
                    },
                    ..old(self).prefs
                },
                ..*old(self)
            }),
    {
        match &self.selected_server_name {
            Some(n) => {
                self.prefs.launcher.server_name = n.clone();
            },
            None => {},
        }
        self.prefs.launcher.server_address = self.manual_server_address.clone();
    }

    /// The status shown after pressing Launch.
    pub fn launch_pressed(&mut self)
        ensures
            final(self).last_message matches Some((k, m)) && k == MessageKind::Info && m@
                == "Login webview integration is not yet wired up."@,
            *final(self) == (LauncherApp { last_message: final(self).last_message, ..*old(self) }),
    {
        self.set_message(MessageKind::Info, String::from_str("Login webview integration is not yet wired up."));
    }

    /// The status shown after pressing Check for updates.
    pub fn check_updates_pressed(&mut self)
        ensures
            final(self).last_message matches Some((k, m)) && k == MessageKind::Info && m@
                == "Patcher UI is not yet wired up."@,
            *final(self) == (LauncherApp { last_message: final(self).last_message, ..*old(self) }),
    {
        self.set_message(MessageKind::Info, String::from_str("Patcher UI is not yet wired up."));
    }
}

/// The caption of one server in the selector: `<address> (<name>)`.
pub fn server_choice_label(server: &ServerDefinition) -> (r: String)
    ensures
        r@ == server.address@ + " ("@ + server.name@ + ")"@,
{
    let mut s = server.address.clone();
    s.append(" (");
    s.append(server.name.as_str());
    s.append(")");
    s
}

/// The patch bar's status line in `phase`, `idx` being the patch applied.
pub open spec fn spec_patch_status(phase: Phase, idx: int) -> Seq<char> {
    match phase {
        Phase::Starting | Phase::Downloading => "Patcher waiting for download to complete\u{2026}"@,
        Phase::Patching => if 0 <= idx < spec_patch_manifest().len() {
            "Applying "@ + spec_leaf(spec_patch_manifest()[idx].path@) + "\u{2026}"@
        } else {
            "Applying patch\u{2026}"@
        },
        Phase::Done => "Complete!"@,
        Phase::Error => "Patch interrupted by error."@,
        Phase::Cancelled => "Patch cancelled."@,
        Phase::Validating => "Patcher waiting for download to complete\u{2026}"@,
    }
}

/// The patch bar's status line.
pub fn patch_status(phase: Phase, idx: usize) -> (r: String)
    ensures
        r@ == spec_patch_status(phase, idx as int),
{
    match phase {
        Phase::Starting | Phase::Downloading | Phase::Validating => String::from_str(
            "Patcher waiting for download to complete\u{2026}",
        ),
        Phase::Patching => {
            let m = patch_manifest();
            if idx < m.len() {
                let mut s = String::from_str("Applying ");
                s.append(leaf_name(m[idx].path));
                s.append("\u{2026}");
                s
            } else {
                String::from_str("Applying patch\u{2026}")
            }
        },
        Phase::Done => String::from_str("Complete!"),
        Phase::Error => String::from_str("Patch interrupted by error."),
        Phase::Cancelled => String::from_str("Patch cancelled."),
    }
}

/// The download bar's status line in every phase but `Downloading`, whose
/// line carries sizes and a rate.
pub open spec fn spec_download_status(phase: Phase) -> Option<Seq<char>> {
    match phase {
        Phase::Starting => Some("Starting download\u{2026}"@),
        Phase::Downloading => None,
        Phase::Patching | Phase::Done => Some("Download complete."@),
        Phase::Error => Some("Download interrupted by error."@),
        Phase::Cancelled => Some("Download cancelled."@),
        Phase::Validating => Some("Starting download\u{2026}"@),
    }
}

/// The download bar's status line, when it is fixed text.
pub fn download_status(phase: Phase) -> (r: Option<String>)
    ensures
        opt_text(r) == spec_download_status(phase),
{
    match phase {
        Phase::Starting | Phase::Validating => Some(String::from_str("Starting download\u{2026}")),
        Phase::Downloading => None,
        Phase::Patching | Phase::Done => Some(String::from_str("Download complete.")),
        Phase::Error => Some(String::from_str("Download interrupted by error.")),
        Phase::Cancelled => Some(String::from_str("Download cancelled.")),
    }
}

/// What the patcher screen's button row shows.
#[derive(Debug, Clone, Copy, PartialEq, Eq, Structural)]
pub enum ButtonRow {
    /// A Close button: the patcher has stopped.
    Close,
    /// A note that cancellation is under way.
    Cancelling,
    /// A Cancel button.
    Cancel,
}

/// The button row for a patcher that has (`terminal`) or has not stopped,
/// with or without a cancellation pending.
pub fn button_row(terminal: bool, cancel_pending: bool) -> (r: ButtonRow)
    ensures
        terminal ==> r == ButtonRow::Close,
        !terminal && cancel_pending ==> r == ButtonRow::Cancelling,
        !terminal && !cancel_pending ==> r == ButtonRow::Cancel,
{
    if terminal {
        ButtonRow::Close
    } else if cancel_pending {
        ButtonRow::Cancelling
    } else {
        ButtonRow::Cancel
    }
}

} // verus!
