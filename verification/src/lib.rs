//! Verified core of a launcher for FINAL FANTASY XIV 1.23b private servers:
//! launch-argument encryption, executable patch planning, the ZIPATCH patch
//! format, server lists, connectivity verdicts and the launcher's decisions.

pub mod pe_patch;
pub mod zipatch;
pub mod text;
pub mod crypto;
pub mod servers;
pub mod connectivity;
pub mod login;
pub mod manifest;
pub mod process;
pub mod patch_apply;
pub mod downloader;
pub mod worker;
pub mod platform;
pub mod icon;
pub mod icon_files;
pub mod trace;
pub mod config;
pub mod ui;
pub mod launch;
