//! Decisions around the operating system: where files live, log lines, autostart, icons.
use vstd::prelude::*;

pub mod app_log;
pub mod autostart;
pub mod icons;
pub mod logos;
pub mod paths;
pub mod placing;

verus! {

/// Package name, also the name of the data folder.
pub const PKG_NAME: &'static str = "sdsc-utils";

pub const DISPLAY_NAME: &'static str = "SDSC Utils";

/// What the system said of the process's package identity: its status and the length of the
/// package name. Systems without packages give none.
#[derive(Debug, Clone, Copy, PartialEq, Eq, Structural)]
pub struct PackageReply {
    pub status: i32,
    pub name_len: u32,
}

/// Status of a packaged process asked without a buffer for its name.
pub const ERROR_INSUFFICIENT_BUFFER: i32 = 122;

/// Whether the process has an MSIX / Store package identity: only a packaged one has a name
/// that did not fit.
pub fn is_packaged(reply: Option<PackageReply>) -> (r: bool)
    ensures
        r == (reply matches Some(p) && p.status == ERROR_INSUFFICIENT_BUFFER && p.name_len > 0),
{
    match reply {
        Some(p) => p.status == ERROR_INSUFFICIENT_BUFFER && p.name_len > 0,
        None => false,
    }
}

/// Short cues of the start screen.
#[derive(Debug, Clone, Copy, PartialEq, Eq, Structural)]
pub enum UiSoundKind {
    Nav,
    Action,
    Hold,
}

} // verus!
