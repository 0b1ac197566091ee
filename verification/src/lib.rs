//! Battery, start-screen and macro logic of a DualSense tray utility.
use vstd::prelude::*;

pub mod analytics;
pub mod app;
pub mod controller;
pub mod crash_restart;
pub mod games;
pub mod gesture;
pub mod launch;
pub mod notify;
pub mod platform;
pub mod prefs;
pub mod process_match;
pub mod text;
pub mod text_map;
pub mod win_path;

verus! {

} // verus!
