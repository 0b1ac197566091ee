//! Decisions of the tray application: which window, toast, poll or game comes next.
use vstd::prelude::*;

pub mod catalog_edit;
pub mod configure;
pub mod dev;
pub mod macro_answers;
pub mod macro_overlay;
pub mod macros;
pub mod pace;
pub mod pad_input;
pub mod pad_poll;
pub mod pads;
pub mod polling;
pub mod popup;
pub mod rows;
pub mod running;
pub mod sessions;
pub mod settings_answers;
pub mod shell;
pub mod shown_pads;
pub mod start;
pub mod start_answers;
pub mod start_input;
pub mod toast;
pub mod window_answers;
pub mod windows;

verus! {

} // verus!
