//! The stable ids of the macOS menu bar's items. The menu carries actions
//! only; settings live in the settings panel.

use vstd::prelude::*;

verus! {

pub const HOME_ID: &'static str = "prisme.home";
pub const SETTINGS_ID: &'static str = "prisme.settings";
pub const OPEN_ROM_ID: &'static str = "prisme.open-rom";
pub const SCREENSHOT_ID: &'static str = "prisme.screenshot";
pub const EXPORT_SPC_ID: &'static str = "prisme.export-spc";
pub const NEXT_SLOT_ID: &'static str = "prisme.next-slot";
pub const PAUSE_RESUME_ID: &'static str = "prisme.pause-resume";
pub const RESET_ID: &'static str = "prisme.reset";
pub const SAVE_STATE_ID: &'static str = "prisme.save-state";
pub const LOAD_STATE_ID: &'static str = "prisme.load-state";
pub const QUIT_ID: &'static str = "prisme.quit";
pub const FULLSCREEN_ID: &'static str = "prisme.fullscreen";

} // verus!
