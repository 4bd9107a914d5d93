//! The settings window.
use super::{WindowSizeSpec, WindowSpec};
use vstd::prelude::*;

verus! {

pub const SETTINGS_WINDOW_LABEL: &'static str = "settings";

/// The settings window: a single fixed-minimum window of 900 by 600.
pub fn settings_window_spec() -> (r: WindowSpec)
    ensures
        r.label@ == SETTINGS_WINDOW_LABEL@,
        r.title@ == "CliRelay Desktop Settings"@,
        r.size == (WindowSizeSpec { width: 900, height: 600, min_width: 900, min_height: 600 }),
{
    WindowSpec {
        label: SETTINGS_WINDOW_LABEL,
        title: "CliRelay Desktop Settings",
        size: WindowSizeSpec { width: 900, height: 600, min_width: 900, min_height: 600 },
    }
}

} // verus!
